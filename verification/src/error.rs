//! The domain-level error type.

use crate::text::join2;
use vstd::prelude::*;

verus! {

/// What went wrong, and a text that says more.
#[derive(Debug)]
pub enum DomainError {
    MarketData(String),
    Strategy(String),
    Broker(String),
    Unsupported(String),
    Storage(String),
    Secret(String),
    Config(String),
    Risk(String),
}

/// The model of a [`DomainError`].
pub enum Failure {
    MarketData(Seq<char>),
    Strategy(Seq<char>),
    Broker(Seq<char>),
    Unsupported(Seq<char>),
    Storage(Seq<char>),
    Secret(Seq<char>),
    Config(Seq<char>),
    Risk(Seq<char>),
}

impl View for DomainError {
    type V = Failure;

    open spec fn view(&self) -> Failure {
        match self {
            DomainError::MarketData(s) => Failure::MarketData(s@),
            DomainError::Strategy(s) => Failure::Strategy(s@),
            DomainError::Broker(s) => Failure::Broker(s@),
            DomainError::Unsupported(s) => Failure::Unsupported(s@),
            DomainError::Storage(s) => Failure::Storage(s@),
            DomainError::Secret(s) => Failure::Secret(s@),
            DomainError::Config(s) => Failure::Config(s@),
            DomainError::Risk(s) => Failure::Risk(s@),
        }
    }
}

/// The sentence that an error is reported with.
pub open spec fn failure_text(f: Failure) -> Seq<char> {
    match f {
        Failure::MarketData(s) => "market data unavailable: "@ + s,
        Failure::Strategy(s) => "strategy error: "@ + s,
        Failure::Broker(s) => "broker error: "@ + s,
        Failure::Unsupported(s) => "capability not supported by this broker: "@ + s,
        Failure::Storage(s) => "storage error: "@ + s,
        Failure::Secret(s) => "secret store error: "@ + s,
        Failure::Config(s) => "configuration error: "@ + s,
        Failure::Risk(s) => "risk check failed: "@ + s,
    }
}

impl DomainError {
    /// The sentence that this error is reported with.
    pub fn to_text(&self) -> (r: String)
        ensures
            r@ == failure_text(self@),
    {
        match self {
            DomainError::MarketData(s) => join2("market data unavailable: ", s.as_str()),
            DomainError::Strategy(s) => join2("strategy error: ", s.as_str()),
            DomainError::Broker(s) => join2("broker error: ", s.as_str()),
            DomainError::Unsupported(s) => join2(
                "capability not supported by this broker: ",
                s.as_str(),
            ),
            DomainError::Storage(s) => join2("storage error: ", s.as_str()),
            DomainError::Secret(s) => join2("secret store error: ", s.as_str()),
            DomainError::Config(s) => join2("configuration error: ", s.as_str()),
            DomainError::Risk(s) => join2("risk check failed: ", s.as_str()),
        }
    }
}

/// Each kind of error is reported with its own opening and the text it carries.
pub proof fn law_errors_open_with_their_kind(s: Seq<char>)
    ensures
        failure_text(Failure::MarketData(s)) == "market data unavailable: "@ + s,
        failure_text(Failure::Strategy(s)) == "strategy error: "@ + s,
        failure_text(Failure::Broker(s)) == "broker error: "@ + s,
        failure_text(Failure::Unsupported(s)) == "capability not supported by this broker: "@ + s,
        failure_text(Failure::Storage(s)) == "storage error: "@ + s,
        failure_text(Failure::Secret(s)) == "secret store error: "@ + s,
        failure_text(Failure::Config(s)) == "configuration error: "@ + s,
        failure_text(Failure::Risk(s)) == "risk check failed: "@ + s,
{
}

/// The model of an error is of its kind, with its text.
pub proof fn law_the_model_of_an_error(s: String)
    ensures
        DomainError::MarketData(s)@ == Failure::MarketData(s@),
        DomainError::Strategy(s)@ == Failure::Strategy(s@),
        DomainError::Broker(s)@ == Failure::Broker(s@),
        DomainError::Unsupported(s)@ == Failure::Unsupported(s@),
        DomainError::Storage(s)@ == Failure::Storage(s@),
        DomainError::Secret(s)@ == Failure::Secret(s@),
        DomainError::Config(s)@ == Failure::Config(s@),
        DomainError::Risk(s)@ == Failure::Risk(s@),
{
}

} // verus!
