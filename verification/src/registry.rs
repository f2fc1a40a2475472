//! The strategy registry: strategies are built by name from parameters, and a new one is
//! added by registering its builder.

use crate::decimal::Decimal;
use crate::error::{DomainError, Failure};
use crate::infinite_buying::{InfiniteBuying, InfiniteBuyingConfig};
use crate::lookup::{distinct, first_at, lemma_first_at, lemma_is_absent, lemma_is_first};
use crate::text::{
    before, comes_before, join2, lemma_before_total, lemma_before_transitive, same,
};
use vstd::prelude::*;

verus! {

/// Parameters for a strategy; what is left out takes its default.
#[derive(Clone, Copy, Debug)]
pub struct StrategyParams {
    pub splits: Option<u32>,
    pub take_profit_pct: Option<Decimal>,
    pub half_boundary: Option<Decimal>,
    pub var_base: Option<Decimal>,
    pub var_slope: Option<Decimal>,
    pub sell_quarter: Option<Decimal>,
    pub quarter_stop: Option<bool>,
}

/// A value, or the default where it was left out.
pub open spec fn or_default<T>(given: Option<T>, default: T) -> T {
    match given {
        Some(v) => v,
        None => default,
    }
}

/// A configuration with what was given in place of the defaults.
pub open spec fn overridden(
    params: StrategyParams,
    defaults: InfiniteBuyingConfig,
) -> InfiniteBuyingConfig {
    InfiniteBuyingConfig {
        splits: or_default(params.splits, defaults.splits),
        take_profit_pct: or_default(params.take_profit_pct, defaults.take_profit_pct),
        half_boundary: or_default(params.half_boundary, defaults.half_boundary),
        var_base: or_default(params.var_base, defaults.var_base),
        var_slope: or_default(params.var_slope, defaults.var_slope),
        sell_quarter: or_default(params.sell_quarter, defaults.sell_quarter),
        quarter_stop: or_default(params.quarter_stop, defaults.quarter_stop),
    }
}

/// Whether a configuration is the default one.
pub open spec fn is_default(config: InfiniteBuyingConfig) -> bool {
    &&& config.splits == 40
    &&& config.take_profit_pct@ == crate::decimal::dec_of(15)
    &&& config.half_boundary@ == crate::decimal::dec_of(20)
    &&& config.var_base@ == crate::decimal::dec_of(15)
    &&& config.var_slope@ == (15i128, 1u32)
    &&& config.sell_quarter@ == (25i128, 2u32)
    &&& config.quarter_stop
}

/// Whether a configuration comes from parameters: without any it is the default one.
pub open spec fn is_built_from(
    config: InfiniteBuyingConfig,
    params: Option<StrategyParams>,
) -> bool {
    exists|defaults: InfiniteBuyingConfig| #[trigger]
        is_default(defaults) && config == match params {
            Some(p) => overridden(p, defaults),
            None => defaults,
        }
}

/// Build the infinite-buying strategy from parameters.
pub fn build_infinite_buying(params: Option<StrategyParams>) -> (r: InfiniteBuying)
    ensures
        is_built_from(r@, params),
{
    let defaults = InfiniteBuyingConfig::default();
    assert(is_default(defaults));
    let config = match params {
        None => defaults,
        Some(p) => InfiniteBuyingConfig {
            splits: match p.splits {
                Some(v) => v,
                None => defaults.splits,
            },
            take_profit_pct: match p.take_profit_pct {
                Some(v) => v,
                None => defaults.take_profit_pct,
            },
            half_boundary: match p.half_boundary {
                Some(v) => v,
                None => defaults.half_boundary,
            },
            var_base: match p.var_base {
                Some(v) => v,
                None => defaults.var_base,
            },
            var_slope: match p.var_slope {
                Some(v) => v,
                None => defaults.var_slope,
            },
            sell_quarter: match p.sell_quarter {
                Some(v) => v,
                None => defaults.sell_quarter,
            },
            quarter_stop: match p.quarter_stop {
                Some(v) => v,
                None => defaults.quarter_stop,
            },
        },
    };
    InfiniteBuying::new(config)
}

/// The builders of the built-in strategies.
#[derive(Clone, Copy, Debug, PartialEq, Eq, Structural)]
pub enum Builtin {
    InfiniteBuying,
}

/// Maps strategy names to their builders, in the order of the names.
#[derive(Debug)]
pub struct StrategyRegistry<B> {
    entries: Vec<(&'static str, B)>,
}

/// The names of a list of builders.
pub open spec fn names_of<B>(entries: Seq<(&'static str, B)>) -> Seq<Seq<char>> {
    Seq::new(entries.len(), |i: int| entries[i].0@)
}

/// Whether names stand in order, each once.
pub open spec fn in_order(names: Seq<Seq<char>>) -> bool {
    forall|i: int, j: int|
        #![trigger names[i], names[j]]
        0 <= i < j < names.len() ==> before(names[i], names[j])
}

impl<B> Default for StrategyRegistry<B> {
    fn default() -> (r: StrategyRegistry<B>)
        ensures
            r.registered() == Seq::<(&'static str, B)>::empty(),
    {
        StrategyRegistry::new()
    }
}

impl<B> StrategyRegistry<B> {
    #[verifier::type_invariant]
    spec fn inv(self) -> bool {
        in_order(names_of(self.entries@))
    }

    /// The builders by name.
    pub closed spec fn registered(self) -> Seq<(&'static str, B)> {
        self.entries@
    }

    /// The builder of a name.
    pub open spec fn builder(self, name: Seq<char>) -> Option<B> {
        match first_at(names_of(self.registered()), name) {
            Some(i) => Some(self.registered()[i].1),
            None => None,
        }
    }

    /// A registry without builders.
    pub fn new() -> (r: StrategyRegistry<B>)
        ensures
            r.registered() == Seq::<(&'static str, B)>::empty(),
    {
        StrategyRegistry { entries: Vec::new() }
    }

    /// Register a builder, replacing any of the same name.
    pub fn register(&mut self, name: &'static str, builder: B)
        ensures
            final(self).builder(name@) == Some(builder),
            forall|other: Seq<char>|
                other != name@ ==> #[trigger] final(self).builder(other) == old(self).builder(
                    other,
                ),
    {
        proof {
            use_type_invariant(&*self);
        }
        let ghost old_entries = self.entries@;
        let ghost old_names = names_of(old_entries);
        let mut entries: Vec<(&'static str, B)> = Vec::new();
        std::mem::swap(&mut entries, &mut self.entries);
        let mut i: usize = 0;
        while i < entries.len() && comes_before(entries[i].0, name)
            invariant
                i <= entries.len(),
                entries@ == old_entries,
                old_names == names_of(old_entries),
                forall|j: int| 0 <= j < i ==> before(#[trigger] old_names[j], name@),
            decreases entries.len() - i,
        {
            assert(old_names[i as int] == entries[i as int].0@);
            i += 1;
        }
        if i < entries.len() && same(entries[i].0, name) {
            entries.set(i, (name, builder));
            proof {
                let names = names_of(entries@);
                assert(old_names[i as int] == old_entries[i as int].0@);
                assert(names =~= old_names);
                lemma_order_is_distinct(old_names);
                assert(names[i as int] == name@);
                lemma_is_first(names, name@, i as int);
                assert forall|other: Seq<char>| other != name@ implies #[trigger] first_at(
                    names,
                    other,
                ) != Some(i as int) by {
                    lemma_first_at(names, other);
                }
            }
            self.entries = entries;
            assert forall|other: Seq<char>| other != name@ implies #[trigger] self.builder(other)
                == old(self).builder(other) by {
                lemma_first_at(names_of(self.registered()), other);
            }
        } else {
            entries.insert(i, (name, builder));
            proof {
                let names = names_of(entries@);
                assert(names =~= old_names.insert(i as int, name@));
                if i < old_entries.len() {
                    assert(old_names[i as int] == old_entries[i as int].0@);
                    lemma_before_total(old_names[i as int], name@);
                }
                lemma_insert_in_order(old_names, i as int, name@);
                lemma_order_is_distinct(names);
                assert(names[i as int] == name@);
                lemma_is_first(names, name@, i as int);
            }
            self.entries = entries;
            assert forall|other: Seq<char>| other != name@ implies #[trigger] self.builder(other)
                == old(self).builder(other) by {
                let names = names_of(self.registered());
                lemma_first_at(old_names, other);
                match first_at(old_names, other) {
                    Some(k) => {
                        let at = if k < i {
                            k
                        } else {
                            k + 1
                        };
                        assert(names[at] == other);
                        lemma_order_is_distinct(names);
                        lemma_is_first(names, other, at);
                    },
                    None => {
                        assert forall|j: int| 0 <= j < names.len() implies #[trigger] names[j]
                            != other by {
                            if j < i {
                                assert(names[j] == old_names[j]);
                            } else if j > i {
                                assert(names[j] == old_names[j - 1]);
                            }
                        }
                        lemma_is_absent(names, other);
                    },
                }
            }
        }
    }

    /// Sorted list of known strategy names.
    pub fn names(&self) -> (r: Vec<&'static str>)
        ensures
            r@.len() == self.registered().len(),
            forall|i: int| 0 <= i < r@.len() ==> (#[trigger] r@[i])@ == self.registered()[i].0@,
            in_order(names_of(self.registered())),
    {
        proof {
            use_type_invariant(self);
        }
        let mut names: Vec<&'static str> = Vec::new();
        let mut i: usize = 0;
        while i < self.entries.len()
            invariant
                i <= self.entries.len(),
                names@.len() == i,
                forall|j: int| 0 <= j < i ==> (#[trigger] names@[j])@ == self.entries[j].0@,
            decreases self.entries.len() - i,
        {
            names.push(self.entries[i].0);
            i += 1;
        }
        names
    }

    /// The builder of a name.
    pub fn find(&self, name: &str) -> (r: Result<&B, DomainError>)
        ensures
            match r {
                Ok(b) => self.builder(name@) == Some(*b),
                Err(e) => self.builder(name@) is None && e@ == Failure::Strategy(
                    "unknown strategy: "@ + name@,
                ),
            },
    {
        let ghost names = names_of(self.entries@);
        let mut i: usize = 0;
        while i < self.entries.len()
            invariant
                i <= self.entries.len(),
                names == names_of(self.entries@),
                forall|j: int| 0 <= j < i ==> #[trigger] names[j] != name@,
            decreases self.entries.len() - i,
        {
            assert(names[i as int] == self.entries[i as int].0@);
            if same(self.entries[i].0, name) {
                proof {
                    lemma_is_first(names, name@, i as int);
                }
                return Ok(&self.entries[i].1);
            }
            i += 1;
        }
        proof {
            lemma_is_absent(names, name@);
        }
        Err(DomainError::Strategy(join2("unknown strategy: ", name)))
    }
}

impl StrategyRegistry<Builtin> {
    /// A registry with the built-in strategies.
    pub fn with_builtins() -> (r: StrategyRegistry<Builtin>)
        ensures
            r.builder("infinite-buying"@) == Some(Builtin::InfiniteBuying),
            forall|other: Seq<char>|
                other != "infinite-buying"@ ==> #[trigger] r.builder(other) is None,
    {
        let mut registry: StrategyRegistry<Builtin> = StrategyRegistry::new();
        assert forall|name: Seq<char>| #[trigger] registry.builder(name) is None by {
            lemma_is_absent(names_of(registry.registered()), name);
        }
        registry.register("infinite-buying", Builtin::InfiniteBuying);
        registry
    }

    /// Build a strategy by name. Without parameters it takes its defaults.
    pub fn build(&self, name: &str, params: Option<StrategyParams>) -> (r: Result<
        InfiniteBuying,
        DomainError,
    >)
        ensures
            match r {
                Ok(strategy) => self.builder(name@) is Some && is_built_from(strategy@, params),
                Err(e) => self.builder(name@) is None && e@ == Failure::Strategy(
                    "unknown strategy: "@ + name@,
                ),
            },
    {
        match self.find(name) {
            Ok(Builtin::InfiniteBuying) => Ok(build_infinite_buying(params)),
            Err(e) => Err(e),
        }
    }
}

/// Names in order are distinct.
pub proof fn lemma_order_is_distinct(names: Seq<Seq<char>>)
    requires
        in_order(names),
    ensures
        distinct(names),
{
    assert forall|i: int, j: int| 0 <= i < j < names.len() implies names[i] != names[j] by {
        lemma_before_total(names[i], names[j]);
    }
}

/// A name put where it belongs keeps the order.
pub proof fn lemma_insert_in_order(names: Seq<Seq<char>>, i: int, name: Seq<char>)
    requires
        in_order(names),
        0 <= i <= names.len(),
        forall|j: int| 0 <= j < i ==> before(#[trigger] names[j], name),
        i < names.len() ==> before(name, names[i]),
    ensures
        in_order(names.insert(i, name)),
{
    let new = names.insert(i, name);
    assert forall|a: int, b: int|
        #![trigger new[a], new[b]]
        0 <= a < b < new.len() implies before(new[a], new[b]) by {
        if a == i && b > i + 1 {
            lemma_before_transitive(name, names[i], names[b - 1]);
        }
    }
}

/// A strategy takes each parameter as given, and each one that was left out by default: forty
/// splits, a take-profit of 15 percent, the half at 20 tranches, a buy limit that starts at 15
/// percent and falls by 1.5 a tranche, a quarter to sell, and the stop on.
pub proof fn law_parameters_left_out_take_their_defaults(
    config: InfiniteBuyingConfig,
    params: Option<StrategyParams>,
)
    requires
        is_built_from(config, params),
    ensures
        params is None || params->0.splits is None ==> config.splits == 40,
        params is None || params->0.take_profit_pct is None ==> config.take_profit_pct@ == (
            15i128,
            0u32,
        ),
        params is None || params->0.half_boundary is None ==> config.half_boundary@ == (
            20i128,
            0u32,
        ),
        params is None || params->0.var_base is None ==> config.var_base@ == (15i128, 0u32),
        params is None || params->0.var_slope is None ==> config.var_slope@ == (15i128, 1u32),
        params is None || params->0.sell_quarter is None ==> config.sell_quarter@ == (25i128, 2u32),
        params is None || params->0.quarter_stop is None ==> config.quarter_stop,
        params matches Some(p) ==> (p.splits is Some ==> config.splits == p.splits->0),
        params matches Some(p) ==> (p.take_profit_pct is Some ==> config.take_profit_pct
            == p.take_profit_pct->0),
        params matches Some(p) ==> (p.half_boundary is Some ==> config.half_boundary
            == p.half_boundary->0),
        params matches Some(p) ==> (p.var_base is Some ==> config.var_base == p.var_base->0),
        params matches Some(p) ==> (p.var_slope is Some ==> config.var_slope == p.var_slope->0),
        params matches Some(p) ==> (p.sell_quarter is Some ==> config.sell_quarter
            == p.sell_quarter->0),
        params matches Some(p) ==> (p.quarter_stop is Some ==> config.quarter_stop
            == p.quarter_stop->0),
{
}

} // verus!
