//! Broker connection factory: assembles a live broker from stored secrets.

use crate::error::{DomainError, Failure};
use crate::kis::KisBroker;
use crate::kis_domestic::KisDomesticBroker;
use crate::kis_session::{KisConfig, KisConfigView, KisEnv, KisExchange};
use crate::market::{credential_key, AccountId};
use crate::ports::{BrokerInfo, Capabilities};
use crate::secrets::{looked_up, SecretMap};
use crate::text::{is_digit, join3, join5, lowercase, same, to_lower};
use crate::toss::{TossBroker, TossConfig};
use vstd::prelude::*;

verus! {

/// A live broker.
#[derive(Debug)]
pub enum LiveBroker {
    Kis(KisBroker),
    KisDomestic(KisDomesticBroker),
    Toss(TossBroker),
}

impl LiveBroker {
    /// Whether the broker places orders.
    pub open spec fn can_place(self) -> bool {
        self !is Toss
    }

    /// Whether the broker places orders. Both KIS adapters do; Toss has no paper sandbox, so
    /// it stays read-only.
    pub fn places_orders(&self) -> (r: bool)
        ensures
            r == self.can_place(),
    {
        match self {
            LiveBroker::Kis(_) => true,
            LiveBroker::KisDomestic(_) => true,
            LiveBroker::Toss(_) => false,
        }
    }

    /// What the broker can do.
    pub fn capabilities(&self) -> (r: Capabilities)
        ensures
            r == match *self {
                LiveBroker::Kis(b) => b.abilities(),
                LiveBroker::KisDomestic(b) => b.abilities(),
                LiveBroker::Toss(b) => b.abilities(),
            },
            r.order_placement == self.can_place(),
    {
        match self {
            LiveBroker::Kis(b) => b.capabilities(),
            LiveBroker::KisDomestic(b) => b.capabilities(),
            LiveBroker::Toss(b) => b.capabilities(),
        }
    }
}

/// The exchange of a name, in any case.
pub open spec fn exchange_named(lower: Seq<char>) -> Option<KisExchange> {
    if lower == "nasdaq"@ || lower == "nas"@ {
        Some(KisExchange::Nasdaq)
    } else if lower == "nyse"@ || lower == "nys"@ {
        Some(KisExchange::Nyse)
    } else if lower == "amex"@ || lower == "ams"@ {
        Some(KisExchange::Amex)
    } else {
        None
    }
}

/// What an exchange name in lower case reads as.
pub open spec fn exchange_in(lower: Seq<char>) -> Result<KisExchange, Failure> {
    match exchange_named(lower) {
        Some(x) => Ok(x),
        None => Err(
            Failure::Config("unknown exchange '"@ + lower + "' (use nasdaq|nyse|amex)"@),
        ),
    }
}

/// The view of an outcome that is an exchange.
pub open spec fn exchange_result(r: Result<KisExchange, DomainError>) -> Result<
    KisExchange,
    Failure,
> {
    match r {
        Ok(x) => Ok(x),
        Err(e) => Err(e@),
    }
}

/// Read an exchange name in lower case.
pub fn exchange_of(lower: &str) -> (r: Result<KisExchange, DomainError>)
    ensures
        exchange_result(r) == exchange_in(lower@),
{
    if same(lower, "nasdaq") || same(lower, "nas") {
        Ok(KisExchange::Nasdaq)
    } else if same(lower, "nyse") || same(lower, "nys") {
        Ok(KisExchange::Nyse)
    } else if same(lower, "amex") || same(lower, "ams") {
        Ok(KisExchange::Amex)
    } else {
        Err(
            DomainError::Config(
                join3("unknown exchange '", lower, "' (use nasdaq|nyse|amex)"),
            ),
        )
    }
}

/// Parse an exchange name into a [`KisExchange`].
pub fn parse_exchange(raw: &str) -> (r: Result<KisExchange, DomainError>)
    ensures
        exchange_result(r) == exchange_in(lowercase(raw@)),
{
    exchange_of(to_lower(raw).as_str())
}

/// What a required secret of an account comes to.
pub open spec fn required(
    secrets: Map<Seq<char>, Seq<char>>,
    account: Seq<char>,
    field: Seq<char>,
) -> Result<Seq<char>, Failure> {
    let key = credential_key(account, field);
    match looked_up(secrets, key) {
        Some(v) => Ok(v),
        None => Err(
            Failure::Config("missing secret '"@ + key + "' — run `drip account add` first"@),
        ),
    }
}

/// Fetch a required secret of an account.
pub fn require(secrets: &SecretMap, account: &str, field: &str) -> (r: Result<String, DomainError>)
    ensures
        match r {
            Ok(v) => required(secrets@, account@, field@) == Ok::<Seq<char>, Failure>(v@),
            Err(e) => required(secrets@, account@, field@) == Err::<Seq<char>, Failure>(e@),
        },
{
    let key = AccountId::secret_key(account, field);
    match secrets.get(key.as_str()) {
        Some(v) => Ok(v.clone()),
        None => Err(
            DomainError::Config(
                join3("missing secret '", key.as_str(), "' — run `drip account add` first"),
            ),
        ),
    }
}

/// The environment of a word: `real` or `paper`.
pub open spec fn env_in(account: Seq<char>, env: Seq<char>) -> Result<KisEnv, Failure> {
    if env == "real"@ {
        Ok(KisEnv::Real)
    } else if env == "paper"@ {
        Ok(KisEnv::Paper)
    } else {
        Err(
            Failure::Config(
                "account '"@ + account + "' env must be real|paper, got '"@ + env + "'"@,
            ),
        )
    }
}

/// The KIS configuration of an account, or the first thing that is wrong with it.
pub open spec fn kis_config_in(
    secrets: Map<Seq<char>, Seq<char>>,
    account: Seq<char>,
    env: Seq<char>,
) -> Result<KisConfigView, Failure> {
    match env_in(account, env) {
        Err(e) => Err(e),
        Ok(environment) => match required(secrets, account, "app_key"@) {
            Err(e) => Err(e),
            Ok(app_key) => match required(secrets, account, "app_secret"@) {
                Err(e) => Err(e),
                Ok(app_secret) => match required(secrets, account, "cano"@) {
                    Err(e) => Err(e),
                    Ok(cano) => match required(secrets, account, "product_code"@) {
                        Err(e) => Err(e),
                        Ok(product_code) => match required(secrets, account, "exchange"@) {
                            Err(e) => Err(e),
                            Ok(raw) => match exchange_in(lowercase(raw)) {
                                Err(e) => Err(e),
                                Ok(exchange) => Ok(
                                    KisConfigView {
                                        environment,
                                        app_key,
                                        app_secret,
                                        cano,
                                        product_code,
                                        exchange,
                                    },
                                ),
                            },
                        },
                    },
                },
            },
        },
    }
}

/// Build a [`KisConfig`] from an account's secrets and its environment: shared by both KIS
/// adapters, which use the same credentials.
pub fn kis_config(secrets: &SecretMap, account: &str, env: &str) -> (r: Result<
    KisConfig,
    DomainError,
>)
    ensures
        match r {
            Ok(c) => kis_config_in(secrets@, account@, env@) == Ok::<KisConfigView, Failure>(c@),
            Err(e) => kis_config_in(secrets@, account@, env@) == Err::<KisConfigView, Failure>(e@),
        },
{
    let environment = if same(env, "real") {
        KisEnv::Real
    } else if same(env, "paper") {
        KisEnv::Paper
    } else {
        return Err(
            DomainError::Config(
                join5("account '", account, "' env must be real|paper, got '", env, "'"),
            ),
        );
    };
    let app_key = match require(secrets, account, "app_key") {
        Ok(v) => v,
        Err(e) => return Err(e),
    };
    let app_secret = match require(secrets, account, "app_secret") {
        Ok(v) => v,
        Err(e) => return Err(e),
    };
    let cano = match require(secrets, account, "cano") {
        Ok(v) => v,
        Err(e) => return Err(e),
    };
    let product_code = match require(secrets, account, "product_code") {
        Ok(v) => v,
        Err(e) => return Err(e),
    };
    let raw = match require(secrets, account, "exchange") {
        Ok(v) => v,
        Err(e) => return Err(e),
    };
    match parse_exchange(raw.as_str()) {
        Ok(exchange) => Ok(
            KisConfig { environment, app_key, app_secret, cano, product_code, exchange },
        ),
        Err(e) => Err(e),
    }
}

/// The number that a text of one or more ASCII digits stands for.
pub open spec fn digits_value(s: Seq<char>) -> Option<int>
    decreases s.len(),
{
    if s.len() == 0 || !is_digit(s.last()) {
        None
    } else if s.len() == 1 {
        Some(s.last() as int - 48)
    } else {
        match digits_value(s.drop_last()) {
            Some(front) => Some(10 * front + (s.last() as int - 48)),
            None => None,
        }
    }
}

/// The number that a text of digits with an optional sign in front stands for.
pub open spec fn integer_value(s: Seq<char>) -> Option<int> {
    if s.len() > 0 && s[0] == '-' {
        match digits_value(s.skip(1)) {
            Some(n) => Some(-n),
            None => None,
        }
    } else if s.len() > 0 && s[0] == '+' {
        digits_value(s.skip(1))
    } else {
        digits_value(s)
    }
}

/// What a text reads as: a whole number of 64 bits, or what is wrong with it.
pub open spec fn integer_parsed(text: Seq<char>) -> Result<i64, Seq<char>> {
    match integer_value(text) {
        Some(n) if i64::MIN <= n <= i64::MAX => Ok(n as i64),
        _ => Err(integer_error(text)),
    }
}

/// How it is said that a text is no whole number of 64 bits.
pub uninterp spec fn integer_error(text: Seq<char>) -> Seq<char>;

/// `i64::from_str`. Claimed: an optional sign and one or more digits are read as the number
/// they stand for where it fits, and nothing else is read; the wording of the error is a
/// function of the text. Not claimed: what the wording is.
#[verifier::external_body]
fn outside_parse_integer(text: &str) -> (r: Result<i64, String>)
    ensures
        match r {
            Ok(n) => integer_parsed(text@) == Ok::<i64, Seq<char>>(n),
            Err(e) => integer_parsed(text@) == Err::<i64, Seq<char>>(e@) && e@ == integer_error(
                text@,
            ),
        },
{
    match text.parse::<i64>() {
        Ok(n) => Ok(n),
        Err(e) => Err(e.to_string()),
    }
}

/// An account sequence that was parsed, or the error that says it is no integer.
pub open spec fn sequence_of(account: Seq<char>, parsed: Result<i64, Seq<char>>) -> Result<
    i64,
    Failure,
> {
    match parsed {
        Ok(n) => Ok(n),
        Err(e) => Err(Failure::Config(account + "_account_seq must be an integer: "@ + e)),
    }
}

/// The account sequence that was parsed, or the error that says it is no integer.
pub fn sequence_or_error(account: &str, parsed: Result<i64, String>) -> (r: Result<
    i64,
    DomainError,
>)
    ensures
        match r {
            Ok(n) => parsed == Ok::<i64, String>(n),
            Err(e) => parsed matches Err(text) && sequence_of(account@, Err(text@)) == Err::<
                i64,
                Failure,
            >(e@),
        },
{
    match parsed {
        Ok(n) => Ok(n),
        Err(e) => Err(
            DomainError::Config(
                join3(account, "_account_seq must be an integer: ", e.as_str()),
            ),
        ),
    }
}

/// The key, the secret and the account sequence of a Toss account, or the first thing that is
/// wrong with it.
pub open spec fn toss_config_in(secrets: Map<Seq<char>, Seq<char>>, account: Seq<char>) -> Result<
    (Seq<char>, Seq<char>, i64),
    Failure,
> {
    match required(secrets, account, "account_seq"@) {
        Err(e) => Err(e),
        Ok(raw) => match sequence_of(account, integer_parsed(raw)) {
            Err(e) => Err(e),
            Ok(account_seq) => match required(secrets, account, "app_key"@) {
                Err(e) => Err(e),
                Ok(app_key) => match required(secrets, account, "app_secret"@) {
                    Err(e) => Err(e),
                    Ok(app_secret) => Ok((app_key, app_secret, account_seq)),
                },
            },
        },
    }
}

/// Build a [`TossConfig`] from an account's secrets.
pub fn toss_config(secrets: &SecretMap, account: &str) -> (r: Result<TossConfig, DomainError>)
    ensures
        match r {
            Ok(c) => toss_config_in(secrets@, account@) == Ok::<
                (Seq<char>, Seq<char>, i64),
                Failure,
            >((c.app_key@, c.app_secret@, c.account_seq)),
            Err(e) => toss_config_in(secrets@, account@) == Err::<
                (Seq<char>, Seq<char>, i64),
                Failure,
            >(e@),
        },
{
    let raw = match require(secrets, account, "account_seq") {
        Ok(v) => v,
        Err(e) => return Err(e),
    };
    let account_seq: i64 = match sequence_or_error(account, outside_parse_integer(raw.as_str())) {
        Ok(n) => n,
        Err(e) => return Err(e),
    };
    let app_key = match require(secrets, account, "app_key") {
        Ok(v) => v,
        Err(e) => return Err(e),
    };
    match require(secrets, account, "app_secret") {
        Ok(app_secret) => Ok(TossConfig { app_key, app_secret, account_seq }),
        Err(e) => Err(e),
    }
}

/// Whether an outcome is the broker of a name for an account, or the error that is due.
pub open spec fn is_connection(
    r: Result<LiveBroker, DomainError>,
    broker: Seq<char>,
    account: Seq<char>,
    env: Seq<char>,
    secrets: Map<Seq<char>, Seq<char>>,
) -> bool {
    if broker == "kis"@ {
        match r {
            Ok(b) => b matches LiveBroker::Kis(k) && kis_config_in(secrets, account, env) == Ok::<
                KisConfigView,
                Failure,
            >(k@),
            Err(e) => kis_config_in(secrets, account, env) == Err::<KisConfigView, Failure>(e@),
        }
    } else if broker == "kis-domestic"@ {
        match r {
            Ok(b) => b matches LiveBroker::KisDomestic(k) && kis_config_in(secrets, account, env)
                == Ok::<KisConfigView, Failure>(k@),
            Err(e) => kis_config_in(secrets, account, env) == Err::<KisConfigView, Failure>(e@),
        }
    } else if broker == "toss"@ {
        match r {
            Ok(b) => b matches LiveBroker::Toss(t) && toss_config_in(secrets, account) == Ok::<
                (Seq<char>, Seq<char>, i64),
                Failure,
            >((t.configured().app_key@, t.configured().app_secret@, t.configured().account_seq)),
            Err(e) => toss_config_in(secrets, account) == Err::<
                (Seq<char>, Seq<char>, i64),
                Failure,
            >(e@),
        }
    } else {
        r matches Err(e) && e@ == Failure::Config(
            "broker '"@ + broker + "' has no live adapter (use kis|kis-domestic|toss)"@,
        )
    }
}

/// The error that connecting fails with, if it does.
pub open spec fn connection_error(
    broker: Seq<char>,
    account: Seq<char>,
    env: Seq<char>,
    secrets: Map<Seq<char>, Seq<char>>,
) -> Option<Failure> {
    if broker == "kis"@ || broker == "kis-domestic"@ {
        match kis_config_in(secrets, account, env) {
            Ok(_) => None,
            Err(e) => Some(e),
        }
    } else if broker == "toss"@ {
        match toss_config_in(secrets, account) {
            Ok(_) => None,
            Err(e) => Some(e),
        }
    } else {
        Some(
            Failure::Config(
                "broker '"@ + broker + "' has no live adapter (use kis|kis-domestic|toss)"@,
            ),
        )
    }
}

/// A connected broker places orders unless it is Toss.
pub proof fn lemma_who_places(
    b: LiveBroker,
    broker: Seq<char>,
    account: Seq<char>,
    env: Seq<char>,
    secrets: Map<Seq<char>, Seq<char>>,
)
    requires
        is_connection(Ok(b), broker, account, env, secrets),
    ensures
        b.can_place() <==> broker != "toss"@,
        connection_error(broker, account, env, secrets) is None,
{
    reveal_strlit("kis");
    reveal_strlit("kis-domestic");
    reveal_strlit("toss");
    assert("kis"@.len() == 3);
    assert("kis-domestic"@.len() == 12);
    assert("toss"@.len() == 4);
}

/// Build a live broker for an account from its secrets. The account is the namespace of the
/// credentials, the environment selects the KIS server, and the broker picks the adapter.
pub fn connect(broker: &str, account: &str, env: &str, secrets: &SecretMap) -> (r: Result<
    LiveBroker,
    DomainError,
>)
    ensures
        is_connection(r, broker@, account@, env@, secrets@),
{
    if same(broker, "kis") {
        match kis_config(secrets, account, env) {
            Ok(config) => Ok(LiveBroker::Kis(KisBroker::new(config))),
            Err(e) => Err(e),
        }
    } else if same(broker, "kis-domestic") {
        match kis_config(secrets, account, env) {
            Ok(config) => Ok(LiveBroker::KisDomestic(KisDomesticBroker::new(config))),
            Err(e) => Err(e),
        }
    } else if same(broker, "toss") {
        match toss_config(secrets, account) {
            Ok(config) => Ok(LiveBroker::Toss(TossBroker::new(config))),
            Err(e) => Err(e),
        }
    } else {
        Err(
            DomainError::Config(
                join3(
                    "broker '",
                    broker,
                    "' has no live adapter (use kis|kis-domestic|toss)",
                ),
            ),
        )
    }
}

/// Whether two secret maps agree on the credentials of an account.
pub open spec fn same_credentials(
    a: Map<Seq<char>, Seq<char>>,
    b: Map<Seq<char>, Seq<char>>,
    account: Seq<char>,
) -> bool {
    forall|field: Seq<char>|
        #![trigger credential_key(account, field)]
        looked_up(a, credential_key(account, field)) == looked_up(
            b,
            credential_key(account, field),
        )
}

/// A connection reads the credentials of its own account and nothing else: secrets of other
/// accounts change nothing.
pub proof fn law_connections_are_per_account(
    a: Map<Seq<char>, Seq<char>>,
    b: Map<Seq<char>, Seq<char>>,
    account: Seq<char>,
    env: Seq<char>,
)
    requires
        same_credentials(a, b, account),
    ensures
        kis_config_in(a, account, env) == kis_config_in(b, account, env),
        toss_config_in(a, account) == toss_config_in(b, account),
{
    assert forall|field: Seq<char>| #[trigger] required(a, account, field) == required(
        b,
        account,
        field,
    ) by {
        let _ = credential_key(account, field);
    }
}

/// Each exchange goes by its two names and by no other.
pub proof fn law_exchanges_go_by_two_names(lower: Seq<char>)
    ensures
        exchange_named(lower) == Some(KisExchange::Nasdaq) <==> lower == "nasdaq"@ || lower
            == "nas"@,
        exchange_named(lower) == Some(KisExchange::Nyse) <==> lower == "nyse"@ || lower == "nys"@,
        exchange_named(lower) == Some(KisExchange::Amex) <==> lower == "amex"@ || lower == "ams"@,
        exchange_in(lower) is Ok <==> exchange_named(lower) is Some,
        exchange_in(lower) is Ok ==> exchange_named(lower) == Some(exchange_in(lower)->Ok_0),
        exchange_in(lower) is Err ==> exchange_in(lower)->Err_0 is Config,
{
    reveal_strlit("nasdaq");
    reveal_strlit("nas");
    reveal_strlit("nyse");
    reveal_strlit("nys");
    reveal_strlit("amex");
    reveal_strlit("ams");
    assert("nasdaq"@[1] == 'a');
    assert("nas"@[1] == 'a');
    assert("nyse"@[1] == 'y');
    assert("nys"@[1] == 'y');
    assert("amex"@[1] == 'm');
    assert("ams"@[1] == 'm');
}

/// `real` is real trading, `paper` is paper trading, and any other word is refused.
pub proof fn law_environments_go_by_their_word(account: Seq<char>, env: Seq<char>)
    ensures
        env_in(account, env) == Ok::<KisEnv, Failure>(KisEnv::Real) <==> env == "real"@,
        env_in(account, env) == Ok::<KisEnv, Failure>(KisEnv::Paper) <==> env == "paper"@,
        env_in(account, env) is Err ==> env_in(account, env)->Err_0 is Config,
{
    reveal_strlit("real");
    reveal_strlit("paper");
    assert("real"@[0] == 'r');
    assert("paper"@[0] == 'p');
}

/// A credential is the secret under the account, an underscore and the field, and missing it
/// is an error.
pub proof fn law_credentials_are_kept_by_account(
    secrets: Map<Seq<char>, Seq<char>>,
    account: Seq<char>,
    field: Seq<char>,
)
    ensures
        required(secrets, account, field) is Ok <==> secrets.dom().contains(
            account + seq!['_'] + field,
        ),
        required(secrets, account, field) is Ok ==> required(secrets, account, field)->Ok_0
            == secrets[account + seq!['_'] + field],
        required(secrets, account, field) is Err ==> required(secrets, account, field)->Err_0
            is Config,
{
    reveal_strlit("_");
    assert("_"@ =~= seq!['_']);
}

/// A KIS account is configured exactly where its environment is known, its five credentials
/// are there and its exchange is known; each field of the configuration is then the credential
/// of that name.
pub proof fn law_kis_accounts_take_each_field_from_its_credential(
    secrets: Map<Seq<char>, Seq<char>>,
    account: Seq<char>,
    env: Seq<char>,
)
    ensures
        kis_config_in(secrets, account, env) matches Ok(c) ==> (c.environment == KisEnv::Real <==> env
            == "real"@) && (c.environment == KisEnv::Paper <==> env == "paper"@) && required(
            secrets,
            account,
            "app_key"@,
        ) == Ok::<Seq<char>, Failure>(c.app_key) && required(secrets, account, "app_secret"@)
            == Ok::<Seq<char>, Failure>(c.app_secret) && required(secrets, account, "cano"@)
            == Ok::<Seq<char>, Failure>(c.cano) && required(secrets, account, "product_code"@)
            == Ok::<Seq<char>, Failure>(c.product_code) && required(secrets, account, "exchange"@)
            is Ok && exchange_named(lowercase(required(secrets, account, "exchange"@)->Ok_0))
            == Some(c.exchange),
        kis_config_in(secrets, account, env) is Ok <==> (env == "real"@ || env == "paper"@)
            && required(secrets, account, "app_key"@) is Ok && required(
            secrets,
            account,
            "app_secret"@,
        ) is Ok && required(secrets, account, "cano"@) is Ok && required(
            secrets,
            account,
            "product_code"@,
        ) is Ok && required(secrets, account, "exchange"@) is Ok && exchange_named(
            lowercase(required(secrets, account, "exchange"@)->Ok_0),
        ) is Some,
        kis_config_in(secrets, account, env) is Err ==> kis_config_in(secrets, account, env)->Err_0
            is Config,
{
    law_environments_go_by_their_word(account, env);
    law_credentials_are_kept_by_account(secrets, account, "app_key"@);
    law_credentials_are_kept_by_account(secrets, account, "app_secret"@);
    law_credentials_are_kept_by_account(secrets, account, "cano"@);
    law_credentials_are_kept_by_account(secrets, account, "product_code"@);
    law_credentials_are_kept_by_account(secrets, account, "exchange"@);
}

/// A Toss account is configured exactly where its key and secret are there and its account
/// sequence is a whole number; each part is then the credential of that name.
pub proof fn law_toss_accounts_take_each_field_from_its_credential(
    secrets: Map<Seq<char>, Seq<char>>,
    account: Seq<char>,
)
    ensures
        toss_config_in(secrets, account) matches Ok((key, secret, sequence)) ==> required(
            secrets,
            account,
            "app_key"@,
        ) == Ok::<Seq<char>, Failure>(key) && required(secrets, account, "app_secret"@) == Ok::<
            Seq<char>,
            Failure,
        >(secret) && required(secrets, account, "account_seq"@) is Ok && integer_parsed(
            required(secrets, account, "account_seq"@)->Ok_0,
        ) == Ok::<i64, Seq<char>>(sequence),
        toss_config_in(secrets, account) is Ok <==> required(secrets, account, "app_key"@) is Ok
            && required(secrets, account, "app_secret"@) is Ok && required(
            secrets,
            account,
            "account_seq"@,
        ) is Ok && integer_parsed(required(secrets, account, "account_seq"@)->Ok_0) is Ok,
        toss_config_in(secrets, account) is Err ==> toss_config_in(secrets, account)->Err_0
            is Config,
{
}

/// `kis`, `kis-domestic` and `toss` each connect to their own adapter, set up for the account;
/// no other name connects to anything.
pub proof fn law_each_name_connects_to_its_adapter(
    b: LiveBroker,
    broker: Seq<char>,
    account: Seq<char>,
    env: Seq<char>,
    secrets: Map<Seq<char>, Seq<char>>,
)
    requires
        is_connection(Ok(b), broker, account, env, secrets),
    ensures
        broker == "kis"@ <==> b is Kis,
        broker == "kis-domestic"@ <==> b is KisDomestic,
        broker == "toss"@ <==> b is Toss,
        b matches LiveBroker::Kis(k) ==> kis_config_in(secrets, account, env) == Ok::<
            KisConfigView,
            Failure,
        >(k@),
        b matches LiveBroker::KisDomestic(k) ==> kis_config_in(secrets, account, env) == Ok::<
            KisConfigView,
            Failure,
        >(k@),
        b.can_place() <==> b !is Toss,
{
    reveal_strlit("kis");
    reveal_strlit("kis-domestic");
    reveal_strlit("toss");
    assert("kis"@.len() == 3);
    assert("kis-domestic"@.len() == 12);
    assert("toss"@.len() == 4);
}

/// A minus in front of digits negates what they stand for, and a plus leaves it.
pub proof fn law_signs_stand_in_front_of_digits(s: Seq<char>)
    requires
        digits_value(s) is Some,
    ensures
        integer_value(s) == digits_value(s),
        integer_value(seq!['-'] + s) == Some(-(digits_value(s)->0)),
        integer_value(seq!['+'] + s) == digits_value(s),
{
    assert((seq!['-'] + s).skip(1) =~= s);
    assert((seq!['+'] + s).skip(1) =~= s);
    lemma_value_is_digits(s);
}

proof fn lemma_value_is_digits(s: Seq<char>)
    requires
        digits_value(s) is Some,
    ensures
        s.len() > 0,
        is_digit(s[0]),
    decreases s.len(),
{
    if s.len() > 1 {
        lemma_value_is_digits(s.drop_last());
    }
}

} // verus!
