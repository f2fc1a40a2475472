//! One-time, idempotent migration of an installation to the account model.
//!
//! An older installation had a single global KIS environment with one flat set of secrets,
//! and its ledger and order journal were keyed by broker. The account model makes the
//! account the isolation namespace for credentials, configuration, and ledger.

use crate::config::{
    account_names, AccountConfig, AccountConfigView, AppConfig, ConfigView, PositionConfigView,
};
use crate::lookup::{first_at, lemma_first_at};
use crate::market::{credential_key, AccountId};
use crate::order::order_key;
use crate::position::{Position, PositionView};
use crate::registry::{in_order, lemma_insert_in_order};
use crate::secrets::{looked_up, SecretMap};
use crate::text::{
    before, comes_before, join2, join3, lemma_before_total, same, texts_of, trimmed,
};
use vstd::prelude::*;
use vstd::string::*;

verus! {

/// The account that a position from before accounts belongs to. Both KIS adapters share one
/// account per environment; other brokers have one account of their own name.
pub open spec fn account_of(broker: Seq<char>, env: Seq<char>) -> Seq<char> {
    if broker == "kis"@ || broker == "kis-domestic"@ {
        "kis-"@ + env
    } else {
        broker
    }
}

/// The account that a position from before accounts belongs to.
pub fn account_for(broker: &str, env: &str) -> (r: String)
    ensures
        r@ == account_of(broker@, env@),
{
    if same(broker, "kis") || same(broker, "kis-domestic") {
        join2("kis-", env)
    } else {
        broker.to_owned()
    }
}

/// Mapping to accounts twice is the same as once.
pub proof fn law_accounts_map_to_themselves(broker: Seq<char>, env: Seq<char>)
    ensures
        account_of(account_of(broker, env), env) == account_of(broker, env),
{
    reveal_strlit("kis");
    reveal_strlit("kis-");
    reveal_strlit("kis-domestic");
    let a = "kis-"@ + env;
    assert(a.len() == 4 + env.len());
    assert(a != "kis"@);
}

/// What a migration changed.
#[derive(Debug)]
pub struct MigrationReport {
    /// Accounts made from positions.
    pub accounts: Vec<String>,
    /// Where the ledger was backed up before it was rewritten, if it was.
    pub state_backup: Option<String>,
}

impl Default for MigrationReport {
    fn default() -> (r: MigrationReport)
        ensures
            r.accounts@.len() == 0,
            r.state_backup is None,
    {
        MigrationReport { accounts: Vec::new(), state_backup: None }
    }
}

impl MigrationReport {
    /// True when the migration changed something.
    pub fn did_anything(&self) -> (r: bool)
        ensures
            r == (self.accounts@.len() > 0 || self.state_backup is Some),
    {
        self.accounts.len() > 0 || self.state_backup.is_some()
    }
}

/// Whether the columns of the positions table are those from before accounts: one for the
/// broker, none for the account. A missing table has no columns.
pub open spec fn is_legacy(columns: Seq<Seq<char>>) -> bool {
    columns.contains("broker"@) && !columns.contains("account"@)
}

/// Whether the columns of the positions table are those from before accounts.
pub fn is_legacy_positions(columns: &[String]) -> (r: bool)
    ensures
        r == is_legacy(texts_of(columns@)),
{
    let ghost names = texts_of(columns@);
    let mut broker = false;
    let mut i: usize = 0;
    while i < columns.len()
        invariant
            i <= columns.len(),
            names == texts_of(columns@),
            broker == (exists|j: int| 0 <= j < i && #[trigger] names[j] == "broker"@),
            forall|j: int| 0 <= j < i ==> #[trigger] names[j] != "account"@,
        decreases columns.len() - i,
    {
        if same(columns[i].as_str(), "account") {
            assert(names[i as int] == "account"@);
            return false;
        }
        if same(columns[i].as_str(), "broker") {
            assert(names[i as int] == "broker"@);
            broker = true;
        }
        i += 1;
    }
    broker
}

/// A position from before accounts with its account.
pub open spec fn rehomed(p: PositionView, broker: Seq<char>, env: Seq<char>) -> PositionView {
    PositionView { account: trimmed(account_of(broker, env)), ..p }
}

/// Give a position from before accounts its account; everything else is kept.
pub fn assign_account(position: Position, broker: &str, env: &str) -> (r: Position)
    ensures
        r@ == (PositionView { account: trimmed(account_of(broker@, env@)), ..position@ }),
        r@ == rehomed(position@, broker@, env@),
{
    let mut position = position;
    position.account = AccountId::new(account_for(broker, env).as_str());
    position
}

/// The place of the first colon.
pub open spec fn colon_at(s: Seq<char>) -> Option<int>
    decreases s.len(),
{
    if s.len() == 0 {
        None
    } else {
        match colon_at(s.drop_last()) {
            Some(i) => Some(i),
            None => if s.last() == ':' {
                Some(s.len() - 1)
            } else {
                None
            },
        }
    }
}

proof fn lemma_colon_at(s: Seq<char>)
    ensures
        match colon_at(s) {
            Some(i) => 0 <= i < s.len() && s[i] == ':' && forall|j: int|
                0 <= j < i ==> #[trigger] s[j] != ':',
            None => forall|j: int| 0 <= j < s.len() ==> #[trigger] s[j] != ':',
        },
    decreases s.len(),
{
    if s.len() > 0 {
        let front = s.drop_last();
        lemma_colon_at(front);
        match colon_at(front) {
            Some(i) => {
                assert(front[i] == s[i]);
                assert forall|j: int| 0 <= j < i implies #[trigger] s[j] != ':' by {
                    assert(front[j] == s[j]);
                }
            },
            None => {
                assert forall|j: int| 0 <= j < front.len() implies #[trigger] s[j] != ':' by {
                    assert(front[j] == s[j]);
                }
            },
        }
    }
}

/// The order key with its broker replaced by the account, `None` where there is nothing to
/// replace.
pub open spec fn rekeyed(key: Seq<char>, env: Seq<char>) -> Option<Seq<char>> {
    match colon_at(key) {
        None => None,
        Some(i) => {
            let prefix = key.take(i);
            let account = account_of(prefix, env);
            if account == prefix {
                None
            } else {
                Some(account + ":"@ + key.skip(i + 1))
            }
        },
    }
}

/// Re-prefix an order key from broker to account. Without this, a rerun on the day of the
/// upgrade would compute a key that the journal does not hold, and place the order again.
pub fn rekey(key: &str, env: &str) -> (r: Option<String>)
    ensures
        match r {
            Some(k) => rekeyed(key@, env@) == Some(k@),
            None => rekeyed(key@, env@) is None,
        },
{
    let len: usize = key.unicode_len();
    let mut i: usize = 0;
    while i < len
        invariant
            i <= len,
            len == key@.len(),
            forall|j: int| 0 <= j < i ==> #[trigger] key@[j] != ':',
        decreases len - i,
    {
        if key.get_char(i) == ':' {
            proof {
                lemma_colon_at(key@);
                assert(colon_at(key@) == Some(i as int));
            }
            let prefix = key.substring_char(0, i);
            let rest = key.substring_char(i + 1, len);
            assert(prefix@ =~= key@.take(i as int));
            assert(rest@ =~= key@.skip(i + 1));
            let account = account_for(prefix, env);
            if same(account.as_str(), prefix) {
                return None;
            }
            return Some(join3(account.as_str(), ":", rest));
        }
        i += 1;
    }
    proof {
        lemma_colon_at(key@);
    }
    None
}

/// Whether the account of an environment reads as the broker `kis-domestic` at the front of a
/// key.
pub open spec fn reads_as_domestic(env: Seq<char>) -> bool {
    env.len() >= 9 && env.take(9) == "domestic:"@
}

/// A key that was re-prefixed is left alone by another run, unless the environment starts with
/// `domestic:`; by a run for another environment too, unless it is `domestic`.
pub proof fn law_rekeying_is_idempotent(key: Seq<char>, env: Seq<char>, later: Seq<char>)
    requires
        rekeyed(key, env) is Some,
        !reads_as_domestic(env),
        later == env || env != "domestic"@,
    ensures
        rekeyed(rekeyed(key, env)->0, later) is None,
{
    reveal_strlit("kis-");
    reveal_strlit("kis");
    reveal_strlit(":");
    reveal_strlit("kis-domestic");
    reveal_strlit("domestic");
    reveal_strlit("domestic:");
    lemma_colon_at(key);
    lemma_colon_at(env);
    let account = "kis-"@ + env;
    let new = rekeyed(key, env)->0;
    let rest = key.skip(colon_at(key)->0 + 1);
    assert(new == account + ":"@ + rest);
    let c = match colon_at(env) {
        Some(i) => i,
        None => env.len() as int,
    };
    let n = c + 4;
    assert(new[n] == ':') by {
        if c < env.len() {
            assert(new[n] == env[c]);
        }
    }
    assert forall|j: int| 0 <= j < n implies #[trigger] new[j] != ':' by {
        if j >= 4 {
            assert(new[j] == env[j - 4]);
        }
    }
    lemma_colon_at(new);
    assert(colon_at(new) == Some(n));
    let prefix = new.take(n);
    assert(prefix =~= "kis-"@ + env.take(c));
    assert(prefix != "kis"@);
    if prefix == "kis-domestic"@ {
        assert(env.take(c) =~= "domestic"@) by {
            assert forall|j: int| 0 <= j < c implies env[j] == "domestic"@[j] by {
                assert(prefix[j + 4] == env[j]);
            }
        }
        if c < env.len() {
            assert(env.take(9) =~= "domestic:"@) by {
                assert forall|j: int| 0 <= j < 8 implies env[j] == "domestic:"@[j] by {
                    assert(env.take(c)[j] == "domestic"@[j]);
                }
            }
        } else {
            assert(env.take(c) =~= env);
        }
    }
}

/// A position with its account filled in where it has none.
pub open spec fn assigned(p: PositionConfigView, env: Seq<char>) -> PositionConfigView {
    if p.account.len() == 0 {
        PositionConfigView { account: account_of(p.broker, env), ..p }
    } else {
        p
    }
}

/// Whether a position without an account needs an account of a name.
pub open spec fn is_needed(
    positions: Seq<PositionConfigView>,
    env: Seq<char>,
    name: Seq<char>,
) -> bool {
    exists|i: int|
        0 <= i < positions.len() && (#[trigger] positions[i]).account.len() == 0 && account_of(
            positions[i].broker,
            env,
        ) == name
}

/// The environment of an account that is made: the old global one for KIS accounts, which
/// alone have one, and paper for the others.
pub open spec fn made_env(name: Seq<char>, env: Seq<char>) -> Seq<char> {
    if name.len() >= 4 && name.take(4) == "kis-"@ {
        env
    } else {
        "paper"@
    }
}

/// The accounts of a list of names.
pub open spec fn made_accounts(names: Seq<Seq<char>>, env: Seq<char>) -> Seq<AccountConfigView> {
    Seq::new(
        names.len(),
        |i: int| AccountConfigView { name: names[i], env: made_env(names[i], env) },
    )
}

/// Whether a configuration is what another one is migrated to, and which accounts were made:
/// every position has an account, and every account that is needed is registered, the new
/// ones in the order of their names.
pub open spec fn is_migrated(
    old_config: ConfigView,
    env: Seq<char>,
    new_config: ConfigView,
    made: Seq<Seq<char>>,
) -> bool {
    &&& new_config.positions == Seq::new(
        old_config.positions.len(),
        |i: int| assigned(old_config.positions[i], env),
    )
    &&& in_order(made)
    &&& forall|name: Seq<char>| #[trigger]
        made.contains(name) <==> is_needed(old_config.positions, env, name) && old_config.account(
            name,
        ) is None
    &&& new_config.accounts == old_config.accounts + made_accounts(made, env)
}

/// Put a name where it belongs among names in order, unless it is there.
fn insert_name(names: &mut Vec<String>, name: &str)
    requires
        in_order(texts_of(old(names)@)),
    ensures
        in_order(texts_of(final(names)@)),
        forall|other: Seq<char>| #[trigger]
            texts_of(final(names)@).contains(other) <==> texts_of(old(names)@).contains(other)
                || other == name@,
{
    let ghost start = texts_of(names@);
    let mut i: usize = 0;
    while i < names.len() && comes_before(names[i].as_str(), name)
        invariant
            i <= names.len(),
            start == texts_of(names@),
            forall|j: int| 0 <= j < i ==> before(#[trigger] start[j], name@),
        decreases names.len() - i,
    {
        assert(start[i as int] == names[i as int]@);
        i += 1;
    }
    if i < names.len() && same(names[i].as_str(), name) {
        assert(start[i as int] == name@);
        return;
    }
    let ghost at = i as int;
    proof {
        if i < names.len() {
            assert(start[at] == names[at]@);
            lemma_before_total(start[at], name@);
        }
        lemma_insert_in_order(start, at, name@);
    }
    names.insert(i, name.to_owned());
    proof {
        let end = texts_of(names@);
        assert(end =~= start.insert(at, name@));
        assert forall|other: Seq<char>| #[trigger] end.contains(other) <==> start.contains(other)
            || other == name@ by {
            if end.contains(other) {
                let k = choose|k: int| 0 <= k < end.len() && end[k] == other;
                if k < at {
                    assert(start[k] == other);
                } else if k > at {
                    assert(start[k - 1] == other);
                }
            }
            if start.contains(other) {
                let k = choose|k: int| 0 <= k < start.len() && start[k] == other;
                if k < at {
                    assert(end[k] == other);
                } else {
                    assert(end[k + 1] == other);
                }
            }
            if other == name@ {
                assert(end[at] == other);
            }
        }
    }
}

/// The environment of an account that is made.
fn env_of_made(name: &str, env: &str) -> (r: String)
    ensures
        r@ == made_env(name@, env@),
{
    if name.unicode_len() >= 4 {
        let front = name.substring_char(0, 4);
        assert(front@ =~= name@.take(4));
        if same(front, "kis-") {
            return env.to_owned();
        }
    }
    "paper".to_owned()
}

/// Give every position without an account one, and register the accounts that are needed.
/// Returns the accounts that were made.
pub fn migrate_config(config: &mut AppConfig, env: &str) -> (r: Vec<String>)
    ensures
        is_migrated(old(config)@, env@, final(config)@, texts_of(r@)),
{
    let ghost start = config@;
    let ghost total = config.positions@.len();
    let mut needed: Vec<String> = Vec::new();
    let mut i: usize = 0;
    assert(texts_of(needed@) =~= Seq::<Seq<char>>::empty());
    while i < config.positions.len()
        invariant
            i <= config.positions.len(),
            start == old(config)@,
            start.positions.len() == total,
            config.positions@.len() == total,
            config.accounts@ == old(config).accounts@,
            forall|j: int|
                0 <= j < i ==> (#[trigger] config.positions@[j])@ == assigned(
                    start.positions[j],
                    env@,
                ),
            forall|j: int|
                i <= j < total ==> (#[trigger] config.positions@[j])@ == start.positions[j],
            in_order(texts_of(needed@)),
            forall|name: Seq<char>| #[trigger]
                texts_of(needed@).contains(name) <==> is_needed(
                    start.positions.take(i as int),
                    env@,
                    name,
                ),
        decreases config.positions.len() - i,
    {
        let ghost taken = start.positions.take(i as int);
        let ghost more = start.positions.take(i + 1);
        let ghost current = start.positions[i as int];
        assert(config.positions@[i as int]@ == current);
        proof {
            reveal_strlit("");
        }
        if config.positions[i].account.as_str().is_empty() {
            let name = account_for(config.positions[i].broker.as_str(), env);
            let ghost before_names = texts_of(needed@);
            insert_name(&mut needed, name.as_str());
            proof {
                assert forall|other: Seq<char>| #[trigger]
                    texts_of(needed@).contains(other) <==> is_needed(more, env@, other) by {
                    assert(before_names.contains(other) <==> is_needed(taken, env@, other));
                    lemma_needed_step(start.positions, env@, i as int, other);
                }
            }
            let mut p = config.positions[i].clone();
            p.account = name;
            config.positions.set(i, p);
        } else {
            proof {
                assert forall|other: Seq<char>| #[trigger]
                    texts_of(needed@).contains(other) <==> is_needed(more, env@, other) by {
                    lemma_needed_step(start.positions, env@, i as int, other);
                }
            }
        }
        i += 1;
    }
    assert(start.positions.take(i as int) =~= start.positions);
    let ghost names = texts_of(needed@);
    let ghost new_positions = config@.positions;
    assert(new_positions =~= Seq::new(
        start.positions.len(),
        |j: int| assigned(start.positions[j], env@),
    ));
    assert(config@.accounts =~= start.accounts);
    let mut made: Vec<String> = Vec::new();
    let mut k: usize = 0;
    assert(texts_of(made@) =~= Seq::<Seq<char>>::empty());
    assert(made_accounts(texts_of(made@), env@) =~= Seq::<AccountConfigView>::empty());
    assert(start.accounts =~= start.accounts + made_accounts(texts_of(made@), env@));
    while k < needed.len()
        invariant
            k <= needed.len(),
            names == texts_of(needed@),
            in_order(names),
            config@.positions == new_positions,
            config@.accounts == start.accounts + made_accounts(texts_of(made@), env@),
            in_order(texts_of(made@)),
            forall|name: Seq<char>| #[trigger]
                texts_of(made@).contains(name) <==> names.take(k as int).contains(name)
                    && start.account(name) is None,
        decreases needed.len() - k,
    {
        let ghost name = needed[k as int]@;
        let ghost made_before = texts_of(made@);
        assert(names[k as int] == name);
        proof {
            lemma_new_account(start, made_before, names, k as int, config@, env@);
        }
        if config.find_account(needed[k].as_str()).is_none() {
            let account_env = env_of_made(needed[k].as_str(), env);
            config.upsert_account(AccountConfig { name: needed[k].clone(), env: account_env });
            made.push(needed[k].clone());
            proof {
                let made_after = texts_of(made@);
                assert(made_after =~= made_before.push(name));
                assert(config@.accounts =~= start.accounts + made_accounts(made_after, env@));
                lemma_made_in_order(made_before, names, k as int);
                assert forall|other: Seq<char>| #[trigger] made_after.contains(other) <==> names.take(
                    k + 1,
                ).contains(other) && start.account(other) is None by {
                    lemma_contains_push(made_before, name, other);
                    assert(names.take(k + 1) =~= names.take(k as int).push(name));
                    lemma_contains_push(names.take(k as int), name, other);
                }
            }
        } else {
            proof {
                assert forall|other: Seq<char>| #[trigger]
                    made_before.contains(other) <==> names.take(k + 1).contains(other)
                        && start.account(other) is None by {
                    assert(names.take(k + 1) =~= names.take(k as int).push(name));
                    lemma_contains_push(names.take(k as int), name, other);
                }
            }
        }
        k += 1;
    }
    assert(names.take(k as int) =~= names);
    made
}

proof fn lemma_contains_push(s: Seq<Seq<char>>, last: Seq<char>, other: Seq<char>)
    ensures
        s.push(last).contains(other) <==> s.contains(other) || other == last,
{
    let t = s.push(last);
    if t.contains(other) {
        let k = choose|k: int| 0 <= k < t.len() && t[k] == other;
        if k < s.len() {
            assert(s[k] == other);
        }
    }
    if s.contains(other) {
        let k = choose|k: int| 0 <= k < s.len() && s[k] == other;
        assert(t[k] == other);
    }
    assert(t[s.len() as int] == last);
}

proof fn lemma_needed_step(
    positions: Seq<PositionConfigView>,
    env: Seq<char>,
    i: int,
    name: Seq<char>,
)
    requires
        0 <= i < positions.len(),
    ensures
        is_needed(positions.take(i + 1), env, name) <==> is_needed(positions.take(i), env, name)
            || (positions[i].account.len() == 0 && account_of(positions[i].broker, env) == name),
{
    let short = positions.take(i);
    let long = positions.take(i + 1);
    if is_needed(long, env, name) {
        let k = choose|k: int|
            0 <= k < long.len() && (#[trigger] long[k]).account.len() == 0 && account_of(
                long[k].broker,
                env,
            ) == name;
        if k < i {
            assert(short[k] == long[k]);
        }
    }
    if is_needed(short, env, name) {
        let k = choose|k: int|
            0 <= k < short.len() && (#[trigger] short[k]).account.len() == 0 && account_of(
                short[k].broker,
                env,
            ) == name;
        assert(long[k] == short[k]);
    }
    assert(long[i] == positions[i]);
}

/// A name further on in the order is registered only if it was before.
proof fn lemma_new_account(
    start: ConfigView,
    made: Seq<Seq<char>>,
    names: Seq<Seq<char>>,
    k: int,
    config: ConfigView,
    env: Seq<char>,
)
    requires
        0 <= k < names.len(),
        in_order(names),
        config.accounts == start.accounts + made_accounts(made, env),
        forall|name: Seq<char>| #[trigger]
            made.contains(name) <==> names.take(k).contains(name) && start.account(name) is None,
    ensures
        config.account(names[k]) is None <==> start.account(names[k]) is None,
        first_at(account_names(config.accounts), names[k]) is None <==> start.account(
            names[k],
        ) is None,
{
    let name = names[k];
    let old_keys = account_names(start.accounts);
    let keys = account_names(config.accounts);
    lemma_first_at(old_keys, name);
    lemma_first_at(keys, name);
    assert(keys =~= old_keys + made);
    match first_at(old_keys, name) {
        Some(i) => {
            assert(keys[i] == name);
        },
        None => {
            if let Some(i) = first_at(keys, name) {
                if i < old_keys.len() {
                    assert(old_keys[i] == name);
                } else {
                    assert(made[i - old_keys.len()] == name);
                    assert(made.contains(name));
                    let j = choose|j: int| 0 <= j < k && names.take(k)[j] == name;
                    assert(names[j] == name);
                    lemma_before_total(names[j], names[k]);
                }
            }
        },
    }
}

proof fn lemma_made_in_order(made: Seq<Seq<char>>, names: Seq<Seq<char>>, k: int)
    requires
        0 <= k < names.len(),
        in_order(names),
        in_order(made),
        forall|name: Seq<char>| #[trigger] made.contains(name) ==> names.take(k).contains(name),
    ensures
        in_order(made.push(names[k])),
{
    let new = made.push(names[k]);
    assert forall|a: int, b: int|
        #![trigger new[a], new[b]]
        0 <= a < b < new.len() implies before(new[a], new[b]) by {
        if b == made.len() {
            assert(made.contains(made[a]));
            let j = choose|j: int| 0 <= j < k && names.take(k)[j] == made[a];
            assert(before(names[j], names[k]));
        } else {
            assert(before(made[a], made[b]));
        }
    }
}

/// Migrating a migrated configuration changes nothing and makes no account; with another
/// environment too, as long as every position names a broker.
pub proof fn law_config_migration_is_idempotent(
    first: ConfigView,
    env: Seq<char>,
    second: ConfigView,
    made: Seq<Seq<char>>,
    later: Seq<char>,
    third: ConfigView,
    made_again: Seq<Seq<char>>,
)
    requires
        is_migrated(first, env, second, made),
        is_migrated(second, later, third, made_again),
        later == env || forall|i: int|
            0 <= i < first.positions.len() ==> (#[trigger] first.positions[i]).broker.len() > 0,
    ensures
        third == second,
        made_again.len() == 0,
{
    reveal_strlit("kis-");
    assert forall|i: int| 0 <= i < second.positions.len() implies third.positions[i]
        == second.positions[i] by {
        assert(second.positions[i] == assigned(first.positions[i], env));
    }
    assert(third.positions =~= second.positions);
    if made_again.len() > 0 {
        let name = made_again[0];
        assert(made_again.contains(name));
        let i = choose|i: int|
            0 <= i < second.positions.len() && (#[trigger] second.positions[i]).account.len() == 0
                && account_of(second.positions[i].broker, later) == name;
        let p = first.positions[i];
        assert(second.positions[i] == assigned(p, env));
        assert(p.account.len() == 0);
        assert(name =~= account_of(p.broker, env));
        assert(is_needed(first.positions, env, name));
        let keys = account_names(second.accounts);
        let old_keys = account_names(first.accounts);
        assert(keys =~= old_keys + made);
        lemma_first_at(keys, name);
        lemma_first_at(old_keys, name);
        if first.account(name) is None {
            assert(made.contains(name));
            let k = choose|k: int| 0 <= k < made.len() && made[k] == name;
            assert(keys[old_keys.len() + k] == name);
        } else {
            assert(keys[first_at(old_keys, name)->0] == name);
        }
    }
    assert(made_accounts(made_again, later) =~= Seq::<AccountConfigView>::empty());
    assert(third.accounts =~= second.accounts);
}

/// The flat key of a field.
pub open spec fn flat_key(field: Seq<char>) -> Seq<char> {
    "kis_"@ + field
}

/// Secrets with one field moved from its flat key to that of an account.
pub open spec fn moved_field(
    secrets: Map<Seq<char>, Seq<char>>,
    account: Seq<char>,
    field: Seq<char>,
) -> Map<Seq<char>, Seq<char>> {
    match looked_up(secrets, flat_key(field)) {
        Some(value) => secrets.insert(credential_key(account, field), value).remove(
            flat_key(field),
        ),
        None => secrets,
    }
}

/// Secrets with the flat KIS keys moved to the account of the environment.
pub open spec fn migrated_secrets(secrets: Map<Seq<char>, Seq<char>>, env: Seq<char>) -> Map<
    Seq<char>,
    Seq<char>,
> {
    let account = "kis-"@ + env;
    if secrets.dom().contains("kis_app_key"@) {
        let a = moved_field(secrets, account, "app_key"@);
        let b = moved_field(a, account, "app_secret"@);
        let c = moved_field(b, account, "cano"@);
        let d = moved_field(c, account, "product_code"@);
        let e = moved_field(d, account, "exchange"@);
        e.remove("kis_env"@)
    } else {
        secrets
    }
}

/// Move one field from its flat key to that of an account.
fn move_field(secrets: &mut SecretMap, account: &str, field: &str)
    ensures
        final(secrets)@ == moved_field(old(secrets)@, account@, field@),
{
    let old_key = join2("kis_", field);
    let found = match secrets.get(old_key.as_str()) {
        Some(value) => Some(value.clone()),
        None => None,
    };
    if let Some(value) = found {
        let key = AccountId::secret_key(account, field);
        secrets.set(key.as_str(), value.as_str());
        secrets.delete(old_key.as_str());
    }
}

/// Move the flat KIS secrets under the account of the environment, and drop the old keys. The
/// keys of Toss have the right shape already.
pub fn migrate_secrets(secrets: &mut SecretMap, env: &str)
    ensures
        final(secrets)@ == migrated_secrets(old(secrets)@, env@),
{
    if secrets.get("kis_app_key").is_none() {
        return;
    }
    let account = join2("kis-", env);
    move_field(secrets, account.as_str(), "app_key");
    move_field(secrets, account.as_str(), "app_secret");
    move_field(secrets, account.as_str(), "cano");
    move_field(secrets, account.as_str(), "product_code");
    move_field(secrets, account.as_str(), "exchange");
    secrets.delete("kis_env");
}

/// The environment that the account names are made from: what was stored, and paper where
/// nothing was.
pub open spec fn old_env(secrets: Map<Seq<char>, Seq<char>>) -> Seq<char> {
    match looked_up(secrets, "kis_env"@) {
        Some(env) => env,
        None => "paper"@,
    }
}

/// The environment that the account names are made from.
pub fn legacy_env(secrets: &SecretMap) -> (r: String)
    ensures
        r@ == old_env(secrets@),
{
    match secrets.get("kis_env") {
        Some(env) => env.clone(),
        None => "paper".to_owned(),
    }
}

proof fn lemma_flat_keys_differ(env: Seq<char>, field: Seq<char>, flat: Seq<char>)
    ensures
        credential_key("kis-"@ + env, field) != flat_key(flat),
{
    reveal_strlit("kis-");
    reveal_strlit("kis_");
    reveal_strlit("_");
    assert(credential_key("kis-"@ + env, field)[3] == '-');
    assert(flat_key(flat)[3] == '_');
}

/// Migrating secrets twice is the same as once, whatever the environment then is: the key that
/// says there is something to do is gone after the first time.
pub proof fn law_secret_migration_is_idempotent(
    secrets: Map<Seq<char>, Seq<char>>,
    env: Seq<char>,
    later: Seq<char>,
)
    ensures
        !migrated_secrets(secrets, env).dom().contains("kis_app_key"@),
        migrated_secrets(migrated_secrets(secrets, env), later) == migrated_secrets(secrets, env),
{
    reveal_strlit("kis_app_key");
    reveal_strlit("kis_");
    reveal_strlit("app_key");
    assert("kis_app_key"@ =~= flat_key("app_key"@));
    lemma_flat_keys_differ(env, "app_secret"@, "app_key"@);
    lemma_flat_keys_differ(env, "cano"@, "app_key"@);
    lemma_flat_keys_differ(env, "product_code"@, "app_key"@);
    lemma_flat_keys_differ(env, "exchange"@, "app_key"@);
}

/// What a migration works on: the configuration, the secrets, and the columns of the positions
/// table.
pub struct HomeView {
    pub config: ConfigView,
    pub secrets: Map<Seq<char>, Seq<char>>,
    pub columns: Seq<Seq<char>>,
}

/// Whether one state of an installation is what another one is migrated to, which accounts
/// were made, and whether the ledger and the order journal were rewritten. The environment is
/// the one found in the secrets, and the ledger is rewritten, with a column for the account,
/// only if it is from before accounts.
pub open spec fn is_migrated_home(
    before: HomeView,
    after: HomeView,
    made: Seq<Seq<char>>,
    rewritten: bool,
) -> bool {
    let env = old_env(before.secrets);
    &&& is_migrated(before.config, env, after.config, made)
    &&& after.secrets == migrated_secrets(before.secrets, env)
    &&& rewritten == is_legacy(before.columns)
    &&& if rewritten {
        after.columns.contains("account"@)
    } else {
        after.columns == before.columns
    }
}

/// What a migration comes to, before it is written down.
#[derive(Debug)]
pub struct Migration {
    /// The environment that the account names are made from.
    pub env: String,
    /// Accounts made from positions.
    pub accounts: Vec<String>,
    /// Whether the ledger and the order journal are to be rewritten.
    pub rewrite_ledger: bool,
    /// Whether the configuration has changed.
    pub config_changed: bool,
    /// Whether the secrets have changed.
    pub secrets_changed: bool,
}

/// Bring configuration and secrets to the account model, and say what else is to be done. The
/// environment is read before the secrets step deletes it.
pub fn migrate_home(config: &mut AppConfig, secrets: &mut SecretMap, columns: &[String]) -> (r:
    Migration)
    ensures
        r.env@ == old_env(old(secrets)@),
        r.rewrite_ledger == is_legacy(texts_of(columns@)),
        is_migrated(old(config)@, r.env@, final(config)@, texts_of(r.accounts@)),
        final(secrets)@ == migrated_secrets(old(secrets)@, r.env@),
        r.config_changed == exists|i: int|
            0 <= i < old(config)@.positions.len() && (#[trigger] old(
                config,
            )@.positions[i]).account.len() == 0,
        !r.config_changed ==> final(config)@ == old(config)@,
        r.secrets_changed == old(secrets)@.dom().contains("kis_app_key"@),
        !r.secrets_changed ==> final(secrets)@ == old(secrets)@,
        forall|rebuilt: Seq<Seq<char>>|
            (if r.rewrite_ledger {
                rebuilt.contains("account"@)
            } else {
                rebuilt == texts_of(columns@)
            }) ==> #[trigger] is_migrated_home(
                (HomeView {
                    config: old(config)@,
                    secrets: old(secrets)@,
                    columns: texts_of(columns@),
                }),
                (HomeView { config: final(config)@, secrets: final(secrets)@, columns: rebuilt }),
                texts_of(r.accounts@),
                r.rewrite_ledger,
            ),
{
    let ghost start = config@;
    let env = legacy_env(secrets);
    let rewrite_ledger = is_legacy_positions(columns);
    let config_changed = has_unassigned(config);
    let secrets_changed = secrets.get("kis_app_key").is_some();
    let accounts = migrate_config(config, env.as_str());
    proof {
        if !config_changed {
            let made = texts_of(accounts@);
            assert(config@.positions =~= start.positions);
            if made.len() > 0 {
                assert(made.contains(made[0]));
            }
            assert(made_accounts(made, env@) =~= Seq::<AccountConfigView>::empty());
            assert(config@.accounts =~= start.accounts);
        }
    }
    migrate_secrets(secrets, env.as_str());
    Migration { env, accounts, rewrite_ledger, config_changed, secrets_changed }
}

/// Whether a position has no account.
fn has_unassigned(config: &AppConfig) -> (r: bool)
    ensures
        r == exists|i: int|
            0 <= i < config@.positions.len() && (#[trigger] config@.positions[i]).account.len()
                == 0,
{
    let mut i: usize = 0;
    while i < config.positions.len()
        invariant
            i <= config.positions.len(),
            forall|j: int|
                0 <= j < i ==> (#[trigger] config@.positions[j]).account.len() > 0,
        decreases config.positions.len() - i,
    {
        assert(config@.positions[i as int].account == config.positions[i as int].account@);
        proof {
            reveal_strlit("");
        }
        if config.positions[i].account.as_str().is_empty() {
            return true;
        }
        i += 1;
    }
    false
}

/// A second migration does nothing, with the environment read afresh: no account is made, the
/// ledger and the journal are not rewritten, and configuration and secrets stay as the first
/// one left them. Every position has to name a broker.
pub proof fn law_a_second_migration_does_nothing(
    home: HomeView,
    once: HomeView,
    made: Seq<Seq<char>>,
    rewritten: bool,
    twice: HomeView,
    made_again: Seq<Seq<char>>,
    rewritten_again: bool,
)
    requires
        is_migrated_home(home, once, made, rewritten),
        is_migrated_home(once, twice, made_again, rewritten_again),
        forall|i: int|
            0 <= i < home.config.positions.len() ==> 0 < (
            #[trigger] home.config.positions[i]).broker.len(),
    ensures
        made_again.len() == 0,
        !rewritten_again,
        twice == once,
{
    let env = old_env(home.secrets);
    let later = old_env(once.secrets);
    law_config_migration_is_idempotent(
        home.config,
        env,
        once.config,
        made,
        later,
        twice.config,
        made_again,
    );
    law_secret_migration_is_idempotent(home.secrets, env, later);
}

/// Whether a field is one of the KIS credentials that had a flat key.
pub open spec fn is_kis_field(field: Seq<char>) -> bool {
    field == "app_key"@ || field == "app_secret"@ || field == "cano"@ || field == "product_code"@
        || field == "exchange"@
}

/// What one move does to the two keys of a field: its own move brings the secret over, and
/// another field's leaves both alone.
proof fn lemma_moved(
    secrets: Map<Seq<char>, Seq<char>>,
    env: Seq<char>,
    moved: Seq<char>,
    field: Seq<char>,
)
    ensures
        ({
            let account = "kis-"@ + env;
            let after = moved_field(secrets, account, moved);
            let old_key = flat_key(field);
            let new_key = credential_key(account, field);
            if moved == field {
                &&& looked_up(after, old_key) is None
                &&& looked_up(after, new_key) == match looked_up(secrets, old_key) {
                    Some(value) => Some(value),
                    None => looked_up(secrets, new_key),
                }
            } else {
                &&& looked_up(after, old_key) == looked_up(secrets, old_key)
                &&& looked_up(after, new_key) == looked_up(secrets, new_key)
            }
        }),
{
    let account = "kis-"@ + env;
    lemma_flat_keys_differ(env, field, moved);
    lemma_flat_keys_differ(env, moved, field);
    lemma_flat_keys_differ(env, field, field);
    if moved != field {
        assert(flat_key(field).skip("kis_"@.len() as int) =~= field);
        assert(flat_key(moved).skip("kis_"@.len() as int) =~= moved);
        let front = account + "_"@;
        assert(credential_key(account, field).skip(front.len() as int) =~= field);
        assert(credential_key(account, moved).skip(front.len() as int) =~= moved);
    }
}

/// Every credential that stood under a flat key is found under its account afterwards, and
/// under the flat key no more.
pub proof fn law_migrated_secrets_are_found(
    secrets: Map<Seq<char>, Seq<char>>,
    env: Seq<char>,
    field: Seq<char>,
)
    requires
        secrets.dom().contains("kis_app_key"@),
        is_kis_field(field),
    ensures
        looked_up(migrated_secrets(secrets, env), flat_key(field)) is None,
        looked_up(secrets, flat_key(field)) is Some ==> looked_up(
            migrated_secrets(secrets, env),
            credential_key("kis-"@ + env, field),
        ) == looked_up(secrets, flat_key(field)),
{
    let account = "kis-"@ + env;
    let a = moved_field(secrets, account, "app_key"@);
    let b = moved_field(a, account, "app_secret"@);
    let c = moved_field(b, account, "cano"@);
    let d = moved_field(c, account, "product_code"@);
    lemma_moved(secrets, env, "app_key"@, field);
    lemma_moved(a, env, "app_secret"@, field);
    lemma_moved(b, env, "cano"@, field);
    lemma_moved(c, env, "product_code"@, field);
    lemma_moved(d, env, "exchange"@, field);
    reveal_strlit("kis_env");
    reveal_strlit("kis_");
    reveal_strlit("env");
    assert("kis_env"@ =~= flat_key("env"@));
    lemma_flat_keys_differ(env, field, "env"@);
}

/// Migrating leaves every secret alone but the flat KIS keys and those of the account that
/// they move to.
pub proof fn law_migration_keeps_other_secrets(
    secrets: Map<Seq<char>, Seq<char>>,
    env: Seq<char>,
    key: Seq<char>,
)
    requires
        key != "kis_env"@,
        forall|field: Seq<char>| #[trigger]
            is_kis_field(field) ==> key != flat_key(field) && key != credential_key(
                "kis-"@ + env,
                field,
            ),
    ensures
        looked_up(migrated_secrets(secrets, env), key) == looked_up(secrets, key),
{
    assert(is_kis_field("app_key"@));
    assert(is_kis_field("app_secret"@));
    assert(is_kis_field("cano"@));
    assert(is_kis_field("product_code"@));
    assert(is_kis_field("exchange"@));
}

/// Both KIS adapters belong to the account `kis-` and the environment; any other broker belongs
/// to the account of its own name.
pub proof fn law_kis_adapters_share_an_account(broker: Seq<char>, env: Seq<char>)
    ensures
        account_of("kis"@, env) == seq!['k', 'i', 's', '-'] + env,
        account_of("kis-domestic"@, env) == account_of("kis"@, env),
        broker != "kis"@ && broker != "kis-domestic"@ ==> account_of(broker, env) == broker,
{
    reveal_strlit("kis-");
    assert("kis-"@ =~= seq!['k', 'i', 's', '-']);
}

/// The table is from before accounts where it has a column for the broker and none for the
/// account.
pub proof fn law_old_tables_have_a_broker_and_no_account(columns: Seq<Seq<char>>)
    ensures
        is_legacy(columns) <==> (exists|i: int|
            0 <= i < columns.len() && #[trigger] columns[i] == "broker"@) && (forall|i: int|
            0 <= i < columns.len() ==> #[trigger] columns[i] != "account"@),
{
    if is_legacy(columns) {
        let i = choose|i: int| 0 <= i < columns.len() && columns[i] == "broker"@;
        assert(columns[i] == "broker"@);
    }
}

/// The key of a KIS order becomes that of the same order under the account, with ticker, day and
/// tag as they were; the key of an order of a broker that has its own account stays.
pub proof fn law_rekeyed_orders_are_the_same_orders(
    ticker: Seq<char>,
    date: crate::date::Civil,
    tag: Seq<char>,
    env: Seq<char>,
    other: Seq<char>,
)
    requires
        other != "kis"@,
        other != "kis-domestic"@,
        forall|i: int| 0 <= i < other.len() ==> #[trigger] other[i] != ':',
    ensures
        rekeyed(order_key("kis"@, ticker, date, tag), env) == Some(
            order_key("kis-"@ + env, ticker, date, tag),
        ),
        rekeyed(order_key("kis-domestic"@, ticker, date, tag), "real"@) == Some(
            order_key("kis-real"@, ticker, date, tag),
        ),
        rekeyed(order_key("kis-domestic"@, ticker, date, tag), "paper"@) == Some(
            order_key("kis-paper"@, ticker, date, tag),
        ),
        rekeyed(order_key(other, ticker, date, tag), env) is None,
{
    reveal_strlit("kis");
    reveal_strlit("kis-");
    reveal_strlit("kis-domestic");
    reveal_strlit("kis-real");
    reveal_strlit("kis-paper");
    reveal_strlit("real");
    reveal_strlit("paper");
    reveal_strlit(":");
    lemma_front_of_key("kis"@, ticker, date, tag);
    lemma_front_of_key("kis-domestic"@, ticker, date, tag);
    lemma_front_of_key(other, ticker, date, tag);
    let rest = ticker + ":"@ + crate::date::date_text(date) + ":"@ + tag;
    let account = "kis-"@ + env;
    assert(account.len() == 4 + env.len());
    assert(account != "kis"@);
    assert(order_key(account, ticker, date, tag) =~= account + ":"@ + rest);
    assert("kis-"@ + "real"@ =~= "kis-real"@);
    assert("kis-"@ + "paper"@ =~= "kis-paper"@);
    assert("kis-real"@.len() == 8);
    assert("kis-paper"@.len() == 9);
    assert("kis-domestic"@.len() == 12);
    assert(order_key("kis-real"@, ticker, date, tag) =~= "kis-real"@ + ":"@ + rest);
    assert(order_key("kis-paper"@, ticker, date, tag) =~= "kis-paper"@ + ":"@ + rest);
}

/// The first colon of a key stands behind its front, where that holds none.
proof fn lemma_front_of_key(
    front: Seq<char>,
    ticker: Seq<char>,
    date: crate::date::Civil,
    tag: Seq<char>,
)
    requires
        forall|i: int| 0 <= i < front.len() ==> #[trigger] front[i] != ':',
    ensures
        ({
            let key = order_key(front, ticker, date, tag);
            &&& colon_at(key) == Some(front.len() as int)
            &&& key.take(front.len() as int) == front
            &&& key.skip(front.len() as int + 1) == ticker + ":"@ + crate::date::date_text(date)
                + ":"@ + tag
        }),
{
    reveal_strlit(":");
    let key = order_key(front, ticker, date, tag);
    let n = front.len() as int;
    assert(key[n] == ':');
    assert forall|j: int| 0 <= j < n implies #[trigger] key[j] != ':' by {
        assert(key[j] == front[j]);
    }
    lemma_colon_at(key);
    assert(key.take(n) =~= front);
    assert(key.skip(n + 1) =~= ticker + ":"@ + crate::date::date_text(date) + ":"@ + tag);
}

/// Migrating gives a position an account where it had none and changes nothing else of it; each
/// such account is registered afterwards. The accounts that were there stay in front as they
/// were, and each one that is made is new: a KIS one in the old environment, another one in
/// paper.
pub proof fn law_every_position_gets_a_registered_account(
    old_config: ConfigView,
    env: Seq<char>,
    new_config: ConfigView,
    made: Seq<Seq<char>>,
    i: int,
)
    requires
        is_migrated(old_config, env, new_config, made),
    ensures
        new_config.positions.len() == old_config.positions.len(),
        0 <= i < old_config.positions.len() ==> ({
            let before = old_config.positions[i];
            let after = new_config.positions[i];
            &&& before.account.len() > 0 ==> after == before
            &&& before.account.len() == 0 ==> after.account == account_of(before.broker, env)
                && new_config.account(after.account) is Some
            &&& after.name == before.name
            &&& after.broker == before.broker
            &&& after.ticker == before.ticker
            &&& after.seed == before.seed
            &&& after.splits == before.splits
            &&& after.strategy == before.strategy
            &&& after.take_profit_pct == before.take_profit_pct
        }),
        new_config.accounts.len() == old_config.accounts.len() + made.len(),
        forall|k: int|
            0 <= k < old_config.accounts.len() ==> (#[trigger] new_config.accounts[k])
                == old_config.accounts[k],
        forall|k: int|
            0 <= k < made.len() ==> {
                let account = new_config.accounts[old_config.accounts.len() + k];
                &&& account.name == #[trigger] made[k]
                &&& old_config.account(account.name) is None
                &&& account.name.len() >= 4 && account.name.take(4) == "kis-"@ ==> account.env
                    == env
                &&& account.name.len() < 4 || account.name.take(4) != "kis-"@ ==> account.env
                    == "paper"@
            },
{
    let keys = account_names(new_config.accounts);
    let old_keys = account_names(old_config.accounts);
    assert(keys =~= old_keys + made);
    if 0 <= i < old_config.positions.len() && old_config.positions[i].account.len() == 0 {
        let name = account_of(old_config.positions[i].broker, env);
        assert(is_needed(old_config.positions, env, name));
        lemma_first_at(keys, name);
        lemma_first_at(old_keys, name);
        if old_config.account(name) is None {
            assert(made.contains(name));
            let k = choose|k: int| 0 <= k < made.len() && made[k] == name;
            assert(keys[old_keys.len() + k] == name);
        } else {
            assert(keys[first_at(old_keys, name)->0] == name);
        }
    }
    assert forall|k: int| 0 <= k < made.len() implies old_config.account(
        #[trigger] made[k],
    ) is None by {
        assert(made.contains(made[k]));
    }
}

/// The old environment is what was stored, and paper where nothing was. It is gone once the
/// secrets are migrated, and stays where there is nothing to migrate.
pub proof fn law_the_old_environment_is_used_up(
    secrets: Map<Seq<char>, Seq<char>>,
    env: Seq<char>,
)
    ensures
        secrets.dom().contains("kis_env"@) ==> old_env(secrets) == secrets["kis_env"@],
        !secrets.dom().contains("kis_env"@) ==> old_env(secrets) == "paper"@,
        secrets.dom().contains("kis_app_key"@) ==> !migrated_secrets(secrets, env).dom().contains(
            "kis_env"@,
        ),
        !secrets.dom().contains("kis_app_key"@) ==> migrated_secrets(secrets, env) == secrets,
{
}

/// Flat keys open with `kis_`. An account of KIS is made in the old environment, that of Toss in
/// paper.
pub proof fn law_flat_keys_open_with_the_broker(field: Seq<char>)
    ensures
        flat_key(field) == seq!['k', 'i', 's', '_'] + field,
        made_env("toss"@, field) == "paper"@,
        made_env("kis-"@ + field, field) == field,
{
    reveal_strlit("kis_");
    reveal_strlit("kis-");
    reveal_strlit("toss");
    assert("kis_"@ =~= seq!['k', 'i', 's', '_']);
    assert(("kis-"@ + field).take(4) =~= "kis-"@);
    assert("toss"@.take(4)[0] == 't');
    assert("kis-"@[0] == 'k');
}

/// A ledger that gets its account keeps everything else: holding, spend, profit, cycle and mark.
pub proof fn law_a_ledger_keeps_its_books(p: PositionView, broker: Seq<char>, env: Seq<char>)
    ensures
        ({
            let q = rehomed(p, broker, env);
            &&& q.account == trimmed(account_of(broker, env))
            &&& q.broker == p.broker && q.ticker == p.ticker
            &&& q.seed == p.seed && q.splits == p.splits
            &&& q.shares == p.shares && q.avg_price == p.avg_price
            &&& q.cum_spent == p.cum_spent && q.realized_pnl == p.realized_pnl
            &&& q.cycle_index == p.cycle_index && q.cycle_start == p.cycle_start
            &&& q.reconciled_through == p.reconciled_through
        }),
{
}

} // verus!
