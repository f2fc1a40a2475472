//! Application configuration: the accounts and the positions that trade under them.

use crate::decimal::{dec_of, Dec, Decimal};
use crate::error::{DomainError, Failure};
use crate::lookup::{distinct, first_at, lemma_first_at, lemma_is_absent, lemma_is_first};
use crate::market::{broker_named, law_brokers_go_by_their_names, AccountId, BrokerId, Ticker};
use crate::money::Money;
use crate::position::{Position, PositionView};
use crate::registry::StrategyParams;
use crate::text::{same, trimmed, uppercase};
use vstd::prelude::*;

verus! {

/// One trading account: a named bundle of environment and credentials. The credentials are
/// in the secret store.
#[derive(Debug)]
pub struct AccountConfig {
    /// Unique account name.
    pub name: String,
    /// `paper` or `real`; ignored for brokers without that distinction.
    pub env: String,
}

/// The model of an [`AccountConfig`].
pub struct AccountConfigView {
    pub name: Seq<char>,
    pub env: Seq<char>,
}

impl View for AccountConfig {
    type V = AccountConfigView;

    open spec fn view(&self) -> AccountConfigView {
        AccountConfigView { name: self.name@, env: self.env@ }
    }
}

/// One configured position: which strategy trades which ticker, on which account and broker.
#[derive(Debug)]
pub struct PositionConfig {
    /// Unique name.
    pub name: String,
    /// The account this position trades under; empty in a configuration from before accounts.
    pub account: String,
    /// Broker adapter key: `kis`, `kis-domestic`, `toss` or `paper`.
    pub broker: String,
    pub ticker: String,
    pub seed: Decimal,
    pub splits: u32,
    pub strategy: String,
    /// Optional take-profit override in percent.
    pub take_profit_pct: Option<Decimal>,
}

/// The model of a [`PositionConfig`].
pub struct PositionConfigView {
    pub name: Seq<char>,
    pub account: Seq<char>,
    pub broker: Seq<char>,
    pub ticker: Seq<char>,
    pub seed: Dec,
    pub splits: u32,
    pub strategy: Seq<char>,
    pub take_profit_pct: Option<Dec>,
}

/// The number of an optional decimal.
pub open spec fn decimal_of(d: Option<Decimal>) -> Option<Dec> {
    match d {
        Some(d) => Some(d@),
        None => None,
    }
}

impl View for PositionConfig {
    type V = PositionConfigView;

    open spec fn view(&self) -> PositionConfigView {
        PositionConfigView {
            name: self.name@,
            account: self.account@,
            broker: self.broker@,
            ticker: self.ticker@,
            seed: self.seed@,
            splits: self.splits,
            strategy: self.strategy@,
            take_profit_pct: decimal_of(self.take_profit_pct),
        }
    }
}

impl Clone for PositionConfig {
    fn clone(&self) -> (r: PositionConfig)
        ensures
            r@ == self@,
    {
        PositionConfig {
            name: self.name.clone(),
            account: self.account.clone(),
            broker: self.broker.clone(),
            ticker: self.ticker.clone(),
            seed: self.seed,
            splits: self.splits,
            strategy: self.strategy.clone(),
            take_profit_pct: self.take_profit_pct,
        }
    }
}

/// The strategy of a position that names none.
pub fn default_strategy() -> (r: String)
    ensures
        r@ == "infinite-buying"@,
{
    "infinite-buying".to_owned()
}

/// The flat position that a configuration starts from, or the error for an unknown broker.
pub open spec fn start_of(p: PositionConfigView) -> Result<PositionView, Failure> {
    match broker_named(p.broker) {
        Some(broker) => Ok(
            PositionView {
                account: trimmed(p.account),
                broker,
                ticker: uppercase(trimmed(p.ticker)),
                seed: p.seed,
                splits: if p.splits == 0 {
                    1u32
                } else {
                    p.splits
                },
                shares: 0,
                avg_price: None,
                cum_spent: dec_of(0),
                realized_pnl: dec_of(0),
                cycle_index: 0,
                cycle_start: None,
                reconciled_through: None,
            },
        ),
        None => Err(
            Failure::Config(
                "unknown broker '"@ + p.broker + "' (use kis|kis-domestic|toss|paper)"@,
            ),
        ),
    }
}

impl PositionConfig {
    /// The flat starting [`Position`] this configuration describes.
    pub fn to_position(&self) -> (r: Result<Position, DomainError>)
        ensures
            match r {
                Ok(p) => start_of(self@) == Ok::<PositionView, Failure>(p@),
                Err(e) => start_of(self@) == Err::<PositionView, Failure>(e@),
            },
    {
        let broker = match BrokerId::from_str(self.broker.as_str()) {
            Ok(broker) => broker,
            Err(e) => return Err(e),
        };
        Ok(
            Position::new(
                AccountId::new(self.account.as_str()),
                broker,
                Ticker::new(self.ticker.as_str()),
                Money::new(self.seed),
                self.splits,
            ),
        )
    }

    /// The parameters (splits and the optional take-profit override) passed to the strategy
    /// registry.
    pub fn strategy_params(&self) -> (r: StrategyParams)
        ensures
            r.splits == Some(self@.splits),
            decimal_of(r.take_profit_pct) == self@.take_profit_pct,
            r.half_boundary is None,
            r.var_base is None,
            r.var_slope is None,
            r.sell_quarter is None,
            r.quarter_stop is None,
    {
        StrategyParams {
            splits: Some(self.splits),
            take_profit_pct: self.take_profit_pct,
            half_boundary: None,
            var_base: None,
            var_slope: None,
            sell_quarter: None,
            quarter_stop: None,
        }
    }
}

/// The accounts and positions of an installation.
#[derive(Debug)]
pub struct AppConfig {
    pub accounts: Vec<AccountConfig>,
    pub positions: Vec<PositionConfig>,
}

/// The models of a list of accounts.
pub open spec fn accounts_of(accounts: Seq<AccountConfig>) -> Seq<AccountConfigView> {
    Seq::new(accounts.len(), |i: int| accounts[i]@)
}

/// The models of a list of positions.
pub open spec fn positions_of(positions: Seq<PositionConfig>) -> Seq<PositionConfigView> {
    Seq::new(positions.len(), |i: int| positions[i]@)
}

/// The names of a list of accounts.
pub open spec fn account_names(accounts: Seq<AccountConfigView>) -> Seq<Seq<char>> {
    Seq::new(accounts.len(), |i: int| accounts[i].name)
}

/// The names of a list of positions.
pub open spec fn position_names(positions: Seq<PositionConfigView>) -> Seq<Seq<char>> {
    Seq::new(positions.len(), |i: int| positions[i].name)
}

/// The model of an [`AppConfig`].
pub struct ConfigView {
    pub accounts: Seq<AccountConfigView>,
    pub positions: Seq<PositionConfigView>,
}

impl ConfigView {
    /// The position of a name.
    pub open spec fn position(self, name: Seq<char>) -> Option<PositionConfigView> {
        match first_at(position_names(self.positions), name) {
            Some(i) => Some(self.positions[i]),
            None => None,
        }
    }

    /// The account of a name.
    pub open spec fn account(self, name: Seq<char>) -> Option<AccountConfigView> {
        match first_at(account_names(self.accounts), name) {
            Some(i) => Some(self.accounts[i]),
            None => None,
        }
    }

    /// The environment of an account: paper unless it is registered with another.
    pub open spec fn env(self, name: Seq<char>) -> Seq<char> {
        match self.account(name) {
            Some(a) => a.env,
            None => "paper"@,
        }
    }

    /// The configuration with a position put in, in place of one of the same name.
    pub open spec fn with_position(self, position: PositionConfigView) -> ConfigView {
        ConfigView {
            positions: match first_at(position_names(self.positions), position.name) {
                Some(i) => self.positions.update(i, position),
                None => self.positions.push(position),
            },
            ..self
        }
    }

    /// The configuration with an account put in, in place of one of the same name.
    pub open spec fn with_account(self, account: AccountConfigView) -> ConfigView {
        ConfigView {
            accounts: match first_at(account_names(self.accounts), account.name) {
                Some(i) => self.accounts.update(i, account),
                None => self.accounts.push(account),
            },
            ..self
        }
    }
}

impl View for AppConfig {
    type V = ConfigView;

    open spec fn view(&self) -> ConfigView {
        ConfigView { accounts: accounts_of(self.accounts@), positions: positions_of(self.positions@)
        }
    }
}

impl Default for AppConfig {
    fn default() -> (r: AppConfig)
        ensures
            r@ == (ConfigView { accounts: Seq::empty(), positions: Seq::empty() }),
    {
        let r = AppConfig { accounts: Vec::new(), positions: Vec::new() };
        assert(r@.accounts =~= Seq::<AccountConfigView>::empty());
        assert(r@.positions =~= Seq::<PositionConfigView>::empty());
        r
    }
}

impl AppConfig {
    /// The place of a position.
    fn position_at(&self, name: &str) -> (r: Option<usize>)
        ensures
            match r {
                Some(i) => i < self.positions.len() && first_at(
                    position_names(self@.positions),
                    name@,
                ) == Some(i as int),
                None => first_at(position_names(self@.positions), name@) is None,
            },
    {
        let ghost keys = position_names(self@.positions);
        let mut i: usize = 0;
        while i < self.positions.len()
            invariant
                i <= self.positions.len(),
                keys == position_names(self@.positions),
                forall|j: int| 0 <= j < i ==> #[trigger] keys[j] != name@,
            decreases self.positions.len() - i,
        {
            assert(keys[i as int] == self.positions[i as int].name@);
            if same(self.positions[i].name.as_str(), name) {
                proof {
                    lemma_is_first(keys, name@, i as int);
                }
                return Some(i);
            }
            i += 1;
        }
        proof {
            lemma_is_absent(keys, name@);
        }
        None
    }

    /// The place of an account.
    fn account_at(&self, name: &str) -> (r: Option<usize>)
        ensures
            match r {
                Some(i) => i < self.accounts.len() && first_at(account_names(self@.accounts), name@)
                    == Some(i as int),
                None => first_at(account_names(self@.accounts), name@) is None,
            },
    {
        let ghost keys = account_names(self@.accounts);
        let mut i: usize = 0;
        while i < self.accounts.len()
            invariant
                i <= self.accounts.len(),
                keys == account_names(self@.accounts),
                forall|j: int| 0 <= j < i ==> #[trigger] keys[j] != name@,
            decreases self.accounts.len() - i,
        {
            assert(keys[i as int] == self.accounts[i as int].name@);
            if same(self.accounts[i].name.as_str(), name) {
                proof {
                    lemma_is_first(keys, name@, i as int);
                }
                return Some(i);
            }
            i += 1;
        }
        proof {
            lemma_is_absent(keys, name@);
        }
        None
    }

    /// Look up a configured position by name.
    pub fn find(&self, name: &str) -> (r: Option<&PositionConfig>)
        ensures
            match r {
                Some(p) => self@.position(name@) == Some(p@),
                None => self@.position(name@) is None,
            },
    {
        match self.position_at(name) {
            Some(i) => Some(&self.positions[i]),
            None => None,
        }
    }

    /// Look up a configured account by name.
    pub fn find_account(&self, name: &str) -> (r: Option<&AccountConfig>)
        ensures
            match r {
                Some(a) => self@.account(name@) == Some(a@),
                None => self@.account(name@) is None,
            },
    {
        match self.account_at(name) {
            Some(i) => Some(&self.accounts[i]),
            None => None,
        }
    }

    /// The configured environment of an account, `paper` when it is not registered: the one
    /// home for this safety default.
    pub fn env_for(&self, account: &str) -> (r: String)
        ensures
            r@ == self@.env(account@),
    {
        match self.find_account(account) {
            Some(a) => a.env.clone(),
            None => "paper".to_owned(),
        }
    }

    /// Insert a position, replacing any existing one with the same name.
    pub fn upsert(&mut self, position: PositionConfig)
        ensures
            final(self)@ == old(self)@.with_position(position@),
    {
        let ghost before = self@;
        let ghost new = position@;
        match self.position_at(position.name.as_str()) {
            Some(i) => {
                self.positions.set(i, position);
                assert(self@.positions =~= before.positions.update(i as int, new));
            },
            None => {
                self.positions.push(position);
                assert(self@.positions =~= before.positions.push(new));
            },
        }
    }

    /// Insert an account, replacing any existing one with the same name.
    pub fn upsert_account(&mut self, account: AccountConfig)
        ensures
            final(self)@ == old(self)@.with_account(account@),
    {
        let ghost before = self@;
        let ghost new = account@;
        match self.account_at(account.name.as_str()) {
            Some(i) => {
                self.accounts.set(i, account);
                assert(self@.accounts =~= before.accounts.update(i as int, new));
            },
            None => {
                self.accounts.push(account);
                assert(self@.accounts =~= before.accounts.push(new));
            },
        }
    }
}

/// A position that was put in is the one found under its name, the others stay, and no name
/// comes to stand twice.
pub proof fn law_upsert_then_find(config: ConfigView, position: PositionConfigView, name: Seq<char>)
    ensures
        config.with_position(position).position(position.name) == Some(position),
        name != position.name ==> config.with_position(position).position(name)
            == config.position(name),
        distinct(position_names(config.positions)) ==> distinct(
            position_names(config.with_position(position).positions),
        ),
{
    let keys = position_names(config.positions);
    let after = config.with_position(position);
    let new_keys = position_names(after.positions);
    lemma_first_at(keys, position.name);
    lemma_first_at(keys, name);
    match first_at(keys, position.name) {
        Some(i) => {
            assert(new_keys =~= keys);
        },
        None => {
            assert(new_keys.drop_last() =~= keys);
            assert(new_keys.last() == position.name);
            if distinct(keys) {
                assert forall|i: int, j: int| 0 <= i < j < new_keys.len() implies new_keys[i]
                    != new_keys[j] by {
                    assert(new_keys[i] == keys[i]);
                    if j < keys.len() {
                        assert(new_keys[j] == keys[j]);
                    }
                }
            }
        },
    }
}

/// An account that was put in is the one found under its name, with its environment, and the
/// others stay.
pub proof fn law_upsert_account_then_find(
    config: ConfigView,
    account: AccountConfigView,
    name: Seq<char>,
)
    ensures
        config.with_account(account).account(account.name) == Some(account),
        config.with_account(account).env(account.name) == account.env,
        name != account.name ==> config.with_account(account).account(name) == config.account(name),
{
    let keys = account_names(config.accounts);
    let after = config.with_account(account);
    let new_keys = account_names(after.accounts);
    lemma_first_at(keys, account.name);
    lemma_first_at(keys, name);
    match first_at(keys, account.name) {
        Some(i) => {
            assert(new_keys =~= keys);
        },
        None => {
            assert(new_keys.drop_last() =~= keys);
            assert(new_keys.last() == account.name);
        },
    }
}

/// An account that is not registered is a paper account.
pub proof fn law_unknown_accounts_are_paper(config: ConfigView, name: Seq<char>)
    requires
        forall|i: int| 0 <= i < config.accounts.len() ==> (#[trigger] config.accounts[i]).name
            != name,
    ensures
        config.env(name) == "paper"@,
{
    lemma_is_absent(account_names(config.accounts), name);
}

/// A position starts with nothing held, nothing spent and nothing banked, in no cycle and with
/// no mark. It takes its account, ticker and seed from the configuration, and its splits, at
/// least one of them; it starts exactly where its broker is known.
pub proof fn law_positions_start_flat(p: PositionConfigView)
    ensures
        start_of(p) is Ok <==> p.broker == "kis"@ || p.broker == "kis-domestic"@ || p.broker
            == "toss"@ || p.broker == "paper"@,
        start_of(p) is Err ==> start_of(p)->Err_0 is Config,
        start_of(p) matches Ok(q) ==> {
            &&& q.account == trimmed(p.account)
            &&& q.ticker == uppercase(trimmed(p.ticker))
            &&& broker_named(p.broker) == Some(q.broker)
            &&& q.seed == p.seed
            &&& p.splits > 0 ==> q.splits == p.splits
            &&& p.splits == 0 ==> q.splits == 1
            &&& q.shares == 0
            &&& q.avg_price is None
            &&& q.cum_spent == (0i128, 0u32)
            &&& q.realized_pnl == (0i128, 0u32)
            &&& q.cycle_index == 0
            &&& q.cycle_start is None
            &&& q.reconciled_through is None
        },
{
    law_brokers_go_by_their_names(p.broker);
}

/// A position, an account and its environment are found under their name, the first of that
/// name each time.
pub proof fn law_entries_are_found_by_name(config: ConfigView, name: Seq<char>)
    ensures
        config.position(name) is None <==> forall|i: int|
            0 <= i < config.positions.len() ==> (#[trigger] config.positions[i]).name != name,
        config.position(name) is Some ==> config.position(name)->0.name == name
            && config.positions.contains(config.position(name)->0),
        config.account(name) is None <==> forall|i: int|
            0 <= i < config.accounts.len() ==> (#[trigger] config.accounts[i]).name != name,
        config.account(name) is Some ==> config.account(name)->0.name == name
            && config.accounts.contains(config.account(name)->0) && config.env(name)
            == config.account(name)->0.env,
{
    let p = position_names(config.positions);
    let a = account_names(config.accounts);
    lemma_first_at(p, name);
    lemma_first_at(a, name);
    if first_at(p, name) is None {
        assert forall|i: int| 0 <= i < config.positions.len() implies (
        #[trigger] config.positions[i]).name != name by {
            assert(p[i] != name);
        }
    } else {
        assert(config.positions[first_at(p, name)->0].name == name);
    }
    if first_at(a, name) is None {
        assert forall|i: int| 0 <= i < config.accounts.len() implies (
        #[trigger] config.accounts[i]).name != name by {
            assert(a[i] != name);
        }
    } else {
        assert(config.accounts[first_at(a, name)->0].name == name);
    }
}

/// Putting a position in leaves the accounts and the places of the others: it takes the place of
/// the one of its name, or the last where there is none.
pub proof fn law_upsert_keeps_the_others_in_place(config: ConfigView, position: PositionConfigView)
    ensures
        config.with_position(position).accounts == config.accounts,
        config.position(position.name) is None ==> config.with_position(position).positions
            == config.positions.push(position),
        config.position(position.name) is Some ==> config.with_position(position).positions.len()
            == config.positions.len(),
        forall|i: int|
            0 <= i < config.positions.len() && (#[trigger] config.positions[i]).name
                != position.name ==> config.with_position(position).positions[i]
                == config.positions[i],
{
    lemma_first_at(position_names(config.positions), position.name);
}

/// Putting an account in leaves the positions and the places of the other accounts.
pub proof fn law_upsert_account_keeps_the_others_in_place(
    config: ConfigView,
    account: AccountConfigView,
)
    ensures
        config.with_account(account).positions == config.positions,
        config.account(account.name) is None ==> config.with_account(account).accounts
            == config.accounts.push(account),
        config.account(account.name) is Some ==> config.with_account(account).accounts.len()
            == config.accounts.len(),
        forall|i: int|
            0 <= i < config.accounts.len() && (#[trigger] config.accounts[i]).name != account.name
                ==> config.with_account(account).accounts[i] == config.accounts[i],
{
    lemma_first_at(account_names(config.accounts), account.name);
}

/// The models of the configuration show every field, and those of its lists every entry in
/// order.
pub proof fn law_the_models_of_the_configuration(
    position: PositionConfig,
    account: AccountConfig,
    config: AppConfig,
)
    ensures
        position@.name == position.name@,
        position@.account == position.account@,
        position@.broker == position.broker@,
        position@.ticker == position.ticker@,
        position@.seed == position.seed@,
        position@.splits == position.splits,
        position@.strategy == position.strategy@,
        position.take_profit_pct matches Some(d) ==> position@.take_profit_pct == Some(d@),
        position.take_profit_pct is None ==> position@.take_profit_pct is None,
        account@.name == account.name@,
        account@.env == account.env@,
        config@.accounts.len() == config.accounts@.len(),
        forall|i: int|
            0 <= i < config.accounts@.len() ==> config@.accounts[i] == (
            #[trigger] config.accounts@[i])@,
        config@.positions.len() == config.positions@.len(),
        forall|i: int|
            0 <= i < config.positions@.len() ==> config@.positions[i] == (
            #[trigger] config.positions@[i])@,
{
}

} // verus!
