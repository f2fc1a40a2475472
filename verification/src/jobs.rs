//! From the configuration to what is run: the broker, the strategy and the starting ledger of a
//! position, and the jobs of the daemon.

use crate::calendar::Market;
use crate::config::{
    decimal_of, positions_of, start_of, AppConfig, ConfigView, PositionConfig, PositionConfigView,
};
use crate::connect::{
    connect, connection_error, is_connection, kis_config_in, lemma_who_places, toss_config_in,
    LiveBroker,
};
use crate::engine::{
    first_schedule, market_of_broker, position_market, schedule_of, skip_remark,
    skip_text, JobPlan,
};
use crate::error::{failure_text, DomainError, Failure};
use crate::infinite_buying::InfiniteBuying;
use crate::ports::Strategy;
use crate::position::{Position, PositionView};
use crate::registry::{
    is_built_from, law_parameters_left_out_take_their_defaults, StrategyParams, StrategyRegistry,
};
use crate::report::{cannot_place, unknown_position};
use crate::schedule::Schedule;
use crate::secrets::SecretMap;
use crate::text::{same, texts_of};
use vstd::prelude::*;

verus! {

/// One position ready to run: its broker, strategy and starting ledger are resolved once, so
/// that a misconfiguration fails before anything is placed.
#[derive(Debug)]
pub struct EngineJob {
    pub name: String,
    pub broker: LiveBroker,
    pub strategy: InfiniteBuying,
    /// The flat ledger, used where none is saved.
    pub template: Position,
    /// The market whose session date the orders are keyed by.
    pub market: Market,
    pub schedule: Schedule,
}

/// Whether a strategy is the one that a position is configured with.
pub open spec fn is_strategy_of(strategy: InfiniteBuying, pc: PositionConfigView) -> bool {
    exists|params: StrategyParams| #[trigger]
        is_built_from(strategy@, Some(params)) && params.splits == Some(pc.splits)
            && decimal_of(params.take_profit_pct) == pc.take_profit_pct
            && params.half_boundary is None && params.var_base is None && params.var_slope is None
            && params.sell_quarter is None && params.quarter_stop is None
}

/// Whether a job is the one of a position, in the environment of its account.
pub open spec fn is_job(
    job: EngineJob,
    pc: PositionConfigView,
    env: Seq<char>,
    secrets: Map<Seq<char>, Seq<char>>,
) -> bool {
    &&& job.name@ == pc.name
    &&& is_connection(Ok(job.broker), pc.broker, pc.account, env, secrets)
    &&& is_strategy_of(job.strategy, pc)
    &&& start_of(pc) == Ok::<PositionView, Failure>(job.template@)
    &&& job.market == market_of_broker(pc.broker)
    &&& job.schedule == first_schedule(job.strategy.wakeups())
    &&& job.schedule.at_eastern.wf()
}

/// The error of a strategy name that is unknown.
pub open spec fn strategy_error(name: Seq<char>) -> Option<Failure> {
    if name == "infinite-buying"@ {
        None
    } else {
        Some(Failure::Strategy("unknown strategy: "@ + name))
    }
}

/// The error that a connected position fails with, if it does: that of its strategy, or else
/// that of its broker name.
pub open spec fn rest_error(pc: PositionConfigView) -> Option<Failure> {
    match strategy_error(pc.strategy) {
        Some(e) => Some(e),
        None => match start_of(pc) {
            Ok(_) => None,
            Err(e) => Some(e),
        },
    }
}

/// Connect the broker of a position, in the environment of its account.
pub fn connect_position(pc: &PositionConfig, config: &AppConfig, secrets: &SecretMap) -> (r: Result<
    LiveBroker,
    DomainError,
>)
    ensures
        is_connection(r, pc@.broker, pc@.account, config@.env(pc@.account), secrets@),
{
    let env = config.env_for(pc.account.as_str());
    connect(pc.broker.as_str(), pc.account.as_str(), env.as_str(), secrets)
}

/// The strategy that a position is configured with.
pub fn strategy_of(pc: &PositionConfig) -> (r: Result<InfiniteBuying, DomainError>)
    ensures
        match r {
            Ok(strategy) => strategy_error(pc@.strategy) is None && is_strategy_of(strategy, pc@),
            Err(e) => strategy_error(pc@.strategy) == Some(e@),
        },
{
    let params = pc.strategy_params();
    match StrategyRegistry::with_builtins().build(pc.strategy.as_str(), Some(params)) {
        Ok(strategy) => {
            assert(is_built_from(strategy@, Some(params)));
            Ok(strategy)
        },
        Err(e) => Err(e),
    }
}

/// The job of a position whose broker is connected.
pub fn job_of(pc: &PositionConfig, broker: LiveBroker) -> (r: Result<EngineJob, DomainError>)
    ensures
        match r {
            Ok(job) => {
                &&& rest_error(pc@) is None
                &&& job.broker == broker
                &&& forall|env: Seq<char>, secrets: Map<Seq<char>, Seq<char>>|
                    is_connection(Ok(broker), pc@.broker, pc@.account, env, secrets)
                        ==> #[trigger] is_job(job, pc@, env, secrets)
            },
            Err(e) => rest_error(pc@) == Some(e@),
        },
{
    let strategy = match strategy_of(pc) {
        Ok(s) => s,
        Err(e) => return Err(e),
    };
    let schedule = schedule_of(&strategy);
    match pc.to_position() {
        Ok(template) => Ok(
            EngineJob {
                name: pc.name.clone(),
                broker,
                strategy,
                template,
                market: position_market(pc.broker.as_str()),
                schedule,
            },
        ),
        Err(e) => Err(e),
    }
}

/// Why a position cannot be ticked.
#[derive(Debug)]
pub enum TickRefusal {
    /// There is no position of that name.
    Unknown(String),
    /// Its broker places no orders.
    CannotPlace(String),
    /// Its configuration is wrong.
    Failed(DomainError),
}

/// Whether an outcome is the job of a named position, or the refusal that is due.
pub open spec fn is_tick_job(
    r: Result<EngineJob, TickRefusal>,
    found: Option<PositionConfigView>,
    name: Seq<char>,
    env: Seq<char>,
    secrets: Map<Seq<char>, Seq<char>>,
) -> bool {
    match found {
        None => r matches Err(TickRefusal::Unknown(s)) && s@ == "no position '"@ + name
            + "' — add one with `drip strategy add`"@,
        Some(pc) => match connection_error(pc.broker, pc.account, env, secrets) {
            Some(e) => r matches Err(TickRefusal::Failed(f)) && f@ == e,
            None => if pc.broker == "toss"@ {
                r matches Err(TickRefusal::CannotPlace(s)) && s@ == "broker '"@ + pc.broker
                    + "' does not support order placement (KIS only in M2.1)"@
            } else {
                match rest_error(pc) {
                    Some(e) => r matches Err(TickRefusal::Failed(f)) && f@ == e,
                    None => r matches Ok(job) && is_job(job, pc, env, secrets),
                }
            },
        },
    }
}

/// The job of a named position that is to be ticked.
pub fn tick_job(config: &AppConfig, secrets: &SecretMap, name: &str) -> (r: Result<
    EngineJob,
    TickRefusal,
>)
    ensures
        is_tick_job(
            r,
            config@.position(name@),
            name@,
            config@.env(config@.position(name@)->0.account),
            secrets@,
        ),
{
    let pc = match config.find(name) {
        Some(pc) => pc,
        None => return Err(TickRefusal::Unknown(unknown_position(name))),
    };
    let broker = match connect_position(pc, config, secrets) {
        Ok(b) => b,
        Err(e) => return Err(TickRefusal::Failed(e)),
    };
    proof {
        lemma_who_places(broker, pc@.broker, pc@.account, config@.env(pc@.account), secrets@);
    }
    if !broker.places_orders() {
        return Err(TickRefusal::CannotPlace(cannot_place(pc.broker.as_str())));
    }
    match job_of(pc, broker) {
        Ok(job) => {
            assert(is_job(job, pc@, config@.env(pc@.account), secrets@));
            Ok(job)
        },
        Err(e) => Err(TickRefusal::Failed(e)),
    }
}

/// What becomes of a position in the daemon.
pub enum Fate {
    /// It is run.
    Run,
    /// It is skipped, with a remark.
    Skip(Seq<char>),
    /// It keeps the daemon from starting.
    Fail(Failure),
}

/// What becomes of a position in the daemon: a domestic one is skipped before anything else,
/// one whose broker places no orders once it is connected.
pub open spec fn fate_of(
    pc: PositionConfigView,
    env: Seq<char>,
    secrets: Map<Seq<char>, Seq<char>>,
) -> Fate {
    if pc.broker == "kis-domestic"@ {
        Fate::Skip(skip_text(JobPlan::SkipDomestic, pc.name, pc.broker)->0)
    } else {
        match connection_error(pc.broker, pc.account, env, secrets) {
            Some(e) => Fate::Fail(e),
            None => if pc.broker == "toss"@ {
                Fate::Skip(skip_text(JobPlan::SkipReadOnly, pc.name, pc.broker)->0)
            } else {
                match rest_error(pc) {
                    Some(e) => Fate::Fail(e),
                    None => Fate::Run,
                }
            },
        }
    }
}

/// The positions of a list that are run, by their place, and the remarks on those that are
/// skipped, or the error of the first one that fails.
pub open spec fn fates(
    positions: Seq<PositionConfigView>,
    config: ConfigView,
    secrets: Map<Seq<char>, Seq<char>>,
) -> Result<(Seq<int>, Seq<Seq<char>>), Failure>
    decreases positions.len(),
{
    if positions.len() == 0 {
        Ok((Seq::empty(), Seq::empty()))
    } else {
        match fates(positions.drop_last(), config, secrets) {
            Err(e) => Err(e),
            Ok((runs, remarks)) => match fate_of(
                positions.last(),
                config.env(positions.last().account),
                secrets,
            ) {
                Fate::Run => Ok((runs.push(positions.len() - 1), remarks)),
                Fate::Skip(remark) => Ok((runs, remarks.push(remark))),
                Fate::Fail(e) => Err(e),
            },
        }
    }
}

/// A failure among the first positions is the failure of them all.
proof fn lemma_fates_error(
    positions: Seq<PositionConfigView>,
    config: ConfigView,
    secrets: Map<Seq<char>, Seq<char>>,
    n: int,
    e: Failure,
)
    requires
        0 <= n <= positions.len(),
        fates(positions.take(n), config, secrets) == Err::<(Seq<int>, Seq<Seq<char>>), Failure>(e),
    ensures
        fates(positions, config, secrets) == Err::<(Seq<int>, Seq<Seq<char>>), Failure>(e),
    decreases positions.len() - n,
{
    if n == positions.len() {
        assert(positions.take(n) =~= positions);
    } else {
        assert(positions.take(n + 1).drop_last() =~= positions.take(n));
        lemma_fates_error(positions, config, secrets, n + 1, e);
    }
}

/// What the daemon runs, and the remarks on what it skips.
#[derive(Debug)]
pub struct RunPlan {
    pub jobs: Vec<EngineJob>,
    pub remarks: Vec<String>,
}

/// Why the daemon does not start.
#[derive(Debug)]
pub enum RunRefusal {
    /// There is no position at all.
    NoPositions,
    /// There is none that it can run.
    NoneCanPlace,
    /// The configuration of one is wrong.
    Failed(DomainError),
}

impl RunRefusal {
    /// Why the daemon does not start, in writing.
    pub fn to_text(&self) -> (r: String)
        ensures
            r@ == match *self {
                RunRefusal::NoPositions =>
                    "no positions configured — add one with `drip strategy add`"@,
                RunRefusal::NoneCanPlace =>
                    "no configured position can place orders — `drip run` needs a KIS position"@,
                RunRefusal::Failed(e) => failure_text(e@),
            },
    {
        match self {
            RunRefusal::NoPositions =>
                "no positions configured — add one with `drip strategy add`".to_owned(),
            RunRefusal::NoneCanPlace =>
                "no configured position can place orders — `drip run` needs a KIS position".to_owned(),
            RunRefusal::Failed(e) => e.to_text(),
        }
    }
}

/// Whether a job is that of the position at a place.
pub open spec fn is_job_at(
    job: EngineJob,
    place: int,
    config: ConfigView,
    secrets: Map<Seq<char>, Seq<char>>,
) -> bool {
    let pc = config.positions[place];
    0 <= place < config.positions.len() && is_job(job, pc, config.env(pc.account), secrets)
}

/// Whether jobs are those of the positions at some places.
pub open spec fn are_jobs(
    jobs: Seq<EngineJob>,
    places: Seq<int>,
    config: ConfigView,
    secrets: Map<Seq<char>, Seq<char>>,
) -> bool {
    &&& jobs.len() == places.len()
    &&& forall|i: int|
        #![trigger jobs[i]]
        #![trigger places[i]]
        0 <= i < jobs.len() ==> is_job_at(jobs[i], places[i], config, secrets)
}

/// Resolve every position up front. A position that the daemon cannot run is skipped, so that
/// it still runs the others; one that is wrong keeps it from starting.
pub fn plan_run(config: &AppConfig, secrets: &SecretMap) -> (r: Result<RunPlan, RunRefusal>)
    ensures
        match r {
            Ok(plan) => {
                &&& plan.jobs@.len() > 0
                &&& fates(config@.positions, config@, secrets@) matches Ok((runs, remarks))
                &&& are_jobs(plan.jobs@, runs, config@, secrets@)
                &&& texts_of(plan.remarks@) == remarks
            },
            Err(RunRefusal::NoPositions) => config@.positions.len() == 0,
            Err(RunRefusal::NoneCanPlace) => config@.positions.len() > 0 && (fates(
                config@.positions,
                config@,
                secrets@,
            ) matches Ok((runs, remarks)) && runs.len() == 0),
            Err(RunRefusal::Failed(e)) => fates(config@.positions, config@, secrets@) == Err::<
                (Seq<int>, Seq<Seq<char>>),
                Failure,
            >(e@),
        },
{
    let ghost all = config@.positions;
    if config.positions.len() == 0 {
        return Err(RunRefusal::NoPositions);
    }
    let mut jobs: Vec<EngineJob> = Vec::new();
    let mut remarks: Vec<String> = Vec::new();
    let ghost mut runs: Seq<int> = Seq::empty();
    let mut i: usize = 0;
    assert(all.take(0) =~= Seq::<PositionConfigView>::empty());
    assert(texts_of(remarks@) =~= Seq::<Seq<char>>::empty());
    while i < config.positions.len()
        invariant
            i <= config.positions.len(),
            all == config@.positions,
            all == positions_of(config.positions@),
            fates(all.take(i as int), config@, secrets@) == Ok::<
                (Seq<int>, Seq<Seq<char>>),
                Failure,
            >((runs, texts_of(remarks@))),
            are_jobs(jobs@, runs, config@, secrets@),
        decreases config.positions.len() - i,
    {
        let pc = &config.positions[i];
        let ghost noted = texts_of(remarks@);
        let ghost env = config@.env(pc@.account);
        proof {
            assert(all[i as int] == pc@);
            assert(all.take(i + 1).drop_last() =~= all.take(i as int));
            assert(all.take(i + 1).last() == pc@);
        }
        if same(pc.broker.as_str(), "kis-domestic") {
            if let Some(remark) = skip_remark(
                JobPlan::SkipDomestic,
                pc.name.as_str(),
                pc.broker.as_str(),
            ) {
                let ghost text = remark@;
                remarks.push(remark);
                assert(texts_of(remarks@) =~= noted.push(text));
            }
        } else {
            let broker = match connect_position(pc, config, secrets) {
                Ok(b) => b,
                Err(e) => {
                    proof {
                        lemma_fates_error(all, config@, secrets@, i + 1, e@);
                    }
                    return Err(RunRefusal::Failed(e));
                },
            };
            proof {
                lemma_who_places(broker, pc@.broker, pc@.account, env, secrets@);
            }
            if !broker.places_orders() {
                if let Some(remark) = skip_remark(
                    JobPlan::SkipReadOnly,
                    pc.name.as_str(),
                    pc.broker.as_str(),
                ) {
                    let ghost text = remark@;
                    remarks.push(remark);
                    assert(texts_of(remarks@) =~= noted.push(text));
                }
            } else {
                match job_of(pc, broker) {
                    Ok(job) => {
                        assert(is_job(job, pc@, env, secrets@));
                        let ghost before = jobs@;
                        let ghost ran = runs;
                        jobs.push(job);
                        proof {
                            runs = ran.push(i as int);
                            assert(is_job_at(jobs@.last(), i as int, config@, secrets@));
                            assert forall|k: int|
                                #![trigger jobs@[k]]
                                #![trigger runs[k]]
                                0 <= k < jobs@.len() implies is_job_at(
                                jobs@[k],
                                runs[k],
                                config@,
                                secrets@,
                            ) by {
                                if k < before.len() {
                                    assert(is_job_at(before[k], ran[k], config@, secrets@));
                                }
                            }
                        }
                    },
                    Err(e) => {
                        proof {
                            lemma_fates_error(all, config@, secrets@, i + 1, e@);
                        }
                        return Err(RunRefusal::Failed(e));
                    },
                }
            }
        }
        i += 1;
    }
    assert(all.take(i as int) =~= all);
    if jobs.len() == 0 {
        return Err(RunRefusal::NoneCanPlace);
    }
    Ok(RunPlan { jobs, remarks })
}

/// The daemon runs only positions whose broker places orders, and none on the Korean market,
/// whose sessions its schedule does not follow.
pub proof fn law_the_daemon_runs_what_it_can(
    pc: PositionConfigView,
    env: Seq<char>,
    secrets: Map<Seq<char>, Seq<char>>,
    job: EngineJob,
)
    requires
        fate_of(pc, env, secrets) == Fate::Run,
        is_job(job, pc, env, secrets),
    ensures
        job.broker.can_place(),
        job.market == Market::UsEquity,
{
    lemma_who_places(job.broker, pc.broker, pc.account, env, secrets);
}

/// `infinite-buying` is the one strategy there is.
pub proof fn law_other_strategies_are_unknown(name: Seq<char>)
    ensures
        strategy_error(name) is None <==> name == "infinite-buying"@,
        strategy_error(name) is Some ==> strategy_error(name)->0 is Strategy,
{
}

/// A position runs exactly where its broker is `kis`, the account is set up for it, its
/// strategy is known and it can start. A domestic one is skipped, whatever else holds of it, and
/// a Toss one where its account is set up; everything else is a failure.
pub proof fn law_what_becomes_of_a_position(
    pc: PositionConfigView,
    env: Seq<char>,
    secrets: Map<Seq<char>, Seq<char>>,
)
    ensures
        fate_of(pc, env, secrets) == Fate::Run <==> pc.broker == "kis"@ && kis_config_in(
            secrets,
            pc.account,
            env,
        ) is Ok && pc.strategy == "infinite-buying"@ && start_of(pc) is Ok,
        fate_of(pc, env, secrets) is Skip <==> pc.broker == "kis-domestic"@ || (pc.broker
            == "toss"@ && toss_config_in(secrets, pc.account) is Ok),
        pc.broker == "kis-domestic"@ ==> fate_of(pc, env, secrets) == Fate::Skip(
            "skipping position '"@ + pc.name
                + "': the `drip run` schedule is US-Eastern-only — a KRX position needs the KST schedule (#22 P4); place it with `drip tick` for now"@,
        ),
        pc.broker == "toss"@ && toss_config_in(secrets, pc.account) is Ok ==> fate_of(
            pc,
            env,
            secrets,
        ) == Fate::Skip(
            "skipping position '"@ + pc.name + "': broker '"@ + pc.broker
                + "' cannot place orders (KIS only)"@,
        ),
{
    reveal_strlit("kis");
    reveal_strlit("kis-domestic");
    reveal_strlit("toss");
    assert("kis"@.len() == 3);
    assert("kis-domestic"@.len() == 12);
    assert("toss"@.len() == 4);
}

/// The daemon starts where no position fails. It then runs every position that can be run, once
/// each and in order, and has a remark on every one that it skips; no position is lost.
pub proof fn law_no_position_is_lost(
    positions: Seq<PositionConfigView>,
    config: ConfigView,
    secrets: Map<Seq<char>, Seq<char>>,
)
    ensures
        fates(positions, config, secrets) is Ok <==> forall|i: int|
            0 <= i < positions.len() ==> fate_of(
                #[trigger] positions[i],
                config.env(positions[i].account),
                secrets,
            ) !is Fail,
        fates(positions, config, secrets) matches Ok((runs, remarks)) ==> {
            &&& runs.len() + remarks.len() == positions.len()
            &&& forall|k: int|
                0 <= k < runs.len() ==> 0 <= #[trigger] runs[k] < positions.len() && fate_of(
                    positions[runs[k]],
                    config.env(positions[runs[k]].account),
                    secrets,
                ) == Fate::Run
            &&& forall|k: int, l: int|
                #![trigger runs[k], runs[l]]
                0 <= k < l < runs.len() ==> runs[k] < runs[l]
            &&& remarks == positions.filter(
                |pc: PositionConfigView|
                    fate_of(pc, config.env(pc.account), secrets) is Skip,
            ).map_values(
                |pc: PositionConfigView|
                    fate_of(pc, config.env(pc.account), secrets)->Skip_0,
            )
        },
    decreases positions.len(),
{
    reveal(Seq::filter);
    let skipped = |pc: PositionConfigView| fate_of(pc, config.env(pc.account), secrets) is Skip;
    let remark = |pc: PositionConfigView| fate_of(pc, config.env(pc.account), secrets)->Skip_0;
    if positions.len() > 0 {
        let front = positions.drop_last();
        law_no_position_is_lost(front, config, secrets);
        let last = positions.last();
        if forall|i: int|
            0 <= i < positions.len() ==> fate_of(
                #[trigger] positions[i],
                config.env(positions[i].account),
                secrets,
            ) !is Fail {
            assert forall|i: int| 0 <= i < front.len() implies fate_of(
                #[trigger] front[i],
                config.env(front[i].account),
                secrets,
            ) !is Fail by {
                assert(front[i] == positions[i]);
            }
            assert(positions[positions.len() - 1] == last);
        }
        if fates(positions, config, secrets) is Ok {
            let (runs, remarks) = fates(front, config, secrets)->Ok_0;
            assert forall|i: int| 0 <= i < positions.len() implies fate_of(
                #[trigger] positions[i],
                config.env(positions[i].account),
                secrets,
            ) !is Fail by {
                if i < front.len() {
                    assert(front[i] == positions[i]);
                }
            }
            assert forall|k: int| 0 <= k < runs.len() implies 0 <= #[trigger] runs[k]
                < positions.len() && fate_of(
                positions[runs[k]],
                config.env(positions[runs[k]].account),
                secrets,
            ) == Fate::Run by {
                assert(front[runs[k]] == positions[runs[k]]);
            }
            if skipped(last) {
                assert(front.filter(skipped).push(last).map_values(remark) =~= front.filter(
                    skipped,
                ).map_values(remark).push(remark(last)));
            }
        }
    } else {
        assert(positions.filter(skipped).map_values(remark) =~= Seq::<Seq<char>>::empty());
    }
}

/// A tick is had for a position that is there, on a broker that places orders, in the
/// environment given; and then under the name, the market and the schedule of that position.
pub proof fn law_a_tick_job_is_that_of_its_position(
    r: Result<EngineJob, TickRefusal>,
    found: Option<PositionConfigView>,
    name: Seq<char>,
    env: Seq<char>,
    secrets: Map<Seq<char>, Seq<char>>,
)
    requires
        is_tick_job(r, found, name, env, secrets),
    ensures
        found is None ==> r is Err && r->Err_0 is Unknown,
        found matches Some(pc) ==> (pc.broker == "toss"@ && toss_config_in(secrets, pc.account) is Ok
            ==> (r matches Err(TickRefusal::CannotPlace(s)) && s@ == "broker '"@ + pc.broker
            + "' does not support order placement (KIS only in M2.1)"@)),
        found matches Some(pc) ==> ((pc.broker == "kis"@ || pc.broker == "kis-domestic"@)
            && kis_config_in(secrets, pc.account, env) is Ok && pc.strategy == "infinite-buying"@
            ==> r is Ok),
        r matches Ok(job) ==> {
            &&& found is Some
            &&& found->0.broker == "kis"@ || found->0.broker == "kis-domestic"@
            &&& found->0.strategy == "infinite-buying"@
            &&& job.name@ == found->0.name
            &&& job.broker.can_place()
            &&& start_of(found->0) == Ok::<PositionView, Failure>(job.template@)
            &&& found->0.broker == "kis"@ <==> job.market == Market::UsEquity
            &&& job.strategy@.splits == found->0.splits
            &&& found->0.take_profit_pct is Some ==> job.strategy@.take_profit_pct@
                == found->0.take_profit_pct->0
            &&& found->0.take_profit_pct is None ==> job.strategy@.take_profit_pct@ == (
                15i128,
                0u32,
            )
        },
{
    reveal_strlit("kis");
    reveal_strlit("kis-domestic");
    reveal_strlit("toss");
    assert("kis"@.len() == 3);
    assert("kis-domestic"@.len() == 12);
    assert("toss"@.len() == 4);
    if r is Ok {
        let job = r->Ok_0;
        let pc = found->0;
        lemma_who_places(job.broker, pc.broker, pc.account, env, secrets);
        let params = choose|params: StrategyParams| #[trigger]
            is_built_from(job.strategy@, Some(params)) && params.splits == Some(pc.splits)
                && decimal_of(params.take_profit_pct) == pc.take_profit_pct && params.half_boundary
                is None && params.var_base is None && params.var_slope is None
                && params.sell_quarter is None && params.quarter_stop is None;
        law_parameters_left_out_take_their_defaults(job.strategy@, Some(params));
    }
}

/// Jobs are those of the positions at their places, one each: of that name, on its market, and
/// started from its ledger.
pub proof fn law_jobs_are_those_of_their_positions(
    jobs: Seq<EngineJob>,
    places: Seq<int>,
    config: ConfigView,
    secrets: Map<Seq<char>, Seq<char>>,
    i: int,
)
    requires
        are_jobs(jobs, places, config, secrets),
        0 <= i < places.len(),
    ensures
        jobs.len() == places.len(),
        0 <= places[i] < config.positions.len(),
        ({
            let pc = config.positions[places[i]];
            &&& jobs[i].name@ == pc.name
            &&& start_of(pc) == Ok::<PositionView, Failure>(jobs[i].template@)
            &&& is_connection(
                Ok(jobs[i].broker),
                pc.broker,
                pc.account,
                config.env(pc.account),
                secrets,
            )
            &&& jobs[i].market == market_of_broker(pc.broker)
            &&& jobs[i].schedule.at_eastern.nanos == 32_400_000_000_000u64
        }),
{
    assert(is_job_at(jobs[i], places[i], config, secrets));
}

} // verus!
