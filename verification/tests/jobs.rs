use drip::calendar::Market;
use drip::config::{AccountConfig, AppConfig, PositionConfig};
use drip::connect::LiveBroker;
use drip::decimal::Decimal;
use drip::jobs::{plan_run, tick_job, RunRefusal, TickRefusal};
use drip::kis_session::KisEnv;
use drip::schedule::Schedule;
use drip::secrets::SecretMap;

fn position(name: &str, account: &str, broker: &str) -> PositionConfig {
    PositionConfig {
        name: name.into(),
        account: account.into(),
        broker: broker.into(),
        ticker: "TQQQ".into(),
        seed: Decimal::parse("4000").unwrap(),
        splits: 20,
        strategy: "infinite-buying".into(),
        take_profit_pct: None,
    }
}

fn secrets() -> SecretMap {
    let mut secrets = SecretMap::new();
    for account in ["kis-paper", "kis-real", "toss"] {
        for (field, value) in [
            ("app_key", "k"),
            ("app_secret", "s"),
            ("cano", "12345678"),
            ("product_code", "01"),
            ("exchange", "nasdaq"),
            ("account_seq", "7"),
        ] {
            secrets.set(&format!("{account}_{field}"), value);
        }
    }
    secrets
}

#[test]
fn a_tick_job_is_resolved_from_the_configuration() {
    let mut config = AppConfig::default();
    config.upsert_account(AccountConfig {
        name: "kis-real".into(),
        env: "real".into(),
    });
    config.upsert(position("tqqq", "kis-real", "kis"));
    let job = tick_job(&config, &secrets(), "tqqq").unwrap();
    assert_eq!(job.name, "tqqq");
    assert_eq!(job.market, Market::UsEquity);
    assert_eq!(job.schedule, Schedule::daily_before_open());
    assert_eq!(job.strategy.config().splits, 20);
    assert!(job.template.is_flat());
    match job.broker {
        LiveBroker::Kis(broker) => assert_eq!(broker.config().environment, KisEnv::Real),
        _ => panic!("kis expected"),
    }
}

#[test]
fn a_position_that_cannot_be_ticked_is_refused() {
    let mut config = AppConfig::default();
    config.upsert(position("read-only", "toss", "toss"));
    config.upsert(position("no-credentials", "other", "kis"));
    config.upsert(position("simulated", "paper", "paper"));
    let mut odd = position("odd", "kis-paper", "kis");
    odd.strategy = "nope".into();
    config.upsert(odd);
    match tick_job(&config, &secrets(), "missing") {
        Err(TickRefusal::Unknown(text)) => assert_eq!(
            text,
            "no position 'missing' — add one with `drip strategy add`"
        ),
        _ => panic!("unknown expected"),
    }
    match tick_job(&config, &secrets(), "read-only") {
        Err(TickRefusal::CannotPlace(text)) => assert_eq!(
            text,
            "broker 'toss' does not support order placement (KIS only in M2.1)"
        ),
        _ => panic!("refusal expected"),
    }
    for name in ["no-credentials", "simulated", "odd"] {
        assert!(matches!(
            tick_job(&config, &secrets(), name),
            Err(TickRefusal::Failed(_))
        ));
    }
}

#[test]
fn a_domestic_position_can_be_ticked_by_hand() {
    let mut config = AppConfig::default();
    config.upsert(position("kodex", "kis-paper", "kis-domestic"));
    let job = tick_job(&config, &secrets(), "kodex").unwrap();
    assert_eq!(job.market, Market::KrEquity);
}

#[test]
fn the_daemon_runs_what_it_can_and_remarks_on_the_rest() {
    let mut config = AppConfig::default();
    config.upsert(position("kodex", "kis-paper", "kis-domestic"));
    config.upsert(position("tqqq", "kis-paper", "kis"));
    config.upsert(position("t", "toss", "toss"));
    config.upsert(position("soxl", "kis-real", "kis"));
    let plan = plan_run(&config, &secrets()).unwrap();
    let names: Vec<&str> = plan.jobs.iter().map(|j| j.name.as_str()).collect();
    assert_eq!(names, vec!["tqqq", "soxl"]);
    assert_eq!(plan.remarks.len(), 2);
    assert!(plan.remarks[0].contains("'kodex'"));
    assert!(plan.remarks[1].contains("'t'"));
}

#[test]
fn the_daemon_does_not_start_without_work_or_with_a_mistake() {
    let mut config = AppConfig::default();
    let refusal = plan_run(&config, &secrets()).unwrap_err();
    assert!(matches!(refusal, RunRefusal::NoPositions));
    assert_eq!(
        refusal.to_text(),
        "no positions configured — add one with `drip strategy add`"
    );
    config.upsert(position("kodex", "kis-paper", "kis-domestic"));
    assert!(matches!(
        plan_run(&config, &secrets()),
        Err(RunRefusal::NoneCanPlace)
    ));
    config.upsert(position("tqqq", "kis-paper", "kis"));
    config.upsert(position("broken", "nobody", "kis"));
    assert!(matches!(
        plan_run(&config, &secrets()),
        Err(RunRefusal::Failed(_))
    ));
}
