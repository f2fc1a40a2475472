use drip::connect::{connect, parse_exchange, sequence_or_error, LiveBroker};
use drip::error::DomainError;
use drip::kis_session::{KisEnv, KisExchange};
use drip::ports::BrokerInfo;
use drip::secrets::SecretMap;

fn seed_kis(secrets: &mut SecretMap, account: &str) {
    for (field, v) in [
        ("app_key", "k"),
        ("app_secret", "s"),
        ("cano", "12345678"),
        ("product_code", "01"),
        ("exchange", "nasdaq"),
    ] {
        secrets.set(&format!("{account}_{field}"), v);
    }
}

#[test]
fn connect_kis_requires_all_account_secrets() {
    let mut secrets = SecretMap::new();
    assert!(connect("kis", "kis-paper", "paper", &secrets).is_err()); // nothing stored
    seed_kis(&mut secrets, "kis-paper");
    assert!(matches!(
        connect("kis", "kis-paper", "paper", &secrets).unwrap(),
        LiveBroker::Kis(_)
    ));
}

#[test]
fn connect_resolves_creds_by_account_not_broker() {
    // Two KIS accounts hold different credentials under their own prefixes.
    let mut secrets = SecretMap::new();
    seed_kis(&mut secrets, "kis-paper");
    secrets.set("kis-real_app_key", "real");
    secrets.set("kis-real_app_secret", "rs");
    secrets.set("kis-real_cano", "99999999");
    secrets.set("kis-real_product_code", "01");
    secrets.set("kis-real_exchange", "nyse");
    assert!(matches!(
        connect("kis-domestic", "kis-real", "real", &secrets).unwrap(),
        LiveBroker::KisDomestic(_)
    ));
    // The paper account's creds alone don't satisfy a real-account connect on another name.
    assert!(connect("kis", "kis-missing", "real", &secrets).is_err());
}

#[test]
fn connect_kis_rejects_a_bad_env() {
    let mut secrets = SecretMap::new();
    seed_kis(&mut secrets, "kis-paper");
    assert!(connect("kis", "kis-paper", "vts", &secrets).is_err());
}

#[test]
fn unknown_broker_is_an_error() {
    assert!(connect("nope", "any", "paper", &SecretMap::new()).is_err());
}

#[test]
fn the_connection_holds_the_accounts_credentials() {
    let mut secrets = SecretMap::new();
    seed_kis(&mut secrets, "a");
    seed_kis(&mut secrets, "b");
    secrets.set("b_app_key", "other");
    let broker = match connect("kis", "b", "real", &secrets).unwrap() {
        LiveBroker::Kis(broker) => broker,
        _ => panic!("kis expected"),
    };
    assert_eq!(broker.config().app_key, "other");
    assert_eq!(broker.config().cano, "12345678");
    assert_eq!(broker.config().environment, KisEnv::Real);
    assert!(!broker.capabilities().paper_account);
}

#[test]
fn toss_needs_a_whole_account_sequence() {
    let mut secrets = SecretMap::new();
    secrets.set("t_app_key", "k");
    secrets.set("t_app_secret", "s");
    assert!(matches!(
        connect("toss", "t", "real", &secrets),
        Err(DomainError::Config(_))
    ));
    secrets.set("t_account_seq", "seven");
    assert!(connect("toss", "t", "real", &secrets).is_err());
    secrets.set("t_account_seq", "7");
    let broker = connect("toss", "t", "real", &secrets).unwrap();
    assert!(!broker.places_orders());
    match broker {
        LiveBroker::Toss(toss) => assert_eq!(toss.config().account_seq, 7),
        _ => panic!("toss expected"),
    }
    assert!(sequence_or_error("t", Err("bad".into())).is_err());
}

#[test]
fn exchanges_are_read_in_any_case() {
    assert_eq!(parse_exchange("NASDAQ").unwrap(), KisExchange::Nasdaq);
    assert_eq!(parse_exchange("nyse").unwrap(), KisExchange::Nyse);
    assert_eq!(parse_exchange("Amex").unwrap(), KisExchange::Amex);
    assert!(parse_exchange("krx").is_err());
}

#[test]
fn set_get_delete_round_trip() {
    let mut store = SecretMap::new();
    assert_eq!(store.get("kis_app_key"), None);
    store.set("kis_app_key", "abc");
    assert_eq!(store.get("kis_app_key").map(String::as_str), Some("abc"));
    store.delete("kis_app_key");
    assert_eq!(store.get("kis_app_key"), None);
}

#[test]
fn a_key_is_kept_once_with_its_last_value() {
    let mut store = SecretMap::new();
    store.set("b", "2");
    store.set("a", "1");
    store.set("b", "3");
    assert_eq!(store.get("b").map(String::as_str), Some("3"));
    let mut entries = store.into_entries();
    entries.sort();
    assert_eq!(
        entries,
        vec![
            ("a".to_string(), "1".to_string()),
            ("b".to_string(), "3".to_string())
        ]
    );
}
