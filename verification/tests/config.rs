use drip::config::{AccountConfig, AppConfig, PositionConfig};
use drip::data::{parse_date, read_bars, CsvRow};
use drip::date::Date;
use drip::decimal::Decimal;
use drip::error::DomainError;
use drip::market::{AccountId, BrokerId, Ticker};
use drip::migrate::{
    account_for, assign_account, is_legacy_positions, legacy_env, migrate_config, migrate_home,
    migrate_secrets, rekey, MigrationReport,
};
use drip::money::{Money, Price, Shares};
use drip::position::Position;
use drip::secrets::SecretMap;

fn dec(s: &str) -> Decimal {
    Decimal::parse(s).unwrap()
}

fn date(year: i32, month: u8, day: u8) -> Date {
    Date::from_calendar_date(year, month, day).unwrap()
}

fn position(name: &str, account: &str, broker: &str, ticker: &str, seed: &str) -> PositionConfig {
    PositionConfig {
        name: name.into(),
        account: account.into(),
        broker: broker.into(),
        ticker: ticker.into(),
        seed: dec(seed),
        splits: 40,
        strategy: "infinite-buying".into(),
        take_profit_pct: None,
    }
}

fn text_value(s: &str) -> toml::Value {
    toml::Value::String(s.to_string())
}

// The configuration as a TOML document: amounts as texts, an absent override left out.
fn to_toml(config: &AppConfig) -> toml::Table {
    let mut accounts = Vec::new();
    for a in &config.accounts {
        let mut row = toml::Table::new();
        row.insert("name".into(), text_value(&a.name));
        row.insert("env".into(), text_value(&a.env));
        accounts.push(toml::Value::Table(row));
    }
    let mut positions = Vec::new();
    for p in &config.positions {
        let mut row = toml::Table::new();
        row.insert("name".into(), text_value(&p.name));
        row.insert("account".into(), text_value(&p.account));
        row.insert("broker".into(), text_value(&p.broker));
        row.insert("ticker".into(), text_value(&p.ticker));
        row.insert("seed".into(), text_value(&p.seed.to_text()));
        row.insert("splits".into(), toml::Value::Integer(p.splits.into()));
        row.insert("strategy".into(), text_value(&p.strategy));
        if let Some(pct) = p.take_profit_pct {
            row.insert("take_profit_pct".into(), text_value(&pct.to_text()));
        }
        positions.push(toml::Value::Table(row));
    }
    let mut document = toml::Table::new();
    document.insert("accounts".into(), toml::Value::Array(accounts));
    document.insert("positions".into(), toml::Value::Array(positions));
    document
}

fn from_toml(document: &toml::Table) -> AppConfig {
    let text = |row: &toml::Value, key: &str| row[key].as_str().unwrap().to_string();
    let mut config = AppConfig::default();
    for row in document["accounts"].as_array().unwrap() {
        config.upsert_account(AccountConfig {
            name: text(row, "name"),
            env: text(row, "env"),
        });
    }
    for row in document["positions"].as_array().unwrap() {
        config.upsert(PositionConfig {
            name: text(row, "name"),
            account: text(row, "account"),
            broker: text(row, "broker"),
            ticker: text(row, "ticker"),
            seed: dec(&text(row, "seed")),
            splits: row["splits"].as_integer().unwrap() as u32,
            strategy: text(row, "strategy"),
            take_profit_pct: row
                .get("take_profit_pct")
                .map(|pct| dec(pct.as_str().unwrap())),
        });
    }
    config
}

#[test]
fn round_trips_through_toml() {
    let mut config = AppConfig::default();
    config.upsert_account(AccountConfig {
        name: "kis-paper".into(),
        env: "paper".into(),
    });
    let mut p = position("tqqq-kis", "kis-paper", "kis", "TQQQ", "4000");
    p.take_profit_pct = Some(dec("15"));
    config.upsert(p);
    let text = toml::to_string(&to_toml(&config)).unwrap();
    let document: toml::Table = toml::from_str(&text).unwrap();
    let parsed = from_toml(&document);
    assert_eq!(parsed.positions.len(), 1);
    assert_eq!(parsed.find("tqqq-kis").unwrap().seed, dec("4000"));
    assert_eq!(parsed.find("tqqq-kis").unwrap().account, "kis-paper");
    assert_eq!(parsed.find("tqqq-kis").unwrap().take_profit_pct, Some(dec("15")));
    assert_eq!(parsed.find_account("kis-paper").unwrap().env, "paper");
}

#[test]
fn upsert_replaces_same_name() {
    let mut config = AppConfig::default();
    let mut p = position("x", "paper", "paper", "TQQQ", "1000");
    config.upsert(p.clone());
    p.seed = dec("2000");
    config.upsert(p);
    assert_eq!(config.positions.len(), 1);
    assert_eq!(config.find("x").unwrap().seed, dec("2000"));
}

#[test]
fn accounts_without_an_entry_are_paper() {
    let mut config = AppConfig::default();
    assert_eq!(config.env_for("kis-real"), "paper");
    config.upsert_account(AccountConfig {
        name: "kis-real".into(),
        env: "real".into(),
    });
    assert_eq!(config.env_for("kis-real"), "real");
    assert!(config.find_account("other").is_none());
    assert!(config.find("other").is_none());
}

#[test]
fn a_configured_position_starts_flat() {
    let p = position("kodex", "kis-paper", "kis-domestic", "122630", "24000000")
        .to_position()
        .unwrap();
    assert_eq!(p.account, AccountId::new("kis-paper"));
    assert_eq!(p.broker, BrokerId::Kis);
    assert_eq!(p.daily_budget(), Money::new(dec("600000")));
    assert!(p.is_flat());
    assert!(position("x", "a", "nope", "T", "1").to_position().is_err());
    let params = position("x", "a", "kis", "T", "1").strategy_params();
    assert_eq!(params.splits, Some(40));
    assert_eq!(params.take_profit_pct, None);
}

fn csv_row(day: &str, open: &str, high: &str, low: &str, close: &str) -> CsvRow {
    CsvRow {
        date: day.into(),
        open: open.into(),
        high: high.into(),
        low: low.into(),
        close: close.into(),
    }
}

#[test]
fn parses_and_filters_bars() {
    let rows = vec![
        csv_row("2026-01-02", "100", "101", "99", "100"),
        csv_row("2026-01-09", "110", "116", "109", "115"),
        csv_row("2026-02-01", "120", "121", "119", "120"),
    ];
    let bars = read_bars(&rows, date(2026, 1, 1), date(2026, 1, 31)).unwrap();
    assert_eq!(bars.len(), 2); // the February bar is filtered out
    assert_eq!(bars[0].close, Price::new(dec("100")).unwrap());
}

#[test]
fn bars_come_out_in_order() {
    let rows = vec![
        csv_row("2026-01-09", "110", "116", "109", "115"),
        csv_row("2026-01-02", "100", "101", "99", "100"),
        csv_row("2026-01-05", "100", "101", "99", "101"),
    ];
    let bars = read_bars(&rows, date(2026, 1, 1), date(2026, 1, 31)).unwrap();
    let days: Vec<String> = bars.iter().map(|b| b.date.to_text()).collect();
    assert_eq!(days, vec!["2026-01-02", "2026-01-05", "2026-01-09"]);
}

#[test]
fn rows_that_cannot_be_read_fail_the_file() {
    let range = (date(2026, 1, 1), date(2026, 1, 31));
    for bad in [
        csv_row("01/02/2026", "100", "101", "99", "100"),
        csv_row("2026-01-02", "abc", "101", "99", "100"),
        csv_row("2026-01-02", "100", "101", "99", "0"),
    ] {
        assert!(matches!(
            read_bars(&[bad], range.0, range.1),
            Err(DomainError::MarketData(_))
        ));
    }
    assert_eq!(parse_date("2026-01-02").unwrap(), date(2026, 1, 2));
    assert!(parse_date("soon").is_err());
}

fn seed_legacy_kis(secrets: &mut SecretMap, env: &str) {
    for (k, v) in [
        ("kis_env", env),
        ("kis_app_key", "legacy-key"),
        ("kis_app_secret", "legacy-secret"),
        ("kis_cano", "12345678"),
        ("kis_product_code", "01"),
        ("kis_exchange", "nasdaq"),
    ] {
        secrets.set(k, v);
    }
}

#[test]
fn state_migration_preserves_the_ledger_by_value() {
    let mut secrets = SecretMap::new();
    seed_legacy_kis(&mut secrets, "paper");
    let columns: Vec<String> = ["broker", "ticker", "data"].iter().map(|s| s.to_string()).collect();
    assert!(is_legacy_positions(&columns));

    let mut kodex = Position::new(
        AccountId::new(""), // legacy rows had no account
        BrokerId::Kis,
        Ticker::new("122630"),
        Money::new(dec("24000000")),
        40,
    );
    kodex.shares = Shares::new(4);
    kodex.avg_price = Price::new(dec("194101.25"));
    kodex.cum_spent = Money::new(dec("776405"));
    kodex.reconciled_through = Some(date(2026, 6, 24));
    let kodex = assign_account(kodex, "kis", &legacy_env(&secrets));
    assert_eq!(kodex.account, AccountId::new("kis-paper"));
    assert_eq!(kodex.broker, BrokerId::Kis);
    assert_eq!(kodex.shares, Shares::new(4));
    assert_eq!(kodex.avg_price, Price::new(dec("194101.25")));
    assert_eq!(kodex.cum_spent, Money::new(dec("776405")));
    assert_eq!(kodex.seed, Money::new(dec("24000000")));
    assert_eq!(kodex.reconciled_through, Some(date(2026, 6, 24)));

    // Idempotent: an account-keyed table is not a legacy one.
    let columns: Vec<String> = ["account", "ticker", "data"].iter().map(|s| s.to_string()).collect();
    assert!(!is_legacy_positions(&columns));
}

#[test]
fn migration_rekeys_the_order_journal() {
    // The broker-prefixed reservation is re-keyed to the account.
    let once = rekey("kis:122630:2026-06-24:loc_low", "paper").unwrap();
    assert_eq!(once, "kis-paper:122630:2026-06-24:loc_low");
    // Idempotent: the already-account-keyed entry is left untouched.
    assert_eq!(rekey(&once, "paper"), None);
}

#[test]
fn config_and_secrets_migrate_and_are_idempotent() {
    // A pre-account config: a domestic position with no account, no accounts at all.
    let mut config = AppConfig::default();
    config.upsert(position("kodex", "", "kis-domestic", "122630", "24000000"));
    let mut secrets = SecretMap::new();
    seed_legacy_kis(&mut secrets, "real");

    let env = legacy_env(&secrets);
    let accounts = migrate_config(&mut config, &env);
    migrate_secrets(&mut secrets, &env);
    assert_eq!(accounts, vec!["kis-real".to_string()]);

    // Config: the position is now on `kis-real`, and the account is registered with env=real.
    assert_eq!(config.find("kodex").unwrap().account, "kis-real");
    assert_eq!(config.find_account("kis-real").unwrap().env, "real");

    // Secrets: creds moved under the account prefix; the flat keys (and kis_env) are gone.
    assert_eq!(
        secrets.get("kis-real_app_key").map(String::as_str),
        Some("legacy-key")
    );
    assert_eq!(
        secrets.get("kis-real_exchange").map(String::as_str),
        Some("nasdaq")
    );
    assert!(secrets.get("kis_app_key").is_none());
    assert!(secrets.get("kis_env").is_none());

    // Idempotent: re-running changes nothing more.
    let env = legacy_env(&secrets);
    let again = MigrationReport {
        accounts: migrate_config(&mut config, &env),
        state_backup: None,
    };
    migrate_secrets(&mut secrets, &env);
    assert!(!again.did_anything());
    assert_eq!(config.accounts.len(), 1);
    assert_eq!(config.find("kodex").unwrap().account, "kis-real");
    assert_eq!(
        secrets.get("kis-real_app_key").map(String::as_str),
        Some("legacy-key")
    );
}

#[test]
fn accounts_are_named_by_broker_and_environment() {
    assert_eq!(account_for("kis", "paper"), "kis-paper");
    assert_eq!(account_for("kis-domestic", "real"), "kis-real");
    assert_eq!(account_for("toss", "real"), "toss");
    assert_eq!(account_for("paper", "real"), "paper");
}

#[test]
fn a_backup_alone_counts_as_done() {
    let report = MigrationReport {
        accounts: vec![],
        state_backup: Some("state.db.bak".into()),
    };
    assert!(report.did_anything());
}

#[test]
fn migrated_secrets_stand_under_the_account_and_others_stay() {
    let mut secrets = SecretMap::new();
    seed_legacy_kis(&mut secrets, "paper");
    secrets.set("toss_client_id", "c");
    let before: Vec<Option<String>> = ["app_key", "app_secret", "cano", "product_code", "exchange"]
        .iter()
        .map(|field| secrets.get(&format!("kis_{field}")).cloned())
        .collect();
    assert!(before.iter().all(Option::is_some));

    migrate_secrets(&mut secrets, "paper");
    let after: Vec<Option<String>> = ["app_key", "app_secret", "cano", "product_code", "exchange"]
        .iter()
        .map(|field| secrets.get(&format!("kis-paper_{field}")).cloned())
        .collect();
    assert_eq!(after, before);
    assert_eq!(secrets.get("toss_client_id").map(String::as_str), Some("c"));
    assert_eq!(secrets.into_entries().len(), 6);
}

#[test]
fn exactly_unicode_white_space_is_trimmed() {
    let white = [
        '\t', '\n', '\u{b}', '\u{c}', '\r', ' ', '\u{85}', '\u{a0}', '\u{1680}', '\u{2000}',
        '\u{2001}', '\u{2002}', '\u{2003}', '\u{2004}', '\u{2005}', '\u{2006}', '\u{2007}',
        '\u{2008}', '\u{2009}', '\u{200a}', '\u{2028}', '\u{2029}', '\u{202f}', '\u{205f}',
        '\u{3000}',
    ];
    for c in '\0'..=char::MAX {
        let name = format!("{c}a b{c}");
        let expected = if white.contains(&c) { "a b" } else { name.as_str() };
        assert_eq!(AccountId::new(&name).as_str(), expected);
    }
    assert_eq!(Ticker::new("\u{3000} tqqq\n").as_str(), "TQQQ");
    assert_eq!(AccountId::new(" \t ").as_str(), "");
}

#[test]
fn a_second_migration_of_a_home_does_nothing() {
    let mut config = AppConfig::default();
    config.upsert(position("tqqq", "", "kis", "TQQQ", "4000"));
    let mut secrets = SecretMap::new();
    seed_legacy_kis(&mut secrets, "real");
    let old: Vec<String> = ["broker", "ticker", "data"].iter().map(|s| s.to_string()).collect();
    let first = migrate_home(&mut config, &mut secrets, &old);
    assert_eq!(first.env, "real");
    assert_eq!(first.accounts, vec!["kis-real".to_string()]);
    assert!(first.rewrite_ledger && first.config_changed && first.secrets_changed);

    // The environment is gone by now, so the second run takes it as paper.
    let new: Vec<String> = ["account", "ticker", "data"].iter().map(|s| s.to_string()).collect();
    let second = migrate_home(&mut config, &mut secrets, &new);
    assert_eq!(second.env, "paper");
    assert!(second.accounts.is_empty());
    assert!(!second.rewrite_ledger && !second.config_changed && !second.secrets_changed);
    assert_eq!(config.find("tqqq").unwrap().account, "kis-real");
    assert_eq!(config.accounts.len(), 1);
    assert!(!MigrationReport::default().did_anything());
}

#[test]
fn keys_are_renamed_once_for_all_environments_but_one() {
    // An environment with a colon is no obstacle.
    let once = rekey("kis:TQQQ:2026-06-24:loc_low", "a:b").unwrap();
    assert_eq!(once, "kis-a:b:TQQQ:2026-06-24:loc_low");
    assert_eq!(rekey(&once, "a:b"), None);
    assert_eq!(rekey(&once, "paper"), None);
    // One that makes the account read as the domestic broker is renamed again.
    let once = rekey("kis:TQQQ:2026-06-24:loc_low", "domestic:x").unwrap();
    assert!(rekey(&once, "domestic:x").is_some());
}

#[test]
fn a_ticker_of_a_ticker_is_the_same() {
    for symbol in ["tqqq", " TqqQ\t", "122630", "", "brk.b"] {
        let once = Ticker::new(symbol);
        assert_eq!(Ticker::new(once.as_str()).as_str(), once.as_str());
        assert_eq!(Ticker::new(&symbol.to_ascii_lowercase()).as_str(), once.as_str());
    }
    for c in '\0'..=char::MAX {
        let once = Ticker::new(&c.to_string());
        assert_eq!(Ticker::new(once.as_str()).as_str(), once.as_str());
    }
}
