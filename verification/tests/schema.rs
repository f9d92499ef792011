use codex_auth::auth::AuthInfo;
use codex_auth::json::{parse, Json};
use codex_auth::model::{
    AccountRecord, ApiConfig, AuthMode, AutoSwitchConfig, LiveConfig, PlanType, Registry,
    CURRENT_SCHEMA_VERSION, DEFAULT_LIVE_REFRESH_INTERVAL_SECONDS,
};
use codex_auth::registry::AccountError;
use codex_auth::schema::{
    detect_schema_version, inspect_registry, load_legacy_v2_registry, load_registry,
    migrate_legacy_account, normalize_registry, removes_old_snapshot,
    resolve_legacy_snapshot_path, Inspection, LegacyAccountRecord, LegacyBase, LegacyEntry,
    LegacySnapshot, Loaded, MigrationError, SchemaError, SnapshotFile,
};

fn version_of(text: &str) -> u32 {
    detect_schema_version(&parse(text.as_bytes()).unwrap())
}

fn account(key: &str, email: &str) -> AccountRecord {
    AccountRecord {
        account_key: key.to_owned(),
        chatgpt_account_id: "acc".to_owned(),
        chatgpt_user_id: "user".to_owned(),
        email: email.to_owned(),
        alias: String::new(),
        account_name: None,
        plan: None,
        auth_mode: None,
        created_at: 1,
        last_used_at: None,
        last_usage: None,
        last_usage_at: None,
        last_local_rollout: None,
    }
}

fn info(email: &str) -> AuthInfo {
    AuthInfo {
        email: Some(email.to_owned()),
        chatgpt_account_id: Some("acc".to_owned()),
        chatgpt_user_id: Some("user".to_owned()),
        record_key: Some("user::acc".to_owned()),
        access_token: None,
        last_refresh: None,
        plan: None,
        auth_mode: AuthMode::Chatgpt,
        openai_api_key: None,
    }
}

fn legacy(email: &str) -> LegacyAccountRecord {
    LegacyAccountRecord {
        email: email.to_owned(),
        alias: "work".to_owned(),
        plan: Some(PlanType::Pro),
        created_at: 11,
        last_used_at: Some(12),
        last_usage: None,
        last_usage_at: Some(13),
    }
}

#[test]
fn default_registry() {
    let registry = Registry::default();
    assert_eq!(registry.schema_version, 4);
    assert!(!registry.auto_switch.enabled);
    assert_eq!(registry.auto_switch.threshold_5h_percent, 1);
    assert_eq!(registry.auto_switch.threshold_weekly_percent, 1);
    assert!(registry.api.usage && registry.api.account);
    assert_eq!(registry.live.interval_seconds, DEFAULT_LIVE_REFRESH_INTERVAL_SECONDS);
    assert_eq!(registry.live.interval_seconds, 60);
    assert!(registry.accounts.is_empty());
}

#[test]
fn documents_are_read() {
    let root = parse(br#"{"a":[1,"x",null,true,-1,1.5],"b":{"c":"d","e":""}}"#).unwrap();
    match root.get("a").unwrap() {
        Json::Array(items) => {
            assert_eq!(items.len(), 6);
            assert_eq!(items[0].as_u64(), Some(1));
            assert_eq!(items[1].as_text(), Some("x"));
            assert!(matches!(items[2], Json::Null));
            assert!(matches!(items[3], Json::Bool(true)));
            assert_eq!(items[4].as_u64(), None);
            assert_eq!(items[5].as_u64(), None);
        }
        _ => panic!("a list"),
    }
    let b = root.get("b").unwrap();
    assert_eq!(b.text_member("c"), Some("d"));
    assert_eq!(b.text_member("e"), Some(""));
    assert_eq!(b.filled_member("e"), None);
    assert_eq!(b.text_member("missing"), None);
    assert!(parse(b"{").is_none());
}

#[test]
fn versions() {
    assert_eq!(version_of(r#"{"schema_version":3}"#), 3);
    assert_eq!(version_of(r#"{"version":2}"#), 2);
    assert_eq!(version_of(r#"{"schema_version":4,"version":2}"#), 4);
    assert_eq!(version_of(r#"{"schema_version":"x","version":2}"#), 4);
    assert_eq!(version_of(r#"{"schema_version":-1,"active_email":"x"}"#), 2);
    assert_eq!(version_of(r#"{"active_email":null}"#), 2);
    assert_eq!(version_of(r#"{"schema_version":5000000000}"#), 4);
    assert_eq!(version_of("{}"), 4);
}

#[test]
fn inspections() {
    assert_eq!(inspect_registry(b"{").unwrap_err(), SchemaError::InvalidJson);
    assert!(matches!(inspect_registry(b"[]"), Ok(Inspection::Empty)));
    assert_eq!(inspect_registry(br#"{"schema_version":5}"#).unwrap_err(), SchemaError::TooNew(5));
    assert_eq!(inspect_registry(br#"{"schema_version":1}"#).unwrap_err(), SchemaError::TooOld(1));
    let rewrite = |text: &str| match inspect_registry(text.as_bytes()) {
        Ok(Inspection::Stored { needs_rewrite, legacy: None, .. }) => needs_rewrite,
        _ => panic!("a registry by keys"),
    };
    assert!(!rewrite(r#"{"schema_version":4,"live":{}}"#));
    assert!(rewrite(r#"{"schema_version":3,"live":{}}"#));
    assert!(rewrite(r#"{"version":4,"live":{}}"#));
    assert!(rewrite(r#"{"schema_version":4}"#));
    assert!(rewrite(r#"{"schema_version":4,"live":{},"active_account_key":null}"#));
    assert!(!rewrite(
        r#"{"schema_version":4,"live":{},"active_account_key":"a","active_account_activated_at_ms":0}"#
    ));
    match inspect_registry(
        br#"{"version":2,"active_email":"John@X","accounts":[{"email":"a"},{"account_key":"k"},7]}"#,
    ) {
        Ok(Inspection::Stored { schema_version, needs_rewrite, legacy: Some(base) }) => {
            assert_eq!(schema_version, 2);
            assert!(needs_rewrite);
            assert!(base.active_account_key.is_none());
            assert_eq!(base.active_email.as_deref(), Some("john@x"));
            assert_eq!(base.has_key, vec![false, true, false]);
        }
        _ => panic!("a registry by email"),
    }
}

#[test]
fn refusals_are_explained() {
    assert_eq!(SchemaError::InvalidJson.message(), "invalid registry json");
    assert_eq!(
        SchemaError::TooNew(12).message(),
        "registry schema_version 12 is newer than this codex-auth binary supports (max 4); upgrade codex-auth"
    );
    assert_eq!(
        SchemaError::TooOld(1).message(),
        "registry schema_version 1 is older than the minimum supported 2; use an intermediate codex-auth release or import --purge"
    );
}

#[test]
fn registries_are_normalized() {
    let mut registry = Registry::default();
    registry.schema_version = 3;
    registry.auto_switch =
        AutoSwitchConfig { enabled: true, threshold_5h_percent: 20, threshold_weekly_percent: 30 };
    registry.active_account_key = Some("a".to_owned());
    normalize_registry(&mut registry, 3);
    assert_eq!(registry.schema_version, CURRENT_SCHEMA_VERSION);
    assert!(registry.auto_switch.enabled);
    assert_eq!(registry.auto_switch.threshold_5h_percent, 1);
    assert_eq!(registry.auto_switch.threshold_weekly_percent, 1);
    assert_eq!(registry.active_account_activated_at_ms, Some(0));
    registry.auto_switch.threshold_5h_percent = 20;
    registry.active_account_activated_at_ms = Some(9);
    normalize_registry(&mut registry, 4);
    assert_eq!(registry.auto_switch.threshold_5h_percent, 20);
    assert_eq!(registry.active_account_activated_at_ms, Some(9));
}

#[test]
fn registries_are_loaded() {
    let read = |data: &[u8], version: u32| {
        assert_eq!(version, if data.len() > 60 { 4 } else { 3 });
        let mut registry = Registry::default();
        registry.active_account_key = Some("k".to_owned());
        registry.auto_switch.threshold_5h_percent = 20;
        registry.accounts.push(account("k", "a@x"));
        if data.ends_with(b" ") { None } else { Some(registry) }
    };
    let load = |text: Option<&str>| load_registry(text.map(|t| t.as_bytes()), read);
    match load(None).unwrap() {
        Loaded::Registry { registry, needs_rewrite } => {
            assert!(registry.accounts.is_empty() && !needs_rewrite);
        }
        Loaded::Legacy { .. } => panic!("an empty registry"),
    }
    assert!(matches!(load(Some("[]")), Ok(Loaded::Registry { needs_rewrite: false, .. })));
    assert_eq!(load(Some("{")).unwrap_err(), SchemaError::InvalidJson);
    assert_eq!(load(Some(r#"{"version":9}"#)).unwrap_err(), SchemaError::TooNew(9));
    assert_eq!(load(Some(r#"{"version":3} "#)).unwrap_err(), SchemaError::InvalidJson);
    match load(Some(r#"{"version":3}"#)).unwrap() {
        Loaded::Registry { registry, needs_rewrite } => {
            assert!(needs_rewrite);
            assert_eq!(registry.auto_switch.threshold_5h_percent, 1);
            assert_eq!(registry.active_account_activated_at_ms, Some(0));
        }
        Loaded::Legacy { .. } => panic!("a registry by keys"),
    }
    match load(Some(r#"{"version":2,"active_email":"B@x"}"#)).unwrap() {
        Loaded::Legacy { base, schema_version, needs_rewrite } => {
            assert_eq!(base.active_email.as_deref(), Some("b@x"));
            assert_eq!(schema_version, 2);
            assert!(needs_rewrite);
        }
        Loaded::Registry { .. } => panic!("a registry by email"),
    }
    let saved =
        r#"{"schema_version":4,"active_account_key":"k","active_account_activated_at_ms":null,"live":{}}"#;
    match load(Some(saved)).unwrap() {
        Loaded::Registry { registry, needs_rewrite } => {
            assert!(!needs_rewrite);
            assert_eq!(registry.auto_switch.threshold_5h_percent, 20);
            assert_eq!(registry.accounts.len(), 1);
        }
        Loaded::Legacy { .. } => panic!("a registry by keys"),
    }
}

#[test]
fn old_accounts_are_taken_over() {
    let record = migrate_legacy_account(&legacy("John@X"), &info("john@x")).unwrap();
    assert_eq!(record.account_key, "user::acc");
    assert_eq!(record.alias, "work");
    assert_eq!(record.plan, Some(PlanType::Pro));
    assert_eq!(record.created_at, 11);
    assert_eq!(record.last_used_at, Some(12));
    assert_eq!(record.last_usage_at, Some(13));
    let mut with_plan = info("john@x");
    with_plan.plan = Some(PlanType::Team);
    let record = migrate_legacy_account(&legacy("john@x"), &with_plan).unwrap();
    assert_eq!(record.plan, Some(PlanType::Team));
    assert_eq!(
        migrate_legacy_account(&legacy("mary@x"), &info("john@x")).unwrap_err(),
        MigrationError::EmailMismatch
    );
    let mut unidentified = info("john@x");
    unidentified.record_key = None;
    assert_eq!(
        migrate_legacy_account(&legacy("john@x"), &unidentified).unwrap_err(),
        MigrationError::Account(AccountError::MissingRecordKey)
    );
    assert_eq!(MigrationError::EmailMismatch.message(), "legacy account email mismatch");
    assert_eq!(
        MigrationError::Account(AccountError::MissingRecordKey).message(),
        "auth is missing record key"
    );
}

#[test]
fn old_snapshots_are_found() {
    let file = |name: &str, email: &str| SnapshotFile {
        name: name.to_owned(),
        auth: Some(info(email)),
    };
    let files = [
        SnapshotFile { name: "bad.auth.json".to_owned(), auth: None },
        file("notes.json", "john@x"),
        file("auth.json.bak.1.auth.json", "john@x"),
        file("one.auth.json", "john@x"),
        file("two.auth.json", "john@x"),
    ];
    let active = Some(info("mary@x"));
    let find = |by_email: bool, email: &str| {
        resolve_legacy_snapshot_path(by_email, &files, &active, email)
    };
    assert_eq!(find(true, "john@x"), Some(LegacySnapshot::ByEmail));
    assert_eq!(find(false, "john@x"), Some(LegacySnapshot::File(3)));
    assert_eq!(find(false, "mary@x"), Some(LegacySnapshot::Active));
    assert_eq!(find(false, "nobody@x"), None);
    assert!(removes_old_snapshot(LegacySnapshot::ByEmail, "john@x", "user::acc"));
    assert!(!removes_old_snapshot(LegacySnapshot::ByEmail, "john@x", "john@x"));
    assert!(!removes_old_snapshot(LegacySnapshot::File(0), "john@x", "user::acc"));
}

#[test]
fn old_registry_becomes_a_new_one() {
    let base = LegacyBase {
        active_account_key: None,
        active_email: Some("b@x".to_owned()),
        has_key: vec![true, false, false],
    };
    let entry = |key: &str, email: &str, by_email: bool| LegacyEntry {
        record: account(key, email),
        by_email,
    };
    let registry = load_legacy_v2_registry(
        &base,
        AutoSwitchConfig::default(),
        ApiConfig { usage: false, account: true },
        LiveConfig { interval_seconds: 5 },
        vec![entry("k0", "b@x", false), entry("k1", "b@x", true), entry("k2", "b@x", true), entry("k1", "c@x", true)],
    );
    assert_eq!(registry.active_account_key.as_deref(), Some("k1"));
    assert_eq!(registry.active_account_activated_at_ms, Some(0));
    assert!(!registry.api.usage);
    assert_eq!(registry.live.interval_seconds, 5);
    let keys: Vec<&str> = registry.accounts.iter().map(|a| a.account_key.as_str()).collect();
    assert_eq!(keys, vec!["k0", "k1", "k2"]);
    assert_eq!(registry.accounts[1].email, "c@x");
    let unknown = LegacyBase {
        active_account_key: None,
        active_email: Some("z@x".to_owned()),
        has_key: vec![false],
    };
    let registry = load_legacy_v2_registry(
        &unknown,
        AutoSwitchConfig::default(),
        ApiConfig::default(),
        LiveConfig::default(),
        vec![entry("k1", "b@x", true)],
    );
    assert!(registry.active_account_key.is_none());
    assert!(registry.active_account_activated_at_ms.is_none());
    let named = LegacyBase {
        active_account_key: Some("k9".to_owned()),
        active_email: Some("b@x".to_owned()),
        has_key: vec![false],
    };
    let registry = load_legacy_v2_registry(
        &named,
        AutoSwitchConfig::default(),
        ApiConfig::default(),
        LiveConfig::default(),
        vec![entry("k1", "b@x", true)],
    );
    assert_eq!(registry.active_account_key.as_deref(), Some("k9"));
    assert_eq!(registry.active_account_activated_at_ms, Some(0));
}
