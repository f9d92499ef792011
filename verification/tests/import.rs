use codex_auth::auth::{standard_auth_json, AuthError, JwtAuthClaim, JwtClaims};
use codex_auth::chatgpt_api::{MeFetchResult, UsageFetchResult};
use codex_auth::import::{
    finish_purge, import_file, is_purge_source, load_import, prepare_import, purge_file,
    read_import, snapshot_to_store, source_of_me, ImportReport, ImportSource,
};
use codex_auth::model::{
    AccountRecord, ApiConfig, AuthMode, RateLimitSnapshot, RateLimitWindow, Registry, UsedPercent,
};
use codex_auth::registry::{upsert_account, AccountError, ImportOutcome};
use codex_auth::sessions::LatestUsage;
use codex_auth::sync::{
    apply_api_usage, apply_api_usage_at, apply_local_usage, begin_sync, finish_sync,
    names_request, read_active_auth, usage_source, SyncPlan, SyncSource, UsageSource,
};

// The payload of this token is not looked at: the claims are given.
const ID_TOKEN: &str = "h.e30.s";

fn claims(_payload: Vec<u8>) -> Option<JwtClaims> {
    Some(JwtClaims {
        email: Some("John@X".to_owned()),
        auth: Some(JwtAuthClaim {
            chatgpt_account_id: Some("acc".to_owned()),
            chatgpt_plan_type: None,
            chatgpt_user_id: Some("user".to_owned()),
            user_id: None,
        }),
    })
}

fn account(key: &str, email: &str) -> AccountRecord {
    AccountRecord {
        account_key: key.to_owned(),
        chatgpt_account_id: "acc".to_owned(),
        chatgpt_user_id: "user".to_owned(),
        email: email.to_owned(),
        alias: "own".to_owned(),
        account_name: None,
        plan: None,
        auth_mode: Some(AuthMode::Chatgpt),
        created_at: 1,
        last_used_at: None,
        last_usage: None,
        last_usage_at: None,
        last_local_rollout: None,
    }
}

fn snapshot(x: f64) -> RateLimitSnapshot {
    RateLimitSnapshot {
        primary: Some(RateLimitWindow {
            used_percent: UsedPercent {
                bits: x.to_bits(),
                remaining: (100.0 - x).round() as i64,
            },
            window_minutes: None,
            resets_at: None,
        }),
        secondary: None,
        credits: None,
        plan_type: None,
    }
}

fn good_file() -> String {
    standard_auth_json(ID_TOKEN, "token", "r", "acc", "")
}

#[test]
fn reports_count() {
    let mut report = ImportReport::default();
    assert_eq!(report.applied_count(), 0);
    report.push("a".to_owned(), ImportOutcome::Imported);
    report.push("b".to_owned(), ImportOutcome::Updated);
    report.push("c".to_owned(), ImportOutcome::Skipped);
    report.push("d".to_owned(), ImportOutcome::Imported);
    assert_eq!((report.imported, report.updated, report.skipped), (2, 1, 1));
    assert_eq!(report.applied_count(), 3);
    assert_eq!(report.imported + report.updated + report.skipped, report.items.len());
    assert_eq!(report.items[2].label, "c");
    assert_eq!(report.items[2].outcome, ImportOutcome::Skipped);
}

#[test]
fn files_are_prepared() {
    assert_eq!(prepare_import(b"raw".to_vec(), false).unwrap(), b"raw".to_vec());
    assert_eq!(prepare_import(b"raw".to_vec(), true).unwrap_err(), AuthError::InvalidCpaJson);
    let file = prepare_import(br#"{"refresh_token":"r"}"#.to_vec(), true).unwrap();
    assert!(file.starts_with(b"{\n  \"auth_mode\": \"chatgpt\""));
}

#[test]
fn files_turn_out_to_be_accounts() {
    match read_import(good_file().as_bytes(), "work", claims) {
        ImportSource::Account(record) => {
            assert_eq!(record.account_key, "user::acc");
            assert_eq!(record.email, "john@x");
            assert_eq!(record.alias, "work");
        }
        _ => panic!("an account"),
    }
    assert!(matches!(read_import(b"{}", "", claims), ImportSource::Skip));
    assert!(matches!(read_import(b"junk", "", claims), ImportSource::Skip));
    match read_import(br#"{"OPENAI_API_KEY":"k"}"#, "", claims) {
        ImportSource::FetchMe { api_key, auth } => {
            assert_eq!(api_key, "k");
            let me = MeFetchResult { user_id: "u".to_owned(), email: "E@X".to_owned() };
            let record = source_of_me("work", &auth, Some(&me)).unwrap();
            assert_eq!(record.email, "e@x");
            assert_eq!(record.chatgpt_user_id, "u");
            assert!(source_of_me("", &auth, None).is_none());
        }
        _ => panic!("an API key"),
    }
}

#[test]
fn cpa_files_turn_out_to_be_accounts() {
    let data = format!(r#"{{"refresh_token":"r","id_token":"{ID_TOKEN}","account_id":"acc"}}"#);
    let (file, source) = load_import(data.into_bytes(), true, "", claims).unwrap();
    assert_eq!(file, standard_auth_json(ID_TOKEN, "", "r", "acc", "").into_bytes());
    match source {
        ImportSource::Account(record) => assert_eq!(record.account_key, "user::acc"),
        _ => panic!("an account"),
    }
    let error = load_import(b"{}".to_vec(), true, "", claims).unwrap_err();
    assert_eq!(error, AuthError::MissingRefreshToken);
    assert!(load_import(b"{}".to_vec(), false, "", claims).is_ok());
}

#[test]
fn accounts_are_imported() {
    let mut registry = Registry::default();
    let mut report = ImportReport::default();
    assert!(snapshot_to_store(&None).is_none());
    assert!(snapshot_to_store(&Some(account("", "a@x"))).is_none());
    assert_eq!(snapshot_to_store(&Some(account("k", "a@x"))).as_deref(), Some("k.auth.json"));
    let file = || "/tmp/f.json".to_owned();
    import_file(&mut registry, &mut report, file(), Some(account("k", "a@x")), Some("work"));
    assert_eq!(registry.accounts[0].alias, "work");
    import_file(&mut registry, &mut report, file(), Some(account("k", "a@x")), None);
    import_file(&mut registry, &mut report, file(), Some(account("", "b@x")), None);
    import_file(&mut registry, &mut report, file(), None, None);
    assert_eq!(registry.accounts.len(), 1);
    assert_eq!(registry.accounts[0].alias, "");
    assert_eq!((report.imported, report.updated, report.skipped), (1, 1, 2));
    assert_eq!(report.items[0].label, "a@x");
    assert_eq!(report.items[2].label, "/tmp/f.json");
    assert_eq!(report.items[3].outcome, ImportOutcome::Skipped);
}

#[test]
fn registry_is_rebuilt() {
    assert!(!is_purge_source(Some("registry.json")));
    assert!(is_purge_source(Some("x.auth.json")));
    assert!(is_purge_source(None));
    let mut registry = Registry::default();
    let mut report = ImportReport::default();
    let file = || "/tmp/f.json".to_owned();
    purge_file(&mut registry, &mut report, file(), Some(account("k", "a@x")), Some("work"));
    purge_file(&mut registry, &mut report, file(), Some(account("k", "a@x")), Some("work"));
    purge_file(&mut registry, &mut report, file(), None, None);
    assert_eq!(registry.accounts.len(), 1);
    assert_eq!(registry.accounts[0].alias, "work");
    assert_eq!((report.imported, report.updated, report.skipped), (2, 0, 1));
    finish_purge(&mut registry, None);
    assert!(registry.active_account_key.is_none());
    finish_purge(&mut registry, Some(&account("k", "a@x")));
    assert_eq!(registry.active_account_key.as_deref(), Some("k"));
    assert_eq!(registry.active_account_activated_at_ms, Some(0));
}

#[test]
fn active_auth_is_read() {
    let mut registry = Registry::default();
    assert!(matches!(read_active_auth(&registry, None, claims), SyncSource::Nothing));
    match read_active_auth(&registry, Some(b"junk"), claims) {
        SyncSource::Malformed(error) => assert_eq!(error, AuthError::InvalidJson),
        _ => panic!("refused while the registry is empty"),
    }
    match read_active_auth(&registry, Some(b"{}"), claims) {
        SyncSource::Unidentified(error) => assert_eq!(error, AccountError::MissingRecordKey),
        _ => panic!("refused while the registry is empty"),
    }
    match read_active_auth(&registry, Some(good_file().as_bytes()), claims) {
        SyncSource::Account(record) => assert_eq!(record.account_key, "user::acc"),
        _ => panic!("an account"),
    }
    match read_active_auth(&registry, Some(br#"{"OPENAI_API_KEY":"k"}"#), claims) {
        SyncSource::FetchMe { api_key, .. } => assert_eq!(api_key, "k"),
        _ => panic!("an API key"),
    }
    upsert_account(&mut registry, account("k", "a@x"));
    assert!(matches!(read_active_auth(&registry, Some(b"junk"), claims), SyncSource::Nothing));
    assert!(matches!(read_active_auth(&registry, Some(b"{}"), claims), SyncSource::Nothing));
}

#[test]
fn unknown_account_is_adopted() {
    let mut registry = Registry::default();
    let record = account("k", "a@x");
    let plan = begin_sync(&mut registry, &record, None, b"auth");
    assert_eq!(plan, SyncPlan { known: false, write_snapshot: true, changed: true });
    finish_sync(&mut registry, record, plan.known);
    assert_eq!(registry.active_account().unwrap().email, "a@x");
    let again = begin_sync(&mut registry, &account("k", "a@x"), Some(b"auth"), b"auth");
    assert_eq!(again, SyncPlan { known: true, write_snapshot: false, changed: false });
}

#[test]
fn known_account_is_synced() {
    let mut registry = Registry::default();
    upsert_account(&mut registry, account("k", "a@x"));
    let record = account("k", "b@x");
    let plan = begin_sync(&mut registry, &record, Some(b"old"), b"new");
    assert_eq!(plan, SyncPlan { known: true, write_snapshot: true, changed: true });
    assert_eq!(registry.accounts[0].email, "b@x");
    assert!(registry.active_account_key.is_none());
    finish_sync(&mut registry, record, plan.known);
    assert_eq!(registry.active_account_key.as_deref(), Some("k"));
    let other_bytes = begin_sync(&mut registry, &account("k", "b@x"), Some(b"old"), b"new");
    assert_eq!(other_bytes, SyncPlan { known: true, write_snapshot: true, changed: true });
}

#[test]
fn usage_is_asked_of_the_api_first() {
    let mut registry = Registry::default();
    assert_eq!(usage_source(&registry), UsageSource::Nowhere);
    registry.active_account_key = Some("k".to_owned());
    assert_eq!(usage_source(&registry), UsageSource::Api);
    registry.api = ApiConfig { usage: false, account: false };
    assert_eq!(usage_source(&registry), UsageSource::Sessions);
}

#[test]
fn api_usage_is_recorded() {
    let mut registry = Registry::default();
    upsert_account(&mut registry, account("k", "a@x"));
    let answer = |x: Option<f64>| {
        Some(UsageFetchResult {
            snapshot: x.map(snapshot),
            status_code: Some(200),
            missing_auth: false,
        })
    };
    assert_eq!(apply_api_usage_at(&mut registry, answer(Some(5.0)), 7), Some(false));
    assert!(registry.accounts[0].last_usage.is_none());
    registry.active_account_key = Some("k".to_owned());
    assert_eq!(apply_api_usage_at(&mut registry, None, 7), None);
    assert_eq!(apply_api_usage_at(&mut registry, answer(None), 7), None);
    assert_eq!(apply_api_usage_at(&mut registry, answer(Some(5.0)), 7), Some(true));
    assert_eq!(registry.accounts[0].last_usage_at, Some(7));
    assert!(registry.accounts[0].last_local_rollout.is_none());
    assert_eq!(apply_api_usage_at(&mut registry, answer(Some(5.0)), 7), Some(false));
    assert_eq!(apply_api_usage(&mut registry, answer(Some(5.0))), Some(true));
    assert!(registry.accounts[0].last_usage_at.unwrap() > 1_577_836_800);
}

#[test]
fn local_usage_is_recorded_once() {
    let mut registry = Registry::default();
    upsert_account(&mut registry, account("k", "a@x"));
    let latest = || {
        Some(LatestUsage {
            path: "/log".to_owned(),
            event_timestamp_ms: 3_500,
            snapshot: snapshot(5.0),
        })
    };
    assert!(!apply_local_usage(&mut registry, latest()));
    registry.active_account_key = Some("k".to_owned());
    assert!(!apply_local_usage(&mut registry, None));
    assert!(apply_local_usage(&mut registry, latest()));
    assert_eq!(registry.accounts[0].last_usage_at, Some(3));
    assert!(!apply_local_usage(&mut registry, latest()));
}

#[test]
fn names_are_asked_for_where_allowed() {
    let mut registry = Registry::default();
    let info = codex_auth::auth::parse_auth_info_data(good_file().as_bytes(), claims).unwrap();
    let request = names_request(&registry, &info).unwrap();
    assert_eq!(request.access_token, "token");
    assert_eq!(request.account_id, "acc");
    assert_eq!(request.user_id, "user");
    registry.api.account = false;
    assert!(names_request(&registry, &info).is_none());
}
