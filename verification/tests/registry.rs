use codex_auth::auth::AuthInfo;
use codex_auth::chatgpt_api::MeFetchResult;
use codex_auth::model::{
    AccountRecord, AuthMode, CreditsSnapshot, PlanType, RateLimitSnapshot, RateLimitWindow,
    Registry, UsedPercent,
};
use codex_auth::registry::{
    account_from_api_key_me_at, account_from_auth_at, account_from_auth_info, activate_account_at,
    activate_account_by_key, adopt_account_at, apply_account_names_for_user, find_matching_accounts,
    parse_plan_from_value, remove_accounts, select_best_account_key_by_usage,
    set_active_account_key, set_active_account_key_at, sync_known_account, update_account_usage,
    update_plan_from_usage, upsert_account, usage_score, AccountError, AccountSource, AfterRemoval,
    ImportOutcome,
};

fn used(x: f64) -> UsedPercent {
    UsedPercent { bits: x.to_bits(), remaining: (100.0 - x).round() as i64 }
}

fn window(x: f64) -> RateLimitWindow {
    RateLimitWindow { used_percent: used(x), window_minutes: Some(300), resets_at: None }
}

fn usage(primary: Option<f64>, secondary: Option<f64>) -> RateLimitSnapshot {
    RateLimitSnapshot {
        primary: primary.map(window),
        secondary: secondary.map(window),
        credits: None,
        plan_type: None,
    }
}

fn account(key: &str, email: &str) -> AccountRecord {
    AccountRecord {
        account_key: key.to_owned(),
        chatgpt_account_id: format!("id-{key}"),
        chatgpt_user_id: "user-1".to_owned(),
        email: email.to_owned(),
        alias: String::new(),
        account_name: None,
        plan: None,
        auth_mode: Some(AuthMode::Chatgpt),
        created_at: 1,
        last_used_at: None,
        last_usage: None,
        last_usage_at: None,
        last_local_rollout: None,
    }
}

fn auth() -> AuthInfo {
    AuthInfo {
        email: Some("john@example.com".to_owned()),
        chatgpt_account_id: Some("acc-1".to_owned()),
        chatgpt_user_id: Some("user-1".to_owned()),
        record_key: Some("user-1::acc-1".to_owned()),
        access_token: None,
        last_refresh: None,
        plan: Some(PlanType::Plus),
        auth_mode: AuthMode::Chatgpt,
        openai_api_key: None,
    }
}

fn keys(registry: &Registry) -> Vec<String> {
    registry.accounts.iter().map(|a| a.account_key.clone()).collect()
}

#[test]
fn upsert_inserts_and_then_updates() {
    let mut registry = Registry::default();
    assert_eq!(upsert_account(&mut registry, account("a", "a@x")), ImportOutcome::Imported);
    assert_eq!(upsert_account(&mut registry, account("b", "b@x")), ImportOutcome::Imported);
    registry.accounts[0].last_used_at = Some(7);
    registry.accounts[0].last_usage = Some(usage(Some(10.0), None));
    registry.accounts[0].last_usage_at = Some(8);
    registry.accounts[0].account_name = Some("Team".to_owned());
    let mut again = account("a", "new@x");
    again.last_used_at = Some(99);
    assert_eq!(upsert_account(&mut registry, again), ImportOutcome::Updated);
    assert_eq!(keys(&registry), vec!["a", "b"]);
    let a = &registry.accounts[0];
    assert_eq!(a.email, "new@x");
    assert_eq!(a.last_used_at, Some(7));
    assert_eq!(a.last_usage_at, Some(8));
    assert!(a.last_usage.is_some());
    assert_eq!(a.account_name.as_deref(), Some("Team"));
}

#[test]
fn upsert_with_a_name_replaces_the_name() {
    let mut registry = Registry::default();
    let mut first = account("a", "a@x");
    first.account_name = Some("old".to_owned());
    upsert_account(&mut registry, first);
    let mut second = account("a", "a@x");
    second.account_name = Some("new".to_owned());
    upsert_account(&mut registry, second);
    assert_eq!(registry.accounts[0].account_name.as_deref(), Some("new"));
}

#[test]
fn set_active_keeps_the_first_time() {
    let mut registry = Registry::default();
    set_active_account_key_at(&mut registry, "a", 5);
    set_active_account_key_at(&mut registry, "a", 9);
    assert_eq!(registry.active_account_activated_at_ms, Some(5));
    set_active_account_key_at(&mut registry, "b", 9);
    assert_eq!(registry.active_account_key.as_deref(), Some("b"));
    assert_eq!(registry.active_account_activated_at_ms, Some(9));
}

#[test]
fn the_clock_runs() {
    let mut registry = Registry::default();
    upsert_account(&mut registry, account("a", "a@x"));
    set_active_account_key(&mut registry, "b");
    // 2020-01-01, in milliseconds.
    assert!(registry.active_account_activated_at_ms.unwrap() > 1_577_836_800_000);
    activate_account_by_key(&mut registry, "a");
    let at = registry.active_account_activated_at_ms.unwrap();
    assert_eq!(registry.accounts[0].last_used_at, Some(at / 1000));
    let record = codex_auth::registry::account_from_auth("", &auth()).unwrap();
    assert!(record.created_at > 1_577_836_800);
}

#[test]
fn activation_records_the_time_of_use() {
    let mut registry = Registry::default();
    upsert_account(&mut registry, account("a", "a@x"));
    activate_account_at(&mut registry, "a", 12_345);
    assert_eq!(registry.active_account_key.as_deref(), Some("a"));
    assert_eq!(registry.active_account_activated_at_ms, Some(12_345));
    assert_eq!(registry.accounts[0].last_used_at, Some(12));
    assert_eq!(registry.active_account().unwrap().account_key, "a");
    activate_account_at(&mut registry, "gone", 20_000);
    assert!(registry.active_account().is_none());
    assert_eq!(registry.accounts[0].last_used_at, Some(12));
}

#[test]
fn adopted_account_is_active() {
    let mut registry = Registry::default();
    assert_eq!(adopt_account_at(&mut registry, account("a", "a@x"), 3), ImportOutcome::Imported);
    assert_eq!(registry.active_account().unwrap().email, "a@x");
    assert_eq!(adopt_account_at(&mut registry, account("a", "b@x"), 4), ImportOutcome::Updated);
    assert_eq!(registry.active_account_activated_at_ms, Some(3));
}

#[test]
fn account_of_a_full_auth_file() {
    let record = account_from_auth_at("work", &auth(), 42).unwrap();
    assert_eq!(record.account_key, "user-1::acc-1");
    assert_eq!(record.chatgpt_account_id, "acc-1");
    assert_eq!(record.chatgpt_user_id, "user-1");
    assert_eq!(record.email, "john@example.com");
    assert_eq!(record.alias, "work");
    assert_eq!(record.plan, Some(PlanType::Plus));
    assert_eq!(record.auth_mode, Some(AuthMode::Chatgpt));
    assert_eq!(record.created_at, 42);
    assert!(record.account_name.is_none());
}

#[test]
fn account_of_a_partial_auth_file() {
    let mut info = auth();
    info.chatgpt_user_id = None;
    assert_eq!(account_from_auth_at("", &info, 0).unwrap_err(), AccountError::MissingUserId);
    info.chatgpt_account_id = None;
    assert_eq!(account_from_auth_at("", &info, 0).unwrap_err(), AccountError::MissingAccountId);
    info.email = None;
    assert_eq!(account_from_auth_at("", &info, 0).unwrap_err(), AccountError::MissingEmail);
    info.record_key = None;
    assert_eq!(account_from_auth_at("", &info, 0).unwrap_err(), AccountError::MissingRecordKey);
    assert_eq!(AccountError::MissingRecordKey.message(), "auth is missing record key");
    assert_eq!(AccountError::MissingEmail.message(), "auth is missing email");
    assert_eq!(AccountError::MissingAccountId.message(), "auth is missing chatgpt account id");
    assert_eq!(AccountError::MissingUserId.message(), "auth is missing chatgpt user id");
    assert_eq!(AccountError::MissingApiKey.message(), "auth is missing OPENAI_API_KEY");
}

#[test]
fn account_of_an_api_key() {
    let mut info = auth();
    info.auth_mode = AuthMode::Apikey;
    assert_eq!(account_from_auth_info("", &info).unwrap_err(), AccountError::MissingApiKey);
    let me = MeFetchResult { user_id: "u1".to_owned(), email: "John@Example.com".to_owned() };
    assert_eq!(
        account_from_api_key_me_at("", &info, &me, 1).unwrap_err(),
        AccountError::MissingApiKey
    );
    info.openai_api_key = Some("abc".to_owned());
    match account_from_auth_info("", &info).unwrap() {
        AccountSource::FetchMe(key) => assert_eq!(key, "abc"),
        AccountSource::Record(_) => panic!("an API key has no record of its own"),
    }
    let record = account_from_api_key_me_at("work", &info, &me, 1).unwrap();
    assert_eq!(
        record.account_key,
        "apikey::u1::ba7816bf8f01cfea414140de5dae2223b00361a396177a9cb410ff61f20015ad"
    );
    assert_eq!(record.account_name.as_deref(), Some("sk-ba781***15ad"));
    let mut other = info.clone();
    other.openai_api_key = Some("abd".to_owned());
    let second = account_from_api_key_me_at("work", &other, &me, 1).unwrap();
    assert_ne!(second.account_key, record.account_key);
    assert_eq!(record.email, "john@example.com");
    assert_eq!(record.chatgpt_account_id, "");
    assert_eq!(record.auth_mode, Some(AuthMode::Apikey));
    assert_eq!(record.alias, "work");
}

#[test]
fn queries_look_at_email_alias_and_name() {
    let mut registry = Registry::default();
    let mut a = account("a", "John@Example.com");
    a.alias = "Work".to_owned();
    let mut b = account("b", "mary@example.com");
    b.account_name = Some("Acme Team".to_owned());
    registry.accounts.push(a);
    registry.accounts.push(b);
    let found = |query: &str| -> Vec<String> {
        find_matching_accounts(&registry, query).iter().map(|r| r.account_key.clone()).collect()
    };
    assert_eq!(found("JOHN"), vec!["a"]);
    assert_eq!(found("work"), vec!["a"]);
    assert_eq!(found("acme"), vec!["b"]);
    assert_eq!(found("example"), vec!["a", "b"]);
    assert_eq!(found(""), vec!["a", "b"]);
    assert!(found("nobody").is_empty());
}

#[test]
fn scores() {
    assert_eq!(usage_score(&None), -1);
    assert_eq!(usage_score(&Some(usage(None, None))), -1);
    assert_eq!(usage_score(&Some(usage(Some(12.4), Some(90.0)))), 88);
    assert_eq!(usage_score(&Some(usage(None, Some(90.0)))), 10);
    assert_eq!(usage_score(&Some(usage(Some(120.0), None))), -20);
}

#[test]
fn best_account_has_the_most_left() {
    let mut registry = Registry::default();
    assert!(select_best_account_key_by_usage(&registry).is_none());
    for (key, percent, at) in
        [("a", Some(50.0), Some(1)), ("b", Some(10.0), Some(1)), ("c", Some(10.0), None), ("d", None, Some(9))]
    {
        let mut record = account(key, "x");
        record.last_usage = percent.map(|p| usage(Some(p), None));
        record.last_usage_at = at;
        registry.accounts.push(record);
    }
    assert_eq!(select_best_account_key_by_usage(&registry).as_deref(), Some("b"));
    registry.accounts[2].last_usage_at = Some(1);
    assert_eq!(select_best_account_key_by_usage(&registry).as_deref(), Some("c"));
}

#[test]
fn usage_is_recorded_once() {
    let mut registry = Registry::default();
    upsert_account(&mut registry, account("a", "a@x"));
    let record = |registry: &mut Registry| {
        update_account_usage(registry, "a", usage(Some(10.0), None), 5_999, "log".to_owned(), 5_999)
    };
    assert!(record(&mut registry));
    assert_eq!(registry.accounts[0].last_usage_at, Some(5));
    assert_eq!(registry.accounts[0].last_local_rollout.as_ref().unwrap().path, "log");
    assert!(!record(&mut registry));
    assert!(!update_account_usage(
        &mut registry,
        "gone",
        usage(Some(10.0), None),
        1,
        "log".to_owned(),
        1
    ));
    // A negative time is rounded towards zero.
    assert!(update_account_usage(
        &mut registry,
        "a",
        usage(Some(10.0), None),
        -1_500,
        "log".to_owned(),
        -1_500
    ));
    assert_eq!(registry.accounts[0].last_usage_at, Some(-1));
}

#[test]
fn usage_without_a_number_is_always_news() {
    let mut registry = Registry::default();
    upsert_account(&mut registry, account("a", "a@x"));
    for _ in 0..2 {
        assert!(update_account_usage(
            &mut registry,
            "a",
            usage(Some(f64::NAN), None),
            1_000,
            "log".to_owned(),
            1_000
        ));
    }
}

#[test]
fn snapshots_compare_as_numbers() {
    let zero = usage(Some(0.0), None);
    let negative_zero = usage(Some(-0.0), None);
    let nan = usage(Some(f64::NAN), None);
    assert!(zero.equals(&negative_zero));
    assert!(!nan.equals(&nan));
    assert!(!zero.equals(&usage(Some(1.0), None)));
    assert!(!zero.equals(&usage(None, Some(0.0))));
    let mut with_credits = zero.clone();
    with_credits.credits =
        Some(CreditsSnapshot { has_credits: true, unlimited: false, balance: Some("3".to_owned()) });
    assert!(!zero.equals(&with_credits));
    assert!(with_credits.equals(&with_credits.clone()));
}

#[test]
fn plans_are_filled_in_from_usage() {
    let mut registry = Registry::default();
    upsert_account(&mut registry, account("a", "a@x"));
    upsert_account(&mut registry, account("b", "b@x"));
    registry.accounts[1].plan = Some(PlanType::Free);
    assert!(!update_plan_from_usage(&mut registry));
    for record in registry.accounts.iter_mut() {
        let mut snapshot = usage(Some(1.0), None);
        snapshot.plan_type = Some(PlanType::Team);
        record.last_usage = Some(snapshot);
    }
    assert!(update_plan_from_usage(&mut registry));
    assert_eq!(registry.accounts[0].plan, Some(PlanType::Team));
    assert_eq!(registry.accounts[1].plan, Some(PlanType::Free));
    assert!(!update_plan_from_usage(&mut registry));
}

#[test]
fn names_go_to_the_accounts_of_the_user() {
    let mut registry = Registry::default();
    upsert_account(&mut registry, account("a", "a@x"));
    upsert_account(&mut registry, account("b", "b@x"));
    registry.accounts[1].chatgpt_user_id = "user-2".to_owned();
    registry.accounts[1].account_name = Some("kept".to_owned());
    let entries = [("id-a".to_owned(), Some("Acme".to_owned()))];
    assert!(apply_account_names_for_user(&mut registry, "user-1", &entries));
    assert_eq!(registry.accounts[0].account_name.as_deref(), Some("Acme"));
    assert_eq!(registry.accounts[1].account_name.as_deref(), Some("kept"));
    assert!(!apply_account_names_for_user(&mut registry, "user-1", &entries));
    assert!(apply_account_names_for_user(&mut registry, "user-1", &[]));
    assert!(registry.accounts[0].account_name.is_none());
}

#[test]
fn removal_of_another_account() {
    let mut registry = Registry::default();
    for key in ["a", "b::1", "c"] {
        upsert_account(&mut registry, account(key, "x"));
    }
    set_active_account_key_at(&mut registry, "a", 1);
    let removal = remove_accounts(&mut registry, &["b::1".to_owned(), "gone".to_owned()]);
    assert_eq!(keys(&registry), vec!["a", "c"]);
    assert_eq!(removal.snapshots, vec!["Yjo6MQ.auth.json"]);
    assert!(matches!(removal.next, AfterRemoval::Nothing));
    assert_eq!(registry.active_account_key.as_deref(), Some("a"));
}

#[test]
fn removal_of_the_active_account() {
    let mut registry = Registry::default();
    for (key, percent) in [("a", 50.0), ("b", 60.0), ("c", 20.0)] {
        let mut record = account(key, "x");
        record.last_usage = Some(usage(Some(percent), None));
        registry.accounts.push(record);
    }
    set_active_account_key_at(&mut registry, "a", 1);
    let removal = remove_accounts(&mut registry, &["a".to_owned()]);
    match removal.next {
        AfterRemoval::Activate(key) => assert_eq!(key, "c"),
        _ => panic!("the best of the rest takes over"),
    }
    assert_eq!(registry.active_account_key.as_deref(), Some("c"));
    let removal = remove_accounts(&mut registry, &["b".to_owned(), "c".to_owned()]);
    assert!(matches!(removal.next, AfterRemoval::SignOut));
    assert_eq!(removal.snapshots, vec!["b.auth.json", "c.auth.json"]);
    assert!(registry.active_account_key.is_none());
    assert!(registry.accounts.is_empty());
}

#[test]
fn removal_undoes_insertion() {
    let mut registry = Registry::default();
    upsert_account(&mut registry, account("a", "a@x"));
    upsert_account(&mut registry, account("b", "b@x"));
    remove_accounts(&mut registry, &["b".to_owned()]);
    assert_eq!(keys(&registry), vec!["a"]);
}

#[test]
fn known_account_is_brought_up_to_date() {
    let mut registry = Registry::default();
    assert!(sync_known_account(&mut registry, &account("a", "a@x")).is_none());
    upsert_account(&mut registry, account("a", "a@x"));
    assert_eq!(sync_known_account(&mut registry, &account("a", "a@x")), Some(true));
    set_active_account_key_at(&mut registry, "a", 1);
    assert_eq!(sync_known_account(&mut registry, &account("a", "a@x")), Some(false));
    let mut record = account("a", "b@x");
    record.plan = Some(PlanType::Pro);
    record.auth_mode = Some(AuthMode::Apikey);
    record.account_name = Some("named".to_owned());
    record.alias = "not taken over".to_owned();
    assert_eq!(sync_known_account(&mut registry, &record), Some(true));
    let a = &registry.accounts[0];
    assert_eq!(a.email, "b@x");
    assert_eq!(a.plan, Some(PlanType::Pro));
    assert_eq!(a.auth_mode, Some(AuthMode::Apikey));
    assert_eq!(a.account_name.as_deref(), Some("named"));
    assert_eq!(a.alias, "");
    assert_eq!(sync_known_account(&mut registry, &record), Some(false));
}

#[test]
fn plans_are_read_back_from_their_names() {
    for plan in [
        PlanType::Free,
        PlanType::Plus,
        PlanType::Prolite,
        PlanType::Pro,
        PlanType::Team,
        PlanType::Business,
        PlanType::Enterprise,
        PlanType::Edu,
        PlanType::Unknown,
    ] {
        assert_eq!(parse_plan_from_value(plan.name()), plan);
    }
    assert_eq!(parse_plan_from_value("TEAM"), PlanType::Team);
    assert_eq!(parse_plan_from_value("gold"), PlanType::Unknown);
}
