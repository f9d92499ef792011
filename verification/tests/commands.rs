use codex_auth::auth::AuthInfo;
use codex_auth::cli::{
    ConfigApiArgs, ConfigAutoArgs, ConfigToggle, DaemonArgs, ImportArgs, LoginArgs, RemoveArgs,
};
use codex_auth::commands::{
    all_picked, api_line, auto_switch_done_line, auto_switch_line, auto_switch_target, clean_line,
    config_api, config_auto, confirm_prompt, daemon_mode, display_account, format_last_seen,
    format_usage_summary, import_mode, list_heading, list_lines, login_arguments, login_key,
    login_line, picked, removal_choice, removal_line, remaining_percent, report_lines,
    standard_path, status_lines, switch_choice, switch_line, text_or_dash, truncate,
    validate_percent, CommandError, DaemonMode, ImportMode, RemovalChoice, SwitchChoice,
};
use codex_auth::import::ImportReport;
use codex_auth::model::{
    AccountRecord, ApiConfig, AuthMode, PlanType, RateLimitSnapshot, RateLimitWindow, Registry,
    UsedPercent,
};
use codex_auth::registry::ImportOutcome;
use std::path::PathBuf;

fn window(x: f64) -> RateLimitWindow {
    RateLimitWindow {
        used_percent: UsedPercent { bits: x.to_bits(), remaining: (100.0 - x).round() as i64 },
        window_minutes: None,
        resets_at: None,
    }
}

fn usage(primary: Option<f64>, secondary: Option<f64>) -> Option<RateLimitSnapshot> {
    Some(RateLimitSnapshot {
        primary: primary.map(window),
        secondary: secondary.map(window),
        credits: None,
        plan_type: None,
    })
}

fn account(key: &str, email: &str) -> AccountRecord {
    AccountRecord {
        account_key: key.to_owned(),
        chatgpt_account_id: String::new(),
        chatgpt_user_id: String::new(),
        email: email.to_owned(),
        alias: String::new(),
        account_name: None,
        plan: None,
        auth_mode: None,
        created_at: 0,
        last_used_at: None,
        last_usage: None,
        last_usage_at: None,
        last_local_rollout: None,
    }
}

fn registry(accounts: Vec<AccountRecord>) -> Registry {
    let mut registry = Registry::default();
    registry.accounts = accounts;
    registry
}

fn import_args(path: Option<&str>, purge: bool, cpa: bool) -> ImportArgs {
    ImportArgs { path: path.map(PathBuf::from), alias: None, purge, cpa }
}

#[test]
fn kinds_of_imports() {
    assert_eq!(import_mode(&import_args(None, true, false)).unwrap(), ImportMode::Purge);
    assert_eq!(import_mode(&import_args(None, false, true)).unwrap(), ImportMode::Cpa);
    assert_eq!(import_mode(&import_args(None, false, false)).unwrap(), ImportMode::Standard);
    let error = import_mode(&import_args(None, true, true)).unwrap_err();
    assert_eq!(error.message(), "`--purge` cannot be combined with `--cpa`");
    assert_eq!(standard_path(&import_args(Some("/x"), false, false)).unwrap(), &PathBuf::from("/x"));
    let error = standard_path(&import_args(None, false, false)).unwrap_err();
    assert_eq!(error.message(), "`import` requires a path unless `--cpa` is used");
}

#[test]
fn logins() {
    assert_eq!(login_arguments(&LoginArgs { device_auth: false }), vec!["login"]);
    assert_eq!(login_arguments(&LoginArgs { device_auth: true }), vec!["login", "--device-auth"]);
    let mut info = AuthInfo {
        email: Some("a@x".to_owned()),
        chatgpt_account_id: None,
        chatgpt_user_id: None,
        record_key: Some("k".to_owned()),
        access_token: None,
        last_refresh: None,
        plan: None,
        auth_mode: AuthMode::Chatgpt,
        openai_api_key: None,
    };
    assert_eq!(login_key(&info).unwrap(), "k");
    assert_eq!(login_line(&info, "k"), "added a@x");
    info.email = None;
    assert_eq!(login_line(&info, "k"), "added k");
    info.record_key = None;
    assert_eq!(login_key(&info).unwrap_err().message(), "active auth is missing record key");
}

#[test]
fn texts_are_cut() {
    assert_eq!(truncate("abcdef", 6), "abcdef");
    assert_eq!(truncate("abcdefg", 6), "abcde.");
    assert_eq!(truncate("éüöä", 3), "éü.");
    assert_eq!(truncate("ab", 0), ".");
    assert_eq!(truncate("", 0), "");
    assert_eq!(truncate(&truncate("abcdefg", 6), 6), "abcde.");
}

#[test]
fn accounts_are_offered() {
    let mut record = account("k", "john@example.com");
    assert_eq!(display_account(&record), "john@example.com");
    record.alias = "work".to_owned();
    assert_eq!(display_account(&record), "john@example.com (work)");
    record.alias = "a very long alias indeed".to_owned();
    assert_eq!(display_account(&record), "john@example.com (a very long a.");
}

#[test]
fn switches_are_settled() {
    let list = registry(vec![account("a", "john@x"), account("b", "mary@x")]);
    match switch_choice(&list, Some("JOHN")).unwrap() {
        SwitchChoice::Account(key) => assert_eq!(key, "a"),
        _ => panic!("only one matches"),
    }
    match switch_choice(&list, Some("@x")).unwrap() {
        SwitchChoice::Ask(offers) => {
            assert_eq!(offers.len(), 2);
            assert_eq!(offers[1].label, "mary@x");
            assert_eq!(picked(&offers, 1).as_deref(), Some("b"));
            assert!(picked(&offers, 2).is_none());
        }
        _ => panic!("both match"),
    }
    match switch_choice(&list, None).unwrap() {
        SwitchChoice::Ask(offers) => assert_eq!(offers.len(), 2),
        _ => panic!("the user picks"),
    }
    let error = switch_choice(&list, Some("bob")).unwrap_err();
    assert_eq!(error.message(), "account not found: bob");
    assert_eq!(switch_line("a"), "switched to a");
}

#[test]
fn removals_are_settled() {
    let args = |query: Option<&str>, all: bool| RemoveArgs {
        query: query.map(|q| q.to_owned()),
        all,
    };
    let list = registry(vec![account("a", "john@x"), account("b", "mary@x")]);
    assert!(matches!(
        removal_choice(&registry(Vec::new()), &args(None, true)),
        Ok(RemovalChoice::NoAccounts)
    ));
    match removal_choice(&list, &args(Some("john"), true)).unwrap() {
        RemovalChoice::Accounts(keys) => assert_eq!(keys, vec!["a", "b"]),
        _ => panic!("all"),
    }
    match removal_choice(&list, &args(Some("john"), false)).unwrap() {
        RemovalChoice::Accounts(keys) => assert_eq!(keys, vec!["a"]),
        _ => panic!("one"),
    }
    match removal_choice(&list, &args(Some("@x"), false)).unwrap() {
        RemovalChoice::Confirm(keys) => assert_eq!(keys, vec!["a", "b"]),
        _ => panic!("two"),
    }
    match removal_choice(&list, &args(None, false)).unwrap() {
        RemovalChoice::Ask(offers) => {
            assert_eq!(all_picked(&offers, &[1, 0]), vec!["b", "a"]);
            assert!(all_picked(&offers, &[]).is_empty());
        }
        _ => panic!("the user picks"),
    }
    let error = removal_choice(&list, &args(Some("bob"), false)).unwrap_err();
    assert!(matches!(error, CommandError::AccountNotFound(_)));
    assert_eq!(confirm_prompt(12), "remove 12 matched accounts?");
    assert_eq!(removal_line(&vec!["a".to_owned(), "b".to_owned()]), "removed a, b");
    assert_eq!(removal_line(&vec!["a".to_owned()]), "removed a");
}

#[test]
fn settings_are_shown() {
    let mut list = registry(Vec::new());
    assert_eq!(auto_switch_line(list.auto_switch), "auto_switch: disabled (5h=1%, weekly=1%)");
    list.auto_switch.enabled = true;
    list.auto_switch.threshold_weekly_percent = 100;
    assert_eq!(auto_switch_line(list.auto_switch), "auto_switch: enabled (5h=1%, weekly=100%)");
    assert_eq!(api_line(ApiConfig { usage: true, account: false }), "api: usage=true, account=false");
    assert_eq!(
        clean_line(0, 0, 3),
        "cleaned accounts: auth_backups=0, registry_backups=0, stale_entries=3"
    );
    assert_eq!(auto_switch_done_line("k"), "auto-switched to k");
}

#[test]
fn status_is_shown() {
    let mut list = registry(vec![account("a", "john@x")]);
    assert_eq!(status_lines(&list)[2], "active: none");
    assert_eq!(status_lines(&list).len(), 3);
    list.active_account_key = Some("a".to_owned());
    list.accounts[0].last_usage = usage(Some(12.0), None);
    assert_eq!(
        status_lines(&list),
        vec![
            "auto_switch: disabled (5h=1%, weekly=1%)",
            "api: usage=true, account=true",
            "active: john@x",
            "last_usage: 5h=88%, weekly=-",
        ]
    );
}

#[test]
fn usage_is_summed_up() {
    assert_eq!(format_usage_summary(&None), "-");
    assert_eq!(format_usage_summary(&usage(None, Some(0.0))), "5h=-, weekly=100%");
    assert_eq!(remaining_percent(Some(window(30.4))), Some(70));
    assert_eq!(remaining_percent(None), None);
}

#[test]
fn daemon_runs() {
    let mode = |watch: bool, once: bool| daemon_mode(&DaemonArgs { watch, once });
    assert_eq!(mode(false, true).unwrap(), DaemonMode::Once);
    assert_eq!(mode(true, false).unwrap(), DaemonMode::Watch);
    assert_eq!(
        mode(false, false).unwrap_err().message(),
        "`daemon` requires `--watch` or `--once`"
    );
}

#[test]
fn thresholds_are_checked() {
    assert!(validate_percent(1, "--5h").is_ok());
    assert!(validate_percent(100, "--5h").is_ok());
    assert_eq!(
        validate_percent(0, "--5h").unwrap_err().message(),
        "--5h must be between 1 and 100"
    );
    assert!(validate_percent(101, "--weekly").is_err());
}

#[test]
fn automatic_switch_is_set() {
    let mut list = registry(Vec::new());
    let args = |action: Option<ConfigToggle>, short: Option<u8>, weekly: Option<u8>| ConfigAutoArgs {
        action,
        threshold_5h_percent: short,
        weekly,
    };
    config_auto(&mut list, &args(Some(ConfigToggle::Enable), Some(12), Some(8))).unwrap();
    assert!(list.auto_switch.enabled);
    assert_eq!(list.auto_switch.threshold_5h_percent, 12);
    assert_eq!(list.auto_switch.threshold_weekly_percent, 8);
    config_auto(&mut list, &args(None, None, None)).unwrap();
    assert!(list.auto_switch.enabled);
    let error =
        config_auto(&mut list, &args(Some(ConfigToggle::Disable), Some(20), Some(0))).unwrap_err();
    assert_eq!(error.message(), "--weekly must be between 1 and 100");
    assert!(!list.auto_switch.enabled);
    assert_eq!(list.auto_switch.threshold_5h_percent, 20);
    assert_eq!(list.auto_switch.threshold_weekly_percent, 8);
    let error = config_auto(&mut list, &args(None, Some(101), Some(5))).unwrap_err();
    assert_eq!(error.message(), "--5h must be between 1 and 100");
    assert_eq!(list.auto_switch.threshold_weekly_percent, 8);
}

#[test]
fn api_is_switched() {
    let mut list = registry(Vec::new());
    config_api(&mut list, &ConfigApiArgs { action: ConfigToggle::Disable });
    assert!(!list.api.usage && !list.api.account);
    config_api(&mut list, &ConfigApiArgs { action: ConfigToggle::Enable });
    assert!(list.api.usage && list.api.account);
}

#[test]
fn automatic_switch_goes_to_the_best() {
    let mut a = account("a", "a@x");
    a.last_usage = usage(Some(99.5), Some(50.0));
    let mut b = account("b", "b@x");
    b.last_usage = usage(Some(10.0), None);
    let mut list = registry(vec![a, b]);
    list.active_account_key = Some("a".to_owned());
    assert!(auto_switch_target(&list).is_none());
    list.auto_switch.enabled = true;
    // 0.5 percent are left, which rounds to 1: not below the threshold.
    assert!(auto_switch_target(&list).is_none());
    list.auto_switch.threshold_5h_percent = 2;
    assert_eq!(auto_switch_target(&list).as_deref(), Some("b"));
    list.auto_switch.threshold_5h_percent = 1;
    list.auto_switch.threshold_weekly_percent = 51;
    assert_eq!(auto_switch_target(&list).as_deref(), Some("b"));
    list.accounts[1].last_usage = None;
    assert!(auto_switch_target(&list).is_none());
    list.active_account_key = None;
    assert!(auto_switch_target(&list).is_none());
}

#[test]
fn times_are_shown() {
    assert_eq!(format_last_seen(Some(1_714_566_600)), "2024-05-01 12:30");
    assert_eq!(format_last_seen(Some(0)), "1970-01-01 00:00");
    assert_eq!(format_last_seen(Some(i64::MAX)), "-");
    assert_eq!(format_last_seen(None), "-");
    assert_eq!(text_or_dash(Some("x".to_owned())), "x");
    assert_eq!(text_or_dash(None), "-");
}

#[test]
fn list_is_shown() {
    assert_eq!(list_lines(&registry(Vec::new())), vec!["no accounts"]);
    let mut first = account("k1", "john@example.com");
    first.plan = Some(PlanType::Team);
    first.alias = "a rather long one".to_owned();
    first.last_usage_at = Some(1_714_566_600);
    let mut second = account("k2", "john@example.com");
    second.plan = Some(PlanType::Plus);
    let mut alone = account("k3", "mary@example.com");
    alone.alias = "home".to_owned();
    let mut list = registry(vec![alone, second, first]);
    list.active_account_key = Some("k2".to_owned());
    let lines = list_lines(&list);
    assert_eq!(lines.len(), 5);
    assert_eq!(lines[0], list_heading());
    assert_eq!(
        lines[0],
        format!("{:<2} {:<32} {:<12} {:<12} {:<18} {:<8}", "", "ACCOUNT", "ALIAS", "PLAN", "LAST", "ACTIVE")
    );
    assert_eq!(
        lines[1],
        format!("{:<2} {:<32} {:<12} {:<12} {:<18} {:<8}", "", "john@example.com", "", "", "", "")
    );
    assert_eq!(
        lines[2],
        format!("{:<2} {:<32} {:<12} {:<12} {:<18} {:<8}", "*", "  plus", "", "plus", "-", "yes")
    );
    assert_eq!(
        lines[3],
        format!(
            "{:<2} {:<32} {:<12} {:<12} {:<18} {:<8}",
            "", "  a rather long one", "a rather lo.", "team", "2024-05-01 12:30", ""
        )
    );
    assert_eq!(
        lines[4],
        format!(
            "{:<2} {:<32} {:<12} {:<12} {:<18} {:<8}",
            "", "mary@example.com (home)", "home", "-", "-", ""
        )
    );
}

#[test]
fn reports_are_shown() {
    let mut report = ImportReport::default();
    report.push("a@x".to_owned(), ImportOutcome::Imported);
    report.push("b@x".to_owned(), ImportOutcome::Updated);
    report.push("/c.json".to_owned(), ImportOutcome::Skipped);
    assert_eq!(
        report_lines(&report),
        vec![
            "  imported a@x",
            "  updated  b@x",
            "  skipped  /c.json",
            "Import Summary: 1 imported, 1 updated, 1 skipped (total 3 files)",
        ]
    );
}
