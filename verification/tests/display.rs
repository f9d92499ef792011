use codex_auth::clock::{local_time, LocalTime};
use codex_auth::display::{
    build_display_rows, build_preferred_account_label, display_order, display_plan,
    format_last_activity, format_last_activity_at, format_rate_limit_ui, format_rate_limit_ui_at,
    grouped_account_cell,
    plan_sort_rank, remaining_percent, resolve_rate_window,
};
use codex_auth::model::{
    AccountRecord, PlanType, RateLimitSnapshot, RateLimitWindow, Registry, UsedPercent,
};

fn used(x: f64) -> UsedPercent {
    UsedPercent { bits: x.to_bits(), remaining: (100.0 - x).round() as i64 }
}

fn window(x: f64, minutes: i64, resets_at: Option<i64>) -> RateLimitWindow {
    RateLimitWindow { used_percent: used(x), window_minutes: Some(minutes), resets_at }
}

fn account(key: &str, email: &str, plan: Option<PlanType>) -> AccountRecord {
    AccountRecord {
        account_key: key.to_owned(),
        chatgpt_account_id: String::new(),
        chatgpt_user_id: String::new(),
        email: email.to_owned(),
        alias: String::new(),
        account_name: None,
        plan,
        auth_mode: None,
        created_at: 0,
        last_used_at: None,
        last_usage: None,
        last_usage_at: None,
        last_local_rollout: None,
    }
}

fn registry(accounts: Vec<AccountRecord>) -> Registry {
    let mut registry = Registry::default();
    registry.accounts = accounts;
    registry
}

#[test]
fn plans() {
    assert_eq!(display_plan(&account("a", "", Some(PlanType::Edu))), "edu");
    assert_eq!(display_plan(&account("a", "", None)), "-");
    assert_eq!(plan_sort_rank(&account("a", "", Some(PlanType::Business))), 0);
    assert_eq!(plan_sort_rank(&account("a", "", Some(PlanType::Pro))), 1);
    assert_eq!(plan_sort_rank(&account("a", "", Some(PlanType::Prolite))), 2);
    assert_eq!(plan_sort_rank(&account("a", "", None)), 2);
}

#[test]
fn order_of_the_list() {
    let mut list = registry(vec![
        account("k5", "b@x", Some(PlanType::Plus)),
        account("k4", "b@x", Some(PlanType::Team)),
        account("k3", "b@x", Some(PlanType::Free)),
        account("k2", "a@x", None),
        account("k1", "b@x", Some(PlanType::Free)),
        account("k0", "b@x", None),
    ]);
    assert_eq!(display_order(&list, &[0, 1, 2, 3, 4, 5]), vec![3, 1, 4, 2, 0, 5]);
    list.active_account_key = Some("k0".to_owned());
    assert_eq!(display_order(&list, &[0, 1, 2, 3, 4, 5]), vec![3, 5, 1, 4, 2, 0]);
    assert_eq!(display_order(&list, &[2, 0]), vec![2, 0]);
}

#[test]
fn order_is_stable() {
    let list = registry(vec![account("k", "a@x", None), account("k", "a@x", None)]);
    assert_eq!(display_order(&list, &[1, 0]), vec![1, 0]);
    assert_eq!(display_order(&list, &[0, 1]), vec![0, 1]);
}

#[test]
fn rows_are_grouped_by_email() {
    let mut named = account("k3", "b@x", Some(PlanType::Team));
    named.account_name = Some("Acme".to_owned());
    let mut list = registry(vec![
        account("k1", "b@x", Some(PlanType::Plus)),
        account("k2", "a@x", Some(PlanType::Plus)),
        named,
        account("k0", "b@x", Some(PlanType::Plus)),
    ]);
    list.active_account_key = Some("k2".to_owned());
    let rows = build_display_rows(&list, None);
    let shown: Vec<(Option<usize>, &str, u8, bool)> = rows
        .iter()
        .map(|r| (r.account_index, r.account_cell.as_str(), r.depth, r.is_active))
        .collect();
    assert_eq!(
        shown,
        vec![
            (Some(1), "a@x", 0, true),
            (None, "b@x", 0, false),
            (Some(2), "Acme", 1, false),
            (Some(3), "plus #1", 1, false),
            (Some(0), "plus #2", 1, false),
        ]
    );
    let some = build_display_rows(&list, Some(&[0]));
    assert_eq!(some.len(), 1);
    assert_eq!(some[0].account_cell, "b@x");
    assert!(build_display_rows(&list, Some(&[])).is_empty());
}

#[test]
fn cells_within_a_group() {
    let list = registry(vec![
        account("k2", "b@x", Some(PlanType::Plus)),
        account("k1", "b@x", Some(PlanType::Plus)),
        account("k0", "b@x", Some(PlanType::Pro)),
        account("k3", "b@x", Some(PlanType::Plus)),
    ]);
    let cell = |i: usize| grouped_account_cell(&list, &[0, 1, 2], i);
    assert_eq!(cell(0), "plus #2");
    assert_eq!(cell(1), "plus #1");
    assert_eq!(cell(2), "pro");
    // An account that is not of the group is numbered behind it.
    assert_eq!(cell(3), "plus #3");
    assert_eq!(grouped_account_cell(&list, &[], 3), "plus");
}

#[test]
fn labels() {
    let mut record = account("k", "e", None);
    assert_eq!(build_preferred_account_label(&record, "plus"), "plus");
    record.account_name = Some("Acme".to_owned());
    assert_eq!(build_preferred_account_label(&record, "plus"), "Acme");
    record.alias = "work".to_owned();
    assert_eq!(build_preferred_account_label(&record, "plus"), "work (Acme)");
    record.account_name = Some(String::new());
    assert_eq!(build_preferred_account_label(&record, "plus"), "work");
}

#[test]
fn percentages() {
    assert_eq!(remaining_percent(used(12.5)), 88);
    assert_eq!(remaining_percent(used(-5.0)), 100);
    assert_eq!(remaining_percent(used(250.0)), 0);
    assert_eq!(remaining_percent(used(f64::NAN)), 0);
    assert_eq!(remaining_percent(used(f64::NEG_INFINITY)), 100);
}

#[test]
fn limits_are_shown() {
    let time = |day: i32| {
        Some(LocalTime { day, clock: "09:05".to_owned(), date: "1 May".to_owned() })
    };
    let w = window(25.0, 300, Some(1_000));
    assert_eq!(format_rate_limit_ui_at(None, 0, 0, None), "-");
    assert_eq!(format_rate_limit_ui_at(Some(&window(25.0, 300, None)), 0, 0, None), "-");
    assert_eq!(format_rate_limit_ui_at(Some(&w), 1_000, 5, time(5)), "100%");
    assert_eq!(format_rate_limit_ui_at(Some(&w), 999, 5, None), "75%");
    assert_eq!(format_rate_limit_ui_at(Some(&w), 999, 5, time(5)), "75% (09:05)");
    assert_eq!(format_rate_limit_ui_at(Some(&w), 999, 5, time(6)), "75% (09:05 on 1 May)");
}

#[test]
fn limits_are_shown_now() {
    assert_eq!(format_rate_limit_ui(None), "-");
    assert_eq!(format_rate_limit_ui(Some(&window(25.0, 300, Some(1)))), "100%");
    // The year 3000.
    let far = format_rate_limit_ui(Some(&window(25.0, 300, Some(32_503_680_000))));
    assert!(far.starts_with("75% (") && far.contains(" on ") && far.ends_with(')'));
    assert_eq!(format_rate_limit_ui(Some(&window(25.0, 300, Some(i64::MAX)))), "75%");
    // The last day but one of the calendar, and the first second behind it.
    let last = format_rate_limit_ui(Some(&window(25.0, 300, Some(8_210_266_876_799 - 86_400))));
    assert!(last.starts_with("75% ("));
    assert_eq!(format_rate_limit_ui(Some(&window(25.0, 300, Some(8_210_266_876_800)))), "75%");
}

#[test]
fn local_times() {
    // 2024-05-01 12:30 UTC: every zone is within a day, and a number of minutes, of that.
    let time = local_time(1_714_566_600).unwrap();
    assert!((739_006..=739_008).contains(&time.day));
    let dates = ["30 Apr", "1 May", "2 May"];
    assert_eq!(time.date, dates[(time.day - 739_006) as usize]);
    let (hour, minute) = time.clock.split_once(':').unwrap();
    assert!(hour.len() == 2 && hour.parse::<u8>().unwrap() < 24);
    assert!(minute.len() == 2 && minute.parse::<u8>().unwrap() < 60);
    // The same zone a day and two minutes later.
    let later = local_time(1_714_566_600 + 86_400 + 120).unwrap();
    assert_ne!(later.clock, time.clock);
    assert!(later.day == time.day + 1 || later.day == time.day + 2);
    assert!(local_time(i64::MAX).is_none());
}

#[test]
fn activity_is_shown() {
    assert_eq!(format_last_activity_at(None, 0), "-");
    assert_eq!(format_last_activity_at(Some(100), 50), "just now");
    assert_eq!(format_last_activity_at(Some(0), 59), "just now");
    assert_eq!(format_last_activity_at(Some(0), 60), "1m ago");
    assert_eq!(format_last_activity_at(Some(0), 3_599), "59m ago");
    assert_eq!(format_last_activity_at(Some(0), 3_600), "1h ago");
    assert_eq!(format_last_activity_at(Some(0), 86_400), "1d ago");
    assert_eq!(format_last_activity_at(Some(0), 1_000_000), "11d ago");
    assert_eq!(format_last_activity_at(Some(i64::MIN), i64::MAX), "106751991167300d ago");
    assert_eq!(format_last_activity_at(Some(i64::MAX), i64::MIN), "just now");
    assert_eq!(format_last_activity(None), "-");
    assert!(format_last_activity(Some(0)).ends_with("d ago"));
}

#[test]
fn windows_are_found_by_length() {
    let usage = RateLimitSnapshot {
        primary: Some(window(1.0, 300, None)),
        secondary: Some(window(2.0, 10_080, None)),
        credits: None,
        plan_type: None,
    };
    let found = |minutes: i64, fallback: bool| {
        resolve_rate_window(Some(&usage), minutes, fallback).unwrap().window_minutes
    };
    assert_eq!(found(300, false), Some(300));
    assert_eq!(found(10_080, true), Some(10_080));
    assert_eq!(found(5, true), Some(300));
    assert_eq!(found(5, false), Some(10_080));
    assert!(resolve_rate_window(None, 300, true).is_none());
}
