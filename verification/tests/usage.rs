use codex_auth::auth::AuthInfo;
use codex_auth::chatgpt_api::{
    account_entries, account_entry, accounts_reply, build_headers, ceil_minutes, entry_pairs, me_from_json,
    missing_auth_result, parse_accounts_response, parse_me_response, parse_usage_response,
    request_identity, usage_from_response, usage_reply, AccountEntry, ApiError, ApiWindowJson, RateLimitJson,
    UsageResponse, BROWSER_USER_AGENT, DEFAULT_ACCOUNT_ENDPOINT, DEFAULT_USAGE_ENDPOINT,
};
use codex_auth::json::{parse, Json};
use codex_auth::model::{AuthMode, CreditsSnapshot, PlanType, Registry, UsedPercent};
use codex_auth::sessions::{
    keep_latest, may_be_usage_event, parse_rate_limits, parse_timed_event, parse_usage_event,
    parse_usage_event_line, parse_window, scan_log, LatestUsage, UsageEventLineJson,
    UsageRateLimitsJson, UsageWindowJson,
};
use codex_auth::sync::apply_names;

fn used(x: f64) -> UsedPercent {
    UsedPercent { bits: x.to_bits(), remaining: (100.0 - x).round() as i64 }
}

fn window(x: Option<f64>) -> Option<UsageWindowJson> {
    Some(UsageWindowJson {
        used_percent: x.map(used),
        window_minutes: Some(300),
        resets_at: Some(77),
    })
}

fn limits(primary: Option<f64>) -> UsageRateLimitsJson {
    UsageRateLimitsJson {
        primary: window(primary),
        secondary: None,
        credits: None,
        plan_type: Some("Plus".to_owned()),
    }
}

fn event(timestamp: &str, kind: &str, payload_kind: &str) -> UsageEventLineJson {
    UsageEventLineJson {
        timestamp: timestamp.to_owned(),
        kind: kind.to_owned(),
        payload_kind: payload_kind.to_owned(),
        rate_limits: Some(limits(Some(25.0))),
    }
}

const LINE: &str = r#"{"timestamp":"2024-05-01T12:30:00Z","type":"event_msg","payload":{"type":"token_count","rate_limits":{}}}"#;

fn latest(path: &str, ms: i64) -> LatestUsage {
    LatestUsage {
        path: path.to_owned(),
        event_timestamp_ms: ms,
        snapshot: parse_rate_limits(limits(Some(1.0))).unwrap(),
    }
}

#[test]
fn lines_that_may_be_events() {
    assert!(may_be_usage_event(LINE));
    assert!(!may_be_usage_event(r#"{"timestamp":1,"type":"event_msg","x":"rate_limits"}"#));
    assert!(!may_be_usage_event(""));
}

#[test]
fn windows_need_a_number() {
    assert!(parse_window(None).is_none());
    assert!(parse_window(window(None)).is_none());
    let parsed = parse_window(window(Some(12.5))).unwrap();
    assert_eq!(f64::from_bits(parsed.used_percent.bits), 12.5);
    assert_eq!(parsed.used_percent.remaining, 88);
    assert_eq!(parsed.window_minutes, Some(300));
    assert_eq!(parsed.resets_at, Some(77));
}

#[test]
fn limits_need_a_window() {
    assert!(parse_rate_limits(limits(None)).is_none());
    let parsed = parse_rate_limits(limits(Some(1.0))).unwrap();
    assert!(parsed.primary.is_some());
    assert!(parsed.secondary.is_none());
    assert_eq!(parsed.plan_type, Some(PlanType::Plus));
}

#[test]
fn events_are_parsed() {
    let (ms, snapshot) =
        parse_usage_event(event("2024-05-01T12:30:00Z", "event_msg", "token_count")).unwrap();
    assert_eq!(ms, 1_714_566_600_000);
    assert_eq!(snapshot.primary.unwrap().used_percent.remaining, 75);
    let (ms, _) =
        parse_usage_event(event("2024-05-01T14:30:00.250+02:00", "event_msg", "token_count"))
            .unwrap();
    assert_eq!(ms, 1_714_566_600_250);
    assert!(parse_usage_event(event("yesterday", "event_msg", "token_count")).is_none());
    assert!(parse_usage_event(event("2024-05-01T12:30:00Z", "turn", "token_count")).is_none());
    assert!(parse_usage_event(event("2024-05-01T12:30:00Z", "event_msg", "x")).is_none());
    let mut bare = event("2024-05-01T12:30:00Z", "event_msg", "token_count");
    bare.rate_limits = None;
    assert!(parse_usage_event(bare).is_none());
    assert_eq!(parse_timed_event(event("", "event_msg", "token_count"), Some(5)).unwrap().0, 5);
    assert!(parse_timed_event(event("", "event_msg", "token_count"), None).is_none());
}

#[test]
fn lines_are_read_only_where_they_may_be_events() {
    let read = |_line: &str| Some(event("2024-05-01T12:30:00Z", "event_msg", "token_count"));
    assert_eq!(parse_usage_event_line(LINE, read).unwrap().0, 1_714_566_600_000);
    assert!(parse_usage_event_line("{}", read).is_none());
    assert!(parse_usage_event_line(LINE, |_line: &str| None).is_none());
}

#[test]
fn the_later_event_is_kept() {
    assert_eq!(keep_latest(None, latest("a", 1)).path, "a");
    assert_eq!(keep_latest(Some(latest("a", 1)), latest("b", 0)).path, "a");
    assert_eq!(keep_latest(Some(latest("a", 1)), latest("b", 1)).path, "b");
    assert_eq!(keep_latest(Some(latest("a", 1)), latest("b", 2)).path, "b");
}

#[test]
fn logs_are_scanned() {
    let read = |line: &str| {
        let stamp = line.split('#').nth(1)?;
        Some(event(stamp, "event_msg", "token_count"))
    };
    let early = format!("{LINE}#2024-05-01T12:30:00Z");
    let late = format!("{LINE}#2024-05-02T12:30:00Z");
    let lines: Vec<&str> = vec!["", &late, "{}", &early, LINE];
    let best = scan_log(None, "first", &lines, read).unwrap();
    assert_eq!(best.path, "first");
    assert_eq!(best.event_timestamp_ms, 1_714_653_000_000);
    let best = scan_log(Some(best), "second", &[early.as_str()], read).unwrap();
    assert_eq!(best.path, "first");
    let best = scan_log(Some(best), "third", &[late.as_str()], read).unwrap();
    assert_eq!(best.path, "third");
    assert!(scan_log(None, "empty", &[], read).is_none());
}

#[test]
fn questions() {
    let mut info = AuthInfo {
        email: None,
        chatgpt_account_id: Some("acc".to_owned()),
        chatgpt_user_id: None,
        record_key: None,
        access_token: Some("tok".to_owned()),
        last_refresh: None,
        plan: None,
        auth_mode: AuthMode::Chatgpt,
        openai_api_key: None,
    };
    assert_eq!(request_identity(&info), Some(("tok".to_owned(), "acc".to_owned())));
    info.access_token = None;
    assert!(request_identity(&info).is_none());
    let missing = missing_auth_result();
    assert!(missing.missing_auth && missing.snapshot.is_none() && missing.status_code.is_none());
    let headers = build_headers("tok", "acc");
    assert_eq!(headers[0], ("Authorization".to_owned(), "Bearer tok".to_owned()));
    assert_eq!(headers[1], ("ChatGPT-Account-Id".to_owned(), "acc".to_owned()));
    assert_eq!(headers[2], ("User-Agent".to_owned(), BROWSER_USER_AGENT.to_owned()));
    assert_eq!(headers.len(), 3);
    assert_eq!(DEFAULT_USAGE_ENDPOINT, "https://chatgpt.com/backend-api/wham/usage");
    assert_eq!(
        DEFAULT_ACCOUNT_ENDPOINT,
        "https://chatgpt.com/backend-api/accounts/check/v4-2023-04-27"
    );
}

#[test]
fn minutes() {
    assert_eq!(ceil_minutes(0), 0);
    assert_eq!(ceil_minutes(1), 1);
    assert_eq!(ceil_minutes(60), 1);
    assert_eq!(ceil_minutes(61), 2);
    assert_eq!(ceil_minutes(18_000), 300);
    assert_eq!(ceil_minutes(-60), 0);
    assert_eq!(ceil_minutes(-120), -1);
}

fn response(primary: Option<f64>) -> UsageResponse {
    UsageResponse {
        plan_type: Some("team".to_owned()),
        credits: Some(CreditsSnapshot {
            has_credits: true,
            unlimited: false,
            balance: Some(String::new()),
        }),
        rate_limit: Some(RateLimitJson {
            primary_window: primary.map(|x| ApiWindowJson {
                used_percent: used(x),
                limit_window_seconds: Some(18_000),
                reset_at: Some(5),
            }),
            secondary_window: None,
        }),
    }
}

#[test]
fn usage_answers() {
    let snapshot = usage_from_response(response(Some(40.0))).unwrap();
    let primary = snapshot.primary.unwrap();
    assert_eq!(primary.window_minutes, Some(300));
    assert_eq!(primary.resets_at, Some(5));
    assert_eq!(primary.used_percent.remaining, 60);
    assert_eq!(snapshot.plan_type, Some(PlanType::Team));
    assert!(snapshot.credits.unwrap().balance.is_none());
    assert!(usage_from_response(response(None)).is_none());
    let mut bare = response(Some(1.0));
    bare.rate_limit = None;
    assert!(usage_from_response(bare).is_none());
    let read = |body: &str| if body == "{}" { Some(response(Some(40.0))) } else { None };
    assert!(parse_usage_response("{}", read).unwrap().is_some());
    assert_eq!(parse_usage_response("oops", read).unwrap_err(), ApiError::InvalidUsageJson);
    let ok = usage_reply(200, "{}", read).unwrap();
    assert_eq!(ok.status_code, Some(200));
    assert!(ok.snapshot.is_some() && !ok.missing_auth);
    let blank = usage_reply(204, " \n\u{a0}", read).unwrap();
    assert_eq!(blank.status_code, Some(204));
    assert!(blank.snapshot.is_none());
    assert_eq!(usage_reply(500, "oops", read).unwrap_err(), ApiError::InvalidUsageJson);
    assert_eq!(ApiError::InvalidUsageJson.message(), "invalid usage response json");
}

fn read_members(text: &str) -> Option<Option<Vec<(String, Json)>>> {
    match parse(text.as_bytes())? {
        Json::Object(members) => Some(Some(members)),
        Json::Null => Some(None),
        _ => None,
    }
}

#[test]
fn account_answers() {
    let text = r#"{
        "a": {"account": {"account_id": "id-a", "name": "Acme"}},
        "b": {"account": {"account_id": "id-b", "name": ""}},
        "c": {"account": {"account_id": ""}},
        "d": {"account": 7},
        "default": {"account": {"account_id": "id-a", "name": "Acme"}},
        "e": []
    }"#;
    let entries = parse_accounts_response(text, read_members).unwrap().unwrap();
    assert_eq!(entries.len(), 2);
    assert_eq!(entries[0].account_id, "id-a");
    assert_eq!(entries[0].account_name.as_deref(), Some("Acme"));
    assert_eq!(entries[1].account_id, "id-b");
    assert!(entries[1].account_name.is_none());
    assert!(parse_accounts_response("null", read_members).unwrap().is_none());
    assert_eq!(
        parse_accounts_response("7", read_members).unwrap_err(),
        ApiError::InvalidAccountsJson
    );
    let members = read_members(text).unwrap().unwrap();
    assert_eq!(account_entries(&members).len(), 2);
    let pairs = entry_pairs(&entries);
    assert_eq!(pairs[0], ("id-a".to_owned(), Some("Acme".to_owned())));
    let reply = accounts_reply(200, text, read_members).unwrap();
    assert_eq!(reply.status_code, Some(200));
    assert_eq!(reply.entries.unwrap().len(), 2);
    assert!(accounts_reply(200, "", read_members).unwrap().entries.is_none());
    assert!(accounts_reply(200, "null", read_members).unwrap().entries.is_none());
    assert_eq!(accounts_reply(200, "x", read_members).unwrap_err(), ApiError::InvalidAccountsJson);
    assert_eq!(ApiError::InvalidAccountsJson.message(), "invalid accounts response json");
}

#[test]
fn single_account_entries() {
    let value = parse(br#"{"account":{"account_id":"id","name":"n"}}"#).unwrap();
    assert_eq!(account_entry("x", &value).unwrap().account_id, "id");
    assert!(account_entry("default", &value).is_none());
    assert!(account_entry("x", &Json::Null).is_none());
}

#[test]
fn answers_name_accounts() {
    let mut registry = Registry::default();
    registry.accounts.push(codex_auth::model::AccountRecord {
        account_key: "k".to_owned(),
        chatgpt_account_id: "id-a".to_owned(),
        chatgpt_user_id: "u".to_owned(),
        email: String::new(),
        alias: String::new(),
        account_name: None,
        plan: None,
        auth_mode: None,
        created_at: 0,
        last_used_at: None,
        last_usage: None,
        last_usage_at: None,
        last_local_rollout: None,
    });
    let answer = || {
        Some(codex_auth::chatgpt_api::AccountFetchResult {
            entries: Some(vec![AccountEntry {
                account_id: "id-a".to_owned(),
                account_name: Some("Acme".to_owned()),
            }]),
            status_code: Some(200),
        })
    };
    assert!(!apply_names(&mut registry, "u", None));
    assert!(apply_names(&mut registry, "u", answer()));
    assert_eq!(registry.accounts[0].account_name.as_deref(), Some("Acme"));
    assert!(!apply_names(&mut registry, "u", answer()));
}

#[test]
fn owners_of_api_keys() {
    let me = parse_me_response(br#"{"id":"user-1","email":"a@x","name":"A"}"#).unwrap();
    assert_eq!((me.user_id.as_str(), me.email.as_str()), ("user-1", "a@x"));
    assert!(parse_me_response(br#"{"id":"user-1"}"#).is_none());
    assert!(parse_me_response(b"").is_none());
    assert!(me_from_json(&Json::Null).is_none());
}
