use codex_auth::encoding::{digest_of, hex_lower, json_string};
use codex_auth::files::{
    backup_name, backup_needed, backups_to_prune, clean_accounts_dir, file_equals_bytes, is_stale_snapshot,
    next_backup_name, next_backup_path, same_bytes, sorted_backups,
};
use codex_auth::model::{AccountRecord, Registry};
use codex_auth::paths::{
    account_auth_path, account_file_name, accounts_dir, active_auth_path, default_cpa_root,
    is_json_extension, is_rollout_file, is_snapshot_candidate, key_needs_filename_encoding,
    legacy_account_auth_path, registry_path, resolve_paths, NoHome, Paths,
};
use std::path::PathBuf;

fn strings(list: &[&str]) -> Vec<String> {
    list.iter().map(|s| (*s).to_owned()).collect()
}

#[test]
fn known_paths() {
    let paths = Paths { codex_home: PathBuf::from("/home/x/.codex") };
    assert_eq!(registry_path(&paths).parts, strings(&["accounts", "registry.json"]));
    assert_eq!(active_auth_path(&paths).parts, strings(&["auth.json"]));
    assert_eq!(accounts_dir(&paths).parts, strings(&["accounts"]));
    assert_eq!(registry_path(&paths).root, &paths.codex_home);
    assert_eq!(
        account_auth_path(&paths, "user-1::acc-1").parts,
        strings(&["accounts", "dXNlci0xOjphY2MtMQ.auth.json"])
    );
    assert_eq!(
        legacy_account_auth_path(&paths, "john@example.com").parts,
        strings(&["accounts", "am9obkBleGFtcGxlLmNvbQ.auth.json"])
    );
}

#[test]
fn homes() {
    let p = |s: &str| Some(PathBuf::from(s));
    let dir = resolve_paths(p("/c"), p("/h"), p("/u")).unwrap();
    assert_eq!((dir.base, dir.parts), (p("/c"), strings(&[])));
    let dir = resolve_paths(None, p("/h"), p("/u")).unwrap();
    assert_eq!((dir.base, dir.parts), (p("/h"), strings(&[".codex"])));
    let dir = resolve_paths(None, None, p("/u")).unwrap();
    assert_eq!((dir.base, dir.parts), (p("/u"), strings(&[".codex"])));
    assert!(matches!(resolve_paths(None, None, None), Err(NoHome)));
    assert_eq!(NoHome.message(), "HOME/USERPROFILE is not set");
    let dir = default_cpa_root(p("/h"), None);
    assert_eq!((dir.base, dir.parts), (p("/h"), strings(&[".cli-proxy-api"])));
    let dir = default_cpa_root(None, p("/u"));
    assert_eq!((dir.base, dir.parts), (p("/u"), strings(&[".cli-proxy-api"])));
    let dir = default_cpa_root(None, None);
    assert_eq!((dir.base, dir.parts), (None, strings(&[".", ".cli-proxy-api"])));
}

#[test]
fn file_names_of_keys() {
    assert_eq!(account_file_name("plain-Key_1.x"), "plain-Key_1.x.auth.json");
    assert_eq!(account_file_name("a:"), "YTo.auth.json");
    assert_eq!(account_file_name(""), ".auth.json");
    assert_eq!(account_file_name("."), "Lg.auth.json");
    assert!(key_needs_filename_encoding(""));
    assert!(key_needs_filename_encoding("."));
    assert!(key_needs_filename_encoding(".."));
    assert!(key_needs_filename_encoding("a/b"));
    assert!(key_needs_filename_encoding("é"));
    assert!(!key_needs_filename_encoding("..."));
    assert!(!key_needs_filename_encoding("abc"));
    assert_ne!(account_file_name("u::1"), account_file_name("u::2"));
}

#[test]
fn kinds_of_files() {
    assert!(is_json_extension("JSON"));
    assert!(!is_json_extension("jsonl"));
    assert!(is_snapshot_candidate("x.auth.json"));
    assert!(!is_snapshot_candidate("auth.json.bak.x.auth.json"));
    assert!(!is_snapshot_candidate("registry.json"));
    assert!(is_rollout_file("rollout-1.jsonl"));
    assert!(!is_rollout_file("rollout-1.json"));
    assert!(!is_rollout_file("x-rollout-1.jsonl"));
}

#[test]
fn encodings() {
    assert_eq!(hex_lower(&[0x00, 0xff, 0x1a]), "00ff1a");
    assert_eq!(
        digest_of("abc"),
        "ba7816bf8f01cfea414140de5dae2223b00361a396177a9cb410ff61f20015ad"
    );
    assert_eq!(json_string("a\"b\n"), "\"a\\\"b\\n\"");
    assert_eq!(
        json_string("\\/\u{8}\t\u{c}\r\u{0}\u{b}\u{1f}\u{7f}\u{e9}"),
        "\"\\\\/\\b\\t\\f\\r\\u0000\\u000b\\u001f\u{7f}\u{e9}\""
    );
}

#[test]
fn bytes_and_backups() {
    assert!(same_bytes(b"ab", b"ab"));
    assert!(!same_bytes(b"ab", b"ac"));
    assert!(!same_bytes(b"ab", b"a"));
    assert!(file_equals_bytes(Some(b"x"), b"x"));
    assert!(!file_equals_bytes(None, b""));
    assert!(!backup_needed(None, Some(b"x")));
    assert!(backup_needed(Some(b"x"), None));
    assert!(backup_needed(Some(b"x"), Some(b"y")));
    assert!(!backup_needed(Some(b"x"), Some(b"x")));
}

#[test]
fn backup_names() {
    assert_eq!(backup_name("auth.json.bak.", "20240501-123000", 0), "auth.json.bak.20240501-123000");
    assert_eq!(backup_name("p.", "s", 12), "p.s.12");
    assert_eq!(next_backup_name(&[], "p.", "s").as_deref(), Some("p.s"));
    assert_eq!(
        next_backup_name(&strings(&["p.s", "p.s.1", "p.s.3"]), "p.", "s").as_deref(),
        Some("p.s.2")
    );
    let mut taken: Vec<String> = vec!["p.s".to_owned()];
    for i in 1..1000 {
        taken.push(format!("p.s.{i}"));
    }
    assert!(next_backup_name(&taken, "p.", "s").is_none());
}

#[test]
fn backups_are_stamped_with_the_local_time() {
    let name = next_backup_path(&[], "p.").unwrap();
    let stamp = name.strip_prefix("p.").unwrap();
    assert_eq!(stamp.len(), 15);
    assert!(stamp.chars().enumerate().all(|(i, c)| if i == 8 { c == '-' } else { c.is_ascii_digit() }));
}

#[test]
fn only_the_last_backups_stay() {
    let names = strings(&["p.7", "q.1", "p.3", "p.5", "p.1", "p.6", "p.2", "p.4"]);
    assert_eq!(sorted_backups(&names, "p."), strings(&["p.1", "p.2", "p.3", "p.4", "p.5", "p.6", "p.7"]));
    assert_eq!(backups_to_prune(&names, "p."), strings(&["p.1", "p.2"]));
    assert!(backups_to_prune(&names, "q.").is_empty());
    assert!(backups_to_prune(&strings(&["p.1", "p.2", "p.3", "p.4", "p.5"]), "p.").is_empty());
}

#[test]
fn stale_snapshots() {
    let mut registry = Registry::default();
    registry.accounts.push(AccountRecord {
        account_key: "user-1::acc-1".to_owned(),
        chatgpt_account_id: String::new(),
        chatgpt_user_id: String::new(),
        email: String::new(),
        alias: String::new(),
        account_name: None,
        plan: None,
        auth_mode: None,
        created_at: 0,
        last_used_at: None,
        last_usage: None,
        last_usage_at: None,
        last_local_rollout: None,
    });
    assert!(!is_stale_snapshot(&registry, "dXNlci0xOjphY2MtMQ.auth.json"));
    assert!(is_stale_snapshot(&registry, "other.auth.json"));
    assert!(!is_stale_snapshot(&registry, "registry.json"));
    assert!(!is_stale_snapshot(&registry, "x.auth.json.bak"));
    assert!(!is_stale_snapshot(&registry, "notes.txt"));
    let names = strings(&["b.auth.json", "dXNlci0xOjphY2MtMQ.auth.json", "notes.txt", "a.auth.json"]);
    assert_eq!(clean_accounts_dir(&registry, &names), strings(&["b.auth.json", "a.auth.json"]));
}
