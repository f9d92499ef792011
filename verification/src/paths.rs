//! Where the files are, and what their names say.

use std::path::PathBuf;
use vstd::prelude::*;
use vstd::utf8::encode_utf8;

use crate::encoding::{base64url, base64url_bytes, base64url_encode, is_base64url_char};
use crate::text::{
    ascii_lower, chars_of, concat, ends_with, same, starts_with, texts, to_lower,
};

verus! {

/// A path of the file system. Nothing here looks inside one.
#[verifier::external_type_specification]
#[verifier::external_body]
pub struct ExPathBuf(PathBuf);

/// Where Codex keeps its files.
#[derive(Debug)]
pub struct Paths {
    pub codex_home: PathBuf,
}

/// A file or directory: the names to go down by, one behind the other, from a root.
#[derive(Debug)]
pub struct FilePath<'a> {
    pub root: &'a PathBuf,
    pub parts: Vec<String>,
}

/// A directory: the names to go down by from a base, or from nowhere in particular.
#[derive(Debug)]
pub struct Directory {
    pub base: Option<PathBuf>,
    pub parts: Vec<String>,
}

/// Neither `HOME` nor `USERPROFILE` is set.
#[derive(Debug, Clone, Copy, PartialEq, Eq, Structural)]
pub struct NoHome;

/// The message of [`NoHome`].
pub open spec fn no_home_text() -> Seq<char> {
    "HOME/USERPROFILE is not set"@
}

impl NoHome {
    /// The message for the user.
    pub fn message(self) -> (s: &'static str)
        ensures
            s@ == no_home_text(),
    {
        "HOME/USERPROFILE is not set"
    }
}

/// A single name.
pub open spec fn one(name: Seq<char>) -> Seq<Seq<char>> {
    seq![name]
}

/// Two names.
pub open spec fn two(first: Seq<char>, second: Seq<char>) -> Seq<Seq<char>> {
    seq![first, second]
}

fn list_one(name: String) -> (r: Vec<String>)
    ensures
        texts(r@) == one(name@),
{
    let mut r: Vec<String> = Vec::new();
    r.push(name);
    assert(texts(r@) =~= one(name@));
    r
}

fn list_two(first: String, second: String) -> (r: Vec<String>)
    ensures
        texts(r@) == two(first@, second@),
{
    let mut r: Vec<String> = Vec::new();
    r.push(first);
    r.push(second);
    assert(texts(r@) =~= two(first@, second@));
    r
}

/// The home directory of Codex: `CODEX_HOME`, else `.codex` below the user's home, which is `HOME`
/// or else `USERPROFILE`.
pub fn resolve_paths(
    codex_home: Option<PathBuf>,
    home: Option<PathBuf>,
    user_profile: Option<PathBuf>,
) -> (r: Result<Directory, NoHome>)
    ensures
        match (codex_home, home, user_profile) {
            (Some(path), _, _) => r matches Ok(dir) && dir.base == Some(path) && texts(dir.parts@)
                == Seq::<Seq<char>>::empty(),
            (None, Some(path), _) => r matches Ok(dir) && dir.base == Some(path) && texts(
                dir.parts@,
            ) == one(".codex"@),
            (None, None, Some(path)) => r matches Ok(dir) && dir.base == Some(path) && texts(
                dir.parts@,
            ) == one(".codex"@),
            (None, None, None) => r is Err,
        },
{
    match (codex_home, home, user_profile) {
        (Some(path), _, _) => {
            let parts: Vec<String> = Vec::new();
            assert(texts(parts@) =~= Seq::<Seq<char>>::empty());
            Ok(Directory { base: Some(path), parts })
        },
        (None, Some(path), _) => Ok(
            Directory { base: Some(path), parts: list_one(".codex".to_owned()) },
        ),
        (None, None, Some(path)) => Ok(
            Directory { base: Some(path), parts: list_one(".codex".to_owned()) },
        ),
        (None, None, None) => Err(NoHome),
    }
}

/// Where CPA files are looked for: `.cli-proxy-api` below the user's home, or below the working
/// directory where no home is known.
pub fn default_cpa_root(home: Option<PathBuf>, user_profile: Option<PathBuf>) -> (r: Directory)
    ensures
        match (home, user_profile) {
            (Some(path), _) => r.base == Some(path) && texts(r.parts@) == one(".cli-proxy-api"@),
            (None, Some(path)) => r.base == Some(path) && texts(r.parts@) == one(
                ".cli-proxy-api"@,
            ),
            (None, None) => r.base is None && texts(r.parts@) == two("."@, ".cli-proxy-api"@),
        },
{
    match (home, user_profile) {
        (Some(path), _) => Directory {
            base: Some(path),
            parts: list_one(".cli-proxy-api".to_owned()),
        },
        (None, Some(path)) => Directory {
            base: Some(path),
            parts: list_one(".cli-proxy-api".to_owned()),
        },
        (None, None) => Directory {
            base: None,
            parts: list_two(".".to_owned(), ".cli-proxy-api".to_owned()),
        },
    }
}

/// The registry file.
pub fn registry_path(paths: &Paths) -> (r: FilePath<'_>)
    ensures
        *r.root == paths.codex_home,
        texts(r.parts@) == two("accounts"@, "registry.json"@),
{
    FilePath {
        root: &paths.codex_home,
        parts: list_two("accounts".to_owned(), "registry.json".to_owned()),
    }
}

/// The auth file that Codex signs in with.
pub fn active_auth_path(paths: &Paths) -> (r: FilePath<'_>)
    ensures
        *r.root == paths.codex_home,
        texts(r.parts@) == one("auth.json"@),
{
    FilePath { root: &paths.codex_home, parts: list_one("auth.json".to_owned()) }
}

/// The directory of the registry and of the snapshots.
pub fn accounts_dir(paths: &Paths) -> (r: FilePath<'_>)
    ensures
        *r.root == paths.codex_home,
        texts(r.parts@) == one("accounts"@),
{
    FilePath { root: &paths.codex_home, parts: list_one("accounts".to_owned()) }
}

/// A character that a file name may hold as it is.
pub open spec fn is_file_char(c: char) -> bool {
    is_base64url_char(c) || c == '.'
}

/// The key cannot stand in a file name as it is.
pub open spec fn needs_encoding(key: Seq<char>) -> bool {
    ||| key.len() == 0
    ||| key == "."@
    ||| key == ".."@
    ||| exists|i: int| 0 <= i < key.len() && !is_file_char(#[trigger] key[i])
}

fn file_char(c: char) -> (r: bool)
    ensures
        r == is_file_char(c),
{
    ('A' <= c && c <= 'Z') || ('a' <= c && c <= 'z') || ('0' <= c && c <= '9') || c == '-' || c
        == '_' || c == '.'
}

/// Whether a key has to be encoded before it can stand in a file name.
pub fn key_needs_filename_encoding(key: &str) -> (r: bool)
    ensures
        r == needs_encoding(key@),
{
    if key.is_empty() || same(key, ".") || same(key, "..") {
        return true;
    }
    let chars = chars_of(key);
    let mut i: usize = 0;
    while i < chars.len()
        invariant
            i <= chars.len(),
            chars@ == key@,
            forall|k: int| 0 <= k < i ==> is_file_char(#[trigger] key@[k]),
        decreases chars.len() - i,
    {
        if !file_char(chars[i]) {
            assert(!is_file_char(key@[i as int]));
            return true;
        }
        i = i + 1;
    }
    false
}

/// The name of the snapshot file of an account.
pub open spec fn snapshot_name(key: Seq<char>) -> Seq<char> {
    if needs_encoding(key) {
        base64url(encode_utf8(key)) + ".auth.json"@
    } else {
        key + ".auth.json"@
    }
}

/// The key can be read back out of its encoded form.
pub open spec fn encoding_reads_back(key: Seq<char>) -> bool {
    base64url_bytes(base64url(encode_utf8(key))) == Some(encode_utf8(key))
}

/// Every character of the name may stand in a file name.
pub open spec fn is_file_name(name: Seq<char>) -> bool {
    forall|i: int| 0 <= i < name.len() ==> is_file_char(#[trigger] name[i])
}

/// The name of the snapshot file of an account. Whatever the key holds, the name holds only
/// letters, digits, `-`, `_` and `.`, and an encoded key can be read back.
pub fn account_file_name(account_key: &str) -> (r: String)
    ensures
        r@ == snapshot_name(account_key@),
        is_file_name(r@),
        needs_encoding(account_key@) ==> encoding_reads_back(account_key@),
{
    let r = if key_needs_filename_encoding(account_key) {
        concat(base64url_encode(account_key.as_bytes()).as_str(), ".auth.json")
    } else {
        concat(account_key, ".auth.json")
    };
    proof {
        reveal_strlit(".auth.json");
        let n = r@.len() - 10;
        assert forall|i: int| 0 <= i < r@.len() implies is_file_char(#[trigger] r@[i]) by {
            if i >= n {
                assert(r@[i] == ".auth.json"@[i - n]);
            }
        }
    }
    r
}

/// The snapshot file of an account.
pub fn account_auth_path<'a>(paths: &'a Paths, account_key: &str) -> (r: FilePath<'a>)
    ensures
        *r.root == paths.codex_home,
        texts(r.parts@) == two("accounts"@, snapshot_name(account_key@)),
        is_file_name(snapshot_name(account_key@)),
{
    FilePath {
        root: &paths.codex_home,
        parts: list_two("accounts".to_owned(), account_file_name(account_key)),
    }
}

/// The name that snapshots had when they were kept by email.
pub open spec fn legacy_snapshot_name(email: Seq<char>) -> Seq<char> {
    base64url(encode_utf8(email)) + ".auth.json"@
}

/// The name that the snapshot of an email had when snapshots were kept by email.
pub fn legacy_file_name(email: &str) -> (r: String)
    ensures
        r@ == legacy_snapshot_name(email@),
{
    concat(base64url_encode(email.as_bytes()).as_str(), ".auth.json")
}

/// The snapshot file of an email, from when snapshots were kept by email.
pub fn legacy_account_auth_path<'a>(paths: &'a Paths, email: &str) -> (r: FilePath<'a>)
    ensures
        *r.root == paths.codex_home,
        texts(r.parts@) == two("accounts"@, legacy_snapshot_name(email@)),
{
    FilePath {
        root: &paths.codex_home,
        parts: list_two("accounts".to_owned(), legacy_file_name(email)),
    }
}

/// Two keys that are encoded alike, or not at all, have different snapshot files.
pub proof fn snapshot_names_distinct(a: Seq<char>, b: Seq<char>)
    requires
        a != b,
        needs_encoding(a) == needs_encoding(b),
        needs_encoding(a) ==> encoding_reads_back(a) && encoding_reads_back(b),
    ensures
        snapshot_name(a) != snapshot_name(b),
{
    if snapshot_name(a) == snapshot_name(b) {
        let suffix = ".auth.json"@;
        let x = if needs_encoding(a) {
            base64url(encode_utf8(a))
        } else {
            a
        };
        let y = if needs_encoding(b) {
            base64url(encode_utf8(b))
        } else {
            b
        };
        assert(x + suffix == y + suffix);
        assert(x.len() == y.len());
        assert(x =~= (x + suffix).take(x.len() as int));
        assert(y =~= (y + suffix).take(y.len() as int));
        assert(x == y);
        if needs_encoding(a) {
            assert(encode_utf8(a) == encode_utf8(b));
            vstd::utf8::encode_utf8_decode_utf8(a);
            vstd::utf8::encode_utf8_decode_utf8(b);
        }
        assert(false);
    }
}

/// A file name has the extension `json`, in any case.
pub open spec fn json_extension(extension: Seq<char>) -> bool {
    ascii_lower(extension) == "json"@
}

/// Whether an extension marks a file to import.
pub fn is_json_extension(extension: &str) -> (r: bool)
    ensures
        r == json_extension(extension@),
{
    same(to_lower(extension).as_str(), "json")
}

/// The name of a file that is a snapshot and no backup.
pub open spec fn snapshot_candidate(name: Seq<char>) -> bool {
    ".auth.json"@.is_suffix_of(name) && !"auth.json.bak."@.is_prefix_of(name)
}

/// Whether a file in the accounts directory may be the snapshot of an account.
pub fn is_snapshot_candidate(name: &str) -> (r: bool)
    ensures
        r == snapshot_candidate(name@),
{
    ends_with(name, ".auth.json") && !starts_with(name, "auth.json.bak.")
}

/// The name of a session log.
pub open spec fn rollout_name(name: Seq<char>) -> bool {
    "rollout-"@.is_prefix_of(name) && ".jsonl"@.is_suffix_of(name)
}

/// Whether a file is a session log.
pub fn is_rollout_file(name: &str) -> (r: bool)
    ensures
        r == rollout_name(name@),
{
    starts_with(name, "rollout-") && ends_with(name, ".jsonl")
}

}
