//! Which files are kept, said of their names.

use vstd::prelude::*;

use crate::files::{
    all_but_last, backup_file_name, free_at, in_order, oldest_backups, prefixed, stale_snapshot,
    MAX_BACKUPS,
};
use crate::model::RegistryView;
use crate::paths::{
    is_file_char, json_extension, legacy_snapshot_name, needs_encoding, rollout_name,
    snapshot_candidate, snapshot_name,
};
use crate::text::{ascii_lower, decimal, decimal_injective, text_less};

verus! {

/// The first by name go: a backup that comes before one that goes, goes too, so that those which
/// stay are the last.
pub proof fn oldest_backups_go(
    names: Seq<Seq<char>>,
    prefix: Seq<char>,
    doomed: Seq<Seq<char>>,
    older: Seq<char>,
    newer: Seq<char>,
)
    requires
        oldest_backups(names, prefix, doomed),
        doomed.contains(newer),
        prefixed(names, prefix).contains(older),
        text_less(older, newer),
    ensures
        doomed.contains(older),
{
    let backups = prefixed(names, prefix);
    let sorted = choose|sorted: Seq<Seq<char>>|
        {
            &&& #[trigger] in_order(sorted)
            &&& sorted.to_multiset() == backups.to_multiset()
            &&& doomed == all_but_last(sorted, MAX_BACKUPS as nat)
        };
    sorted.to_multiset_ensures();
    backups.to_multiset_ensures();
    assert(sorted.to_multiset().count(older) > 0);
    assert(sorted.contains(older));
    let i = choose|i: int| 0 <= i < sorted.len() && sorted[i] == older;
    let j = choose|j: int| 0 <= j < doomed.len() && doomed[j] == newer;
    assert(sorted[j] == newer);
    if i >= doomed.len() {
        assert(!text_less(sorted[i], sorted[j]));
        assert(false);
    }
    assert(doomed[i] == older);
}

/// Only names with the prefix are backups, and all of them are.
pub proof fn backups_have_the_prefix(names: Seq<Seq<char>>, prefix: Seq<char>, name: Seq<char>)
    ensures
        prefixed(names, prefix).contains(name) == (names.contains(name) && prefix.is_prefix_of(
            name,
        )),
        MAX_BACKUPS == 5,
{
    let wanted = |name: Seq<char>| prefix.is_prefix_of(name);
    let found = names.filter(wanted);
    if found.contains(name) {
        names.lemma_filter_contains_rev(wanted, name);
        let i = choose|i: int| 0 <= i < found.len() && found[i] == name;
        names.lemma_filter_pred(wanted, i);
    }
    if names.contains(name) && prefix.is_prefix_of(name) {
        let i = choose|i: int| 0 <= i < names.len() && names[i] == name;
        names.lemma_filter_contains(wanted, i);
    }
}

/// A backup is named by its prefix and its time, and further ones of the same time by a number that
/// tells them apart.
pub proof fn backups_of_one_time_differ(prefix: Seq<char>, stamp: Seq<char>, a: nat, b: nat)
    requires
        a != b,
    ensures
        backup_file_name(prefix, stamp, a) != backup_file_name(prefix, stamp, b),
        backup_file_name(prefix, stamp, 0) == prefix + stamp,
        (prefix + stamp).is_prefix_of(backup_file_name(prefix, stamp, a)),
{
    reveal_strlit(".");
    let x = backup_file_name(prefix, stamp, a);
    let y = backup_file_name(prefix, stamp, b);
    let head = prefix + stamp;
    assert(x.take(head.len() as int) =~= head);
    if x == y {
        if a == 0 || b == 0 {
            assert(x.len() != y.len());
        } else {
            let long = head + "."@;
            assert(x.skip(long.len() as int) =~= decimal(a));
            assert(y.skip(long.len() as int) =~= decimal(b));
            decimal_injective(a, b);
        }
    }
}

/// A cleanup takes a file exactly where its name is that of a snapshot but not of a known account's
/// one.
pub proof fn cleanup_takes_unknown_snapshots(registry: RegistryView, name: Seq<char>)
    ensures
        stale_snapshot(registry, name) ==> ".auth.json"@.is_suffix_of(name),
        stale_snapshot(registry, name) ==> forall|i: int|
            0 <= i < registry.accounts.len() ==> snapshot_name(
                (#[trigger] registry.accounts[i]).account_key,
            ) != name,
        ".auth.json"@.is_suffix_of(name) && (forall|i: int|
            0 <= i < registry.accounts.len() ==> snapshot_name(
                (#[trigger] registry.accounts[i]).account_key,
            ) != name) ==> stale_snapshot(registry, name),
        !stale_snapshot(registry, "registry.json"@),
{
    reveal_strlit(".auth.json");
    reveal_strlit(".bak");
    reveal_strlit("registry.json");
    let suffix = ".auth.json"@;
    if suffix.is_suffix_of(name) {
        let n = name.len();
        assert(name.subrange(n - 10, n as int) == suffix);
        assert(name[n - 1] == name.subrange(n - 10, n as int)[9]);
        assert(name[n - 10] == name.subrange(n - 10, n as int)[0]);
        if ".bak"@.is_suffix_of(name) {
            assert(name.subrange(n - 4, n as int) == ".bak"@);
            assert(name[n - 1] == name.subrange(n - 4, n as int)[3]);
        }
        if name == "registry.json"@ {
            assert("registry.json"@[3] != '.');
        }
    }
}

/// A key of letters, digits, `-`, `_` and `.` names its snapshot as it is, unless it is empty or one
/// or two dots; no other key does.
pub proof fn plain_keys_name_their_snapshots(key: Seq<char>)
    ensures
        key.len() > 2 && (forall|i: int| 0 <= i < key.len() ==> is_file_char(#[trigger] key[i]))
            ==> snapshot_name(key) == key + ".auth.json"@,
        (exists|i: int|
            0 <= i < key.len() && (#[trigger] key[i] == '/' || key[i] == '\\' || key[i] == ':'
                || key[i] == ' ')) ==> needs_encoding(key),
        needs_encoding(Seq::empty()),
        needs_encoding("."@),
        needs_encoding(".."@),
        needs_encoding(key) ==> snapshot_name(key) == legacy_snapshot_name(key),
        ".auth.json"@.is_suffix_of(snapshot_name(key)),
{
    reveal_strlit(".");
    reveal_strlit("..");
    reveal_strlit(".auth.json");
    let name = snapshot_name(key);
    assert(name.subrange(name.len() - 10, name.len() as int) =~= ".auth.json"@);
    if exists|i: int|
        0 <= i < key.len() && (#[trigger] key[i] == '/' || key[i] == '\\' || key[i] == ':' || key[i]
            == ' ') {
        let i = choose|i: int|
            0 <= i < key.len() && (#[trigger] key[i] == '/' || key[i] == '\\' || key[i] == ':'
                || key[i] == ' ');
        assert(!is_file_char(key[i]));
    }
}

/// A session log is named `rollout-`, something, `.jsonl`; a snapshot to take over ends in
/// `.auth.json` and is no backup; a file to import has the extension `json`, in any case.
pub proof fn names_tell_the_kind(middle: Seq<char>, name: Seq<char>, extension: Seq<char>)
    ensures
        rollout_name("rollout-"@ + middle + ".jsonl"@),
        rollout_name(name) ==> "rollout-"@.is_prefix_of(name) && ".jsonl"@.is_suffix_of(name),
        snapshot_candidate(name) == (".auth.json"@.is_suffix_of(name)
            && !"auth.json.bak."@.is_prefix_of(name)),
        json_extension("json"@),
        json_extension(extension) ==> extension.len() == 4,
        ascii_lower(extension) == ascii_lower("json"@) ==> json_extension(extension),
{
    reveal_strlit("json");
    assert(ascii_lower("json"@) =~= "json"@);
    let log = "rollout-"@ + middle + ".jsonl"@;
    assert(log.take("rollout-"@.len() as int) =~= "rollout-"@);
    assert(log.subrange(log.len() - ".jsonl"@.len(), log.len() as int) =~= ".jsonl"@);
}

/// The next backup takes the first name that no file has, so that none is overwritten and none is
/// left out.
pub proof fn backups_overwrite_nothing(
    taken: Seq<Seq<char>>,
    prefix: Seq<char>,
    stamp: Seq<char>,
    suffix: int,
)
    ensures
        free_at(taken, prefix, stamp, suffix) ==> !taken.contains(
            backup_file_name(prefix, stamp, suffix as nat),
        ) && suffix < 1000,
        !taken.contains(prefix + stamp) ==> (free_at(taken, prefix, stamp, suffix) <==> suffix
            == 0),
{
    if !taken.contains(prefix + stamp) && free_at(taken, prefix, stamp, suffix) && suffix > 0 {
        let first: int = 0;
        assert(taken.contains(backup_file_name(prefix, stamp, first as nat)));
    }
}

}
