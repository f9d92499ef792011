//! Which files of the accounts directory are kept, backed up and thrown away.

use vstd::prelude::*;

use crate::clock::{is_stamp, local_stamp};
use crate::model::{AccountView, Registry, RegistryView};
use crate::paths::{account_file_name, snapshot_name};
use crate::text::{
    concat, decimal, decimal_of, ends_with, is_less, is_listed, option_view, same, starts_with, text_less,
    text_less_asymmetric, text_less_total, text_less_transitive, texts,
};

verus! {

/// How many backups of a file are kept.
pub const MAX_BACKUPS: usize = 5;

/// How many names are tried for a backup.
pub const BACKUP_NAMES: usize = 1000;

/// Whether two files hold the same bytes.
pub fn same_bytes(a: &[u8], b: &[u8]) -> (r: bool)
    ensures
        r == (a@ == b@),
{
    if a.len() != b.len() {
        return false;
    }
    let mut i: usize = 0;
    while i < a.len()
        invariant
            i <= a.len(),
            a.len() == b.len(),
            forall|k: int| 0 <= k < i ==> a@[k] == b@[k],
        decreases a.len() - i,
    {
        if a[i] != b[i] {
            return false;
        }
        i = i + 1;
    }
    assert(a@ =~= b@);
    true
}

/// A file is there and holds the given bytes.
pub open spec fn holds(file: Option<&[u8]>, bytes: Seq<u8>) -> bool {
    file matches Some(data) && data@ == bytes
}

/// Whether a file, where it is there, holds the given bytes.
pub fn file_equals_bytes(file: Option<&[u8]>, bytes: &[u8]) -> (r: bool)
    ensures
        r == holds(file, bytes@),
{
    match file {
        Some(data) => same_bytes(data, bytes),
        None => false,
    }
}

/// Whether a file is backed up before it is replaced: it is there, and the replacement, where that
/// is there, holds other bytes.
pub fn backup_needed(current: Option<&[u8]>, replacement: Option<&[u8]>) -> (r: bool)
    ensures
        r == match (current, replacement) {
            (None, _) => false,
            (Some(_), None) => true,
            (Some(current), Some(replacement)) => current@ != replacement@,
        },
{
    match (current, replacement) {
        (None, _) => false,
        (Some(_), None) => true,
        (Some(current), Some(replacement)) => !same_bytes(current, replacement),
    }
}

/// The name of a backup: the prefix, the time, and a number from the second backup of a second on.
pub open spec fn backup_file_name(prefix: Seq<char>, stamp: Seq<char>, suffix: nat) -> Seq<char> {
    if suffix == 0 {
        prefix + stamp
    } else {
        prefix + stamp + "."@ + decimal(suffix)
    }
}

/// The name of a backup.
pub fn backup_name(prefix: &str, stamp: &str, suffix: usize) -> (r: String)
    ensures
        r@ == backup_file_name(prefix@, stamp@, suffix as nat),
{
    let mut r = concat(prefix, stamp);
    if suffix > 0 {
        r.append(".");
        r.append(decimal_of(suffix as u128).as_str());
    }
    r
}

/// The first name that is not taken.
pub open spec fn free_at(
    taken: Seq<Seq<char>>,
    prefix: Seq<char>,
    stamp: Seq<char>,
    suffix: int,
) -> bool {
    &&& 0 <= suffix < BACKUP_NAMES
    &&& !taken.contains(backup_file_name(prefix, stamp, suffix as nat))
    &&& forall|k: int|
        0 <= k < suffix ==> taken.contains(#[trigger] backup_file_name(prefix, stamp, k as nat))
}

/// `name` is the first that is not taken, or there is none.
pub open spec fn first_free(
    taken: Seq<Seq<char>>,
    prefix: Seq<char>,
    stamp: Seq<char>,
    name: Option<Seq<char>>,
) -> bool {
    match name {
        Some(name) => exists|suffix: int|
            #[trigger] free_at(taken, prefix, stamp, suffix) && name == backup_file_name(
                prefix,
                stamp,
                suffix as nat,
            ),
        None => forall|k: int|
            0 <= k < BACKUP_NAMES ==> taken.contains(
                #[trigger] backup_file_name(prefix, stamp, k as nat),
            ),
    }
}

/// The name of the next backup: the first that no file of the directory has, if one of the first
/// [`BACKUP_NAMES`] is free.
pub fn next_backup_name(taken: &[String], prefix: &str, stamp: &str) -> (r: Option<String>)
    ensures
        first_free(texts(taken@), prefix@, stamp@, option_view(r)),
{
    let mut suffix: usize = 0;
    while suffix < BACKUP_NAMES
        invariant
            suffix <= BACKUP_NAMES,
            forall|k: int|
                0 <= k < suffix ==> texts(taken@).contains(
                    #[trigger] backup_file_name(prefix@, stamp@, k as nat),
                ),
        decreases BACKUP_NAMES - suffix,
    {
        let name = backup_name(prefix, stamp, suffix);
        if !is_listed(taken, name.as_str()) {
            assert(free_at(texts(taken@), prefix@, stamp@, suffix as int));
            return Some(name);
        }
        suffix = suffix + 1;
    }
    None
}

/// The name of a backup that is made now, in a directory with the given files.
pub fn next_backup_path(taken: &[String], prefix: &str) -> (r: Option<String>)
    ensures
        exists|stamp: Seq<char>|
            is_stamp(stamp) && #[trigger] first_free(
                texts(taken@),
                prefix@,
                stamp,
                option_view(r),
            ),
{
    let stamp = local_stamp();
    next_backup_name(taken, prefix, stamp.as_str())
}

/// In the order of texts; equal texts may follow each other.
pub open spec fn in_order(names: Seq<Seq<char>>) -> bool {
    forall|i: int, j: int|
        0 <= i < j < names.len() ==> !text_less(#[trigger] names[j], #[trigger] names[i])
}

/// The names that start with a prefix.
pub open spec fn prefixed(names: Seq<Seq<char>>, prefix: Seq<char>) -> Seq<Seq<char>> {
    names.filter(|name: Seq<char>| prefix.is_prefix_of(name))
}

fn insert_name(sorted: &mut Vec<String>, name: String)
    requires
        in_order(texts(old(sorted)@)),
    ensures
        in_order(texts(final(sorted)@)),
        texts(final(sorted)@).to_multiset() == texts(old(sorted)@).to_multiset().insert(name@),
{
    let ghost before = texts(sorted@);
    let ghost view = name@;
    let mut i: usize = sorted.len();
    while i > 0 && is_less(name.as_str(), sorted[i - 1].as_str())
        invariant
            i <= sorted.len(),
            before == texts(sorted@),
            view == name@,
            forall|k: int| i <= k < before.len() ==> text_less(view, #[trigger] before[k]),
        decreases i,
    {
        assert(before[i - 1] == sorted@[i - 1]@);
        i = i - 1;
    }
    proof {
        if i > 0 {
            assert(before[i - 1] == sorted@[i - 1]@);
        }
    }
    sorted.insert(i, name);
    proof {
        let after = texts(sorted@);
        assert(after =~= before.insert(i as int, view));
        vstd::seq_lib::to_multiset_insert(before, i as int, view);
        assert forall|a: int, b: int| 0 <= a < b < after.len() implies !text_less(
            #[trigger] after[b],
            #[trigger] after[a],
        ) by {
            if b < i {
                assert(after[a] == before[a] && after[b] == before[b]);
            } else if b == i {
                assert(after[a] == before[a]);
                if text_less(view, before[a]) {
                    if a < i - 1 {
                        text_less_total(before[a], before[i - 1]);
                        if text_less(before[a], before[i - 1]) {
                            text_less_transitive(view, before[a], before[i - 1]);
                        }
                    }
                    assert(false);
                }
            } else if a == i {
                assert(after[b] == before[b - 1]);
                text_less_asymmetric(view, before[b - 1]);
            } else if a < i {
                assert(after[a] == before[a] && after[b] == before[b - 1]);
            } else {
                assert(after[a] == before[a - 1] && after[b] == before[b - 1]);
            }
        }
    }
}

/// The backups among the files of a directory, in the order of their names.
pub fn sorted_backups(names: &[String], prefix: &str) -> (r: Vec<String>)
    ensures
        in_order(texts(r@)),
        texts(r@).to_multiset() == prefixed(texts(names@), prefix@).to_multiset(),
{
    let ghost all = texts(names@);
    let ghost wanted = |name: Seq<char>| prefix@.is_prefix_of(name);
    let mut sorted: Vec<String> = Vec::new();
    let mut i: usize = 0;
    proof {
        reveal(Seq::filter);
        assert(texts(sorted@) =~= all.take(0).filter(wanted));
    }
    while i < names.len()
        invariant
            i <= names.len(),
            all == texts(names@),
            wanted == (|name: Seq<char>| prefix@.is_prefix_of(name)),
            in_order(texts(sorted@)),
            texts(sorted@).to_multiset() == all.take(i as int).filter(wanted).to_multiset(),
        decreases names.len() - i,
    {
        proof {
            reveal(Seq::filter);
            assert(all.take(i as int + 1).drop_last() =~= all.take(i as int));
            assert(all.take(i as int + 1).last() == names@[i as int]@);
            all.take(i as int).filter(wanted).to_multiset_ensures();
        }
        if starts_with(names[i].as_str(), prefix) {
            insert_name(&mut sorted, names[i].clone());
        }
        i = i + 1;
    }
    assert(all.take(all.len() as int) =~= all);
    sorted
}

/// There is only one way to put given names in order.
pub proof fn order_is_unique(a: Seq<Seq<char>>, b: Seq<Seq<char>>)
    requires
        in_order(a),
        in_order(b),
        a.to_multiset() == b.to_multiset(),
    ensures
        a == b,
    decreases a.len(),
{
    a.to_multiset_ensures();
    b.to_multiset_ensures();
    assert(a.len() == b.len());
    if a.len() == 0 {
        assert(a =~= b);
    } else {
        let x = a.last();
        let y = b.last();
        assert(a.contains(x));
        assert(b.contains(y));
        assert(b.to_multiset().count(x) > 0);
        assert(a.to_multiset().count(y) > 0);
        let i = choose|i: int| 0 <= i < a.len() && a[i] == y;
        let j = choose|j: int| 0 <= j < b.len() && b[j] == x;
        text_less_total(x, y);
        assert(x == y) by {
            if i < a.len() - 1 {
                assert(!text_less(a[a.len() - 1], a[i]));
            }
            if j < b.len() - 1 {
                assert(!text_less(b[b.len() - 1], b[j]));
            }
        }
        let p = a.drop_last();
        let q = b.drop_last();
        p.to_multiset_ensures();
        q.to_multiset_ensures();
        assert(p.push(x) =~= a);
        assert(q.push(x) =~= b);
        assert(p.to_multiset() =~= a.to_multiset().remove(x));
        assert(q.to_multiset() =~= b.to_multiset().remove(x));
        assert forall|i: int, j: int| 0 <= i < j < p.len() implies !text_less(
            #[trigger] p[j],
            #[trigger] p[i],
        ) by {
            assert(!text_less(a[j], a[i]));
        }
        assert forall|i: int, j: int| 0 <= i < j < q.len() implies !text_less(
            #[trigger] q[j],
            #[trigger] q[i],
        ) by {
            assert(!text_less(b[j], b[i]));
        }
        order_is_unique(p, q);
    }
}

/// The first of a list in order, all but the last few.
pub open spec fn all_but_last(names: Seq<Seq<char>>, keep: nat) -> Seq<Seq<char>> {
    if names.len() <= keep {
        Seq::empty()
    } else {
        names.take(names.len() - keep)
    }
}

/// `doomed` are the oldest of the backups with the prefix, all but the last few by name.
pub open spec fn oldest_backups(
    names: Seq<Seq<char>>,
    prefix: Seq<char>,
    doomed: Seq<Seq<char>>,
) -> bool {
    exists|sorted: Seq<Seq<char>>|
        {
            &&& #[trigger] in_order(sorted)
            &&& sorted.to_multiset() == prefixed(names, prefix).to_multiset()
            &&& doomed == all_but_last(sorted, MAX_BACKUPS as nat)
        }
}

/// The backups to delete, so that no more than [`MAX_BACKUPS`] with the prefix are left: the first
/// by name, which are the oldest.
pub fn backups_to_prune(names: &[String], prefix: &str) -> (r: Vec<String>)
    ensures
        oldest_backups(texts(names@), prefix@, texts(r@)),
{
    let mut sorted = sorted_backups(names, prefix);
    let ghost all = texts(sorted@);
    let count = sorted.len();
    let keep_from: usize = if count > MAX_BACKUPS {
        count - MAX_BACKUPS
    } else {
        0
    };
    sorted.truncate(keep_from);
    proof {
        assert(in_order(all));
        assert(texts(sorted@) =~= all_but_last(all, MAX_BACKUPS as nat));
    }
    sorted
}

/// Only backups with the prefix are pruned, [`MAX_BACKUPS`] of them stay where there are as many,
/// and all stay where there are fewer. Which ones go is settled by the names alone.
pub proof fn pruning_keeps_the_last(
    names: Seq<Seq<char>>,
    prefix: Seq<char>,
    doomed: Seq<Seq<char>>,
    again: Seq<Seq<char>>,
)
    requires
        oldest_backups(names, prefix, doomed),
        oldest_backups(names, prefix, again),
    ensures
        doomed == again,
        prefixed(names, prefix).len() <= MAX_BACKUPS ==> doomed.len() == 0,
        prefixed(names, prefix).len() >= MAX_BACKUPS ==> doomed.len() + MAX_BACKUPS == prefixed(
            names,
            prefix,
        ).len(),
        forall|name: Seq<char>| #[trigger]
            doomed.contains(name) ==> prefixed(names, prefix).contains(name),
{
    let backups = prefixed(names, prefix);
    let sorted = choose|sorted: Seq<Seq<char>>|
        {
            &&& #[trigger] in_order(sorted)
            &&& sorted.to_multiset() == backups.to_multiset()
            &&& doomed == all_but_last(sorted, MAX_BACKUPS as nat)
        };
    let other = choose|sorted: Seq<Seq<char>>|
        {
            &&& #[trigger] in_order(sorted)
            &&& sorted.to_multiset() == backups.to_multiset()
            &&& again == all_but_last(sorted, MAX_BACKUPS as nat)
        };
    order_is_unique(sorted, other);
    sorted.to_multiset_ensures();
    backups.to_multiset_ensures();
    assert forall|name: Seq<char>| #[trigger] doomed.contains(name) implies backups.contains(
        name,
    ) by {
        let i = choose|i: int| 0 <= i < doomed.len() && doomed[i] == name;
        assert(sorted[i] == name);
        assert(sorted.contains(name));
        assert(backups.to_multiset().count(name) > 0);
    }
}

/// Some account's snapshot has the name.
pub open spec fn is_tracked(registry: RegistryView, name: Seq<char>) -> bool {
    exists|i: int|
        0 <= i < registry.accounts.len() && snapshot_name(
            (#[trigger] registry.accounts[i]).account_key,
        ) == name
}

/// A snapshot of no account. The registry and what ends in `.bak` is never stale.
pub open spec fn stale_snapshot(registry: RegistryView, name: Seq<char>) -> bool {
    &&& name != "registry.json"@
    &&& !".bak"@.is_suffix_of(name)
    &&& !is_tracked(registry, name)
    &&& ".auth.json"@.is_suffix_of(name)
}

fn has_snapshot(registry: &Registry, name: &str) -> (r: bool)
    ensures
        r == is_tracked(registry@, name@),
{
    let ghost all = registry@.accounts;
    let mut i: usize = 0;
    while i < registry.accounts.len()
        invariant
            i <= registry.accounts.len(),
            all == registry@.accounts,
            forall|k: int|
                0 <= k < i ==> snapshot_name((#[trigger] all[k]).account_key) != name@,
        decreases registry.accounts.len() - i,
    {
        assert(all[i as int] == registry.accounts@[i as int]@);
        let file = account_file_name(registry.accounts[i].account_key.as_str());
        if same(file.as_str(), name) {
            return true;
        }
        i = i + 1;
    }
    false
}

/// Whether a cleanup deletes a file of the accounts directory.
pub fn is_stale_snapshot(registry: &Registry, name: &str) -> (r: bool)
    ensures
        r == stale_snapshot(registry@, name@),
{
    !same(name, "registry.json") && !ends_with(name, ".bak") && !has_snapshot(registry, name)
        && ends_with(name, ".auth.json")
}

/// The files of the accounts directory that a cleanup deletes.
pub fn clean_accounts_dir(registry: &Registry, names: &[String]) -> (r: Vec<String>)
    ensures
        texts(r@) == texts(names@).filter(|name: Seq<char>| stale_snapshot(registry@, name)),
{
    let ghost all = texts(names@);
    let ghost stale = |name: Seq<char>| stale_snapshot(registry@, name);
    let mut r: Vec<String> = Vec::new();
    let mut i: usize = 0;
    proof {
        reveal(Seq::filter);
        assert(texts(r@) =~= all.take(0).filter(stale));
    }
    while i < names.len()
        invariant
            i <= names.len(),
            all == texts(names@),
            stale == (|name: Seq<char>| stale_snapshot(registry@, name)),
            texts(r@) == all.take(i as int).filter(stale),
        decreases names.len() - i,
    {
        let ghost before = texts(r@);
        proof {
            reveal(Seq::filter);
            assert(all.take(i as int + 1).drop_last() =~= all.take(i as int));
            assert(all.take(i as int + 1).last() == names@[i as int]@);
        }
        if is_stale_snapshot(registry, names[i].as_str()) {
            r.push(names[i].clone());
            assert(texts(r@) =~= before.push(all[i as int]));
        }
        i = i + 1;
    }
    assert(all.take(all.len() as int) =~= all);
    r
}

/// A cleanup deletes no snapshot of an account.
pub proof fn snapshots_are_not_stale(registry: RegistryView, account: AccountView)
    requires
        registry.accounts.contains(account),
    ensures
        !stale_snapshot(registry, snapshot_name(account.account_key)),
{
    let i = choose|i: int| 0 <= i < registry.accounts.len() && registry.accounts[i] == account;
    assert(snapshot_name(registry.accounts[i].account_key) == snapshot_name(account.account_key));
}

}
