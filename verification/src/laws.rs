//! What holds of the registry whatever is done with it.

use vstd::prelude::*;

use crate::auth::lower_is_final;
use crate::clock::quotient;
use crate::model::{
    active_account_view, find_account, first_at, first_is_position, has_account, position,
    position_is_first, AccountView, RegistryView, RolloutView, SnapshotView,
};
use crate::registry::{
    account_matches, activated, adopted, best_at, best_is_unique, best_key, kept, matching, merged,
    removed, synced, upserted, used_at, with_active, with_name, with_plan, with_usage,
    without_accounts, worse,
};
use crate::text::{ascii_lower, occurs_at};

verus! {

/// No two accounts have the same key.
pub open spec fn distinct_keys(accounts: Seq<AccountView>) -> bool {
    forall|i: int, j: int|
        0 <= i < j < accounts.len() ==> (#[trigger] accounts[i]).account_key != (
        #[trigger] accounts[j]).account_key
}

/// The active key, where there is one, is that of an account.
pub open spec fn active_is_known(registry: RegistryView) -> bool {
    registry.active_account_key matches Some(key) ==> has_account(registry.accounts, key)
}

/// Putting a record in keeps the keys distinct.
pub proof fn upsert_keeps_keys_distinct(accounts: Seq<AccountView>, record: AccountView)
    requires
        distinct_keys(accounts),
    ensures
        distinct_keys(upserted(accounts, record)),
{
    position_is_first(accounts, record.account_key);
    let after = upserted(accounts, record);
    if has_account(accounts, record.account_key) {
        let p = position(accounts, record.account_key);
        assert forall|i: int, j: int| 0 <= i < j < after.len() implies (
        #[trigger] after[i]).account_key != (#[trigger] after[j]).account_key by {
            assert(accounts[i].account_key != accounts[j].account_key);
        }
    } else {
        assert forall|i: int, j: int| 0 <= i < j < after.len() implies (
        #[trigger] after[i]).account_key != (#[trigger] after[j]).account_key by {
            if j < accounts.len() {
                assert(accounts[i].account_key != accounts[j].account_key);
            } else {
                assert(accounts[i].account_key != record.account_key);
            }
        }
    }
}

/// A record that was put in is found by its key: with what was seen of the account before, where
/// the account was known.
pub proof fn upsert_is_found(accounts: Seq<AccountView>, record: AccountView)
    ensures
        find_account(upserted(accounts, record), record.account_key) == Some(
            match find_account(accounts, record.account_key) {
                Some(existing) => merged(existing, record),
                None => record,
            },
        ),
{
    let key = record.account_key;
    position_is_first(accounts, key);
    let after = upserted(accounts, record);
    if has_account(accounts, key) {
        let p = position(accounts, key);
        assert(after[p].account_key == key);
        assert(first_at(after, key, p));
        first_is_position(after, key, p);
    } else {
        let p = accounts.len() as int;
        assert(after[p].account_key == key);
        assert(first_at(after, key, p)) by {
            assert forall|j: int| 0 <= j < p implies (#[trigger] after[j]).account_key != key by {
                assert(accounts[j].account_key != key);
            }
        }
        first_is_position(after, key, p);
    }
}

/// Putting a record in leaves every other account as it was.
pub proof fn upsert_leaves_others(accounts: Seq<AccountView>, record: AccountView, key: Seq<char>)
    requires
        key != record.account_key,
    ensures
        find_account(upserted(accounts, record), key) == find_account(accounts, key),
{
    position_is_first(accounts, record.account_key);
    position_is_first(accounts, key);
    let after = upserted(accounts, record);
    position_is_first(after, key);
    if has_account(accounts, key) {
        let p = position(accounts, key);
        assert(after[p] == accounts[p]);
        assert forall|j: int| 0 <= j < p implies (#[trigger] after[j]).account_key != key by {
            assert(accounts[j].account_key != key);
        }
        assert(first_at(after, key, p));
        first_is_position(after, key, p);
    } else if has_account(after, key) {
        let i = choose|i: int| 0 <= i < after.len() && (#[trigger] after[i]).account_key == key;
        if i < accounts.len() {
            assert(accounts[i].account_key == key);
        }
        assert(false);
    }
}

/// Putting the same record in twice is putting it in once.
pub proof fn upsert_twice(accounts: Seq<AccountView>, record: AccountView)
    ensures
        upserted(upserted(accounts, record), record) == upserted(accounts, record),
{
    let key = record.account_key;
    upsert_is_found(accounts, record);
    let once = upserted(accounts, record);
    position_is_first(accounts, key);
    position_is_first(once, key);
    let p = position(once, key);
    assert(has_account(once, key));
    assert(merged(once[p], record) == once[p]);
    assert(upserted(once, record) =~= once);
}

/// Putting a record in adds its key to the known ones, and no other.
pub proof fn upsert_adds_key(accounts: Seq<AccountView>, record: AccountView, key: Seq<char>)
    ensures
        has_account(upserted(accounts, record), key) <==> has_account(accounts, key) || key
            == record.account_key,
{
    upsert_is_found(accounts, record);
    if key != record.account_key {
        upsert_leaves_others(accounts, record, key);
        position_is_first(accounts, key);
        position_is_first(upserted(accounts, record), key);
    }
}

/// The accounts after records were put in one behind the other.
pub open spec fn all_upserted(
    accounts: Seq<AccountView>,
    records: Seq<AccountView>,
) -> Seq<AccountView>
    decreases records.len(),
{
    if records.len() == 0 {
        accounts
    } else {
        upserted(all_upserted(accounts, records.drop_last()), records.last())
    }
}

/// After an import, however long, exactly the accounts from before and the imported ones are known,
/// each key once.
pub proof fn import_adds_keys(
    accounts: Seq<AccountView>,
    records: Seq<AccountView>,
    key: Seq<char>,
)
    ensures
        has_account(all_upserted(accounts, records), key) <==> has_account(accounts, key)
            || has_account(records, key),
        distinct_keys(accounts) ==> distinct_keys(all_upserted(accounts, records)),
    decreases records.len(),
{
    if records.len() > 0 {
        let rest = records.drop_last();
        let last = records.last();
        import_adds_keys(accounts, rest, key);
        upsert_adds_key(all_upserted(accounts, rest), last, key);
        if distinct_keys(accounts) {
            upsert_keeps_keys_distinct(all_upserted(accounts, rest), last);
        }
        if has_account(records, key) && !has_account(rest, key) {
            let i = choose|i: int|
                0 <= i < records.len() && (#[trigger] records[i]).account_key == key;
            if i < rest.len() {
                assert(rest[i].account_key == key);
            }
        }
        if has_account(rest, key) {
            let i = choose|i: int| 0 <= i < rest.len() && (#[trigger] rest[i]).account_key == key;
            assert(records[i].account_key == key);
        }
        assert(records[records.len() - 1].account_key == last.account_key);
    }
}

/// A key that was among the removed ones is in the registry no longer.
pub proof fn removed_are_gone(accounts: Seq<AccountView>, keys: Seq<Seq<char>>, key: Seq<char>)
    requires
        keys.contains(key),
    ensures
        !has_account(kept(accounts, keys), key),
    decreases accounts.len(),
{
    reveal(Seq::filter);
    if accounts.len() > 0 {
        removed_are_gone(accounts.drop_last(), keys, key);
        let rest = kept(accounts.drop_last(), keys);
        if has_account(kept(accounts, keys), key) {
            let after = kept(accounts, keys);
            let i = choose|i: int| 0 <= i < after.len() && (#[trigger] after[i]).account_key == key;
            if i < rest.len() {
                assert(rest[i].account_key == key);
            }
            assert(false);
        }
    }
}

proof fn kept_contains(accounts: Seq<AccountView>, keys: Seq<Seq<char>>, i: int)
    requires
        0 <= i < accounts.len(),
        !keys.contains(accounts[i].account_key),
    ensures
        exists|k: int|
            0 <= k < kept(accounts, keys).len() && #[trigger] kept(accounts, keys)[k]
                == accounts[i],
    decreases accounts.len(),
{
    reveal(Seq::filter);
    let after = kept(accounts, keys);
    let rest = kept(accounts.drop_last(), keys);
    if i == accounts.len() - 1 {
        assert(after == rest.push(accounts[i]));
        assert(after[rest.len() as int] == accounts[i]);
    } else {
        assert(accounts.drop_last()[i] == accounts[i]);
        kept_contains(accounts.drop_last(), keys, i);
        let k = choose|k: int| 0 <= k < rest.len() && #[trigger] rest[k] == accounts[i];
        assert(after[k] == accounts[i]);
    }
}

proof fn kept_comes_from(accounts: Seq<AccountView>, keys: Seq<Seq<char>>, k: int)
    requires
        0 <= k < kept(accounts, keys).len(),
    ensures
        exists|i: int| 0 <= i < accounts.len() && #[trigger] accounts[i] == kept(accounts, keys)[k],
        !keys.contains(kept(accounts, keys)[k].account_key),
    decreases accounts.len(),
{
    reveal(Seq::filter);
    if accounts.len() > 0 {
        let after = kept(accounts, keys);
        let rest = kept(accounts.drop_last(), keys);
        if k < rest.len() {
            kept_comes_from(accounts.drop_last(), keys, k);
            let i = choose|i: int|
                0 <= i < accounts.drop_last().len() && #[trigger] accounts.drop_last()[i]
                    == rest[k];
            assert(accounts[i] == after[k]);
        } else {
            assert(after == rest.push(accounts.last()));
            assert(accounts[accounts.len() - 1] == after[k]);
        }
    }
}

/// Removing accounts leaves every other account as it was.
pub proof fn removal_leaves_others(accounts: Seq<AccountView>, keys: Seq<Seq<char>>, key: Seq<char>)
    requires
        !keys.contains(key),
    ensures
        find_account(kept(accounts, keys), key) == find_account(accounts, key),
    decreases accounts.len(),
{
    reveal(Seq::filter);
    if accounts.len() > 0 {
        let before = accounts.drop_last();
        let last = accounts.last();
        removal_leaves_others(before, keys, key);
        let rest = kept(before, keys);
        position_is_first(before, key);
        position_is_first(rest, key);
        position_is_first(accounts, key);
        position_is_first(kept(accounts, keys), key);
        find_in_push(before, last, key);
        assert(accounts =~= before.push(last));
        if !keys.contains(last.account_key) {
            assert(kept(accounts, keys) == rest.push(last));
            find_in_push(rest, last, key);
        } else {
            assert(kept(accounts, keys) == rest);
        }
    }
}

proof fn find_in_push(accounts: Seq<AccountView>, last: AccountView, key: Seq<char>)
    ensures
        find_account(accounts.push(last), key) == if has_account(accounts, key) {
            find_account(accounts, key)
        } else if last.account_key == key {
            Some(last)
        } else {
            None
        },
{
    let after = accounts.push(last);
    position_is_first(accounts, key);
    position_is_first(after, key);
    if has_account(accounts, key) {
        let p = position(accounts, key);
        assert(after[p] == accounts[p]);
        assert forall|j: int| 0 <= j < p implies (#[trigger] after[j]).account_key != key by {
            assert(accounts[j].account_key != key);
        }
        assert(first_at(after, key, p));
        first_is_position(after, key, p);
    } else if last.account_key == key {
        let p = accounts.len() as int;
        assert forall|j: int| 0 <= j < p implies (#[trigger] after[j]).account_key != key by {
            assert(accounts[j].account_key != key);
        }
        assert(after[p] == last);
        assert(first_at(after, key, p));
        first_is_position(after, key, p);
    } else if has_account(after, key) {
        let i = choose|i: int| 0 <= i < after.len() && (#[trigger] after[i]).account_key == key;
        if i < accounts.len() {
            assert(accounts[i].account_key == key);
        }
        assert(false);
    }
}

/// Removing accounts keeps the keys distinct.
pub proof fn removal_keeps_keys_distinct(accounts: Seq<AccountView>, keys: Seq<Seq<char>>)
    requires
        distinct_keys(accounts),
    ensures
        distinct_keys(kept(accounts, keys)),
    decreases accounts.len(),
{
    reveal(Seq::filter);
    if accounts.len() > 0 {
        let before = accounts.drop_last();
        assert forall|i: int, j: int| 0 <= i < j < before.len() implies (
        #[trigger] before[i]).account_key != (#[trigger] before[j]).account_key by {
            assert(accounts[i].account_key != accounts[j].account_key);
        }
        removal_keeps_keys_distinct(before, keys);
        let rest = kept(before, keys);
        let after = kept(accounts, keys);
        if !keys.contains(accounts.last().account_key) {
            assert(after == rest.push(accounts.last()));
            assert forall|i: int, j: int| 0 <= i < j < after.len() implies (
            #[trigger] after[i]).account_key != (#[trigger] after[j]).account_key by {
                if j == rest.len() {
                    kept_comes_from(before, keys, i);
                    let k = choose|k: int|
                        0 <= k < before.len() && #[trigger] before[k] == rest[i];
                    assert(accounts[k].account_key != accounts[accounts.len() - 1].account_key);
                } else {
                    assert(rest[i].account_key != rest[j].account_key);
                }
            }
        }
    }
}

/// Every account is either kept or removed, and none is both.
pub proof fn removal_splits(accounts: Seq<AccountView>, keys: Seq<Seq<char>>)
    ensures
        kept(accounts, keys).len() + removed(accounts, keys).len() == accounts.len(),
    decreases accounts.len(),
{
    reveal(Seq::filter);
    if accounts.len() > 0 {
        removal_splits(accounts.drop_last(), keys);
    }
}

/// Removing a new account again gives back the accounts from before it was put in.
pub proof fn removal_undoes_upsert(accounts: Seq<AccountView>, record: AccountView)
    requires
        !has_account(accounts, record.account_key),
    ensures
        kept(upserted(accounts, record), seq![record.account_key]) == accounts,
{
    reveal(Seq::filter);
    let keys = seq![record.account_key];
    assert(keys[0] == record.account_key);
    let after = accounts.push(record);
    assert(after.drop_last() =~= accounts);
    assert(after.last() == record);
    kept_all(accounts, keys);
}

proof fn kept_all(accounts: Seq<AccountView>, keys: Seq<Seq<char>>)
    requires
        forall|i: int|
            0 <= i < accounts.len() ==> !keys.contains((#[trigger] accounts[i]).account_key),
    ensures
        kept(accounts, keys) == accounts,
    decreases accounts.len(),
{
    reveal(Seq::filter);
    if accounts.len() > 0 {
        let before = accounts.drop_last();
        assert forall|i: int| 0 <= i < before.len() implies !keys.contains(
            (#[trigger] before[i]).account_key,
        ) by {
            assert(!keys.contains(accounts[i].account_key));
        }
        kept_all(before, keys);
        assert(!keys.contains(accounts[accounts.len() - 1].account_key));
        assert(before.push(accounts.last()) =~= accounts);
    } else {
        assert(kept(accounts, keys) =~= accounts);
    }
}

/// Where there are accounts, one of them is the best choice.
pub proof fn best_exists(accounts: Seq<AccountView>) -> (i: int)
    requires
        accounts.len() > 0,
    ensures
        best_at(accounts, i),
        best_key(accounts) == Some(accounts[i].account_key),
    decreases accounts.len(),
{
    let last = accounts.len() - 1;
    let i = if last == 0 {
        0
    } else {
        let before = accounts.drop_last();
        let b = best_exists(before);
        if worse(accounts[last], accounts[b]) {
            assert forall|j: int| 0 <= j < b implies !worse(accounts[b], #[trigger] accounts[j]) by {
                assert(before[j] == accounts[j]);
            }
            assert forall|j: int| b < j < accounts.len() implies worse(
                #[trigger] accounts[j],
                accounts[b],
            ) by {
                if j < last {
                    assert(before[j] == accounts[j]);
                }
            }
            b
        } else {
            assert forall|j: int| 0 <= j < last implies !worse(
                accounts[last],
                #[trigger] accounts[j],
            ) by {
                assert(before[j] == accounts[j]);
                assert(before[b] == accounts[b]);
                if j < b {
                    assert(!worse(before[b], before[j]));
                } else if j > b {
                    assert(worse(before[j], before[b]));
                }
            }
            last
        }
    };
    assert(best_at(accounts, i));
    best_is_unique(accounts, i, choose|k: int| best_at(accounts, k));
    i
}

/// After a removal the active account is none of the removed ones, and it is still an account where
/// it was one before. With no account left there is no active one.
pub proof fn removal_keeps_active_known(registry: RegistryView, keys: Seq<Seq<char>>)
    requires
        active_is_known(registry),
    ensures
        active_is_known(without_accounts(registry, keys)),
        without_accounts(registry, keys).active_account_key matches Some(key) ==> !keys.contains(
            key,
        ),
        without_accounts(registry, keys).accounts.len() == 0 ==> without_accounts(
            registry,
            keys,
        ).active_account_key is None,
{
    let after = without_accounts(registry, keys);
    let rest = kept(registry.accounts, keys);
    if let Some(key) = registry.active_account_key {
        if keys.contains(key) {
            if rest.len() > 0 {
                let b = best_exists(rest);
                kept_comes_from(registry.accounts, keys, b);
                assert(rest[b].account_key == after.active_account_key->0);
            }
        } else {
            removal_leaves_others(registry.accounts, keys, key);
            position_is_first(rest, key);
            assert(has_account(rest, key));
        }
    }
}

/// Making an account active twice is making it active once: the time of the first stays.
pub proof fn active_twice(registry: RegistryView, key: Seq<char>, first: i64, second: i64)
    ensures
        with_active(with_active(registry, key, first), key, second) == with_active(
            registry,
            key,
            first,
        ),
{
}

/// An account that was adopted is the active account, with what was seen of it before.
pub proof fn adopted_is_active(registry: RegistryView, record: AccountView, now: i64)
    ensures
        active_account_view(adopted(registry, record, now)) == Some(
            match find_account(registry.accounts, record.account_key) {
                Some(existing) => merged(existing, record),
                None => record,
            },
        ),
        active_is_known(adopted(registry, record, now)),
{
    upsert_is_found(registry.accounts, record);
    let after = adopted(registry, record, now);
    assert(after.accounts == upserted(registry.accounts, record));
    assert(find_account(after.accounts, record.account_key) is Some);
}

/// Signing in with a known account makes it the active one and leaves all but its time of use.
pub proof fn activated_is_active(registry: RegistryView, key: Seq<char>, now: i64)
    requires
        has_account(registry.accounts, key),
    ensures
        active_account_view(activated(registry, key, now)) == Some(
            AccountView {
                last_used_at: Some(quotient(now as int, 1000) as i64),
                ..find_account(registry.accounts, key)->0
            },
        ),
        activated(registry, key, now).accounts.len() == registry.accounts.len(),
        distinct_keys(registry.accounts) ==> distinct_keys(activated(registry, key, now).accounts),
{
    let after = activated(registry, key, now).accounts;
    position_is_first(registry.accounts, key);
    let p = position(registry.accounts, key);
    assert forall|j: int| 0 <= j < p implies (#[trigger] after[j]).account_key != key by {
        assert(registry.accounts[j].account_key != key);
    }
    assert(after[p].account_key == key);
    assert(first_at(after, key, p));
    first_is_position(after, key, p);
    if distinct_keys(registry.accounts) {
        assert forall|i: int, j: int| 0 <= i < j < after.len() implies (
        #[trigger] after[i]).account_key != (#[trigger] after[j]).account_key by {
            assert(registry.accounts[i].account_key != registry.accounts[j].account_key);
        }
    }
}

/// An account brought up to date twice is as after the first time, and the second time is no news.
pub proof fn synced_twice(existing: AccountView, record: AccountView)
    ensures
        synced(synced(existing, record), record) == synced(existing, record),
        synced(existing, record).account_key == existing.account_key,
        synced(existing, record).last_usage == existing.last_usage,
{
}

/// Filling in plans, or names, twice changes nothing more.
pub proof fn filled_twice(
    account: AccountView,
    user: Seq<char>,
    entries: Seq<(Seq<char>, Option<Seq<char>>)>,
)
    ensures
        with_plan(with_plan(account)) == with_plan(account),
        with_name(with_name(account, user, entries), user, entries) == with_name(
            account,
            user,
            entries,
        ),
        with_plan(account).account_key == account.account_key,
        with_name(account, user, entries).account_key == account.account_key,
        account.plan is Some ==> with_plan(account) == account,
{
}

/// Every match of a query is an account that the query is about.
pub proof fn matches_are_accounts(accounts: Seq<AccountView>, query: Seq<char>, i: int)
    requires
        0 <= i < matching(accounts, query).len(),
    ensures
        accounts.contains(matching(accounts, query)[i]),
        has_account(accounts, matching(accounts, query)[i].account_key),
        account_matches(matching(accounts, query)[i], query),
{
    let wanted = |account: AccountView| account_matches(account, query);
    let found = accounts.filter(wanted);
    accounts.lemma_filter_pred(wanted, i);
    accounts.lemma_filter_contains_rev(wanted, found[i]);
    assert(found.contains(found[i]));
    let k = choose|k: int| 0 <= k < accounts.len() && accounts[k] == found[i];
    assert(accounts[k].account_key == found[i].account_key);
}

/// Every account that a query is about is a match.
pub proof fn accounts_are_matched(accounts: Seq<AccountView>, query: Seq<char>, i: int)
    requires
        0 <= i < accounts.len(),
        account_matches(accounts[i], query),
    ensures
        matching(accounts, query).contains(accounts[i]),
{
    let wanted = |account: AccountView| account_matches(account, query);
    accounts.lemma_filter_contains(wanted, i);
}

/// The keys of accounts, in order.
pub open spec fn keys_in_order(accounts: Seq<AccountView>) -> Seq<Seq<char>> {
    accounts.map_values(|account: AccountView| account.account_key)
}

/// Accounts with the same keys in the same order are known alike.
pub proof fn same_keys_known_alike(a: Seq<AccountView>, b: Seq<AccountView>, key: Seq<char>)
    requires
        keys_in_order(a) == keys_in_order(b),
    ensures
        has_account(a, key) == has_account(b, key),
        distinct_keys(a) == distinct_keys(b),
{
    assert(a.len() == keys_in_order(a).len() && b.len() == keys_in_order(b).len());
    assert forall|i: int| 0 <= i < a.len() implies (#[trigger] a[i]).account_key
        == b[i].account_key by {
        assert(keys_in_order(a)[i] == keys_in_order(b)[i]);
    }
    assert forall|i: int| 0 <= i < b.len() implies (#[trigger] b[i]).account_key
        == a[i].account_key by {
        assert(keys_in_order(a)[i] == keys_in_order(b)[i]);
    }
    if has_account(a, key) {
        let i = choose|i: int| 0 <= i < a.len() && (#[trigger] a[i]).account_key == key;
        assert(b[i].account_key == key);
    }
    if has_account(b, key) {
        let i = choose|i: int| 0 <= i < b.len() && (#[trigger] b[i]).account_key == key;
        assert(a[i].account_key == key);
    }
    if distinct_keys(a) {
        assert forall|i: int, j: int| 0 <= i < j < b.len() implies (#[trigger] b[i]).account_key
            != (#[trigger] b[j]).account_key by {
            assert(a[i].account_key != a[j].account_key);
        }
    }
    if distinct_keys(b) {
        assert forall|i: int, j: int| 0 <= i < j < a.len() implies (#[trigger] a[i]).account_key
            != (#[trigger] a[j]).account_key by {
            assert(b[i].account_key != b[j].account_key);
        }
    }
}

/// Recording plans, names, usage and times of use leaves every key where it is.
pub proof fn bookkeeping_keeps_keys(
    accounts: Seq<AccountView>,
    user: Seq<char>,
    entries: Seq<(Seq<char>, Option<Seq<char>>)>,
    i: int,
    usage: SnapshotView,
    at: i64,
    rollout: RolloutView,
    key: Seq<char>,
)
    requires
        0 <= i < accounts.len(),
    ensures
        keys_in_order(accounts.map_values(|a: AccountView| with_plan(a))) == keys_in_order(
            accounts,
        ),
        keys_in_order(
            accounts.map_values(|a: AccountView| with_name(a, user, entries)),
        ) == keys_in_order(accounts),
        keys_in_order(
            accounts.update(i, with_usage(accounts[i], usage, at, rollout)),
        ) == keys_in_order(accounts),
        keys_in_order(used_at(accounts, key, at)) == keys_in_order(accounts),
{
    position_is_first(accounts, key);
    let planned = accounts.map_values(|a: AccountView| with_plan(a));
    let renamed = accounts.map_values(|a: AccountView| with_name(a, user, entries));
    assert(keys_in_order(planned) =~= keys_in_order(accounts));
    assert(keys_in_order(renamed) =~= keys_in_order(accounts));
    assert(keys_in_order(accounts.update(i, with_usage(accounts[i], usage, at, rollout)))
        =~= keys_in_order(accounts));
    assert(keys_in_order(used_at(accounts, key, at)) =~= keys_in_order(accounts));
}

/// What a query is about does not depend on the case in which it is written.
pub proof fn query_ignores_case(account: AccountView, query: Seq<char>)
    ensures
        account_matches(account, ascii_lower(query)) == account_matches(account, query),
{
    lower_is_final(query);
}

/// The whole email of an account, its whole alias and the empty query are about the account.
pub proof fn query_finds_email_and_alias(account: AccountView)
    ensures
        account_matches(account, account.email),
        account.alias.len() > 0 ==> account_matches(account, account.alias),
        account_matches(account, Seq::empty()),
{
    let e = ascii_lower(account.email);
    assert(e.subrange(0, e.len() as int) =~= e);
    assert(occurs_at(e, e, 0));
    let a = ascii_lower(account.alias);
    assert(a.subrange(0, a.len() as int) =~= a);
    assert(occurs_at(a, a, 0));
    let none = ascii_lower(Seq::<char>::empty());
    assert(e.subrange(0, 0) =~= none);
    assert(occurs_at(e, none, 0));
}

}
