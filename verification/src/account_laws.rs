//! What is done with accounts, said of the accounts themselves.

use vstd::prelude::*;

use crate::auth::{lower_is_final, plan_of, AuthView};
use crate::cli::ConfigToggle;
use crate::commands::{
    configured, keys_of, offers_of, removal_settled, switch_settled, RemovalView, SwitchView,
};
use crate::encoding::text_digest;
use crate::laws::{accounts_are_matched, keys_in_order, matches_are_accounts, upsert_is_found};
use crate::model::{
    active_account_view, empty_registry, find_account, first_at, first_is_position, has_account,
    plan_name, position, position_is_first, AccountView, AuthMode, AutoSwitchConfig, PlanType,
    RegistryView,
};
use crate::registry::{
    account_matches, account_of_api_key, account_of_auth, activated, adopted, api_key_key,
    api_key_name, best_key, kept, matching, name_of, removed, synced, upserted, with_account,
    with_active, with_name, with_plan, without_accounts, AccountError,
};
use crate::text::{ascii_lower, has_part, occurs_at};

verus! {

/// A record of a known account replaces who the account is, and leaves what was seen of it: its
/// usage, the log that was read last, the time of its last use, and its name where the record has
/// none. A record of an unknown account enters as it is, behind the others.
pub proof fn records_replace_identity_only(accounts: Seq<AccountView>, record: AccountView)
    ensures
        ({
            let known = find_account(accounts, record.account_key);
            let after = find_account(upserted(accounts, record), record.account_key);
            &&& after is Some
            &&& after->0.account_key == record.account_key
            &&& after->0.email == record.email
            &&& after->0.alias == record.alias
            &&& after->0.plan == record.plan
            &&& after->0.auth_mode == record.auth_mode
            &&& after->0.created_at == record.created_at
            &&& after->0.chatgpt_account_id == record.chatgpt_account_id
            &&& after->0.chatgpt_user_id == record.chatgpt_user_id
            &&& record.account_name is Some ==> after->0.account_name == record.account_name
            &&& known is Some ==> {
                &&& after->0.last_usage == known->0.last_usage
                &&& after->0.last_usage_at == known->0.last_usage_at
                &&& after->0.last_local_rollout == known->0.last_local_rollout
                &&& after->0.last_used_at == known->0.last_used_at
                &&& record.account_name is None ==> after->0.account_name == known->0.account_name
                &&& keys_in_order(upserted(accounts, record)) == keys_in_order(accounts)
            }
            &&& known is None ==> upserted(accounts, record) == accounts.push(record)
        }),
{
    upsert_is_found(accounts, record);
    position_is_first(accounts, record.account_key);
    if has_account(accounts, record.account_key) {
        assert(keys_in_order(upserted(accounts, record)) =~= keys_in_order(accounts));
    }
}

/// Putting a record in touches nothing but the accounts.
pub proof fn records_leave_settings(registry: RegistryView, record: AccountView)
    ensures
        ({
            let after = with_account(registry, record);
            &&& after.accounts == upserted(registry.accounts, record)
            &&& same_settings(after, registry)
            &&& after.active_account_key == registry.active_account_key
            &&& after.active_account_activated_at_ms == registry.active_account_activated_at_ms
        }),
{
}

/// The version and the settings of two registries are the same.
pub open spec fn same_settings(a: RegistryView, b: RegistryView) -> bool {
    &&& a.schema_version == b.schema_version
    &&& a.auto_switch == b.auto_switch
    &&& a.api == b.api
    &&& a.live == b.live
}

/// Making an account active names it, with the time unless it was active already, and touches
/// nothing else.
pub proof fn active_account_is_named(registry: RegistryView, key: Seq<char>, now: i64)
    ensures
        ({
            let after = with_active(registry, key, now);
            &&& after.active_account_key == Some(key)
            &&& registry.active_account_key == Some(key) ==> after == registry
            &&& registry.active_account_key != Some(key) ==> after.active_account_activated_at_ms
                == Some(now)
            &&& after.accounts == registry.accounts
            &&& same_settings(after, registry)
        }),
{
}

/// Signing in with an account names it, with the time even where it was active already, notes the
/// whole seconds of that time as its last use, and touches nothing else.
pub proof fn sign_in_is_noted(registry: RegistryView, key: Seq<char>, now: i64, i: int)
    requires
        0 <= i < registry.accounts.len(),
    ensures
        ({
            let after = activated(registry, key, now);
            let p = position(registry.accounts, key);
            &&& after.active_account_key == Some(key)
            &&& after.active_account_activated_at_ms == Some(now)
            &&& same_settings(after, registry)
            &&& after.accounts.len() == registry.accounts.len()
            &&& i != p ==> after.accounts[i] == registry.accounts[i]
            &&& i == p ==> {
                let account = after.accounts[i];
                let before = registry.accounts[i];
                &&& account.last_used_at is Some
                &&& now >= 0 ==> account.last_used_at->0 * 1000 <= now
                    < account.last_used_at->0 * 1000 + 1000
                &&& account.account_key == key
                &&& account == (AccountView { last_used_at: account.last_used_at, ..before })
            }
        }),
{
    position_is_first(registry.accounts, key);
}

/// An auth file is that of an account where it names key, email, account and user; the first of
/// these that is missing is the error. The account is then what the file says, under the given
/// alias, with nothing seen of it yet.
pub proof fn account_is_what_the_file_says(alias: Seq<char>, auth: AuthView, at: i64)
    ensures
        ({
            let r = account_of_auth(alias, auth, at);
            &&& auth.record_key is None ==> r == Err::<AccountView, AccountError>(
                AccountError::MissingRecordKey,
            )
            &&& auth.record_key is Some && auth.email is None ==> r == Err::<
                AccountView,
                AccountError,
            >(AccountError::MissingEmail)
            &&& auth.record_key is Some && auth.email is Some && auth.chatgpt_account_id is None
                ==> r == Err::<AccountView, AccountError>(AccountError::MissingAccountId)
            &&& auth.record_key is Some && auth.email is Some && auth.chatgpt_account_id is Some
                && auth.chatgpt_user_id is None ==> r == Err::<AccountView, AccountError>(
                AccountError::MissingUserId,
            )
            &&& r is Ok == (auth.record_key is Some && auth.email is Some
                && auth.chatgpt_account_id is Some && auth.chatgpt_user_id is Some)
            &&& r is Ok ==> {
                let account = r->Ok_0;
                &&& Some(account.account_key) == auth.record_key
                &&& Some(account.email) == auth.email
                &&& Some(account.chatgpt_account_id) == auth.chatgpt_account_id
                &&& Some(account.chatgpt_user_id) == auth.chatgpt_user_id
                &&& account.alias == alias
                &&& account.plan == auth.plan
                &&& account.auth_mode == Some(auth.auth_mode)
                &&& account.created_at == at
                &&& is_unseen(account)
                &&& account.account_name is None
            }
        }),
{
}

/// Nothing was seen of the account yet.
pub open spec fn is_unseen(account: AccountView) -> bool {
    &&& account.last_used_at is None
    &&& account.last_usage is None
    &&& account.last_usage_at is None
    &&& account.last_local_rollout is None
}

/// The account of an API key belongs to the user that the service names, and goes by the folded
/// email; it has no account id and no plan, and nothing was seen of it yet.
pub proof fn api_key_account_is_the_owners(
    alias: Seq<char>,
    auth: AuthView,
    user: Seq<char>,
    email: Seq<char>,
    at: i64,
)
    ensures
        ({
            let r = account_of_api_key(alias, auth, user, email, at);
            &&& r is Ok == auth.openai_api_key is Some
            &&& r is Err ==> r->Err_0 == AccountError::MissingApiKey
            &&& r is Ok ==> {
                let account = r->Ok_0;
                &&& account.chatgpt_user_id == user
                &&& account.email == ascii_lower(email)
                &&& account.alias == alias
                &&& account.account_key == api_key_key(user, auth.openai_api_key->0)
                &&& account.account_name == Some(api_key_name(auth.openai_api_key->0))
                &&& account.chatgpt_account_id.len() == 0
                &&& account.plan is None
                &&& account.auth_mode == Some(AuthMode::Apikey)
                &&& account.created_at == at
                &&& is_unseen(account)
            }
        }),
{
}

/// An API key of two users is two accounts.
pub proof fn api_key_of_two_users(a: Seq<char>, b: Seq<char>, api_key: Seq<char>)
    requires
        a != b,
    ensures
        api_key_key(a, api_key) != api_key_key(b, api_key),
        "apikey::"@.is_prefix_of(api_key_key(a, api_key)),
        text_digest(api_key).is_suffix_of(api_key_key(a, api_key)),
{
    let tail = "::"@ + text_digest(api_key);
    let x = api_key_key(a, api_key);
    let y = api_key_key(b, api_key);
    let head = "apikey::"@;
    assert(x =~= head + a + tail);
    assert(y =~= head + b + tail);
    assert(x.take(head.len() as int) =~= head);
    assert(x.subrange(x.len() - text_digest(api_key).len(), x.len() as int)
        =~= text_digest(api_key));
    if x == y {
        assert(x.len() == y.len());
        assert(x.subrange(head.len() as int, (head.len() + a.len()) as int) =~= a);
        assert(y.subrange(head.len() as int, (head.len() + b.len()) as int) =~= b);
    }
}

proof fn part_is_found(before: Seq<char>, part: Seq<char>, after: Seq<char>, query: Seq<char>)
    requires
        ascii_lower(query) == ascii_lower(part),
    ensures
        has_part(ascii_lower(before + part + after), ascii_lower(query)),
{
    let whole = ascii_lower(before + part + after);
    let q = ascii_lower(query);
    assert(q.len() == part.len());
    assert(whole.subrange(before.len() as int, (before.len() + q.len()) as int) =~= q) by {
        assert forall|k: int| 0 <= k < q.len() implies whole[before.len() + k] == q[k] by {
            assert((before + part + after)[before.len() + k] == part[k]);
            assert(ascii_lower(part)[k] == q[k]);
        }
    }
    assert(occurs_at(whole, q, before.len() as int));
}

/// An account is a match for every part of its email, of its alias and of its name, in any case,
/// whatever the other two are.
pub proof fn every_part_is_a_match(
    account: AccountView,
    before: Seq<char>,
    part: Seq<char>,
    after: Seq<char>,
    query: Seq<char>,
)
    requires
        ascii_lower(query) == ascii_lower(part),
    ensures
        account.email == before + part + after ==> account_matches(account, query),
        account.alias.len() > 0 && account.alias == before + part + after ==> account_matches(
            account,
            query,
        ),
        account.account_name == Some(before + part + after) ==> account_matches(account, query),
{
    part_is_found(before, part, after, query);
}

/// A match has the query in its email, its alias or its name; and an account that has it in one of
/// these is a match, whatever the others are.
pub proof fn match_is_in_email_alias_or_name(account: AccountView, query: Seq<char>)
    ensures
        has_part(ascii_lower(account.email), ascii_lower(query)) ==> account_matches(
            account,
            query,
        ),
        account.alias.len() > 0 && has_part(ascii_lower(account.alias), ascii_lower(query))
            ==> account_matches(account, query),
        account.account_name is Some && has_part(
            ascii_lower(account.account_name->0),
            ascii_lower(query),
        ) ==> account_matches(account, query),
        account_matches(account, query) ==> has_part(
            ascii_lower(account.email),
            ascii_lower(query),
        ) || has_part(ascii_lower(account.alias), ascii_lower(query)) || (account.account_name
            is Some && has_part(ascii_lower(account.account_name->0), ascii_lower(query))),
{
}

/// The matches among two lists of accounts are those of the first and then those of the second; of
/// one account it is the match exactly where the query is about it.
pub proof fn matches_keep_order(
    first: Seq<AccountView>,
    second: Seq<AccountView>,
    account: AccountView,
    query: Seq<char>,
)
    ensures
        matching(first + second, query) == matching(first, query) + matching(second, query),
        account_matches(account, query) ==> matching(seq![account], query) == seq![account],
        !account_matches(account, query) ==> matching(seq![account], query).len() == 0,
{
    let wanted = |a: AccountView| account_matches(a, query);
    Seq::filter_distributes_over_add(first, second, wanted);
    reveal(Seq::filter);
    let one = seq![account];
    assert(one.drop_last() =~= Seq::empty());
    assert(matching(one.drop_last(), query) =~= Seq::empty());
    if account_matches(account, query) {
        assert(matching(one, query) =~= one);
    }
}

/// A plan that is known stays. One that is not known is the plan that the usage tells, if it tells
/// one. Nothing else changes.
pub proof fn plan_is_filled_in(account: AccountView)
    ensures
        account.plan is Some ==> with_plan(account) == account,
        account.plan is None && account.last_usage is None ==> with_plan(account).plan is None,
        account.plan is None && account.last_usage is Some ==> with_plan(account).plan
            == account.last_usage->0.plan_type,
        with_plan(account) == (AccountView { plan: with_plan(account).plan, ..account }),
{
}

/// An account of the user is named as the first entry for it says, and has no name where there is no
/// entry; accounts of others keep their names. Nothing else changes.
pub proof fn names_are_taken_over(
    account: AccountView,
    user: Seq<char>,
    before: Seq<(Seq<char>, Option<Seq<char>>)>,
    name: Option<Seq<char>>,
    after: Seq<(Seq<char>, Option<Seq<char>>)>,
)
    requires
        forall|k: int|
            0 <= k < before.len() ==> (#[trigger] before[k]).0 != account.chatgpt_account_id,
    ensures
        ({
            let entries = before + seq![(account.chatgpt_account_id, name)] + after;
            &&& account.chatgpt_user_id == user ==> with_name(
                account,
                user,
                entries,
            ).account_name == name
            &&& account.chatgpt_user_id == user ==> with_name(account, user, before).account_name
                is None
            &&& account.chatgpt_user_id != user ==> with_name(account, user, entries) == account
            &&& with_name(account, user, entries) == (AccountView {
                account_name: with_name(account, user, entries).account_name,
                ..account
            })
        }),
{
    first_name_counts(account.chatgpt_account_id, before, name, after);
}

proof fn first_name_counts(
    id: Seq<char>,
    before: Seq<(Seq<char>, Option<Seq<char>>)>,
    name: Option<Seq<char>>,
    after: Seq<(Seq<char>, Option<Seq<char>>)>,
)
    requires
        forall|k: int| 0 <= k < before.len() ==> (#[trigger] before[k]).0 != id,
    ensures
        name_of(before + seq![(id, name)] + after, id) == name,
        name_of(before, id) is None,
    decreases before.len(),
{
    let all = before + seq![(id, name)] + after;
    if before.len() == 0 {
        assert(all[0] == (id, name));
    } else {
        let rest = before.drop_first();
        assert forall|k: int| 0 <= k < rest.len() implies (#[trigger] rest[k]).0 != id by {
            assert(before[k + 1].0 != id);
        }
        first_name_counts(id, rest, name, after);
        assert(all[0] == before[0]);
        assert(all.drop_first() =~= rest + seq![(id, name)] + after);
    }
}

/// An account that is synced with its auth file has the email, plan and way of signing in that the
/// file says, and the name where the file gives one. Its alias, its times and its usage stay.
pub proof fn synced_follows_the_file(existing: AccountView, record: AccountView)
    ensures
        ({
            let after = synced(existing, record);
            &&& after.email == record.email
            &&& after.plan == record.plan
            &&& after.auth_mode == record.auth_mode
            &&& record.account_name is Some ==> after.account_name == record.account_name
            &&& record.account_name is None ==> after.account_name == existing.account_name
            &&& after.account_key == existing.account_key
            &&& after.alias == existing.alias
            &&& after.chatgpt_account_id == existing.chatgpt_account_id
            &&& after.chatgpt_user_id == existing.chatgpt_user_id
            &&& after.created_at == existing.created_at
            &&& after.last_used_at == existing.last_used_at
            &&& after.last_usage == existing.last_usage
            &&& after.last_usage_at == existing.last_usage_at
            &&& after.last_local_rollout == existing.last_local_rollout
        }),
{
}

/// A removal keeps the order of what is left and of what goes, and takes exactly the given keys.
pub proof fn removal_keeps_order(
    first: Seq<AccountView>,
    second: Seq<AccountView>,
    account: AccountView,
    keys: Seq<Seq<char>>,
)
    ensures
        kept(first + second, keys) == kept(first, keys) + kept(second, keys),
        removed(first + second, keys) == removed(first, keys) + removed(second, keys),
        keys.contains(account.account_key) ==> kept(seq![account], keys).len() == 0 && removed(
            seq![account],
            keys,
        ) == seq![account],
        !keys.contains(account.account_key) ==> kept(seq![account], keys) == seq![account]
            && removed(seq![account], keys).len() == 0,
{
    let stays = |a: AccountView| !keys.contains(a.account_key);
    let goes = |a: AccountView| keys.contains(a.account_key);
    Seq::filter_distributes_over_add(first, second, stays);
    Seq::filter_distributes_over_add(first, second, goes);
    reveal(Seq::filter);
    let one = seq![account];
    assert(one.drop_last() =~= Seq::empty());
    assert(kept(one.drop_last(), keys) =~= Seq::empty());
    assert(removed(one.drop_last(), keys) =~= Seq::empty());
    if keys.contains(account.account_key) {
        assert(removed(one, keys) =~= one);
    } else {
        assert(kept(one, keys) =~= one);
    }
}

/// A removal leaves the active account alone unless it is removed itself; then the best of the rest
/// is named, or none where none is left. The settings stay.
pub proof fn removal_replaces_a_removed_active_account(
    registry: RegistryView,
    keys: Seq<Seq<char>>,
)
    ensures
        ({
            let after = without_accounts(registry, keys);
            let gone = registry.active_account_key is Some && keys.contains(
                registry.active_account_key->0,
            );
            &&& after.accounts == kept(registry.accounts, keys)
            &&& !gone ==> after.active_account_key == registry.active_account_key
            &&& gone ==> after.active_account_key == best_key(after.accounts)
            &&& gone && after.accounts.len() > 0 ==> after.active_account_key is Some
            &&& after.active_account_activated_at_ms == registry.active_account_activated_at_ms
            &&& same_settings(after, registry)
        }),
{
}

/// An adopted account is known under its record and active.
pub proof fn adopted_is_known_and_active(registry: RegistryView, record: AccountView, now: i64)
    ensures
        ({
            let after = adopted(registry, record, now);
            &&& after.active_account_key == Some(record.account_key)
            &&& after.accounts == upserted(registry.accounts, record)
            &&& active_account_view(after) == find_account(
                upserted(registry.accounts, record),
                record.account_key,
            )
            &&& registry.active_account_key != Some(record.account_key)
                ==> after.active_account_activated_at_ms == Some(now)
            &&& registry.active_account_key == Some(record.account_key)
                ==> after.active_account_activated_at_ms
                == registry.active_account_activated_at_ms
            &&& same_settings(after, registry)
        }),
{
}

/// A service names a plan by its name, in any case; the one plan that services do not name, and
/// every other text, is unknown.
pub proof fn service_plans_are_read(plan: PlanType, name: Seq<char>)
    ensures
        plan != PlanType::Prolite ==> plan_of(plan_name(plan)) == plan,
        plan_of(plan_name(PlanType::Prolite)) == PlanType::Unknown,
        plan_of(ascii_lower(name)) == plan_of(name),
        plan_of(name) != PlanType::Unknown ==> ascii_lower(name) == plan_name(plan_of(name)),
{
    reveal_strlit("free");
    reveal_strlit("plus");
    reveal_strlit("prolite");
    reveal_strlit("pro");
    reveal_strlit("team");
    reveal_strlit("business");
    reveal_strlit("enterprise");
    reveal_strlit("edu");
    reveal_strlit("unknown");
    lower_is_final(name);
    let text = plan_name(plan);
    assert(ascii_lower(text) =~= text);
    assert("free"@[0] != "plus"@[0] && "free"@[0] != "team"@[0] && "plus"@[0] != "team"@[0]);
    assert("pro"@[0] != "edu"@[0]);
    assert("prolite"@[0] != "unknown"@[0]);
    assert(ascii_lower("prolite"@) =~= "prolite"@);
}

/// The name of a plan is its own.
pub proof fn plan_names_differ(a: PlanType, b: PlanType)
    requires
        plan_name(a) == plan_name(b),
    ensures
        a == b,
{
    crate::registry::plan_is_read_back(a);
    crate::registry::plan_is_read_back(b);
}

/// An account is found by its key, the first one where several have it, and an account with the key
/// of the active one is the active account.
pub proof fn accounts_are_found_by_key(
    registry: RegistryView,
    before: Seq<AccountView>,
    account: AccountView,
    after: Seq<AccountView>,
)
    requires
        registry.accounts == before + seq![account] + after,
        forall|k: int|
            0 <= k < before.len() ==> (#[trigger] before[k]).account_key != account.account_key,
    ensures
        find_account(registry.accounts, account.account_key) == Some(account),
        has_account(registry.accounts, account.account_key),
        find_account(before, account.account_key) is None,
        registry.active_account_key == Some(account.account_key) ==> active_account_view(registry)
            == Some(account),
        registry.active_account_key is None ==> active_account_view(registry) is None,
{
    let i = before.len() as int;
    let all = registry.accounts;
    assert(all[i] == account);
    assert forall|k: int| 0 <= k < i implies (#[trigger] all[k]).account_key
        != account.account_key by {
        assert(all[k] == before[k]);
    }
    assert(first_at(all, account.account_key, i));
    first_is_position(all, account.account_key, i);
    position_is_first(all, account.account_key);
}

/// The name of an API key account shows both ends of the digest of the key, and nothing between.
pub proof fn api_key_names_show_both_ends(api_key: Seq<char>, k: int)
    requires
        text_digest(api_key).len() == 64,
    ensures
        ({
            let name = api_key_name(api_key);
            let hex = text_digest(api_key);
            &&& name.len() == 15
            &&& name.take(3) == "sk-"@
            &&& 0 <= k < 5 ==> name[3 + k] == hex[k]
            &&& 0 <= k < 3 ==> name[8 + k] == '*'
            &&& 0 <= k < 4 ==> name[11 + k] == hex[60 + k]
        }),
{
    reveal_strlit("sk-");
    reveal_strlit("***");
    assert(api_key_name(api_key).take(3) =~= "sk-"@);
}

/// The names of plans are in lower case, and the plan that is none of the known ones is called so.
pub proof fn plan_names_are_lower_case(plan: PlanType)
    ensures
        ascii_lower(plan_name(plan)) == plan_name(plan),
        plan_name(PlanType::Unknown) == "unknown"@,
{
    reveal_strlit("free");
    reveal_strlit("plus");
    reveal_strlit("prolite");
    reveal_strlit("pro");
    reveal_strlit("team");
    reveal_strlit("business");
    reveal_strlit("enterprise");
    reveal_strlit("edu");
    reveal_strlit("unknown");
    assert(ascii_lower(plan_name(plan)) =~= plan_name(plan));
}

/// Someone without accounts has no active one, the current version, the switch off with thresholds
/// of 1, and everything may be asked of the API.
pub proof fn defaults()
    ensures
        empty_registry().accounts.len() == 0,
        empty_registry().active_account_key is None,
        empty_registry().active_account_activated_at_ms is None,
        empty_registry().schema_version == 4,
        !empty_registry().auto_switch.enabled,
        empty_registry().auto_switch.threshold_5h_percent == 1,
        empty_registry().auto_switch.threshold_weekly_percent == 1,
        empty_registry().api.usage && empty_registry().api.account,
        empty_registry().live.interval_seconds == 60,
{
}

proof fn no_match_is_empty(accounts: Seq<AccountView>, query: Seq<char>)
    requires
        forall|k: int| 0 <= k < accounts.len() ==> !account_matches(#[trigger] accounts[k], query),
    ensures
        matching(accounts, query).len() == 0,
{
    if matching(accounts, query).len() > 0 {
        matches_are_accounts(accounts, query, 0);
        let found = matching(accounts, query)[0];
        let k = choose|k: int| 0 <= k < accounts.len() && accounts[k] == found;
        assert(!account_matches(accounts[k], query));
    }
}

proof fn only_match_is_alone(accounts: Seq<AccountView>, query: Seq<char>, i: int)
    requires
        0 <= i < accounts.len(),
        account_matches(accounts[i], query),
        forall|k: int|
            0 <= k < accounts.len() && k != i ==> !account_matches(#[trigger] accounts[k], query),
    ensures
        matching(accounts, query) == seq![accounts[i]],
{
    let head = accounts.take(i);
    let tail = accounts.skip(i + 1);
    let one = seq![accounts[i]];
    assert forall|k: int| 0 <= k < head.len() implies !account_matches(
        #[trigger] head[k],
        query,
    ) by {
        assert(head[k] == accounts[k]);
    }
    assert forall|k: int| 0 <= k < tail.len() implies !account_matches(
        #[trigger] tail[k],
        query,
    ) by {
        assert(tail[k] == accounts[i + 1 + k]);
    }
    no_match_is_empty(head, query);
    no_match_is_empty(tail, query);
    matches_keep_order(head, one, accounts[i], query);
    matches_keep_order(head + one, tail, accounts[i], query);
    assert(accounts =~= head + one + tail);
    assert(matching(accounts, query) =~= one);
}

proof fn two_matches(accounts: Seq<AccountView>, query: Seq<char>, i: int, j: int)
    requires
        0 <= i < j < accounts.len(),
        account_matches(accounts[i], query),
        account_matches(accounts[j], query),
    ensures
        matching(accounts, query).len() >= 2,
{
    let head = accounts.take(j);
    let tail = accounts.skip(j);
    assert(accounts =~= head + tail);
    matches_keep_order(head, tail, accounts[i], query);
    assert(head[i] == accounts[i]);
    assert(tail[0] == accounts[j]);
    accounts_are_matched(head, query, i);
    accounts_are_matched(tail, query, 0);
    assert(matching(head, query).len() >= 1);
    assert(matching(tail, query).len() >= 1);
}

/// A query that only one account is about switches to that account, and removes it. One that no
/// account is about is refused. One that several are about leaves the choice of account to the user,
/// and removes none of them unasked.
pub proof fn queries_settle_what_is_meant(
    accounts: Seq<AccountView>,
    query: Seq<char>,
    i: int,
    j: int,
)
    requires
        0 <= i < accounts.len(),
    ensures
        account_matches(accounts[i], query) && (forall|k: int|
            0 <= k < accounts.len() && k != i ==> !account_matches(#[trigger] accounts[k], query))
            ==> {
            &&& switch_settled(accounts, Some(query)) == SwitchView::Account(
                accounts[i].account_key,
            )
            &&& removal_settled(accounts, false, Some(query)) == RemovalView::Accounts(
                seq![accounts[i].account_key],
            )
        },
        (forall|k: int|
            0 <= k < accounts.len() ==> !account_matches(#[trigger] accounts[k], query)) ==> {
            &&& switch_settled(accounts, Some(query)) == SwitchView::NotFound(query)
            &&& removal_settled(accounts, false, Some(query)) == RemovalView::NotFound(query)
        },
        i < j < accounts.len() && account_matches(accounts[i], query) && account_matches(
            accounts[j],
            query,
        ) ==> {
            &&& switch_settled(accounts, Some(query)) == SwitchView::Ask(
                offers_of(matching(accounts, query)),
            )
            &&& removal_settled(accounts, false, Some(query)) == RemovalView::Confirm(
                keys_of(matching(accounts, query)),
            )
        },
{
    if account_matches(accounts[i], query) && (forall|k: int|
        0 <= k < accounts.len() && k != i ==> !account_matches(#[trigger] accounts[k], query)) {
        only_match_is_alone(accounts, query, i);
        assert(keys_of(matching(accounts, query)) =~= seq![accounts[i].account_key]);
    }
    if forall|k: int| 0 <= k < accounts.len() ==> !account_matches(#[trigger] accounts[k], query) {
        no_match_is_empty(accounts, query);
    }
    if i < j < accounts.len() && account_matches(accounts[i], query) && account_matches(
        accounts[j],
        query,
    ) {
        two_matches(accounts, query, i, j);
    }
}

/// Without a query every account is offered. All are removed only where that was asked for, and
/// where there is none, nothing is.
pub proof fn all_are_offered_or_removed(accounts: Seq<AccountView>, query: Option<Seq<char>>)
    ensures
        switch_settled(accounts, None) == SwitchView::Ask(offers_of(accounts)),
        accounts.len() == 0 ==> removal_settled(accounts, true, query) == RemovalView::NoAccounts
            && removal_settled(accounts, false, query) == RemovalView::NoAccounts,
        accounts.len() > 0 ==> removal_settled(accounts, true, query) == RemovalView::Accounts(
            keys_of(accounts),
        ),
        accounts.len() > 0 ==> removal_settled(accounts, false, None) == RemovalView::Ask(
            offers_of(accounts),
        ),
{
}

/// Each setting that was asked for is set, up to the first flag whose percentage is out of range.
pub proof fn settings_are_set_up_to_a_refusal(
    config: AutoSwitchConfig,
    action: ConfigToggle,
    short: u8,
    weekly: u8,
)
    ensures
        ({
            let r = configured(config, Some(action), Some(short), Some(weekly));
            let short_ok = 1 <= short && short <= 100;
            let weekly_ok = 1 <= weekly && weekly <= 100;
            &&& r.0.enabled == (action == ConfigToggle::Enable)
            &&& short_ok ==> r.0.threshold_5h_percent == short
            &&& !short_ok ==> r.0.threshold_5h_percent == config.threshold_5h_percent && r.1
                == Some("--5h"@)
            &&& short_ok && weekly_ok ==> r.0.threshold_weekly_percent == weekly && r.1 is None
            &&& !(short_ok && weekly_ok) ==> r.0.threshold_weekly_percent
                == config.threshold_weekly_percent
            &&& short_ok && !weekly_ok ==> r.1 == Some("--weekly"@)
        }),
        configured(config, None, None, None).0 == config,
        configured(config, None, None, None).1 is None,
        ({
            let r = configured(config, None, None, Some(weekly));
            1 <= weekly && weekly <= 100 ==> r.0.threshold_weekly_percent == weekly
                && r.0.threshold_5h_percent == config.threshold_5h_percent && r.0.enabled
                == config.enabled && r.1 is None
        }),
{
}

}
