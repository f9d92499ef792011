//! What usage is recorded for, and what it decides.

use vstd::prelude::*;

use crate::chatgpt_api::{
    accounts_fetched, accounts_told, entries_of, entry_of, minutes_up, usage_fetched,
    usage_of_response, usage_told, ApiError, ApiWindowJson, RateLimitJson, UsageResponseView,
};
use crate::clock::rfc3339_millis;
use crate::commands::{switch_target, window_left};
use crate::display::left_percent;
use crate::json::JsonView;
use crate::laws::{best_exists, distinct_keys};
use crate::model::{
    active_account_view, find_account, first_at, first_is_position, has_account, is_number,
    position, position_is_first, snapshot_has_numbers, snapshots_equal, AccountView,
    RateLimitWindow, RegistryView, RolloutView, SnapshotView, UsedPercent,
};
use crate::registry::{best_key, score_of, usage_is_news, with_usage, worse};
use crate::sessions::{
    names_usage, snapshot_of, timed_usage, told_events, usage_event, LatestView, RateLimitsView,
    UsageEventView, UsageWindowJson,
};
use crate::sync::{
    api_usage_applied, api_usage_changed, local_usage_applied, local_usage_changed,
    usage_source_of, UsageSource,
};
use crate::text::has_part;

verus! {

/// An account of which the primary window was seen.
pub open spec fn has_primary(account: AccountView) -> bool {
    account.last_usage is Some && account.last_usage->0.primary is Some
}

/// How much of the primary window is left, as a rounded percentage.
pub open spec fn primary_left(account: AccountView) -> int {
    account.last_usage->0.primary->0.used_percent.remaining as int
}

/// Where a snapshot has a primary window, what is left of that window is its score, whatever else
/// the snapshot says. Only without one does the secondary window count, and without any window the
/// score is below that of every window of which something is left.
pub proof fn score_is_of_the_primary_window(usage: SnapshotView, other: SnapshotView)
    ensures
        usage.primary is Some ==> score_of(Some(usage))
            == usage.primary->0.used_percent.remaining,
        usage.primary is Some && other.primary == usage.primary ==> score_of(Some(other))
            == score_of(Some(usage)),
        usage.primary is None && usage.secondary is Some ==> score_of(Some(usage))
            == usage.secondary->0.used_percent.remaining,
        usage.primary is None && usage.secondary is None ==> score_of(Some(usage)) == score_of(
            None,
        ),
        score_of(None) == -1,
{
}

/// The best account is one with the most left: none with more left in its primary window is passed
/// over for it, none with as much left that was seen later, and none behind it that is its equal.
pub proof fn best_has_most_left(accounts: Seq<AccountView>) -> (i: int)
    requires
        accounts.len() > 0,
    ensures
        0 <= i < accounts.len(),
        best_key(accounts) == Some(accounts[i].account_key),
        forall|j: int|
            0 <= j < accounts.len() && has_primary(accounts[i]) && has_primary(
                #[trigger] accounts[j],
            ) ==> {
                &&& primary_left(accounts[j]) <= primary_left(accounts[i])
                &&& primary_left(accounts[j]) == primary_left(accounts[i])
                    && accounts[j].last_usage_at is Some ==> accounts[i].last_usage_at is Some
                    && accounts[j].last_usage_at->0 <= accounts[i].last_usage_at->0
                &&& primary_left(accounts[j]) == primary_left(accounts[i])
                    && accounts[j].last_usage_at == accounts[i].last_usage_at ==> j <= i
            },
        forall|j: int|
            0 <= j < accounts.len() && has_primary(#[trigger] accounts[j]) && primary_left(
                accounts[j],
            ) >= 0 ==> accounts[i].last_usage is Some,
        forall|j: int|
            0 <= j < accounts.len() ==> score_of((#[trigger] accounts[j]).last_usage) <= score_of(
                accounts[i].last_usage,
            ),
{
    let i = best_exists(accounts);
    assert forall|j: int|
        0 <= j < accounts.len() && has_primary(accounts[i]) && has_primary(
            #[trigger] accounts[j],
        ) implies {
        &&& primary_left(accounts[j]) <= primary_left(accounts[i])
        &&& primary_left(accounts[j]) == primary_left(accounts[i]) && accounts[j].last_usage_at
            is Some ==> accounts[i].last_usage_at is Some && accounts[j].last_usage_at->0
            <= accounts[i].last_usage_at->0
        &&& primary_left(accounts[j]) == primary_left(accounts[i]) && accounts[j].last_usage_at
            == accounts[i].last_usage_at ==> j <= i
    } by {
        if j < i {
            assert(!worse(accounts[i], accounts[j]));
        } else if j > i {
            assert(worse(accounts[j], accounts[i]));
        }
    }
    assert forall|j: int|
        0 <= j < accounts.len() && has_primary(#[trigger] accounts[j]) && primary_left(accounts[j])
            >= 0 implies accounts[i].last_usage is Some by {
        if j < i {
            assert(!worse(accounts[i], accounts[j]));
        } else if j > i {
            assert(worse(accounts[j], accounts[i]));
        }
    }
    assert forall|j: int| 0 <= j < accounts.len() implies score_of(
        (#[trigger] accounts[j]).last_usage,
    ) <= score_of(accounts[i].last_usage) by {
        if j < i {
            assert(!worse(accounts[i], accounts[j]));
        } else if j > i {
            assert(worse(accounts[j], accounts[i]));
        }
    }
    i
}

/// What is shown as left is what is left, between none and all of it.
pub proof fn left_is_between_none_and_all(used: UsedPercent, more: UsedPercent)
    ensures
        0 <= left_percent(used) <= 100,
        0 <= used.remaining <= 100 ==> left_percent(used) == used.remaining,
        used.remaining < 0 ==> left_percent(used) == 0,
        used.remaining > 100 ==> left_percent(used) == 100,
        used.remaining <= more.remaining ==> left_percent(used) <= left_percent(more),
        window_left(None) is None,
        forall|window: RateLimitWindow| #[trigger]
            window_left(Some(window)) == Some(left_percent(window.used_percent)),
{
}

/// While the automatic switch is on, an active account with less left in its primary window than
/// the 5h threshold, or in its secondary window than the weekly one, is left for another, as soon as
/// another has more left in its primary window.
pub proof fn low_account_is_left(registry: RegistryView, active: int, other: int)
    requires
        distinct_keys(registry.accounts),
        registry.auto_switch.enabled,
        0 <= active < registry.accounts.len(),
        0 <= other < registry.accounts.len(),
        registry.active_account_key == Some(registry.accounts[active].account_key),
        has_primary(registry.accounts[active]),
        has_primary(registry.accounts[other]),
        primary_left(registry.accounts[active]) < primary_left(registry.accounts[other]),
        ({
            let usage = registry.accounts[active].last_usage->0;
            let config = registry.auto_switch;
            ||| 0 < config.threshold_5h_percent && usage.primary->0.used_percent.remaining
                < config.threshold_5h_percent
            ||| 0 < config.threshold_weekly_percent && usage.secondary is Some
                && usage.secondary->0.used_percent.remaining < config.threshold_weekly_percent
        }),
    ensures
        switch_target(registry) is Some,
        switch_target(registry) != registry.active_account_key,
        switch_target(registry) == best_key(registry.accounts),
{
    let accounts = registry.accounts;
    let key = accounts[active].account_key;
    assert forall|j: int| 0 <= j < active implies (#[trigger] accounts[j]).account_key != key by {
        assert(accounts[j].account_key != accounts[active].account_key);
    }
    assert(first_at(accounts, key, active));
    first_is_position(accounts, key, active);
    assert(has_account(accounts, key));
    assert(active_account_view(registry) == Some(accounts[active]));
    let i = best_exists(accounts);
    assert(score_of(accounts[other].last_usage) <= score_of(accounts[i].last_usage)) by {
        if other < i {
            assert(!worse(accounts[i], accounts[other]));
        } else if other > i {
            assert(worse(accounts[other], accounts[i]));
        }
    }
    assert(i != active);
    if i < active {
        assert(accounts[i].account_key != accounts[active].account_key);
    } else {
        assert(accounts[active].account_key != accounts[i].account_key);
    }
}

/// No account is left by itself while the switch is off, while none is active, or while the active
/// one has at least the threshold left in each window that was seen of it.
pub proof fn sound_account_is_kept(registry: RegistryView)
    ensures
        !registry.auto_switch.enabled ==> switch_target(registry) is None,
        active_account_view(registry) is None ==> switch_target(registry) is None,
        ({
            let config = registry.auto_switch;
            &&& active_account_view(registry) matches Some(active)
            &&& config.threshold_5h_percent <= 100
            &&& config.threshold_weekly_percent <= 100
            &&& active.last_usage matches Some(usage) ==> {
                &&& usage.primary matches Some(window) ==> window.used_percent.remaining
                    >= config.threshold_5h_percent
                &&& usage.secondary matches Some(window) ==> window.used_percent.remaining
                    >= config.threshold_weekly_percent
            }
        }) ==> switch_target(registry) is None,
{
}

/// An event of the session logs that the active account was not brought up to date by yet, be it
/// another time in the same log or the same time in another, is recorded: its limits, its time in
/// whole seconds, its log and its time. The same event again is passed over. No other account
/// changes.
pub proof fn new_event_is_recorded(registry: RegistryView, latest: LatestView, other: Seq<char>)
    requires
        registry.active_account_key is Some,
        has_account(registry.accounts, registry.active_account_key->0),
        other != registry.active_account_key->0,
    ensures
        ({
            let key = registry.active_account_key->0;
            let before = find_account(registry.accounts, key)->0;
            let after = local_usage_applied(registry, latest);
            let known = before.last_local_rollout;
            let applied = known is Some && known->0.path == latest.path
                && known->0.event_timestamp_ms == latest.event_timestamp_ms;
            &&& local_usage_changed(registry, latest) == !applied
            &&& applied ==> after == registry
            &&& !applied ==> {
                let account = find_account(after.accounts, key)->0;
                let ms = latest.event_timestamp_ms as int;
                &&& find_account(after.accounts, key) is Some
                &&& account.last_usage == Some(latest.snapshot)
                &&& account.last_usage_at is Some
                &&& ms >= 0 ==> account.last_usage_at->0 * 1000 <= ms
                    < account.last_usage_at->0 * 1000 + 1000
                &&& ms < 0 ==> account.last_usage_at->0 * 1000 - 1000 < ms
                    <= account.last_usage_at->0 * 1000
                &&& account.last_local_rollout is Some
                &&& account.last_local_rollout->0.path == latest.path
                &&& account.last_local_rollout->0.event_timestamp_ms == latest.event_timestamp_ms
                &&& account.email == before.email
                &&& account.alias == before.alias
                &&& account.account_name == before.account_name
                &&& account.plan == before.plan
                &&& account.last_used_at == before.last_used_at
            }
            &&& find_account(after.accounts, other) == find_account(registry.accounts, other)
            &&& after.active_account_key == registry.active_account_key
            &&& after.accounts.len() == registry.accounts.len()
        }),
{
    let key = registry.active_account_key->0;
    position_is_first(registry.accounts, key);
    let i = position(registry.accounts, key);
    let after = local_usage_applied(registry, latest);
    if local_usage_changed(registry, latest) {
        one_account_changed(registry.accounts, i, after.accounts[i], other);
    }
}

proof fn one_account_changed(
    accounts: Seq<AccountView>,
    i: int,
    account: AccountView,
    other: Seq<char>,
)
    requires
        0 <= i < accounts.len(),
        first_at(accounts, accounts[i].account_key, i),
        account.account_key == accounts[i].account_key,
        other != account.account_key,
    ensures
        find_account(accounts.update(i, account), account.account_key) == Some(account),
        find_account(accounts.update(i, account), other) == find_account(accounts, other),
{
    let after = accounts.update(i, account);
    let key = account.account_key;
    assert forall|j: int| 0 <= j < i implies (#[trigger] after[j]).account_key != key by {
        assert(accounts[j].account_key != key);
    }
    assert(after[i].account_key == key);
    assert(first_at(after, key, i));
    first_is_position(after, key, i);
    position_is_first(accounts, other);
    position_is_first(after, other);
    if has_account(accounts, other) {
        let p = position(accounts, other);
        assert(after[p] == accounts[p]);
        assert forall|j: int| 0 <= j < p implies (#[trigger] after[j]).account_key != other by {
            assert(accounts[j].account_key != other);
        }
        assert(first_at(after, other, p));
        first_is_position(after, other, p);
    } else if has_account(after, other) {
        let p = position(after, other);
        assert(accounts[p].account_key == other);
    }
}

/// Without a known active account, usage is recorded nowhere.
pub proof fn usage_needs_an_active_account(
    registry: RegistryView,
    latest: LatestView,
    usage: SnapshotView,
    now: i64,
)
    requires
        registry.active_account_key is None || !has_account(
            registry.accounts,
            registry.active_account_key->0,
        ),
    ensures
        local_usage_applied(registry, latest) == registry,
        !local_usage_changed(registry, latest),
        api_usage_applied(registry, usage, now) == registry,
        !api_usage_changed(registry, usage, now),
{
}

/// Usage that the API told is recorded for the active account, with its time; the log that usage was
/// last read from stays, and no other account changes. It is news unless the same limits were
/// recorded at the same time.
pub proof fn api_usage_is_recorded(
    registry: RegistryView,
    usage: SnapshotView,
    now: i64,
    other: Seq<char>,
)
    requires
        registry.active_account_key is Some,
        has_account(registry.accounts, registry.active_account_key->0),
        other != registry.active_account_key->0,
    ensures
        ({
            let key = registry.active_account_key->0;
            let before = find_account(registry.accounts, key)->0;
            let after = api_usage_applied(registry, usage, now);
            let account = find_account(after.accounts, key)->0;
            &&& find_account(after.accounts, key) is Some
            &&& account.last_usage == Some(usage)
            &&& account.last_usage_at == Some(now)
            &&& account.last_local_rollout == before.last_local_rollout
            &&& account.email == before.email
            &&& account.alias == before.alias
            &&& account.plan == before.plan
            &&& account.last_used_at == before.last_used_at
            &&& find_account(after.accounts, other) == find_account(registry.accounts, other)
            &&& after.active_account_key == registry.active_account_key
            &&& after.accounts.len() == registry.accounts.len()
            &&& api_usage_changed(registry, usage, now) == !(before.last_usage is Some
                && snapshots_equal(before.last_usage->0, usage) && before.last_usage_at == Some(
                now,
            ))
        }),
{
    let key = registry.active_account_key->0;
    position_is_first(registry.accounts, key);
    let i = position(registry.accounts, key);
    let after = api_usage_applied(registry, usage, now);
    one_account_changed(registry.accounts, i, after.accounts[i], other);
}

/// Usage is asked for only where an account is active, and of the API only where that is allowed.
pub proof fn usage_is_asked_where_allowed(registry: RegistryView)
    ensures
        (usage_source_of(registry) == UsageSource::Nowhere) == (registry.active_account_key
            is None),
        (usage_source_of(registry) == UsageSource::Api) == (registry.active_account_key is Some
            && registry.api.usage),
{
}

/// Usage read from a log is news where the limits, the time, the log or the event differ from what
/// is recorded, and only there.
pub proof fn news_is_a_difference(
    account: AccountView,
    usage: SnapshotView,
    seen_at: i64,
    rollout: RolloutView,
)
    ensures
        usage_is_news(account, usage, seen_at, rollout) == !({
            &&& account.last_usage is Some
            &&& snapshots_equal(account.last_usage->0, usage)
            &&& account.last_usage_at == Some(seen_at)
            &&& account.last_local_rollout == Some(rollout)
        }),
        ({
            let after = with_usage(account, usage, seen_at, rollout);
            &&& after.last_usage == Some(usage)
            &&& after.last_usage_at == Some(seen_at)
            &&& after.last_local_rollout == Some(rollout)
            &&& after.account_key == account.account_key
            &&& after.email == account.email
            &&& after.alias == account.alias
            &&& after.account_name == account.account_name
            &&& after.plan == account.plan
            &&& after.auth_mode == account.auth_mode
            &&& after.created_at == account.created_at
            &&& after.last_used_at == account.last_used_at
            &&& after.chatgpt_account_id == account.chatgpt_account_id
            &&& after.chatgpt_user_id == account.chatgpt_user_id
        }),
{
}

/// Snapshots without NaN equal themselves; equality goes both ways, and equal snapshots agree in
/// every part, percentages up to the sign of zero.
pub proof fn snapshot_equality(a: SnapshotView, b: SnapshotView)
    ensures
        snapshot_has_numbers(a) ==> snapshots_equal(a, a),
        snapshots_equal(a, b) == snapshots_equal(b, a),
        snapshots_equal(a, b) ==> {
            &&& snapshot_has_numbers(a)
            &&& a.credits == b.credits
            &&& a.plan_type == b.plan_type
            &&& a.primary is Some == b.primary is Some
            &&& a.secondary is Some == b.secondary is Some
            &&& a.primary is Some ==> agree(a.primary->0, b.primary->0)
            &&& a.secondary is Some ==> agree(a.secondary->0, b.secondary->0)
        },
        snapshot_has_numbers(a) && snapshot_has_numbers(b) && a.credits == b.credits && a.plan_type
            == b.plan_type && a.primary is Some == b.primary is Some && a.secondary is Some
            == b.secondary is Some && (a.primary is Some ==> agree(a.primary->0, b.primary->0)) && (
        a.secondary is Some ==> agree(a.secondary->0, b.secondary->0)) ==> snapshots_equal(a, b),
        a.primary is Some && snapshot_has_numbers(a) ==> a.primary->0.used_percent.bits
            % 0x8000_0000_0000_0000 <= 0x7ff0_0000_0000_0000,
        forall|bits: u64| #[trigger] is_number(bits) == (bits % 0x8000_0000_0000_0000
            <= 0x7ff0_0000_0000_0000),
{
}

/// Two windows say the same.
pub open spec fn agree(a: RateLimitWindow, b: RateLimitWindow) -> bool {
    &&& a.window_minutes == b.window_minutes
    &&& a.resets_at == b.resets_at
    &&& a.used_percent.bits == b.used_percent.bits || (a.used_percent.bits
        % 0x8000_0000_0000_0000 == 0 && b.used_percent.bits % 0x8000_0000_0000_0000 == 0)
}

/// A window of the snapshot is that of the answer: its percentage and its reset, and its length in
/// minutes, rounded up.
pub open spec fn is_window_of(window: RateLimitWindow, answer: ApiWindowJson) -> bool {
    &&& window.used_percent == answer.used_percent
    &&& window.resets_at == answer.reset_at
    &&& window.window_minutes is Some == answer.limit_window_seconds is Some
    &&& answer.limit_window_seconds is Some && answer.limit_window_seconds->0 >= 0 ==> {
        &&& answer.limit_window_seconds->0 <= 60 * window.window_minutes->0
        &&& 60 * window.window_minutes->0 < answer.limit_window_seconds->0 + 60
    }
}

/// The windows of an answer that its lengths can be turned into minutes of.
pub open spec fn lengths_fit(limits: RateLimitJson) -> bool {
    &&& limits.primary_window is Some && limits.primary_window->0.limit_window_seconds is Some
        ==> limits.primary_window->0.limit_window_seconds->0 <= i64::MAX - 59
    &&& limits.secondary_window is Some && limits.secondary_window->0.limit_window_seconds is Some
        ==> limits.secondary_window->0.limit_window_seconds->0 <= i64::MAX - 59
}

/// Each window of an answer becomes the window of the snapshot in the same place, whatever the other
/// one says; the credits keep their switches, and their balance where it is not empty. An answer
/// without any window tells nothing.
pub proof fn answer_becomes_snapshot(response: UsageResponseView)
    requires
        response.rate_limit is Some ==> lengths_fit(response.rate_limit->0),
    ensures
        ({
            let told = usage_of_response(response);
            let limits = response.rate_limit->0;
            &&& (told is Some) == (response.rate_limit is Some && (limits.primary_window is Some
                || limits.secondary_window is Some))
            &&& told is Some ==> {
                let usage = told->0;
                &&& usage.primary is Some == limits.primary_window is Some
                &&& usage.secondary is Some == limits.secondary_window is Some
                &&& usage.primary is Some ==> is_window_of(
                    usage.primary->0,
                    limits.primary_window->0,
                )
                &&& usage.secondary is Some ==> is_window_of(
                    usage.secondary->0,
                    limits.secondary_window->0,
                )
                &&& usage.credits is Some == response.credits is Some
                &&& response.credits is Some ==> {
                    let credits = response.credits->0;
                    &&& usage.credits->0.has_credits == credits.has_credits
                    &&& usage.credits->0.unlimited == credits.unlimited
                    &&& credits.balance is Some && credits.balance->0.len() > 0
                        ==> usage.credits->0.balance == credits.balance
                    &&& credits.balance is None || credits.balance->0.len() == 0
                        ==> usage.credits->0.balance is None
                }
                &&& usage.plan_type is Some == response.plan_type is Some
                &&& response.plan_type is Some ==> usage.plan_type == Some(
                    crate::auth::plan_of(response.plan_type->0),
                )
            }
        }),
{
}

/// What an answer says of one window does not depend on the other: exchanging the primary window
/// leaves the secondary one, and exchanging the secondary window leaves the primary one.
pub proof fn windows_are_independent(
    response: UsageResponseView,
    limits: RateLimitJson,
    other: Option<ApiWindowJson>,
)
    requires
        response.rate_limit == Some(limits),
    ensures
        ({
            let changed = UsageResponseView {
                rate_limit: Some(RateLimitJson { primary_window: other, ..limits }),
                ..response
            };
            limits.secondary_window is Some ==> usage_of_response(changed)->0.secondary
                == usage_of_response(response)->0.secondary
        }),
        ({
            let changed = UsageResponseView {
                rate_limit: Some(RateLimitJson { secondary_window: other, ..limits }),
                ..response
            };
            limits.primary_window is Some ==> usage_of_response(changed)->0.primary
                == usage_of_response(response)->0.primary
        }),
{
}

/// A window that would end in the past is rounded towards the present, by less than a minute.
pub proof fn negative_minutes(seconds: int)
    requires
        seconds < 0,
    ensures
        minutes_up(seconds) <= 0,
        seconds < 60 * minutes_up(seconds) + 1,
        60 * minutes_up(seconds) <= seconds + 119,
{
}

/// A malformed answer is an error, and nothing else is; the status is handed on.
pub proof fn answers_are_handed_on(
    status: u16,
    response: Option<crate::chatgpt_api::UsageResponse>,
    accounts: Option<Option<Vec<(String, crate::json::Json)>>>,
)
    ensures
        response is None ==> usage_told(response) == Err::<Option<SnapshotView>, ApiError>(
            ApiError::InvalidUsageJson,
        ),
        response matches Some(read) ==> usage_told(response) == Ok::<
            Option<SnapshotView>,
            ApiError,
        >(usage_of_response(read@)),
        usage_fetched(status, usage_told(response)) is Ok == response is Some,
        usage_fetched(status, usage_told(response)) matches Ok(result) ==> {
            &&& result.status_code == Some(status)
            &&& !result.missing_auth
            &&& usage_told(response) == Ok::<Option<SnapshotView>, ApiError>(result.snapshot)
        },
        accounts is None ==> accounts_told(accounts) is Err && accounts_told(accounts)->Err_0
            == ApiError::InvalidAccountsJson,
        accounts is Some ==> accounts_told(accounts) is Ok && accounts_told(accounts)->Ok_0
            is Some == accounts->0 is Some,
        accounts_fetched(status, accounts_told(accounts)) is Ok == accounts is Some,
        accounts_fetched(status, accounts_told(accounts)) matches Ok(result) ==> {
            &&& result.status_code == Some(status)
            &&& accounts_told(accounts)->Ok_0 == result.entries
        },
{
}

/// A member of the `accounts` object is listed where it is not the default one and describes an
/// account with an id; the name goes with it where it is not empty.
pub proof fn account_members_are_listed(
    name: Seq<char>,
    value: JsonView,
    account: JsonView,
    before: Seq<(Seq<char>, JsonView)>,
    after: Seq<(Seq<char>, JsonView)>,
)
    ensures
        name == "default"@ ==> entry_of(name, value) is None,
        value.member("account"@) is None ==> entry_of(name, value) is None,
        name != "default"@ && value.member("account"@) == Some(account) ==> {
            let id = account.text_member("account_id"@);
            let title = account.text_member("name"@);
            &&& entry_of(name, value) is Some == (id is Some && id->0.len() > 0)
            &&& entry_of(name, value) is Some ==> {
                let entry = entry_of(name, value)->0;
                &&& entry.0 == id->0
                &&& title is Some && title->0.len() > 0 ==> entry.1 == title
                &&& title is None || title->0.len() == 0 ==> entry.1 is None
            }
        },
        entries_of(before + after) == entries_of(before) + entries_of(after),
        entry_of(name, value) is Some ==> entries_of(seq![(name, value)]) == seq![
            entry_of(name, value)->0,
        ],
        entry_of(name, value) is None ==> entries_of(seq![(name, value)]).len() == 0,
    decreases after.len(),
{
    let one = seq![(name, value)];
    assert(one.drop_last() =~= Seq::empty());
    assert(entries_of(one.drop_last()) =~= Seq::empty());
    if after.len() == 0 {
        assert(before + after =~= before);
        assert(entries_of(before) + entries_of(after) =~= entries_of(before));
    } else {
        account_members_are_listed(name, value, account, before, after.drop_last());
        assert((before + after).drop_last() =~= before + after.drop_last());
        assert((before + after).last() == after.last());
        assert(entries_of(before + after) =~= entries_of(before) + entries_of(after));
    }
}

/// A window of the snapshot is that of the event, which has a number for its percentage.
pub open spec fn is_window_of_event(window: RateLimitWindow, event: UsageWindowJson) -> bool {
    &&& event.used_percent == Some(window.used_percent)
    &&& window.window_minutes == event.window_minutes
    &&& window.resets_at == event.resets_at
}

/// Each window of an event that has a number for its percentage becomes the window of the snapshot
/// in the same place, whatever the other one says; the credits are taken as they are. An event
/// without any such window tells nothing.
pub proof fn event_becomes_snapshot(limits: RateLimitsView)
    ensures
        ({
            let told = snapshot_of(limits);
            let primary = limits.primary is Some && limits.primary->0.used_percent is Some;
            let secondary = limits.secondary is Some && limits.secondary->0.used_percent is Some;
            &&& told is Some == (primary || secondary)
            &&& told is Some ==> {
                let usage = told->0;
                &&& usage.primary is Some == primary
                &&& usage.secondary is Some == secondary
                &&& primary ==> is_window_of_event(usage.primary->0, limits.primary->0)
                &&& secondary ==> is_window_of_event(usage.secondary->0, limits.secondary->0)
                &&& usage.credits == limits.credits
                &&& usage.plan_type is Some == limits.plan_type is Some
                &&& limits.plan_type is Some ==> usage.plan_type == Some(
                    crate::auth::plan_of(limits.plan_type->0),
                )
            }
        }),
{
}

/// A line tells usage exactly where it is an event message with a token count, a time and limits
/// with a window; it tells its own time and its own limits.
pub proof fn only_usage_events_tell(event: UsageEventView, ms: Option<i64>)
    ensures
        timed_usage(event, ms) is Some == ({
            &&& event.kind == "event_msg"@
            &&& event.payload_kind == "token_count"@
            &&& ms is Some
            &&& event.rate_limits is Some
            &&& snapshot_of(event.rate_limits->0) is Some
        }),
        timed_usage(event, ms) is Some ==> {
            let told = timed_usage(event, ms)->0;
            &&& Some(told.0) == ms
            &&& Some(told.1) == snapshot_of(event.rate_limits->0)
        },
        usage_event(event) == timed_usage(event, rfc3339_millis(event.timestamp)),
{
}

/// A line is parsed exactly where it holds all four words of a usage event.
pub proof fn usage_lines_hold_all_words(line: Seq<char>)
    ensures
        names_usage(line) ==> has_part(line, "\"event_msg\""@) && has_part(
            line,
            "\"token_count\""@,
        ) && has_part(line, "\"rate_limits\""@) && has_part(line, "\"timestamp\""@),
        has_part(line, "\"event_msg\""@) && has_part(line, "\"token_count\""@) && has_part(
            line,
            "\"rate_limits\""@,
        ) && has_part(line, "\"timestamp\""@) ==> names_usage(line),
{
}

/// Every line of a log that tells usage is an event of that log, with its time and its limits, in
/// the order of the lines; the other lines are none.
pub proof fn lines_become_events(
    path: Seq<char>,
    before: Seq<Option<(i64, SnapshotView)>>,
    after: Seq<Option<(i64, SnapshotView)>>,
    ms: i64,
    snapshot: SnapshotView,
)
    ensures
        told_events(path, before + after) == told_events(path, before) + told_events(path, after),
        told_events(path, seq![None]).len() == 0,
        ({
            let events = told_events(path, seq![Some((ms, snapshot))]);
            &&& events.len() == 1
            &&& events[0].path == path
            &&& events[0].event_timestamp_ms == ms
            &&& events[0].snapshot == snapshot
        }),
    decreases after.len(),
{
    let none: Seq<Option<(i64, SnapshotView)>> = seq![None];
    let one: Seq<Option<(i64, SnapshotView)>> = seq![Some((ms, snapshot))];
    assert(none.drop_last() =~= Seq::empty());
    assert(one.drop_last() =~= Seq::empty());
    assert(told_events(path, none.drop_last()) =~= Seq::empty());
    assert(told_events(path, one.drop_last()) =~= Seq::empty());
    if after.len() == 0 {
        assert(before + after =~= before);
        assert(told_events(path, before) + told_events(path, after) =~= told_events(path, before));
    } else {
        lines_become_events(path, before, after.drop_last(), ms, snapshot);
        assert((before + after).drop_last() =~= before + after.drop_last());
        assert((before + after).last() == after.last());
        assert(told_events(path, before + after) =~= told_events(path, before) + told_events(
            path,
            after,
        ));
    }
}

}
