//! Keeping the registry in step with the active auth file and with the usage of the active account.

use vstd::prelude::*;

use crate::auth::{
    auth_data_outcome, auth_result_view, parse_auth_info_data, AuthError, AuthInfo, AuthView,
    JwtClaims,
};
use crate::chatgpt_api::{entry_pairs, AccountFetchResult, UsageFetchResult};
use crate::clock::{now_sec, quotient};
use crate::files::{file_equals_bytes, holds};
use crate::laws::upsert_is_found;
use crate::model::{
    find_index, first_at, first_is_position, has_account, option_snapshot_view, position,
    position_is_first, same_number, snapshots_equal, AccountRecord, AccountView, AuthMode, Registry,
    RegistryView, RolloutView, SnapshotView,
};
use crate::registry::{
    account_from_auth_info, account_of_auth, adopt_account, adopted, apply_account_names_for_user,
    entry_views, set_active_account_key, sync_known_account, synced, update_account_usage,
    with_active, with_name, with_usage, AccountError, AccountSource,
};
use crate::sessions::{LatestUsage, LatestView};

verus! {

/// What the active auth file means to the registry.
#[derive(Debug)]
pub enum SyncSource {
    /// There is nothing to bring up to date.
    Nothing,
    /// It is the auth file of this account.
    Account(AccountRecord),
    /// It holds an API key, and the service has to say whose it is.
    FetchMe { api_key: String, auth: AuthInfo },
    /// The registry is empty and the file cannot be read.
    Malformed(AuthError),
    /// The registry is empty and the file is not that of an account.
    Unidentified(AccountError),
}

/// `source` is what an auth file that says `auth`, or is malformed, means at the time `now`. As long
/// as the registry is empty the file has to be good; later a file that says nothing is passed over.
pub open spec fn sync_source_of(
    auth: Result<AuthView, AuthError>,
    empty: bool,
    now: i64,
    source: SyncSource,
) -> bool {
    match auth {
        Err(error) => source == if empty {
            SyncSource::Malformed(error)
        } else {
            SyncSource::Nothing
        },
        Ok(auth) => match auth.auth_mode {
            AuthMode::Chatgpt => match account_of_auth(
                Seq::empty(),
                auth,
                now,
            ) {
                Ok(account) => source matches SyncSource::Account(record) && record@ == account,
                Err(error) => source == if empty {
                    SyncSource::Unidentified(error)
                } else {
                    SyncSource::Nothing
                },
            },
            AuthMode::Apikey => match auth.openai_api_key {
                Some(key) => source matches SyncSource::FetchMe { api_key, auth: kept }
                    && api_key@ == key && kept@ == auth,
                None => source == if empty {
                    SyncSource::Unidentified(AccountError::MissingApiKey)
                } else {
                    SyncSource::Nothing
                },
            },
        },
    }
}

/// What a parsed auth file means to the registry.
pub fn sync_source(auth: Result<AuthInfo, AuthError>, empty: bool) -> (source: SyncSource)
    ensures
        exists|now: i64| #[trigger] sync_source_of(auth_result_view(auth), empty, now, source),
{
    match auth {
        Err(error) => {
            let source = if empty {
                SyncSource::Malformed(error)
            } else {
                SyncSource::Nothing
            };
            assert(sync_source_of(auth_result_view(auth), empty, 0, source));
            source
        },
        Ok(info) => {
            let found = account_from_auth_info("", &info);
            proof {
                reveal_strlit("");
                assert(""@ =~= Seq::empty());
            }
            let ghost now = choose|now: i64|
                match (#[trigger] account_of_auth(""@, info@, now)) {
                    Ok(account) => found matches Ok(AccountSource::Record(record))
                        && record@ == account,
                    Err(error) => found == Err::<
                        AccountSource,
                        AccountError,
                    >(error),
                };
            let source = match found {
                Ok(AccountSource::Record(record)) => SyncSource::Account(record),
                Ok(AccountSource::FetchMe(api_key)) => SyncSource::FetchMe {
                    api_key,
                    auth: info,
                },
                Err(error) => if empty {
                    SyncSource::Unidentified(error)
                } else {
                    SyncSource::Nothing
                },
            };
            assert(sync_source_of(auth_result_view(auth), empty, now, source));
            source
        },
    }
}

/// The registry knows no account yet.
pub open spec fn has_no_accounts(registry: RegistryView) -> bool {
    registry.accounts.len() == 0
}

/// What the bytes of the active auth file, where it is there, mean to the registry.
pub fn read_active_auth<F: Fn(Vec<u8>) -> Option<JwtClaims>>(
    registry: &Registry,
    data: Option<&[u8]>,
    read_claims: F,
) -> (source: SyncSource)
    requires
        forall|payload: Vec<u8>| #[trigger] read_claims.requires((payload,)),
    ensures
        match data {
            None => source is Nothing,
            Some(data) => exists|auth: Result<AuthView, AuthError>, now: i64|
                #[trigger] auth_data_outcome(data@, read_claims, auth)
                    && #[trigger] sync_source_of(
                    auth,
                    has_no_accounts(registry@),
                    now,
                    source,
                ),
        },
{
    match data {
        None => SyncSource::Nothing,
        Some(data) => {
            let auth = parse_auth_info_data(data, read_claims);
            assert(auth_data_outcome(data@, read_claims, auth_result_view(auth)));
            let empty = registry.accounts.len() == 0;
            assert(empty == has_no_accounts(registry@));
            sync_source(auth, empty)
        },
    }
}

/// What is left to do for the account of the active auth file.
#[derive(Debug, Clone, Copy, PartialEq, Eq, Structural)]
pub struct SyncPlan {
    /// Whether the registry knows the account.
    pub known: bool,
    /// Whether the auth file is to be stored as the snapshot of the account.
    pub write_snapshot: bool,
    /// Whether the registry or the snapshot changes.
    pub changed: bool,
}

/// The registry with a known account brought up to date.
pub open spec fn fields_synced(registry: RegistryView, record: AccountView) -> RegistryView {
    if has_account(registry.accounts, record.account_key) {
        let i = position(registry.accounts, record.account_key);
        RegistryView {
            accounts: registry.accounts.update(i, synced(registry.accounts[i], record)),
            ..registry
        }
    } else {
        registry
    }
}

/// What is left to do, where the snapshot of the account holds the auth file or not.
pub open spec fn sync_plan(
    registry: RegistryView,
    record: AccountView,
    snapshot_current: bool,
) -> SyncPlan {
    let known = has_account(registry.accounts, record.account_key);
    SyncPlan {
        known,
        write_snapshot: !known || !snapshot_current,
        changed: !known || !snapshot_current || registry.active_account_key != Some(
            record.account_key,
        ) || fields_synced(registry, record) != registry,
    }
}

/// Brings the account of the active auth file up to date where the registry knows it, and says what
/// is left to do: to store the snapshot where that is called for, and then [`finish_sync`].
pub fn begin_sync(
    registry: &mut Registry,
    record: &AccountRecord,
    snapshot: Option<&[u8]>,
    auth: &[u8],
) -> (plan: SyncPlan)
    ensures
        final(registry)@ == fields_synced(old(registry)@, record@),
        plan == sync_plan(old(registry)@, record@, holds(snapshot, auth@)),
{
    let ghost before = registry@;
    let current = file_equals_bytes(snapshot, auth);
    match sync_known_account(registry, record) {
        Some(changed) => {
            proof {
                let key = record@.account_key;
                let i = position(before.accounts, key);
                position_is_first(before.accounts, key);
                let after = fields_synced(before, record@);
                if synced(before.accounts[i], record@) != before.accounts[i] {
                    assert(after.accounts[i] != before.accounts[i]);
                } else {
                    assert(after.accounts =~= before.accounts);
                }
            }
            SyncPlan { known: true, write_snapshot: !current, changed: changed || !current }
        },
        None => SyncPlan { known: false, write_snapshot: true, changed: true },
    }
}

/// The registry once the account of the active auth file is the active one.
pub open spec fn sync_finished(
    registry: RegistryView,
    record: AccountView,
    known: bool,
    now: i64,
) -> RegistryView {
    if known {
        with_active(registry, record.account_key, now)
    } else {
        adopted(registry, record, now)
    }
}

/// Makes the account of the active auth file the active one, now; an unknown account enters the
/// registry.
pub fn finish_sync(registry: &mut Registry, record: AccountRecord, known: bool)
    ensures
        exists|now: i64|
            final(registry)@ == #[trigger] sync_finished(old(registry)@, record@, known, now),
{
    let ghost before = registry@;
    if known {
        set_active_account_key(registry, record.account_key.as_str());
        proof {
            let now = choose|now: i64|
                registry@ == #[trigger] with_active(before, record@.account_key, now);
            assert(registry@ == sync_finished(before, record@, known, now));
        }
    } else {
        let ghost view = record@;
        let _ = adopt_account(registry, record);
        proof {
            let now = choose|now: i64| registry@ == #[trigger] adopted(before, view, now);
            assert(registry@ == sync_finished(before, view, known, now));
        }
    }
}

/// After a sync the account of the auth file is known and active, and syncing the same file again
/// changes nothing.
pub proof fn sync_settles(registry: RegistryView, record: AccountView, now: i64)
    ensures
        ({
            let known = has_account(registry.accounts, record.account_key);
            let after = sync_finished(fields_synced(registry, record), record, known, now);
            &&& after.active_account_key == Some(record.account_key)
            &&& has_account(after.accounts, record.account_key)
            &&& fields_synced(after, record) == after
            &&& sync_plan(after, record, true) == (SyncPlan {
                known: true,
                write_snapshot: false,
                changed: false,
            })
        }),
{
    let key = record.account_key;
    let known = has_account(registry.accounts, key);
    let after = sync_finished(fields_synced(registry, record), record, known, now);
    position_is_first(registry.accounts, key);
    if known {
        let p = position(registry.accounts, key);
        assert(after.accounts[p].account_key == key);
        assert forall|j: int| 0 <= j < p implies (#[trigger] after.accounts[j]).account_key
            != key by {
            assert(registry.accounts[j].account_key != key);
        }
        assert(first_at(after.accounts, key, p));
        first_is_position(after.accounts, key, p);
        assert(has_account(after.accounts, key));
        assert(fields_synced(after, record).accounts =~= after.accounts);
    } else {
        upsert_is_found(registry.accounts, record);
        position_is_first(after.accounts, key);
        assert(has_account(after.accounts, key));
        let p = position(after.accounts, key);
        assert(after.accounts[p] == record);
        assert(fields_synced(after, record).accounts =~= after.accounts);
    }
}

/// Where the usage of the active account is asked for.
#[derive(Debug, Clone, Copy, PartialEq, Eq, Structural)]
pub enum UsageSource {
    /// No account is active.
    Nowhere,
    /// The ChatGPT API first, and the session logs where it does not answer.
    Api,
    /// The session logs alone.
    Sessions,
}

/// Where the usage of the active account is asked for.
pub open spec fn usage_source_of(registry: RegistryView) -> UsageSource {
    match registry.active_account_key {
        None => UsageSource::Nowhere,
        Some(_) => if registry.api.usage {
            UsageSource::Api
        } else {
            UsageSource::Sessions
        },
    }
}

/// Where the usage of the active account is asked for.
pub fn usage_source(registry: &Registry) -> (r: UsageSource)
    ensures
        r == usage_source_of(registry@),
{
    match &registry.active_account_key {
        None => UsageSource::Nowhere,
        Some(_) => if registry.api.usage {
            UsageSource::Api
        } else {
            UsageSource::Sessions
        },
    }
}

/// An account with usage that the API told; the session log that it was last read from stays.
pub open spec fn with_api_usage(account: AccountView, usage: SnapshotView, now: i64) -> AccountView {
    AccountView { last_usage: Some(usage), last_usage_at: Some(now), ..account }
}

/// Usage that the API told is news to the account.
pub open spec fn api_usage_is_news(account: AccountView, usage: SnapshotView, now: i64) -> bool {
    ||| !(account.last_usage matches Some(known) && snapshots_equal(known, usage))
    ||| account.last_usage_at != Some(now)
}

/// The registry with usage of the active account that the API told at the given time.
pub open spec fn api_usage_applied(
    registry: RegistryView,
    usage: SnapshotView,
    now: i64,
) -> RegistryView {
    match registry.active_account_key {
        Some(key) if has_account(registry.accounts, key) => {
            let i = position(registry.accounts, key);
            RegistryView {
                accounts: registry.accounts.update(
                    i,
                    with_api_usage(registry.accounts[i], usage, now),
                ),
                ..registry
            }
        },
        _ => registry,
    }
}

/// Whether that usage was news.
pub open spec fn api_usage_changed(registry: RegistryView, usage: SnapshotView, now: i64) -> bool {
    match registry.active_account_key {
        Some(key) if has_account(registry.accounts, key) => api_usage_is_news(
            registry.accounts[position(registry.accounts, key)],
            usage,
            now,
        ),
        _ => false,
    }
}

/// The answer of the API, where it holds usage.
pub open spec fn fetched_usage(answer: Option<UsageFetchResult>) -> Option<SnapshotView> {
    match answer {
        Some(answer) => option_snapshot_view(answer.snapshot),
        None => None,
    }
}

/// Records the usage of the active account that the API told at the given time, and says whether it
/// was news. `None` where the API told none: the session logs are then looked at.
pub fn apply_api_usage_at(registry: &mut Registry, answer: Option<UsageFetchResult>, now: i64) -> (r:
    Option<bool>)
    ensures
        match fetched_usage(answer) {
            Some(usage) => {
                &&& final(registry)@ == api_usage_applied(old(registry)@, usage, now)
                &&& r == Some(api_usage_changed(old(registry)@, usage, now))
            },
            None => final(registry)@ == old(registry)@ && r is None,
        },
{
    let usage = match answer {
        Some(answer) => match answer.snapshot {
            Some(usage) => usage,
            None => {
                return None;
            },
        },
        None => {
            return None;
        },
    };
    let ghost before = registry@;
    let found = match &registry.active_account_key {
        Some(key) => find_index(&registry.accounts, key.as_str()),
        None => None,
    };
    match found {
        Some(i) => {
            proof {
                position_is_first(before.accounts, before.active_account_key->0);
            }
            assert(before.accounts[i as int] == registry.accounts@[i as int]@);
            let known = match &registry.accounts[i].last_usage {
                Some(known) => known.equals(&usage),
                None => false,
            };
            let changed = !known || !same_number(registry.accounts[i].last_usage_at, Some(now));
            let ghost view = usage@;
            registry.accounts[i].last_usage = Some(usage);
            registry.accounts[i].last_usage_at = Some(now);
            assert(registry@.accounts =~= before.accounts.update(
                i as int,
                with_api_usage(before.accounts[i as int], view, now),
            ));
            Some(changed)
        },
        None => Some(false),
    }
}

/// Records the usage of the active account that the API told just now.
pub fn apply_api_usage(registry: &mut Registry, answer: Option<UsageFetchResult>) -> (r: Option<
    bool,
>)
    ensures
        match fetched_usage(answer) {
            Some(usage) => exists|now: i64|
                {
                    &&& final(registry)@ == #[trigger] api_usage_applied(
                        old(registry)@,
                        usage,
                        now,
                    )
                    &&& r == Some(api_usage_changed(old(registry)@, usage, now))
                },
            None => final(registry)@ == old(registry)@ && r is None,
        },
{
    let now = now_sec();
    apply_api_usage_at(registry, answer, now)
}

/// The signature of an event in a session log.
pub open spec fn signature_of(latest: LatestView) -> RolloutView {
    RolloutView { path: latest.path, event_timestamp_ms: latest.event_timestamp_ms }
}

/// The account was already brought up to date by this event.
pub open spec fn already_applied(account: AccountView, latest: LatestView) -> bool {
    account.last_local_rollout == Some(signature_of(latest))
}

/// The registry with the usage of the active account that a session log tells.
pub open spec fn local_usage_applied(registry: RegistryView, latest: LatestView) -> RegistryView {
    match registry.active_account_key {
        Some(key) if has_account(registry.accounts, key) && !already_applied(
            registry.accounts[position(registry.accounts, key)],
            latest,
        ) => {
            let i = position(registry.accounts, key);
            RegistryView {
                accounts: registry.accounts.update(
                    i,
                    with_usage(
                        registry.accounts[i],
                        latest.snapshot,
                        quotient(latest.event_timestamp_ms as int, 1000) as i64,
                        signature_of(latest),
                    ),
                ),
                ..registry
            }
        },
        _ => registry,
    }
}

/// Whether that usage was new to the account.
pub open spec fn local_usage_changed(registry: RegistryView, latest: LatestView) -> bool {
    match registry.active_account_key {
        Some(key) => has_account(registry.accounts, key) && !already_applied(
            registry.accounts[position(registry.accounts, key)],
            latest,
        ),
        None => false,
    }
}

/// Records the usage of the active account that the last event of the session logs tells, unless
/// the account was already brought up to date by that event; whether it was.
pub fn apply_local_usage(registry: &mut Registry, latest: Option<LatestUsage>) -> (changed: bool)
    ensures
        match latest {
            Some(latest) => {
                &&& final(registry)@ == local_usage_applied(old(registry)@, latest@)
                &&& changed == local_usage_changed(old(registry)@, latest@)
            },
            None => final(registry)@ == old(registry)@ && !changed,
        },
{
    let latest = match latest {
        Some(latest) => latest,
        None => {
            return false;
        },
    };
    let key = match &registry.active_account_key {
        Some(key) => key.clone(),
        None => {
            return false;
        },
    };
    let ghost before = registry@;
    match find_index(&registry.accounts, key.as_str()) {
        Some(i) => {
            proof {
                position_is_first(before.accounts, key@);
            }
            assert(before.accounts[i as int] == registry.accounts@[i as int]@);
            let applied = match &registry.accounts[i].last_local_rollout {
                Some(rollout) => rollout.event_timestamp_ms == latest.event_timestamp_ms
                    && rollout.path == latest.path,
                None => false,
            };
            if applied {
                return false;
            }
        },
        None => {
            return false;
        },
    }
    let LatestUsage { path, event_timestamp_ms, snapshot } = latest;
    update_account_usage(
        registry,
        key.as_str(),
        snapshot,
        event_timestamp_ms,
        path,
        event_timestamp_ms,
    )
}

/// The same event of the session logs brings an account up to date only once.
pub proof fn local_usage_applies_once(registry: RegistryView, latest: LatestView)
    ensures
        ({
            let after = local_usage_applied(registry, latest);
            &&& local_usage_applied(after, latest) == after
            &&& !local_usage_changed(after, latest)
        }),
{
    if let Some(key) = registry.active_account_key {
        position_is_first(registry.accounts, key);
        let after = local_usage_applied(registry, latest);
        if local_usage_changed(registry, latest) {
            let p = position(registry.accounts, key);
            assert(after.accounts[p].account_key == key);
            assert forall|j: int| 0 <= j < p implies (#[trigger] after.accounts[j]).account_key
                != key by {
                assert(registry.accounts[j].account_key != key);
            }
            assert(first_at(after.accounts, key, p));
            first_is_position(after.accounts, key, p);
        }
    }
}

/// Whom to ask the API about for the names of accounts.
#[derive(Debug)]
pub struct NamesRequest {
    pub access_token: String,
    pub account_id: String,
    pub user_id: String,
}

/// The names of accounts are asked for: that is allowed, and the auth file is enough to ask.
pub open spec fn names_are_asked(registry: RegistryView, auth: AuthView) -> bool {
    &&& registry.api.account
    &&& auth.access_token is Some
    &&& auth.chatgpt_account_id is Some
    &&& auth.chatgpt_user_id is Some
}

/// Whom to ask the API about for the names of accounts: the user of the active auth file, where
/// asking is allowed and the file is enough to ask.
pub fn names_request(registry: &Registry, info: &AuthInfo) -> (r: Option<NamesRequest>)
    ensures
        match r {
            Some(request) => {
                &&& names_are_asked(registry@, info@)
                &&& info@.access_token == Some(request.access_token@)
                &&& info@.chatgpt_account_id == Some(request.account_id@)
                &&& info@.chatgpt_user_id == Some(request.user_id@)
            },
            None => !names_are_asked(registry@, info@),
        },
{
    if !registry.api.account {
        return None;
    }
    match (&info.access_token, &info.chatgpt_account_id, &info.chatgpt_user_id) {
        (Some(token), Some(account), Some(user)) => Some(
            NamesRequest {
                access_token: token.clone(),
                account_id: account.clone(),
                user_id: user.clone(),
            },
        ),
        _ => None,
    }
}

/// The registry with the accounts of a user named as the API names them.
pub open spec fn named(
    registry: RegistryView,
    user: Seq<char>,
    entries: Seq<(Seq<char>, Option<Seq<char>>)>,
) -> RegistryView {
    RegistryView {
        accounts: registry.accounts.map_values(|a: AccountView| with_name(a, user, entries)),
        ..registry
    }
}

/// Names the accounts of a user as the API does, where it answered; whether any name changed.
pub fn apply_names(registry: &mut Registry, user_id: &str, answer: Option<AccountFetchResult>) -> (
changed: bool)
    ensures
        ({
            let before = old(registry)@;
            let entries = match answer {
                Some(answer) => answer@.entries,
                None => None,
            };
            match entries {
                Some(entries) => {
                    &&& final(registry)@ == named(before, user_id@, entries)
                    &&& changed == (named(before, user_id@, entries) != before)
                },
                None => final(registry)@ == before && !changed,
            }
        }),
{
    let ghost before = registry@;
    let entries = match &answer {
        Some(answer) => match &answer.entries {
            Some(entries) => entry_pairs(entries),
            None => {
                return false;
            },
        },
        None => {
            return false;
        },
    };
    let ghost list = entry_views(entries@);
    let changed = apply_account_names_for_user(registry, user_id, entries.as_slice());
    proof {
        let after = named(before, user_id@, list);
        if changed {
            let i = choose|i: int|
                0 <= i < before.accounts.len() && with_name(
                    #[trigger] before.accounts[i],
                    user_id@,
                    list,
                ) != before.accounts[i];
            assert(after.accounts[i] != before.accounts[i]);
        } else {
            assert(after.accounts =~= before.accounts);
        }
    }
    changed
}

}
