//! What can be done with the registry of accounts.

use vstd::prelude::*;
use vstd::utf8::encode_utf8;

use crate::auth::{parse_plan_type, plan_of, AuthInfo, AuthView};
use crate::chatgpt_api::MeFetchResult;
use crate::clock::{now_ms, now_sec, quotient, seconds_of_ms};
use crate::encoding::{digest_of, hex_text_injective, sha256, text_digest};
use crate::model::{
    account_views, copy_rollout, copy_snapshot, find_index, has_account, plan_name, position,
    position_is_first, same_mode, same_number, same_plan, snapshot_has_numbers, snapshots_equal,
    AccountRecord, AccountView, AuthMode, PlanType, RateLimitSnapshot, Registry, RegistryView,
    RolloutSignature, RolloutView, SnapshotView,
};
use crate::paths::{account_file_name, snapshot_name};
use crate::text::{
    ascii_lower, concat, contains, copy_option, has_part, is_listed, option_view, same,
    same_option, texts, to_lower,
};

verus! {

/// Why an auth file is not that of an account.
#[derive(Debug, Clone, Copy, PartialEq, Eq, Structural)]
pub enum AccountError {
    MissingRecordKey,
    MissingEmail,
    MissingAccountId,
    MissingUserId,
    MissingApiKey,
}

/// The message of an error.
pub open spec fn account_error_text(error: AccountError) -> Seq<char> {
    match error {
        AccountError::MissingRecordKey => "auth is missing record key"@,
        AccountError::MissingEmail => "auth is missing email"@,
        AccountError::MissingAccountId => "auth is missing chatgpt account id"@,
        AccountError::MissingUserId => "auth is missing chatgpt user id"@,
        AccountError::MissingApiKey => "auth is missing OPENAI_API_KEY"@,
    }
}

impl AccountError {
    /// The message for the user.
    pub fn message(self) -> (s: &'static str)
        ensures
            s@ == account_error_text(self),
    {
        match self {
            AccountError::MissingRecordKey => "auth is missing record key",
            AccountError::MissingEmail => "auth is missing email",
            AccountError::MissingAccountId => "auth is missing chatgpt account id",
            AccountError::MissingUserId => "auth is missing chatgpt user id",
            AccountError::MissingApiKey => "auth is missing OPENAI_API_KEY",
        }
    }
}

/// Whether a record came into the registry, replaced one, or was left out.
#[derive(Debug, Clone, Copy, PartialEq, Eq, Structural)]
pub enum ImportOutcome {
    Imported,
    Updated,
    Skipped,
}

/// A record put in the place of another with the same key: what was seen of the account stays.
pub open spec fn merged(existing: AccountView, record: AccountView) -> AccountView {
    AccountView {
        account_name: match record.account_name {
            Some(name) => Some(name),
            None => existing.account_name,
        },
        last_usage: existing.last_usage,
        last_usage_at: existing.last_usage_at,
        last_local_rollout: existing.last_local_rollout,
        last_used_at: existing.last_used_at,
        ..record
    }
}

/// The accounts with a record put in: in the place of the one with its key, else at the end.
pub open spec fn upserted(accounts: Seq<AccountView>, record: AccountView) -> Seq<AccountView> {
    if has_account(accounts, record.account_key) {
        let i = position(accounts, record.account_key);
        accounts.update(i, merged(accounts[i], record))
    } else {
        accounts.push(record)
    }
}

/// The registry with a record put in.
pub open spec fn with_account(registry: RegistryView, record: AccountView) -> RegistryView {
    RegistryView { accounts: upserted(registry.accounts, record), ..registry }
}

/// Puts a record into the registry.
pub fn upsert_account(registry: &mut Registry, record: AccountRecord) -> (outcome: ImportOutcome)
    ensures
        final(registry)@ == with_account(old(registry)@, record@),
        outcome == if has_account(old(registry)@.accounts, record@.account_key) {
            ImportOutcome::Updated
        } else {
            ImportOutcome::Imported
        },
{
    let ghost before = registry@.accounts;
    match find_index(&registry.accounts, record.account_key.as_str()) {
        Some(i) => {
            proof {
                position_is_first(before, record@.account_key);
            }
            let ghost existing_view = registry.accounts@[i as int]@;
            assert(before[i as int] == existing_view);
            let existing = &registry.accounts[i];
            let account_name = match &record.account_name {
                Some(name) => Some(name.clone()),
                None => copy_option(&existing.account_name),
            };
            let replacement = AccountRecord {
                account_name,
                last_usage: copy_snapshot(&existing.last_usage),
                last_usage_at: existing.last_usage_at,
                last_local_rollout: copy_rollout(&existing.last_local_rollout),
                last_used_at: existing.last_used_at,
                ..record
            };
            assert(replacement@ == merged(existing_view, record@));
            registry.accounts.set(i, replacement);
            assert(registry@.accounts =~= before.update(i as int, merged(existing_view, record@)));
            ImportOutcome::Updated
        },
        None => {
            registry.accounts.push(record);
            assert(registry@.accounts =~= before.push(record@));
            ImportOutcome::Imported
        },
    }
}

/// The registry with an account made active: nothing changes where it is active already.
pub open spec fn with_active(registry: RegistryView, key: Seq<char>, now: i64) -> RegistryView {
    if registry.active_account_key == Some(key) {
        registry
    } else {
        RegistryView {
            active_account_key: Some(key),
            active_account_activated_at_ms: Some(now),
            ..registry
        }
    }
}

/// Makes an account active, at a given time.
pub fn set_active_account_key_at(registry: &mut Registry, account_key: &str, now: i64)
    ensures
        final(registry)@ == with_active(old(registry)@, account_key@, now),
{
    let active = match &registry.active_account_key {
        Some(key) => same(key.as_str(), account_key),
        None => false,
    };
    if !active {
        registry.active_account_key = Some(account_key.to_owned());
        registry.active_account_activated_at_ms = Some(now);
    }
}

/// Makes an account active, now.
pub fn set_active_account_key(registry: &mut Registry, account_key: &str)
    ensures
        exists|now: i64|
            final(registry)@ == #[trigger] with_active(old(registry)@, account_key@, now),
{
    let now = now_ms();
    set_active_account_key_at(registry, account_key, now);
}

/// The accounts with the time of use of one of them set.
pub open spec fn used_at(
    accounts: Seq<AccountView>,
    key: Seq<char>,
    seconds: i64,
) -> Seq<AccountView> {
    if has_account(accounts, key) {
        let i = position(accounts, key);
        accounts.update(i, AccountView { last_used_at: Some(seconds), ..accounts[i] })
    } else {
        accounts
    }
}

/// The registry once Codex signs in with the account.
pub open spec fn activated(registry: RegistryView, key: Seq<char>, now: i64) -> RegistryView {
    RegistryView {
        active_account_key: Some(key),
        active_account_activated_at_ms: Some(now),
        accounts: used_at(registry.accounts, key, quotient(now as int, 1000) as i64),
        ..registry
    }
}

/// Records that Codex signs in with the account from the given time on.
pub fn activate_account_at(registry: &mut Registry, account_key: &str, now: i64)
    ensures
        final(registry)@ == activated(old(registry)@, account_key@, now),
{
    set_active_account_key_at(registry, account_key, now);
    registry.active_account_activated_at_ms = Some(now);
    let ghost before = registry@.accounts;
    if let Some(i) = find_index(&registry.accounts, account_key) {
        proof {
            position_is_first(before, account_key@);
        }
        assert(before[i as int] == registry.accounts@[i as int]@);
        registry.accounts[i].last_used_at = Some(seconds_of_ms(now));
        assert(registry@.accounts =~= used_at(
            before,
            account_key@,
            quotient(now as int, 1000) as i64,
        ));
    }
}

/// Records that Codex signs in with the account from now on. The snapshot has been put in place.
pub fn activate_account_by_key(registry: &mut Registry, account_key: &str)
    ensures
        exists|now: i64|
            final(registry)@ == #[trigger] activated(old(registry)@, account_key@, now),
{
    let now = now_ms();
    activate_account_at(registry, account_key, now);
}

/// The account of an auth file that names a user.
pub open spec fn account_of_auth(alias: Seq<char>, auth: AuthView, created_at: i64) -> Result<
    AccountView,
    AccountError,
> {
    match (auth.record_key, auth.email, auth.chatgpt_account_id, auth.chatgpt_user_id) {
        (None, _, _, _) => Err(AccountError::MissingRecordKey),
        (Some(_), None, _, _) => Err(AccountError::MissingEmail),
        (Some(_), Some(_), None, _) => Err(AccountError::MissingAccountId),
        (Some(_), Some(_), Some(_), None) => Err(AccountError::MissingUserId),
        (Some(key), Some(email), Some(account), Some(user)) => Ok(
            AccountView {
                account_key: key,
                chatgpt_account_id: account,
                chatgpt_user_id: user,
                email,
                alias,
                account_name: None,
                plan: auth.plan,
                auth_mode: Some(auth.auth_mode),
                created_at,
                last_used_at: None,
                last_usage: None,
                last_usage_at: None,
                last_local_rollout: None,
            },
        ),
    }
}

/// The model of a result.
pub open spec fn account_result_view(r: Result<AccountRecord, AccountError>) -> Result<
    AccountView,
    AccountError,
> {
    match r {
        Ok(record) => Ok(record@),
        Err(error) => Err(error),
    }
}

/// The account of an auth file that names a user, first seen at the given time.
pub fn account_from_auth_at(alias: &str, auth: &AuthInfo, created_at: i64) -> (r: Result<
    AccountRecord,
    AccountError,
>)
    ensures
        account_result_view(r) == account_of_auth(alias@, auth@, created_at),
{
    let key = match &auth.record_key {
        Some(key) => key.clone(),
        None => {
            return Err(AccountError::MissingRecordKey);
        },
    };
    let email = match &auth.email {
        Some(email) => email.clone(),
        None => {
            return Err(AccountError::MissingEmail);
        },
    };
    let account = match &auth.chatgpt_account_id {
        Some(account) => account.clone(),
        None => {
            return Err(AccountError::MissingAccountId);
        },
    };
    let user = match &auth.chatgpt_user_id {
        Some(user) => user.clone(),
        None => {
            return Err(AccountError::MissingUserId);
        },
    };
    Ok(
        AccountRecord {
            account_key: key,
            chatgpt_account_id: account,
            chatgpt_user_id: user,
            email,
            alias: alias.to_owned(),
            account_name: None,
            plan: auth.plan,
            auth_mode: Some(auth.auth_mode),
            created_at,
            last_used_at: None,
            last_usage: None,
            last_usage_at: None,
            last_local_rollout: None,
        },
    )
}

/// The account of an auth file that names a user, first seen now.
pub fn account_from_auth(alias: &str, auth: &AuthInfo) -> (r: Result<AccountRecord, AccountError>)
    ensures
        exists|now: i64|
            account_result_view(r) == #[trigger] account_of_auth(alias@, auth@, now),
{
    let now = now_sec();
    account_from_auth_at(alias, auth, now)
}

/// Where the account of an auth file comes from.
#[derive(Debug)]
pub enum AccountSource {
    /// The file names the user, so this is the account.
    Record(AccountRecord),
    /// The file holds this API key; the service has to say whose it is.
    FetchMe(String),
}

/// The account of an auth file, or the API key whose owner has to be asked for.
pub fn account_from_auth_info(alias: &str, auth: &AuthInfo) -> (r: Result<
    AccountSource,
    AccountError,
>)
    ensures
        match auth@.auth_mode {
            AuthMode::Chatgpt => exists|now: i64|
                match (#[trigger] account_of_auth(alias@, auth@, now)) {
                    Ok(account) => r matches Ok(AccountSource::Record(record)) && record@
                        == account,
                    Err(error) => r == Err::<AccountSource, AccountError>(error),
                },
            AuthMode::Apikey => match auth@.openai_api_key {
                Some(key) => r matches Ok(AccountSource::FetchMe(api_key)) && api_key@ == key,
                None => r == Err::<AccountSource, AccountError>(AccountError::MissingApiKey),
            },
        },
{
    match auth.auth_mode {
        AuthMode::Chatgpt => match account_from_auth(alias, auth) {
            Ok(record) => Ok(AccountSource::Record(record)),
            Err(error) => Err(error),
        },
        AuthMode::Apikey => match &auth.openai_api_key {
            Some(api_key) => Ok(AccountSource::FetchMe(api_key.clone())),
            None => Err(AccountError::MissingApiKey),
        },
    }
}

/// The key of the account of an API key: the user and a digest of the API key.
pub open spec fn api_key_key(user: Seq<char>, api_key: Seq<char>) -> Seq<char> {
    "apikey::"@ + user + "::"@ + text_digest(api_key)
}

/// The name of the account of an API key: both ends of its digest, with the middle left out.
pub open spec fn api_key_name(api_key: Seq<char>) -> Seq<char> {
    let hex = text_digest(api_key);
    "sk-"@ + hex.subrange(0, 5) + "***"@ + hex.subrange(hex.len() - 4, hex.len() as int)
}

/// The key of the account of an API key.
pub fn api_key_account_key(user_id: &str, api_key: &str) -> (r: String)
    ensures
        r@ == api_key_key(user_id@, api_key@),
{
    let mut r = concat("apikey::", user_id);
    r.append("::");
    r.append(digest_of(api_key).as_str());
    r
}

/// The name of the account of an API key.
pub fn api_key_account_name(api_key: &str) -> (r: String)
    ensures
        r@ == api_key_name(api_key@),
        r@.len() == 15,
{
    let hex = digest_of(api_key);
    let mut r = concat("sk-", hex.as_str().substring_char(0, 5));
    r.append("***");
    r.append(hex.as_str().substring_char(60, 64));
    proof {
        reveal_strlit("sk-");
        reveal_strlit("***");
    }
    r
}

/// Two API keys of a user are two accounts, as long as their digests differ.
pub proof fn api_key_keys_distinct(user: Seq<char>, a: Seq<char>, b: Seq<char>)
    requires
        sha256(encode_utf8(a)) != sha256(encode_utf8(b)),
    ensures
        api_key_key(user, a) != api_key_key(user, b),
{
    if api_key_key(user, a) == api_key_key(user, b) {
        let head = "apikey::"@ + user + "::"@;
        assert(head + text_digest(a) == head + text_digest(b));
        assert((head + text_digest(a)).skip(head.len() as int) =~= text_digest(a));
        assert((head + text_digest(b)).skip(head.len() as int) =~= text_digest(b));
        hex_text_injective(sha256(encode_utf8(a)), sha256(encode_utf8(b)));
    }
}

/// The account of an API key that belongs to the given user.
pub open spec fn account_of_api_key(
    alias: Seq<char>,
    auth: AuthView,
    user: Seq<char>,
    email: Seq<char>,
    created_at: i64,
) -> Result<AccountView, AccountError> {
    match auth.openai_api_key {
        Some(api_key) => Ok(
            AccountView {
                account_key: api_key_key(user, api_key),
                chatgpt_account_id: Seq::empty(),
                chatgpt_user_id: user,
                email: ascii_lower(email),
                alias,
                account_name: Some(api_key_name(api_key)),
                plan: None,
                auth_mode: Some(AuthMode::Apikey),
                created_at,
                last_used_at: None,
                last_usage: None,
                last_usage_at: None,
                last_local_rollout: None,
            },
        ),
        None => Err(AccountError::MissingApiKey),
    }
}

/// The account of an API key that belongs to the given user, first seen at the given time.
pub fn account_from_api_key_me_at(
    alias: &str,
    auth: &AuthInfo,
    me: &MeFetchResult,
    created_at: i64,
) -> (r: Result<AccountRecord, AccountError>)
    ensures
        account_result_view(r) == account_of_api_key(
            alias@,
            auth@,
            me.user_id@,
            me.email@,
            created_at,
        ),
{
    match &auth.openai_api_key {
        Some(api_key) => Ok(
            AccountRecord {
                account_key: api_key_account_key(me.user_id.as_str(), api_key.as_str()),
                chatgpt_account_id: String::new(),
                chatgpt_user_id: me.user_id.clone(),
                email: to_lower(me.email.as_str()),
                alias: alias.to_owned(),
                account_name: Some(api_key_account_name(api_key.as_str())),
                plan: None,
                auth_mode: Some(AuthMode::Apikey),
                created_at,
                last_used_at: None,
                last_usage: None,
                last_usage_at: None,
                last_local_rollout: None,
            },
        ),
        None => Err(AccountError::MissingApiKey),
    }
}

/// The account of an API key that belongs to the given user, first seen now.
pub fn account_from_api_key_me(alias: &str, auth: &AuthInfo, me: &MeFetchResult) -> (r: Result<
    AccountRecord,
    AccountError,
>)
    ensures
        exists|now: i64|
            account_result_view(r) == #[trigger] account_of_api_key(
                alias@,
                auth@,
                me.user_id@,
                me.email@,
                now,
            ),
{
    let now = now_sec();
    account_from_api_key_me_at(alias, auth, me, now)
}

/// An account that a query is about: the query occurs in its email, alias or name, in any case.
pub open spec fn account_matches(account: AccountView, query: Seq<char>) -> bool {
    let q = ascii_lower(query);
    ||| has_part(ascii_lower(account.email), q)
    ||| account.alias.len() > 0 && has_part(ascii_lower(account.alias), q)
    ||| account.account_name matches Some(name) && has_part(ascii_lower(name), q)
}

fn matches_query(record: &AccountRecord, lower_query: &str) -> (r: bool)
    ensures
        r == ({
            ||| has_part(ascii_lower(record@.email), lower_query@)
            ||| record@.alias.len() > 0 && has_part(ascii_lower(record@.alias), lower_query@)
            ||| record@.account_name matches Some(name) && has_part(
                ascii_lower(name),
                lower_query@,
            )
        }),
{
    if contains(to_lower(record.email.as_str()).as_str(), lower_query) {
        return true;
    }
    if !record.alias.as_str().is_empty() && contains(
        to_lower(record.alias.as_str()).as_str(),
        lower_query,
    ) {
        return true;
    }
    match &record.account_name {
        Some(name) => contains(to_lower(name.as_str()).as_str(), lower_query),
        None => false,
    }
}

/// The models of a list of borrowed accounts.
pub open spec fn borrowed_views(records: Seq<&AccountRecord>) -> Seq<AccountView> {
    records.map_values(|record: &AccountRecord| record@)
}

/// The accounts that a query is about, in the order of the registry.
pub open spec fn matching(accounts: Seq<AccountView>, query: Seq<char>) -> Seq<AccountView> {
    accounts.filter(|account: AccountView| account_matches(account, query))
}

/// The accounts that a query is about, in the order of the registry.
pub fn find_matching_accounts<'a>(registry: &'a Registry, query: &str) -> (r: Vec<&'a AccountRecord>)
    ensures
        borrowed_views(r@) == matching(registry@.accounts, query@),
{
    let lower = to_lower(query);
    let mut found: Vec<&'a AccountRecord> = Vec::new();
    let ghost all = registry@.accounts;
    let ghost wanted = |account: AccountView| account_matches(account, query@);
    let mut i: usize = 0;
    proof {
        reveal(Seq::filter);
        assert(borrowed_views(found@) =~= all.take(0).filter(wanted));
    }
    while i < registry.accounts.len()
        invariant
            i <= registry.accounts.len(),
            all == registry@.accounts,
            wanted == (|account: AccountView| account_matches(account, query@)),
            lower@ == ascii_lower(query@),
            borrowed_views(found@) == all.take(i as int).filter(wanted),
        decreases registry.accounts.len() - i,
    {
        let ghost before = found@;
        assert(all[i as int] == registry.accounts@[i as int]@);
        proof {
            reveal(Seq::filter);
            assert(all.take(i as int + 1).drop_last() =~= all.take(i as int));
            assert(all.take(i as int + 1).last() == all[i as int]);
        }
        if matches_query(&registry.accounts[i], lower.as_str()) {
            found.push(&registry.accounts[i]);
            assert(borrowed_views(found@) =~= borrowed_views(before).push(all[i as int]));
        }
        i = i + 1;
    }
    assert(all.take(all.len() as int) =~= all);
    found
}

/// How much of the limit that counts first is left; -1 where nothing is known.
pub open spec fn score_of(usage: Option<SnapshotView>) -> int {
    match usage {
        Some(snapshot) => match (snapshot.primary, snapshot.secondary) {
            (Some(window), _) => window.used_percent.remaining as int,
            (None, Some(window)) => window.used_percent.remaining as int,
            (None, None) => -1,
        },
        None => -1,
    }
}

/// How much of the limit that counts first is left; -1 where nothing is known.
pub fn usage_score(usage: &Option<RateLimitSnapshot>) -> (r: i64)
    ensures
        r == score_of(crate::model::option_snapshot_view(*usage)),
{
    match usage {
        Some(snapshot) => match (snapshot.primary, snapshot.secondary) {
            (Some(window), _) => window.used_percent.remaining,
            (None, Some(window)) => window.used_percent.remaining,
            (None, None) => -1,
        },
        None => -1,
    }
}

/// A time before another; a missing time is before every time.
pub open spec fn earlier(a: Option<i64>, b: Option<i64>) -> bool {
    match (a, b) {
        (Some(a), Some(b)) => a < b,
        (None, Some(_)) => true,
        (_, None) => false,
    }
}

/// An account is a worse choice than another: less is left, or as much but seen earlier.
pub open spec fn worse(a: AccountView, b: AccountView) -> bool {
    ||| score_of(a.last_usage) < score_of(b.last_usage)
    ||| score_of(a.last_usage) == score_of(b.last_usage) && earlier(
        a.last_usage_at,
        b.last_usage_at,
    )
}

/// The best choice is at this index: none is better, and of equals it is the last.
pub open spec fn best_at(accounts: Seq<AccountView>, i: int) -> bool {
    &&& 0 <= i < accounts.len()
    &&& forall|j: int| 0 <= j < i ==> !worse(accounts[i], #[trigger] accounts[j])
    &&& forall|j: int| i < j < accounts.len() ==> worse(#[trigger] accounts[j], accounts[i])
}

/// The key of the account to switch to, where there is any.
pub open spec fn best_key(accounts: Seq<AccountView>) -> Option<Seq<char>> {
    if accounts.len() == 0 {
        None
    } else {
        Some(accounts[choose|i: int| best_at(accounts, i)].account_key)
    }
}

/// There is only one best choice.
pub proof fn best_is_unique(accounts: Seq<AccountView>, i: int, j: int)
    requires
        best_at(accounts, i),
        best_at(accounts, j),
    ensures
        i == j,
{
    if i < j {
        assert(worse(accounts[j], accounts[i]));
        assert(!worse(accounts[j], accounts[i]));
    } else if j < i {
        assert(worse(accounts[i], accounts[j]));
        assert(!worse(accounts[i], accounts[j]));
    }
}

fn is_worse(a: &AccountRecord, b: &AccountRecord) -> (r: bool)
    ensures
        r == worse(a@, b@),
{
    let x = usage_score(&a.last_usage);
    let y = usage_score(&b.last_usage);
    x < y || (x == y && match (a.last_usage_at, b.last_usage_at) {
        (Some(s), Some(t)) => s < t,
        (None, Some(_)) => true,
        (_, None) => false,
    })
}

/// The key of the account with the most left; of equals, the last.
pub fn select_best_account_key_by_usage(registry: &Registry) -> (r: Option<String>)
    ensures
        option_view(r) == best_key(registry@.accounts),
        r is None <==> registry@.accounts.len() == 0,
        r matches Some(key) ==> exists|i: int|
            #[trigger] best_at(registry@.accounts, i) && registry@.accounts[i].account_key == key@,
{
    let ghost all = registry@.accounts;
    if registry.accounts.len() == 0 {
        return None;
    }
    let mut best: usize = 0;
    let mut i: usize = 1;
    while i < registry.accounts.len()
        invariant
            all == registry@.accounts,
            1 <= i <= registry.accounts.len(),
            best < i,
            forall|j: int| 0 <= j < best ==> !worse(all[best as int], #[trigger] all[j]),
            forall|j: int| best < j < i ==> worse(#[trigger] all[j], all[best as int]),
        decreases registry.accounts.len() - i,
    {
        assert(all[i as int] == registry.accounts@[i as int]@);
        assert(all[best as int] == registry.accounts@[best as int]@);
        if !is_worse(&registry.accounts[i], &registry.accounts[best]) {
            assert forall|j: int| 0 <= j < i implies !worse(all[i as int], #[trigger] all[j]) by {}
            best = i;
        }
        i = i + 1;
    }
    assert(best_at(all, best as int));
    proof {
        best_is_unique(all, best as int, choose|i: int| best_at(all, i));
    }
    assert(all[best as int] == registry.accounts@[best as int]@);
    Some(registry.accounts[best].account_key.clone())
}

/// An account with new usage.
pub open spec fn with_usage(
    account: AccountView,
    usage: SnapshotView,
    seen_at: i64,
    rollout: RolloutView,
) -> AccountView {
    AccountView {
        last_usage: Some(usage),
        last_usage_at: Some(seen_at),
        last_local_rollout: Some(rollout),
        ..account
    }
}

/// New usage tells something that the account did not hold.
pub open spec fn usage_is_news(
    account: AccountView,
    usage: SnapshotView,
    seen_at: i64,
    rollout: RolloutView,
) -> bool {
    ||| !(account.last_usage matches Some(known) && snapshots_equal(known, usage))
    ||| account.last_usage_at != Some(seen_at)
    ||| account.last_local_rollout != Some(rollout)
}

/// Records usage that was read from a session log; whether it was news.
pub fn update_account_usage(
    registry: &mut Registry,
    account_key: &str,
    usage: RateLimitSnapshot,
    last_usage_at_ms: i64,
    rollout_path: String,
    event_timestamp_ms: i64,
) -> (changed: bool)
    ensures
        ({
            let before = old(registry)@;
            let seen_at = quotient(last_usage_at_ms as int, 1000) as i64;
            let rollout = RolloutView { path: rollout_path@, event_timestamp_ms };
            if has_account(before.accounts, account_key@) {
                let i = position(before.accounts, account_key@);
                &&& final(registry)@ == (RegistryView {
                    accounts: before.accounts.update(
                        i,
                        with_usage(before.accounts[i], usage@, seen_at, rollout),
                    ),
                    ..before
                })
                &&& changed == usage_is_news(before.accounts[i], usage@, seen_at, rollout)
            } else {
                final(registry)@ == before && !changed
            }
        }),
{
    let ghost before = registry@.accounts;
    match find_index(&registry.accounts, account_key) {
        Some(i) => {
            proof {
                position_is_first(before, account_key@);
            }
            assert(before[i as int] == registry.accounts@[i as int]@);
            let seen_at = seconds_of_ms(last_usage_at_ms);
            let record = &registry.accounts[i];
            let known = match &record.last_usage {
                Some(known) => known.equals(&usage),
                None => false,
            };
            let same_rollout = match &record.last_local_rollout {
                Some(rollout) => rollout.path == rollout_path && rollout.event_timestamp_ms
                    == event_timestamp_ms,
                None => false,
            };
            let changed = !known || !same_number(record.last_usage_at, Some(seen_at))
                || !same_rollout;
            let ghost rollout_view = RolloutView { path: rollout_path@, event_timestamp_ms };
            registry.accounts[i].last_usage = Some(usage);
            registry.accounts[i].last_usage_at = Some(seen_at);
            registry.accounts[i].last_local_rollout = Some(
                RolloutSignature { path: rollout_path, event_timestamp_ms },
            );
            assert(registry@.accounts =~= before.update(
                i as int,
                with_usage(before[i as int], usage@, seen_at, rollout_view),
            ));
            changed
        },
        None => false,
    }
}

/// Usage without NaN, recorded a second time, is no news.
pub proof fn usage_is_news_once(
    account: AccountView,
    usage: SnapshotView,
    seen_at: i64,
    rollout: RolloutView,
)
    requires
        snapshot_has_numbers(usage),
    ensures
        !usage_is_news(with_usage(account, usage, seen_at, rollout), usage, seen_at, rollout),
{
}

/// An account whose plan is taken from its usage where it is not known otherwise.
pub open spec fn with_plan(account: AccountView) -> AccountView {
    match (account.plan, account.last_usage) {
        (None, Some(usage)) => AccountView { plan: usage.plan_type, ..account },
        _ => account,
    }
}

/// Fills in plans from usage; whether any was filled in.
pub fn update_plan_from_usage(registry: &mut Registry) -> (changed: bool)
    ensures
        final(registry)@ == (RegistryView {
            accounts: old(registry)@.accounts.map_values(|a: AccountView| with_plan(a)),
            ..old(registry)@
        }),
        changed == exists|i: int|
            0 <= i < old(registry)@.accounts.len() && with_plan(
                #[trigger] old(registry)@.accounts[i],
            ) != old(registry)@.accounts[i],
{
    let ghost before = registry@;
    let mut changed = false;
    let mut i: usize = 0;
    while i < registry.accounts.len()
        invariant
            i <= registry.accounts.len(),
            registry.accounts.len() == before.accounts.len(),
            registry@ == (RegistryView { accounts: registry@.accounts, ..before }),
            forall|k: int|
                0 <= k < i ==> #[trigger] registry@.accounts[k] == with_plan(before.accounts[k]),
            forall|k: int|
                i <= k < before.accounts.len() ==> #[trigger] registry@.accounts[k]
                    == before.accounts[k],
            changed == exists|k: int|
                0 <= k < i && with_plan(#[trigger] before.accounts[k]) != before.accounts[k],
        decreases registry.accounts.len() - i,
    {
        let ghost now = registry@.accounts;
        assert(now[i as int] == registry.accounts@[i as int]@);
        assert(now[i as int] == before.accounts[i as int]);
        if registry.accounts[i].plan.is_none() {
            let plan = match &registry.accounts[i].last_usage {
                Some(usage) => usage.plan_type,
                None => None,
            };
            registry.accounts[i].plan = plan;
            assert(registry@.accounts =~= now.update(i as int, with_plan(now[i as int])));
            if plan.is_some() {
                changed = true;
                assert(with_plan(before.accounts[i as int]) != before.accounts[i as int]);
            }
        }
        i = i + 1;
    }
    assert(registry@.accounts =~= before.accounts.map_values(|a: AccountView| with_plan(a)));
    changed
}

/// The models of what the service says of accounts: their ids and names.
pub open spec fn entry_views(entries: Seq<(String, Option<String>)>) -> Seq<
    (Seq<char>, Option<Seq<char>>),
> {
    entries.map_values(|entry: (String, Option<String>)| (entry.0@, option_view(entry.1)))
}

/// The name that the first entry for an account gives it.
pub open spec fn name_of(
    entries: Seq<(Seq<char>, Option<Seq<char>>)>,
    account: Seq<char>,
) -> Option<Seq<char>>
    decreases entries.len(),
{
    if entries.len() == 0 {
        None
    } else if entries[0].0 == account {
        entries[0].1
    } else {
        name_of(entries.drop_first(), account)
    }
}

/// An account with its name as the service gives it to the user's accounts.
pub open spec fn with_name(
    account: AccountView,
    user: Seq<char>,
    entries: Seq<(Seq<char>, Option<Seq<char>>)>,
) -> AccountView {
    if account.chatgpt_user_id == user {
        AccountView { account_name: name_of(entries, account.chatgpt_account_id), ..account }
    } else {
        account
    }
}

fn entry_name(entries: &[(String, Option<String>)], account: &str) -> (r: Option<String>)
    ensures
        option_view(r) == name_of(entry_views(entries@), account@),
{
    let ghost all = entry_views(entries@);
    let mut i: usize = 0;
    assert(all.skip(0) =~= all);
    while i < entries.len()
        invariant
            i <= entries.len(),
            all == entry_views(entries@),
            name_of(all, account@) == name_of(all.skip(i as int), account@),
        decreases entries.len() - i,
    {
        assert(all.skip(i as int)[0] == (entries@[i as int].0@, option_view(entries@[i as int].1)));
        if same(entries[i].0.as_str(), account) {
            return copy_option(&entries[i].1);
        }
        assert(all.skip(i as int).drop_first() =~= all.skip(i as int + 1));
        i = i + 1;
    }
    None
}

/// Names the accounts of a user as the service does; whether any name changed.
pub fn apply_account_names_for_user(
    registry: &mut Registry,
    chatgpt_user_id: &str,
    entries: &[(String, Option<String>)],
) -> (changed: bool)
    ensures
        final(registry)@ == (RegistryView {
            accounts: old(registry)@.accounts.map_values(
                |a: AccountView| with_name(a, chatgpt_user_id@, entry_views(entries@)),
            ),
            ..old(registry)@
        }),
        changed == exists|i: int|
            0 <= i < old(registry)@.accounts.len() && with_name(
                #[trigger] old(registry)@.accounts[i],
                chatgpt_user_id@,
                entry_views(entries@),
            ) != old(registry)@.accounts[i],
{
    let ghost before = registry@;
    let ghost user = chatgpt_user_id@;
    let ghost list = entry_views(entries@);
    let mut changed = false;
    let mut i: usize = 0;
    while i < registry.accounts.len()
        invariant
            i <= registry.accounts.len(),
            user == chatgpt_user_id@,
            list == entry_views(entries@),
            registry.accounts.len() == before.accounts.len(),
            registry@ == (RegistryView { accounts: registry@.accounts, ..before }),
            forall|k: int|
                0 <= k < i ==> #[trigger] registry@.accounts[k] == with_name(
                    before.accounts[k],
                    user,
                    list,
                ),
            forall|k: int|
                i <= k < before.accounts.len() ==> #[trigger] registry@.accounts[k]
                    == before.accounts[k],
            changed == exists|k: int|
                0 <= k < i && with_name(#[trigger] before.accounts[k], user, list)
                    != before.accounts[k],
        decreases registry.accounts.len() - i,
    {
        let ghost now = registry@.accounts;
        assert(now[i as int] == registry.accounts@[i as int]@);
        assert(now[i as int] == before.accounts[i as int]);
        if same(registry.accounts[i].chatgpt_user_id.as_str(), chatgpt_user_id) {
            let next = entry_name(entries, registry.accounts[i].chatgpt_account_id.as_str());
            if !same_option(&registry.accounts[i].account_name, &next) {
                registry.accounts[i].account_name = next;
                changed = true;
                assert(with_name(before.accounts[i as int], user, list)
                    != before.accounts[i as int]);
            }
            assert(registry@.accounts =~= now.update(
                i as int,
                with_name(now[i as int], user, list),
            ));
        }
        i = i + 1;
    }
    assert(registry@.accounts =~= before.accounts.map_values(
        |a: AccountView| with_name(a, user, list),
    ));
    changed
}

/// The accounts that are not among the given keys, in order.
pub open spec fn kept(accounts: Seq<AccountView>, keys: Seq<Seq<char>>) -> Seq<AccountView> {
    accounts.filter(|account: AccountView| !keys.contains(account.account_key))
}

/// The accounts that are among the given keys, in order.
pub open spec fn removed(accounts: Seq<AccountView>, keys: Seq<Seq<char>>) -> Seq<AccountView> {
    accounts.filter(|account: AccountView| keys.contains(account.account_key))
}

/// What has to follow the removal of accounts.
#[derive(Debug)]
pub enum AfterRemoval {
    /// The active account is still there.
    Nothing,
    /// The active account is gone; this one is to take its place.
    Activate(String),
    /// The active account is gone and none is left: Codex is to be signed out.
    SignOut,
}

/// What a removal leaves to do.
#[derive(Debug)]
pub struct Removal {
    /// The snapshot files to delete.
    pub snapshots: Vec<String>,
    pub next: AfterRemoval,
}

/// The active account is among the keys.
pub open spec fn active_is_removed(registry: RegistryView, keys: Seq<Seq<char>>) -> bool {
    registry.active_account_key matches Some(key) && keys.contains(key)
}

/// The registry without the accounts of the given keys; where the active one was among them, the
/// best of the rest is named in its place.
pub open spec fn without_accounts(registry: RegistryView, keys: Seq<Seq<char>>) -> RegistryView {
    let rest = kept(registry.accounts, keys);
    RegistryView {
        accounts: rest,
        active_account_key: if active_is_removed(registry, keys) {
            best_key(rest)
        } else {
            registry.active_account_key
        },
        ..registry
    }
}

/// Removes accounts from the registry.
pub fn remove_accounts(registry: &mut Registry, account_keys: &[String]) -> (r: Removal)
    ensures
        final(registry)@ == without_accounts(old(registry)@, texts(account_keys@)),
        texts(r.snapshots@) == removed(
            old(registry)@.accounts,
            texts(account_keys@),
        ).map_values(|account: AccountView| snapshot_name(account.account_key)),
        match r.next {
            AfterRemoval::Nothing => !active_is_removed(old(registry)@, texts(account_keys@)),
            AfterRemoval::Activate(key) => active_is_removed(
                old(registry)@,
                texts(account_keys@),
            ) && final(registry)@.active_account_key == Some(key@),
            AfterRemoval::SignOut => active_is_removed(old(registry)@, texts(account_keys@))
                && final(registry)@.active_account_key is None,
        },
{
    let ghost before = registry@;
    let ghost keys = texts(account_keys@);
    let ghost all = before.accounts;
    let ghost stays = |account: AccountView| !keys.contains(account.account_key);
    let ghost goes = |account: AccountView| keys.contains(account.account_key);
    let ghost named = |account: AccountView| snapshot_name(account.account_key);
    let mut rest: Vec<AccountRecord> = Vec::new();
    let mut snapshots: Vec<String> = Vec::new();
    let mut i: usize = 0;
    proof {
        reveal(Seq::filter);
        assert(account_views(rest@) =~= all.take(0).filter(stays));
        assert(texts(snapshots@) =~= all.take(0).filter(goes).map_values(named));
    }
    while i < registry.accounts.len()
        invariant
            i <= registry.accounts.len(),
            *registry == *old(registry),
            all == registry@.accounts,
            keys == texts(account_keys@),
            stays == (|account: AccountView| !keys.contains(account.account_key)),
            goes == (|account: AccountView| keys.contains(account.account_key)),
            named == (|account: AccountView| snapshot_name(account.account_key)),
            account_views(rest@) == all.take(i as int).filter(stays),
            texts(snapshots@) == all.take(i as int).filter(goes).map_values(named),
        decreases registry.accounts.len() - i,
    {
        let ghost rest_before = rest@;
        let ghost snapshots_before = snapshots@;
        assert(all[i as int] == registry.accounts@[i as int]@);
        proof {
            reveal(Seq::filter);
            assert(all.take(i as int + 1).drop_last() =~= all.take(i as int));
            assert(all.take(i as int + 1).last() == all[i as int]);
        }
        let record = &registry.accounts[i];
        if is_listed(account_keys, record.account_key.as_str()) {
            snapshots.push(account_file_name(record.account_key.as_str()));
            assert(texts(snapshots@) =~= texts(snapshots_before).push(named(all[i as int])));
            assert(all.take(i as int + 1).filter(goes).map_values(named) =~= all.take(
                i as int,
            ).filter(goes).map_values(named).push(named(all[i as int])));
        } else {
            rest.push(record.clone());
            assert(account_views(rest@) =~= account_views(rest_before).push(all[i as int]));
        }
        i = i + 1;
    }
    assert(all.take(all.len() as int) =~= all);
    registry.accounts = rest;
    let active_removed = match &registry.active_account_key {
        Some(key) => is_listed(account_keys, key.as_str()),
        None => false,
    };
    if !active_removed {
        return Removal { snapshots, next: AfterRemoval::Nothing };
    }
    let best = select_best_account_key_by_usage(registry);
    registry.active_account_key = copy_option(&best);
    match best {
        Some(key) => Removal { snapshots, next: AfterRemoval::Activate(key) },
        None => Removal { snapshots, next: AfterRemoval::SignOut },
    }
}

/// An account brought up to date with what its auth file says of it.
pub open spec fn synced(existing: AccountView, record: AccountView) -> AccountView {
    AccountView {
        email: record.email,
        plan: record.plan,
        auth_mode: record.auth_mode,
        account_name: match record.account_name {
            Some(name) => Some(name),
            None => existing.account_name,
        },
        ..existing
    }
}

/// Brings the account that the active auth file is about up to date, where the registry knows it;
/// whether the account changed or was not the active one. `None` where the registry does not know
/// it.
pub fn sync_known_account(registry: &mut Registry, record: &AccountRecord) -> (r: Option<bool>)
    ensures
        ({
            let before = old(registry)@;
            let key = record@.account_key;
            if has_account(before.accounts, key) {
                let i = position(before.accounts, key);
                &&& final(registry)@ == (RegistryView {
                    accounts: before.accounts.update(i, synced(before.accounts[i], record@)),
                    ..before
                })
                &&& r == Some(
                    before.active_account_key != Some(key) || synced(before.accounts[i], record@)
                        != before.accounts[i],
                )
            } else {
                r is None && final(registry)@ == before
            }
        }),
{
    let ghost before = registry@;
    let active = match &registry.active_account_key {
        Some(key) => *key == record.account_key,
        None => false,
    };
    match find_index(&registry.accounts, record.account_key.as_str()) {
        Some(i) => {
            proof {
                position_is_first(before.accounts, record@.account_key);
            }
            let mut changed = !active;
            let ghost existing = registry.accounts@[i as int]@;
            assert(before.accounts[i as int] == existing);
            if registry.accounts[i].email != record.email {
                registry.accounts[i].email = record.email.clone();
                changed = true;
            }
            if !same_plan(registry.accounts[i].plan, record.plan) {
                registry.accounts[i].plan = record.plan;
                changed = true;
            }
            if !same_mode(registry.accounts[i].auth_mode, record.auth_mode) {
                registry.accounts[i].auth_mode = record.auth_mode;
                changed = true;
            }
            if record.account_name.is_some() && !same_option(
                &registry.accounts[i].account_name,
                &record.account_name,
            ) {
                registry.accounts[i].account_name = copy_option(&record.account_name);
                changed = true;
            }
            assert(registry.accounts@[i as int]@ == synced(existing, record@));
            assert(registry@.accounts =~= before.accounts.update(
                i as int,
                synced(existing, record@),
            ));
            Some(changed)
        },
        None => None,
    }
}

/// The registry with a record put in and its account active.
pub open spec fn adopted(registry: RegistryView, record: AccountView, now: i64) -> RegistryView {
    with_active(with_account(registry, record), record.account_key, now)
}

/// Puts a record into the registry and makes its account active, at a given time.
pub fn adopt_account_at(registry: &mut Registry, record: AccountRecord, now: i64) -> (outcome:
    ImportOutcome)
    ensures
        final(registry)@ == adopted(old(registry)@, record@, now),
        outcome == if has_account(old(registry)@.accounts, record@.account_key) {
            ImportOutcome::Updated
        } else {
            ImportOutcome::Imported
        },
{
    let key = record.account_key.clone();
    let outcome = upsert_account(registry, record);
    set_active_account_key_at(registry, key.as_str(), now);
    outcome
}

/// Puts a record into the registry and makes its account active, now.
pub fn adopt_account(registry: &mut Registry, record: AccountRecord) -> (outcome: ImportOutcome)
    ensures
        exists|now: i64|
            final(registry)@ == #[trigger] adopted(old(registry)@, record@, now),
        outcome == if has_account(old(registry)@.accounts, record@.account_key) {
            ImportOutcome::Updated
        } else {
            ImportOutcome::Imported
        },
{
    let now = now_ms();
    adopt_account_at(registry, record, now)
}

/// The plan of a name, in any case; a name of no plan is unknown.
pub open spec fn plan_named(value: Seq<char>) -> PlanType {
    let name = ascii_lower(value);
    if name == "prolite"@ {
        PlanType::Prolite
    } else {
        plan_of(value)
    }
}

/// The plan of a name.
pub fn parse_plan_from_value(value: &str) -> (plan: PlanType)
    ensures
        plan == plan_named(value@),
{
    if same(to_lower(value).as_str(), "prolite") {
        PlanType::Prolite
    } else {
        parse_plan_type(value)
    }
}

/// A plan is read back from its name.
pub proof fn plan_is_read_back(plan: PlanType)
    ensures
        plan_named(plan_name(plan)) == plan,
{
    reveal_strlit("free");
    reveal_strlit("plus");
    reveal_strlit("prolite");
    reveal_strlit("pro");
    reveal_strlit("team");
    reveal_strlit("business");
    reveal_strlit("enterprise");
    reveal_strlit("edu");
    reveal_strlit("unknown");
    let name = plan_name(plan);
    assert(ascii_lower(name) =~= name);
    assert("free"@[0] != "plus"@[0] && "free"@[0] != "team"@[0] && "plus"@[0] != "team"@[0]);
    assert("pro"@[0] != "edu"@[0]);
    assert("prolite"@[0] != "unknown"@[0]);
}

}
