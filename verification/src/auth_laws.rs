//! What an auth file, a registry file and an import come to, said of what is in them.

use vstd::prelude::*;

use crate::account_laws::same_settings;
use crate::auth::{
    auth_data_outcome, auth_step, auth_with_claims, claimed_auth, cpa_tokens, dot_from, jwt_payload,
    option_claims_view, plan_of, token_of, unidentified_auth, AuthError, AuthStepView, AuthView,
    ClaimsView, JwtClaims, TokensView,
};
use crate::chatgpt_api::me_of;
use crate::import::{
    active_from_start, after_import, after_purge, prepared, source_of, ImportSource, ImportState,
};
use crate::json::{document_of, lookup, JsonView};
use crate::laws::upsert_adds_key;
use crate::model::{
    has_account, AccountView, AuthMode, Registry, RegistryView, CURRENT_SCHEMA_VERSION,
};
use crate::registry::{account_of_auth, upserted, AccountError, ImportOutcome};
use crate::schema::{
    inspection_of, legacy_base, legacy_registry, legacy_start, load_outcome, migrated, normalized,
    rewrite_needed, schema_version_of, InspectionView, LegacyAccountView, LegacyBaseView,
    LegacyEntryView, LoadedView, MigrationError, SchemaError,
};
use crate::sync::{
    fields_synced, names_are_asked, named, sync_finished, sync_plan, sync_source_of, SyncSource,
};
use crate::text::ascii_lower;

verus! {

/// A member is found by its name, behind any members with other names and before any others; a name
/// that no member has is not found.
pub proof fn members_are_found_by_name(
    before: Seq<(Seq<char>, JsonView)>,
    name: Seq<char>,
    value: JsonView,
    after: Seq<(Seq<char>, JsonView)>,
)
    requires
        forall|k: int| 0 <= k < before.len() ==> (#[trigger] before[k]).0 != name,
    ensures
        lookup(before + seq![(name, value)] + after, name) == Some(value),
        lookup(before, name) is None,
        JsonView::Object(before + seq![(name, value)] + after).member(name) == Some(value),
    decreases before.len(),
{
    let all = before + seq![(name, value)] + after;
    if before.len() == 0 {
        assert(all[0] == (name, value));
    } else {
        let rest = before.drop_first();
        assert forall|k: int| 0 <= k < rest.len() implies (#[trigger] rest[k]).0 != name by {
            assert(before[k + 1].0 != name);
        }
        members_are_found_by_name(rest, name, value, after);
        assert(all[0] == before[0]);
        assert(all.drop_first() =~= rest + seq![(name, value)] + after);
    }
}

/// Only an object has members; only a text member has a text, and only one that is not empty is
/// filled.
pub proof fn members_are_of_objects(root: JsonView, name: Seq<char>)
    ensures
        !(root is Object) ==> root.member(name) is None,
        root.text_member(name) is Some == (root.member(name) is Some && root.member(name)->0
            is Text),
        root.text_member(name) matches Some(s) ==> root.member(name) == Some(JsonView::Text(s)),
        root.filled_member(name) is Some == (root.text_member(name) is Some && root.text_member(
            name,
        )->0.len() > 0),
        root.filled_member(name) is Some ==> root.filled_member(name) == root.text_member(name),
{
}

/// The text has no dot.
pub open spec fn is_dotless(s: Seq<char>) -> bool {
    forall|i: int| 0 <= i < s.len() ==> #[trigger] s[i] != '.'
}

proof fn dot_is_found(s: Seq<char>, from: int, at: int)
    requires
        0 <= from <= at < s.len(),
        s[at] == '.',
        forall|k: int| from <= k < at ==> #[trigger] s[k] != '.',
    ensures
        dot_from(s, from) == at,
    decreases at - from,
{
    if from < at {
        assert(s[from] != '.');
        dot_is_found(s, from + 1, at);
    }
}

proof fn no_dot_is_found(s: Seq<char>, from: int)
    requires
        0 <= from,
        forall|k: int| from <= k < s.len() ==> #[trigger] s[k] != '.',
    ensures
        dot_from(s, from) == s.len(),
    decreases s.len() - from,
{
    if from < s.len() {
        no_dot_is_found(s, from + 1);
    }
}

/// The payload of a token is what stands between its first two dots; a token with fewer dots has
/// none.
pub proof fn payload_stands_between_dots(
    header: Seq<char>,
    payload: Seq<char>,
    signature: Seq<char>,
)
    requires
        is_dotless(header),
        is_dotless(payload),
    ensures
        jwt_payload(header + seq!['.'] + payload + seq!['.'] + signature) == Some(payload),
        jwt_payload(header + seq!['.'] + payload) is None,
        jwt_payload(header) is None,
{
    let jwt = header + seq!['.'] + payload + seq!['.'] + signature;
    let h = header.len() as int;
    let p = payload.len() as int;
    assert forall|k: int| 0 <= k < h implies #[trigger] jwt[k] != '.' by {
        assert(jwt[k] == header[k]);
    }
    assert(jwt[h] == '.');
    dot_is_found(jwt, 0, h);
    assert forall|k: int| h + 1 <= k < h + 1 + p implies #[trigger] jwt[k] != '.' by {
        assert(jwt[k] == payload[k - h - 1]);
    }
    assert(jwt[h + 1 + p] == '.');
    dot_is_found(jwt, h + 1, h + 1 + p);
    assert(jwt.subrange(h + 1, h + 1 + p) =~= payload);
    let short = header + seq!['.'] + payload;
    assert forall|k: int| 0 <= k < h implies #[trigger] short[k] != '.' by {
        assert(short[k] == header[k]);
    }
    assert(short[h] == '.');
    dot_is_found(short, 0, h);
    assert forall|k: int| h + 1 <= k < short.len() implies #[trigger] short[k] != '.' by {
        assert(short[k] == payload[k - h - 1]);
    }
    no_dot_is_found(short, h + 1);
    no_dot_is_found(header, 0);
    no_dot_is_found(header, h + 1);
}

/// What a file without an API key says, with the claims of its identity token: the tokens are those
/// of the file; the email, folded, the plan and the user are those of the claims where the claims are
/// about the account of the tokens and name a user, and are missing otherwise.
pub proof fn claims_identify_the_account(root: JsonView, claims: ClaimsView)
    ensures
        ({
            let info = claimed_auth(root, claims);
            let account = token_of(root, "account_id"@);
            let agreed = account is Some && claims.auth is Some
                && claims.auth->0.chatgpt_account_id == account && (claims.auth->0.chatgpt_user_id
                is Some || claims.auth->0.user_id is Some);
            &&& info.chatgpt_account_id == account
            &&& info.access_token == token_of(root, "access_token"@)
            &&& info.last_refresh == root.filled_member("last_refresh"@)
            &&& info.auth_mode == AuthMode::Chatgpt
            &&& info.openai_api_key is None
            &&& agreed ==> {
                let auth = claims.auth->0;
                &&& auth.chatgpt_user_id is Some ==> info.chatgpt_user_id == auth.chatgpt_user_id
                &&& auth.chatgpt_user_id is None ==> info.chatgpt_user_id == auth.user_id
                &&& info.email is Some == claims.email is Some
                &&& claims.email is Some ==> info.email == Some(ascii_lower(claims.email->0))
                &&& info.plan is Some == auth.chatgpt_plan_type is Some
                &&& auth.chatgpt_plan_type is Some ==> info.plan == Some(
                    plan_of(auth.chatgpt_plan_type->0),
                )
                &&& info.record_key == Some(info.chatgpt_user_id->0 + "::"@ + account->0)
            }
            &&& !agreed ==> {
                &&& info.chatgpt_user_id is None
                &&& info.email is None
                &&& info.plan is None
                &&& info.record_key is None
            }
        }),
        auth_with_claims(root, Some(claims)) == Ok::<AuthView, AuthError>(
            claimed_auth(root, claims),
        ),
        auth_with_claims(root, None) == Err::<AuthView, AuthError>(AuthError::InvalidClaims),
{
}

/// What a file says by itself: an API key before anything else, then the claims of an identity
/// token, then nothing but its tokens.
pub proof fn api_key_then_identity_token(root: JsonView)
    ensures
        !(root is Object) ==> auth_step(root) == AuthStepView::Done(Err(AuthError::NotAnObject)),
        root is Object && root.filled_member("OPENAI_API_KEY"@) is None && token_of(
            root,
            "id_token"@,
        ) is None ==> auth_step(root) == AuthStepView::Done(Ok(unidentified_auth(root))),
        root.filled_member("OPENAI_API_KEY"@) is Some ==> (auth_step(root) matches
            AuthStepView::Done(Ok(info)) && info.auth_mode == AuthMode::Apikey
            && info.openai_api_key == root.filled_member("OPENAI_API_KEY"@) && info.record_key
            is None && info.email is None && info.access_token is None
            && info.chatgpt_account_id is None),
        ({
            let info = unidentified_auth(root);
            &&& info.access_token == token_of(root, "access_token"@)
            &&& info.chatgpt_account_id == token_of(root, "account_id"@)
            &&& info.last_refresh == root.filled_member("last_refresh"@)
            &&& info.email is None
            &&& info.plan is None
            &&& info.chatgpt_user_id is None
            &&& info.auth_mode == AuthMode::Chatgpt
        }),
        forall|name: Seq<char>|
            root.member("tokens"@) is None ==> (#[trigger] token_of(root, name)) is None,
        forall|name: Seq<char>|
            root.member("tokens"@) is Some ==> #[trigger] token_of(root, name) == root.member(
                "tokens"@,
            )->0.filled_member(name),
{
}

/// The text of a member, or nothing.
pub open spec fn text_or_nothing(text: Option<Seq<char>>) -> Seq<char> {
    if text is Some {
        text->0
    } else {
        Seq::empty()
    }
}

/// A CPA file needs a refresh token; every token is the member of its name, each by itself.
pub proof fn cpa_tokens_are_the_members(root: JsonView)
    ensures
        ({
            let tokens = cpa_tokens(root);
            &&& !(root is Object) ==> tokens == Err::<TokensView, AuthError>(
                AuthError::InvalidCpaFormat,
            )
            &&& root is Object && root.filled_member("refresh_token"@) is None ==> tokens == Err::<
                TokensView,
                AuthError,
            >(AuthError::MissingRefreshToken)
            &&& root is Object && root.filled_member("refresh_token"@) is Some ==> {
                &&& tokens is Ok
                &&& Some(tokens->Ok_0.refresh_token) == root.text_member("refresh_token"@)
                &&& tokens->Ok_0.id_token == text_or_nothing(root.text_member("id_token"@))
                &&& tokens->Ok_0.access_token == text_or_nothing(root.text_member("access_token"@))
                &&& tokens->Ok_0.account_id == text_or_nothing(root.text_member("account_id"@))
                &&& tokens->Ok_0.last_refresh == text_or_nothing(root.text_member("last_refresh"@))
            }
        }),
        forall|data: Seq<u8>| #[trigger]
            prepared(data, false) == Ok::<Seq<u8>, AuthError>(data),
{
}

/// The owner of an API key is named by both its id and its email.
pub proof fn owners_have_id_and_email(root: JsonView)
    ensures
        me_of(root) is Some == (root.filled_member("id"@) is Some && root.filled_member("email"@)
            is Some),
        me_of(root) matches Some(me) ==> Some(me.0) == root.text_member("id"@) && Some(me.1)
            == root.text_member("email"@),
{
}

/// A document states its version in `schema_version`; in `version` only where the former is missing.
/// Without a version that can be read, an active email makes it version 2, else it is current.
pub proof fn versions_are_read(root: JsonView, n: u64)
    requires
        n <= u32::MAX,
    ensures
        root.member("schema_version"@) == Some(JsonView::Number(Some(n))) ==> schema_version_of(
            root,
        ) == n,
        root.member("schema_version"@) is None && root.member("version"@) == Some(
            JsonView::Number(Some(n)),
        ) ==> schema_version_of(root) == n,
        root.member("schema_version"@) is None && root.member("version"@) is None && root.member(
            "active_email"@,
        ) is Some ==> schema_version_of(root) == 2,
        root.member("schema_version"@) is None && root.member("version"@) is None && root.member(
            "active_email"@,
        ) is None ==> schema_version_of(root) == CURRENT_SCHEMA_VERSION,
        root.member("schema_version"@) is Some && !(root.member("schema_version"@)->0 is Number)
            ==> schema_version_of(root) == if root.member("active_email"@) is Some {
            2u32
        } else {
            CURRENT_SCHEMA_VERSION
        },
{
}

/// Versions 2 to 4 are read, newer and older ones are refused by number; of these only version 2 is
/// read by email.
pub proof fn supported_versions_are_read(root: JsonView)
    requires
        root is Object,
    ensures
        schema_version_of(root) > 4 ==> inspection_of(root) == Err::<InspectionView, SchemaError>(
            SchemaError::TooNew(schema_version_of(root)),
        ),
        schema_version_of(root) < 2 ==> inspection_of(root) == Err::<InspectionView, SchemaError>(
            SchemaError::TooOld(schema_version_of(root)),
        ),
        2 <= schema_version_of(root) <= 4 ==> (inspection_of(root) matches Ok(
            InspectionView::Stored { schema_version, needs_rewrite, legacy },
        ) && schema_version == schema_version_of(root) && needs_rewrite == rewrite_needed(root)
            && legacy is Some == (schema_version == 2)),
        schema_version_of(root) == 4 && root.member("schema_version"@) is Some && root.member(
            "live"@,
        ) is Some && root.member("active_account_activated_at_ms"@) is Some ==> !rewrite_needed(
            root,
        ),
        root.member("live"@) is None ==> rewrite_needed(root),
        root.member("active_account_key"@) is Some && root.member(
            "active_account_activated_at_ms"@,
        ) is None ==> rewrite_needed(root),
        root.member("schema_version"@) is None && root.member("version"@) is Some
            ==> rewrite_needed(root),
{
}

/// Bringing a registry to the current version keeps its accounts, its active account, the switch and
/// the other settings; only thresholds of older versions go back to 1, and an active account without
/// a time gets the beginning of time.
pub proof fn normalizing_keeps_what_was_set(registry: RegistryView, version: u32)
    ensures
        ({
            let after = normalized(registry, version);
            &&& after.schema_version == 4
            &&& after.accounts == registry.accounts
            &&& after.active_account_key == registry.active_account_key
            &&& after.api == registry.api
            &&& after.live == registry.live
            &&& after.auto_switch.enabled == registry.auto_switch.enabled
            &&& version < 4 ==> after.auto_switch.threshold_5h_percent == 1
                && after.auto_switch.threshold_weekly_percent == 1
            &&& version >= 4 ==> after.auto_switch == registry.auto_switch
            &&& registry.active_account_activated_at_ms is Some
                ==> after.active_account_activated_at_ms
                == registry.active_account_activated_at_ms
            &&& registry.active_account_activated_at_ms is None && registry.active_account_key
                is Some ==> after.active_account_activated_at_ms == Some(0i64)
            &&& registry.active_account_activated_at_ms is None && registry.active_account_key
                is None ==> after.active_account_activated_at_ms is None
        }),
{
}

/// Of an account that was known by email, the snapshot says who it is, and the old record what was
/// seen of it; the plan is that of the snapshot where it has one. A snapshot of another email is
/// refused.
pub proof fn migration_joins_record_and_snapshot(legacy: LegacyAccountView, auth: AuthView)
    ensures
        ({
            let r = migrated(legacy, auth);
            let complete = auth.record_key is Some && auth.email is Some && auth.chatgpt_account_id
                is Some && auth.chatgpt_user_id is Some;
            &&& r is Ok == (complete && auth.email == Some(ascii_lower(legacy.email)))
            &&& complete && auth.email != Some(ascii_lower(legacy.email)) ==> r == Err::<
                AccountView,
                MigrationError,
            >(MigrationError::EmailMismatch)
            &&& r is Ok ==> {
                let account = r->Ok_0;
                &&& Some(account.account_key) == auth.record_key
                &&& Some(account.email) == auth.email
                &&& Some(account.chatgpt_account_id) == auth.chatgpt_account_id
                &&& Some(account.chatgpt_user_id) == auth.chatgpt_user_id
                &&& account.auth_mode == Some(auth.auth_mode)
                &&& account.alias == legacy.alias
                &&& account.created_at == legacy.created_at
                &&& account.last_used_at == legacy.last_used_at
                &&& account.last_usage == legacy.last_usage
                &&& account.last_usage_at == legacy.last_usage_at
                &&& account.last_local_rollout is None
                &&& auth.plan is Some ==> account.plan == auth.plan
                &&& auth.plan is None ==> account.plan == legacy.plan
            }
        }),
{
}

/// What an old file says beside its accounts: the active key, the folded active email, and of each
/// account whether it has a key.
pub proof fn old_file_is_read(root: JsonView, items: Seq<JsonView>, i: int)
    ensures
        legacy_base(root).active_account_key == root.filled_member("active_account_key"@),
        root.filled_member("active_email"@) is None ==> legacy_base(root).active_email is None,
        root.filled_member("active_email"@) matches Some(email) ==> legacy_base(root).active_email
            == Some(ascii_lower(email)),
        root.member("accounts"@) == Some(JsonView::Array(items)) ==> legacy_base(
            root,
        ).has_key.len() == items.len(),
        root.member("accounts"@) == Some(JsonView::Array(items)) && 0 <= i < items.len()
            ==> legacy_base(root).has_key[i] == (items[i].member("account_key"@) is Some),
        root.member("accounts"@) is None ==> legacy_base(root).has_key.len() == 0,
{
}

/// Every account of an old file is known in the new registry, and no other.
pub proof fn old_accounts_are_all_known(
    start: RegistryView,
    email: Option<Seq<char>>,
    entries: Seq<LegacyEntryView>,
    key: Seq<char>,
)
    ensures
        has_account(legacy_registry(start, email, entries).accounts, key) == (has_account(
            start.accounts,
            key,
        ) || exists|k: int|
            0 <= k < entries.len() && (#[trigger] entries[k]).record.account_key == key),
        same_settings(legacy_registry(start, email, entries), start),
    decreases entries.len(),
{
    if entries.len() > 0 {
        let rest = entries.drop_last();
        old_accounts_are_all_known(start, email, rest, key);
        let before = legacy_registry(start, email, rest);
        let last = entries.last();
        upsert_adds_key(before.accounts, last.record, key);
        assert(entries[entries.len() - 1] == last);
        if exists|k: int| 0 <= k < entries.len() && (#[trigger] entries[k]).record.account_key
            == key {
            let k = choose|k: int|
                0 <= k < entries.len() && (#[trigger] entries[k]).record.account_key == key;
            if k < rest.len() {
                assert(rest[k].record.account_key == key);
            }
        }
        if exists|k: int| 0 <= k < rest.len() && (#[trigger] rest[k]).record.account_key == key {
            let k = choose|k: int|
                0 <= k < rest.len() && (#[trigger] rest[k]).record.account_key == key;
            assert(entries[k].record.account_key == key);
        }
    }
}

/// The registry of an old file starts with the settings that were read, and its active key.
pub proof fn old_registry_starts_with_settings(
    base: LegacyBaseView,
    auto_switch: crate::model::AutoSwitchConfig,
    api: crate::model::ApiConfig,
    live: crate::model::LiveConfig,
)
    ensures
        ({
            let start = legacy_start(base, auto_switch, api, live);
            &&& start.auto_switch == auto_switch
            &&& start.api == api
            &&& start.live == live
            &&& start.schema_version == 4
            &&& start.accounts.len() == 0
            &&& start.active_account_key == base.active_account_key
        }),
{
}

/// A file of an account enters the registry under the alias of the import and the report under the
/// email: as imported where the account was unknown, as updated where it was known. A file without
/// an account, or of one without a key, enters nothing but the report, as skipped, under its path.
pub proof fn import_puts_accounts_in(
    state: ImportState,
    file: Seq<char>,
    account: AccountView,
    alias: Seq<char>,
)
    ensures
        account.account_key.len() > 0 ==> {
            let after = after_import(state, file, Some(account), Some(alias));
            let known = has_account(state.registry.accounts, account.account_key);
            let item = after.report.items.last();
            &&& after.registry.accounts == upserted(
                state.registry.accounts,
                AccountView { alias, ..account },
            )
            &&& same_settings(after.registry, state.registry)
            &&& after.registry.active_account_key == state.registry.active_account_key
            &&& after.report.items.len() == state.report.items.len() + 1
            &&& item.0 == account.email
            &&& known ==> item.1 == ImportOutcome::Updated && after.report.updated
                == state.report.updated + 1 && after.report.imported == state.report.imported
            &&& !known ==> item.1 == ImportOutcome::Imported && after.report.imported
                == state.report.imported + 1 && after.report.updated == state.report.updated
            &&& after.report.skipped == state.report.skipped
        },
        account.account_key.len() > 0 ==> after_import(
            state,
            file,
            Some(account),
            None,
        ).registry.accounts == upserted(
            state.registry.accounts,
            AccountView { alias: Seq::empty(), ..account },
        ),
        account.account_key.len() == 0 ==> is_skipped(
            state,
            file,
            after_import(state, file, Some(account), Some(alias)),
        ),
        is_skipped(state, file, after_import(state, file, None, Some(alias))),
        is_skipped(state, file, after_purge(state, file, None, Some(alias))),
        ({
            let after = after_purge(state, file, Some(account), Some(alias));
            let item = after.report.items.last();
            &&& after.registry.accounts == upserted(
                state.registry.accounts,
                AccountView { alias, ..account },
            )
            &&& item.0 == account.email
            &&& item.1 == ImportOutcome::Imported
            &&& after.report.imported == state.report.imported + 1
            &&& after.report.items.len() == state.report.items.len() + 1
        }),
{
}

/// Nothing but the report changed: one more file was skipped.
pub open spec fn is_skipped(state: ImportState, file: Seq<char>, after: ImportState) -> bool {
    &&& after.registry == state.registry
    &&& after.report.items == state.report.items.push((file, ImportOutcome::Skipped))
    &&& after.report.skipped == state.report.skipped + 1
    &&& after.report.imported == state.report.imported
    &&& after.report.updated == state.report.updated
}

/// A rebuild makes the account of the active auth file active, since the beginning of time, and
/// changes nothing else by that.
pub proof fn rebuilt_registry_has_its_active_account(registry: RegistryView, key: Seq<char>)
    ensures
        active_from_start(registry, key).active_account_key == Some(key),
        active_from_start(registry, key).active_account_activated_at_ms == Some(0i64),
        active_from_start(registry, key).accounts == registry.accounts,
        same_settings(active_from_start(registry, key), registry),
{
}

/// A file to import is skipped where it cannot be read or is not that of an account; one with an API
/// key waits for its owner, and any other is that of the account that it names.
pub proof fn import_sources(
    auth: Result<AuthView, AuthError>,
    alias: Seq<char>,
    now: i64,
    source: ImportSource,
)
    requires
        source_of(auth, alias, now, source),
    ensures
        auth is Err ==> source is Skip,
        auth matches Ok(info) ==> info.auth_mode == AuthMode::Chatgpt ==> {
            &&& source is Account == account_of_auth(alias, info, now) is Ok
            &&& source matches ImportSource::Account(record) ==> account_of_auth(alias, info, now)
                == Ok::<AccountView, AccountError>(record@)
            &&& source is Account || source is Skip
        },
        auth matches Ok(info) ==> info.auth_mode == AuthMode::Apikey ==> {
            &&& source is FetchMe == info.openai_api_key is Some
            &&& source is FetchMe || source is Skip
        },
{
}

/// An active auth file that cannot be read, or is not that of an account, is an error as long as the
/// registry is empty, and is passed over later.
pub proof fn sync_sources(
    auth: Result<AuthView, AuthError>,
    empty: bool,
    now: i64,
    source: SyncSource,
)
    requires
        sync_source_of(auth, empty, now, source),
    ensures
        !empty ==> !(source is Malformed) && !(source is Unidentified),
        empty ==> !(source is Nothing),
        auth is Err ==> source is Malformed || source is Nothing,
        source matches SyncSource::Malformed(error) ==> auth == Err::<AuthView, AuthError>(error),
        source matches SyncSource::Account(record) ==> auth is Ok && auth->Ok_0.record_key
            == Some(record@.account_key) && record@.alias.len() == 0,
        auth matches Ok(info) ==> info.auth_mode == AuthMode::Chatgpt && info.record_key is Some
            && info.email is Some && info.chatgpt_account_id is Some && info.chatgpt_user_id
            is Some ==> source is Account,
{
}

/// The snapshot is stored where the account is unknown or its snapshot holds other bytes. There is a
/// change where that is so, where another account was active, or where the auth file says something
/// new of email, plan, way of signing in or name.
pub proof fn sync_notices_every_change(
    registry: RegistryView,
    record: AccountView,
    current: bool,
    i: int,
)
    requires
        0 <= i < registry.accounts.len(),
        crate::model::first_at(registry.accounts, record.account_key, i),
    ensures
        ({
            let plan = sync_plan(registry, record, current);
            let known = registry.accounts[i];
            &&& plan.known
            &&& plan.write_snapshot == !current
            &&& plan.changed == (!current || registry.active_account_key != Some(
                record.account_key,
            ) || known.email != record.email || known.plan != record.plan || known.auth_mode
                != record.auth_mode || (record.account_name is Some && known.account_name
                != record.account_name))
            &&& fields_synced(registry, record).accounts[i].email == record.email
            &&& fields_synced(registry, record).accounts.len() == registry.accounts.len()
            &&& same_settings(fields_synced(registry, record), registry)
        }),
        forall|j: int|
            0 <= j < registry.accounts.len() && j != i ==> #[trigger] fields_synced(
                registry,
                record,
            ).accounts[j] == registry.accounts[j],
{
    let key = record.account_key;
    crate::model::first_is_position(registry.accounts, key, i);
    assert(has_account(registry.accounts, key)) by {
        assert(registry.accounts[i].account_key == key);
    }
    let after = fields_synced(registry, record);
    let known = registry.accounts[i];
    if crate::registry::synced(known, record) != known {
        assert(after.accounts[i] != registry.accounts[i]);
    } else {
        assert(after.accounts =~= registry.accounts);
    }
}

/// An account that the registry does not know is stored, adopted and a change.
pub proof fn sync_adopts_unknown_accounts(
    registry: RegistryView,
    record: AccountView,
    current: bool,
    now: i64,
)
    requires
        !has_account(registry.accounts, record.account_key),
    ensures
        sync_plan(registry, record, current).write_snapshot,
        sync_plan(registry, record, current).changed,
        !sync_plan(registry, record, current).known,
        fields_synced(registry, record) == registry,
        sync_finished(registry, record, false, now).accounts == registry.accounts.push(record),
        sync_finished(registry, record, false, now).active_account_key == Some(
            record.account_key,
        ),
        sync_finished(registry, record, true, now).accounts == registry.accounts,
        sync_finished(registry, record, true, now).active_account_key == Some(record.account_key),
{
}

/// Names are asked for where that is allowed and the auth file has a token, an account and a user;
/// they go to the accounts of the user alone.
pub proof fn names_go_to_the_user(
    registry: RegistryView,
    auth: AuthView,
    user: Seq<char>,
    entries: Seq<(Seq<char>, Option<Seq<char>>)>,
    i: int,
)
    requires
        0 <= i < registry.accounts.len(),
    ensures
        names_are_asked(registry, auth) == (registry.api.account && auth.access_token is Some
            && auth.chatgpt_account_id is Some && auth.chatgpt_user_id is Some),
        registry.accounts[i].chatgpt_user_id != user ==> named(registry, user, entries).accounts[i]
            == registry.accounts[i],
        named(registry, user, entries).accounts.len() == registry.accounts.len(),
        named(registry, user, entries).accounts[i].account_key == registry.accounts[i].account_key,
        same_settings(named(registry, user, entries), registry),
        named(registry, user, entries).active_account_key == registry.active_account_key,
{
}

/// A file is what it says by itself, or what the claims in the payload of its identity token make of
/// it; claims that cannot be read make it an error, and a file that is no document is one.
pub proof fn files_are_read_with_their_claims<F: Fn(Vec<u8>) -> Option<JwtClaims>>(
    data: Seq<u8>,
    root: JsonView,
    read_claims: F,
    r: Result<AuthView, AuthError>,
    payload: Seq<u8>,
    claims: Option<ClaimsView>,
)
    requires
        auth_data_outcome(data, read_claims, r),
        forall|bytes: Vec<u8>, read: Option<JwtClaims>| #[trigger]
            read_claims.ensures((bytes,), read) && bytes@ == payload ==> option_claims_view(read)
                == claims,
    ensures
        document_of(data) is None ==> r == Err::<AuthView, AuthError>(AuthError::InvalidJson),
        document_of(data) == Some(root) ==> {
            &&& auth_step(root) matches AuthStepView::Done(done) ==> r == done
            &&& auth_step(root) == AuthStepView::ReadClaims(payload) ==> {
                &&& claims is None ==> r == Err::<AuthView, AuthError>(AuthError::InvalidClaims)
                &&& claims is Some ==> r == Ok::<AuthView, AuthError>(
                    claimed_auth(root, claims->0),
                )
            }
        },
{
}

/// A registry file of a version that is not supported is refused, one that is no document too, and
/// one that is no object is empty. An old one is handed back to be taken over.
pub proof fn registry_files_are_loaded<F: Fn(&[u8], u32) -> Option<Registry>>(
    data: &[u8],
    root: JsonView,
    read_registry: F,
    r: Result<LoadedView, SchemaError>,
)
    requires
        load_outcome(data, read_registry, r),
    ensures
        document_of(data@) is None ==> r == Err::<LoadedView, SchemaError>(
            SchemaError::InvalidJson,
        ),
        document_of(data@) == Some(root) ==> {
            let version = schema_version_of(root);
            &&& !(root is Object) ==> (r matches Ok(LoadedView::Registry {
                registry,
                needs_rewrite,
            }) && registry.accounts.len() == 0 && !needs_rewrite)
            &&& root is Object && version > 4 ==> r == Err::<LoadedView, SchemaError>(
                SchemaError::TooNew(version),
            )
            &&& root is Object && version < 2 ==> r == Err::<LoadedView, SchemaError>(
                SchemaError::TooOld(version),
            )
            &&& root is Object && version == 2 ==> (r matches Ok(LoadedView::Legacy {
                base,
                schema_version,
                needs_rewrite,
            }) && base == legacy_base(root) && schema_version == 2 && needs_rewrite)
            &&& root is Object && (version == 3 || version == 4) && r is Ok ==> (r matches Ok(
                LoadedView::Registry { registry, needs_rewrite },
            ) && needs_rewrite == rewrite_needed(root) && registry.schema_version == 4)
        },
{
}

}
