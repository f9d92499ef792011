//! Reading registries of every supported schema version.

use vstd::prelude::*;

use crate::auth::{AuthInfo, AuthView};
use crate::import::active_from_start;
use crate::json::{document_of, parse, Json, JsonView};
use crate::laws::{distinct_keys, upsert_keeps_keys_distinct};
use crate::model::{
    copy_snapshot, empty_registry, option_snapshot_view, AccountRecord, AccountView, ApiConfig,
    AutoSwitchConfig, LiveConfig, PlanType, RateLimitSnapshot, Registry, RegistryView, SnapshotView,
    CURRENT_SCHEMA_VERSION, DEFAULT_AUTO_SWITCH_THRESHOLD_5H_PERCENT,
    DEFAULT_AUTO_SWITCH_THRESHOLD_WEEKLY_PERCENT, MIN_SUPPORTED_SCHEMA_VERSION,
};
use crate::paths::{
    account_file_name, is_snapshot_candidate, legacy_file_name, legacy_snapshot_name,
    snapshot_candidate, snapshot_name,
};
use crate::registry::{
    account_error_text, account_from_auth_at, account_of_auth, activated, adopted, upsert_account,
    with_account, with_active, without_accounts, AccountError,
};
use crate::sync::fields_synced;
use crate::text::{
    ascii_lower, concat, decimal, decimal_of, option_view, same, to_lower,
};

verus! {

/// Why a registry file was refused.
#[derive(Debug, Clone, Copy, PartialEq, Eq, Structural)]
pub enum SchemaError {
    InvalidJson,
    TooNew(u32),
    TooOld(u32),
}

/// The message of an error.
pub open spec fn schema_error_text(error: SchemaError) -> Seq<char> {
    match error {
        SchemaError::InvalidJson => "invalid registry json"@,
        SchemaError::TooNew(version) => "registry schema_version "@ + decimal(version as nat)
            + " is newer than this codex-auth binary supports (max "@ + decimal(
            CURRENT_SCHEMA_VERSION as nat,
        ) + "); upgrade codex-auth"@,
        SchemaError::TooOld(version) => "registry schema_version "@ + decimal(version as nat)
            + " is older than the minimum supported "@ + decimal(
            MIN_SUPPORTED_SCHEMA_VERSION as nat,
        ) + "; use an intermediate codex-auth release or import --purge"@,
    }
}

impl SchemaError {
    /// The message for the user.
    pub fn message(self) -> (r: String)
        ensures
            r@ == schema_error_text(self),
    {
        match self {
            SchemaError::InvalidJson => "invalid registry json".to_owned(),
            SchemaError::TooNew(version) => {
                let mut r = concat(
                    "registry schema_version ",
                    decimal_of(version as u128).as_str(),
                );
                r.append(" is newer than this codex-auth binary supports (max ");
                r.append(decimal_of(CURRENT_SCHEMA_VERSION as u128).as_str());
                r.append("); upgrade codex-auth");
                r
            },
            SchemaError::TooOld(version) => {
                let mut r = concat(
                    "registry schema_version ",
                    decimal_of(version as u128).as_str(),
                );
                r.append(" is older than the minimum supported ");
                r.append(decimal_of(MIN_SUPPORTED_SCHEMA_VERSION as u128).as_str());
                r.append("; use an intermediate codex-auth release or import --purge");
                r
            },
        }
    }
}

/// The version that a document states in so many words: `schema_version`, or `version` where that
/// is not there at all.
pub open spec fn stated_version(root: JsonView) -> Option<u64> {
    let value = match root.member("schema_version"@) {
        Some(value) => Some(value),
        None => root.member("version"@),
    };
    match value {
        Some(JsonView::Number(n)) => n,
        _ => None,
    }
}

/// The version of a document: the stated one, else that of the fields that it has.
pub open spec fn schema_version_of(root: JsonView) -> u32 {
    match stated_version(root) {
        Some(n) if n <= u32::MAX => n as u32,
        _ => if root.member("active_email"@) is Some {
            2
        } else {
            CURRENT_SCHEMA_VERSION
        },
    }
}

/// The version of a document.
pub fn detect_schema_version(root: &Json) -> (version: u32)
    ensures
        version == schema_version_of(root@),
{
    let value = match root.get("schema_version") {
        Some(value) => Some(value),
        None => root.get("version"),
    };
    let stated = match value {
        Some(value) => value.as_u64(),
        None => None,
    };
    match stated {
        Some(n) if n <= u32::MAX as u64 => n as u32,
        _ => if root.get("active_email").is_some() {
            2
        } else {
            CURRENT_SCHEMA_VERSION
        },
    }
}

/// The file is to be written anew once it was read.
pub open spec fn rewrite_needed(root: JsonView) -> bool {
    ||| schema_version_of(root) < CURRENT_SCHEMA_VERSION
    ||| root.member("schema_version"@) is None && root.member("version"@) is Some
    ||| root.member("live"@) is None
    ||| root.member("active_account_key"@) is Some && root.member(
        "active_account_activated_at_ms"@,
    ) is None
}

fn needs_rewrite(root: &Json) -> (r: bool)
    ensures
        r == rewrite_needed(root@),
{
    detect_schema_version(root) < CURRENT_SCHEMA_VERSION || (root.get("schema_version").is_none()
        && root.get("version").is_some()) || root.get("live").is_none() || (root.get(
        "active_account_key",
    ).is_some() && root.get("active_account_activated_at_ms").is_none())
}

/// What the accounts of a version 2 registry are joined to.
#[derive(Debug)]
pub struct LegacyBase {
    pub active_account_key: Option<String>,
    /// The email of the active account, folded, where the file names the account by email.
    pub active_email: Option<String>,
    /// For each account, whether it is a record with a key; the others are known by email alone.
    pub has_key: Vec<bool>,
}

/// The model of [`LegacyBase`].
#[verifier::ext_equal]
pub struct LegacyBaseView {
    pub active_account_key: Option<Seq<char>>,
    pub active_email: Option<Seq<char>>,
    pub has_key: Seq<bool>,
}

impl View for LegacyBase {
    type V = LegacyBaseView;

    open spec fn view(&self) -> LegacyBaseView {
        LegacyBaseView {
            active_account_key: option_view(self.active_account_key),
            active_email: option_view(self.active_email),
            has_key: self.has_key@,
        }
    }
}

/// What a version 2 document says beside its accounts and settings.
pub open spec fn legacy_base(root: JsonView) -> LegacyBaseView {
    LegacyBaseView {
        active_account_key: root.filled_member("active_account_key"@),
        active_email: match root.filled_member("active_email"@) {
            Some(email) => Some(ascii_lower(email)),
            None => None,
        },
        has_key: match root.member("accounts"@) {
            Some(JsonView::Array(items)) => items.map_values(
                |item: JsonView| item.member("account_key"@) is Some,
            ),
            _ => Seq::empty(),
        },
    }
}

fn items_with_key(items: &Vec<Json>) -> (r: Vec<bool>)
    ensures
        r@.len() == items@.len(),
        forall|k: int|
            0 <= k < items@.len() ==> #[trigger] r@[k] == (items@[k]@.member("account_key"@)
                is Some),
{
    let mut r: Vec<bool> = Vec::new();
    let mut i: usize = 0;
    while i < items.len()
        invariant
            i <= items.len(),
            r@.len() == i,
            forall|k: int|
                0 <= k < i ==> #[trigger] r@[k] == (items@[k]@.member("account_key"@) is Some),
        decreases items.len() - i,
    {
        r.push(items[i].get("account_key").is_some());
        i = i + 1;
    }
    r
}

/// What a version 2 document says beside its accounts and settings.
pub fn read_legacy_base(root: &Json) -> (r: LegacyBase)
    ensures
        r@ == legacy_base(root@),
{
    let active_account_key = match root.filled_member("active_account_key") {
        Some(key) => Some(key.to_owned()),
        None => None,
    };
    let active_email = match root.filled_member("active_email") {
        Some(email) => Some(to_lower(email)),
        None => None,
    };
    let has_key = match root.get("accounts") {
        Some(Json::Array(items)) => items_with_key(items),
        _ => Vec::new(),
    };
    let r = LegacyBase { active_account_key, active_email, has_key };
    assert(r@.has_key =~= legacy_base(root@).has_key);
    r
}

/// What a registry file turns out to be.
#[derive(Debug)]
pub enum Inspection {
    /// A document that says nothing: the registry is empty.
    Empty,
    /// A registry of the given version.
    Stored {
        schema_version: u32,
        /// Whether the file is written anew once it was read.
        needs_rewrite: bool,
        /// What the accounts are joined to, where the registry is of the time when accounts were
        /// known by email.
        legacy: Option<LegacyBase>,
    },
}

/// The model of [`Inspection`].
pub enum InspectionView {
    Empty,
    Stored { schema_version: u32, needs_rewrite: bool, legacy: Option<LegacyBaseView> },
}

impl View for Inspection {
    type V = InspectionView;

    open spec fn view(&self) -> InspectionView {
        match *self {
            Inspection::Empty => InspectionView::Empty,
            Inspection::Stored { schema_version, needs_rewrite, legacy } => InspectionView::Stored {
                schema_version,
                needs_rewrite,
                legacy: match legacy {
                    Some(base) => Some(base@),
                    None => None,
                },
            },
        }
    }
}

/// What a document turns out to be as a registry.
pub open spec fn inspection_of(root: JsonView) -> Result<InspectionView, SchemaError> {
    let version = schema_version_of(root);
    if !(root is Object) {
        Ok(InspectionView::Empty)
    } else if version > CURRENT_SCHEMA_VERSION {
        Err(SchemaError::TooNew(version))
    } else if version < MIN_SUPPORTED_SCHEMA_VERSION {
        Err(SchemaError::TooOld(version))
    } else {
        Ok(
            InspectionView::Stored {
                schema_version: version,
                needs_rewrite: rewrite_needed(root),
                legacy: if version == 2 {
                    Some(legacy_base(root))
                } else {
                    None
                },
            },
        )
    }
}

/// The model of a result.
pub open spec fn inspection_view(r: Result<Inspection, SchemaError>) -> Result<
    InspectionView,
    SchemaError,
> {
    match r {
        Ok(inspection) => Ok(inspection@),
        Err(error) => Err(error),
    }
}

/// What a document turns out to be as a registry.
pub fn inspect_document(root: &Json) -> (r: Result<Inspection, SchemaError>)
    ensures
        inspection_view(r) == inspection_of(root@),
{
    if !root.is_object() {
        return Ok(Inspection::Empty);
    }
    let version = detect_schema_version(root);
    if version > CURRENT_SCHEMA_VERSION {
        return Err(SchemaError::TooNew(version));
    }
    if version < MIN_SUPPORTED_SCHEMA_VERSION {
        return Err(SchemaError::TooOld(version));
    }
    let legacy = if version == 2 {
        Some(read_legacy_base(root))
    } else {
        None
    };
    Ok(
        Inspection::Stored {
            schema_version: version,
            needs_rewrite: needs_rewrite(root),
            legacy,
        },
    )
}

/// What the bytes of a registry file turn out to be.
pub fn inspect_registry(data: &[u8]) -> (r: Result<Inspection, SchemaError>)
    ensures
        inspection_view(r) == match document_of(data@) {
            Some(root) => inspection_of(root),
            None => Err::<InspectionView, SchemaError>(SchemaError::InvalidJson),
        },
{
    match parse(data) {
        Some(root) => inspect_document(&root),
        None => Err(SchemaError::InvalidJson),
    }
}

/// A registry of the given version, brought to the current one.
pub open spec fn normalized(registry: RegistryView, schema_version: u32) -> RegistryView {
    RegistryView {
        schema_version: CURRENT_SCHEMA_VERSION,
        auto_switch: if schema_version < CURRENT_SCHEMA_VERSION {
            AutoSwitchConfig {
                enabled: registry.auto_switch.enabled,
                threshold_5h_percent: DEFAULT_AUTO_SWITCH_THRESHOLD_5H_PERCENT,
                threshold_weekly_percent: DEFAULT_AUTO_SWITCH_THRESHOLD_WEEKLY_PERCENT,
            }
        } else {
            registry.auto_switch
        },
        active_account_activated_at_ms: match (
            registry.active_account_key,
            registry.active_account_activated_at_ms,
        ) {
            (Some(_), None) => Some(0),
            (_, at) => at,
        },
        ..registry
    }
}

/// Brings a registry of the given version to the current one.
pub fn normalize_registry(registry: &mut Registry, schema_version: u32)
    ensures
        final(registry)@ == normalized(old(registry)@, schema_version),
{
    registry.schema_version = CURRENT_SCHEMA_VERSION;
    if schema_version < CURRENT_SCHEMA_VERSION {
        registry.auto_switch.threshold_5h_percent = DEFAULT_AUTO_SWITCH_THRESHOLD_5H_PERCENT;
        registry.auto_switch.threshold_weekly_percent =
        DEFAULT_AUTO_SWITCH_THRESHOLD_WEEKLY_PERCENT;
    }
    if registry.active_account_key.is_some()
        && registry.active_account_activated_at_ms.is_none() {
        registry.active_account_activated_at_ms = Some(0);
    }
}

/// What a registry file is loaded as.
#[derive(Debug)]
pub enum Loaded {
    /// This registry; the file is to be written anew or not.
    Registry { registry: Registry, needs_rewrite: bool },
    /// A registry of the time when accounts were known by email: the accounts have to be taken over
    /// first, by [`load_legacy_v2_registry`] and [`normalize_registry`].
    Legacy { base: LegacyBase, schema_version: u32, needs_rewrite: bool },
}

/// The model of [`Loaded`].
pub enum LoadedView {
    Registry { registry: RegistryView, needs_rewrite: bool },
    Legacy { base: LegacyBaseView, schema_version: u32, needs_rewrite: bool },
}

impl View for Loaded {
    type V = LoadedView;

    open spec fn view(&self) -> LoadedView {
        match *self {
            Loaded::Registry { registry, needs_rewrite } => LoadedView::Registry {
                registry: registry@,
                needs_rewrite,
            },
            Loaded::Legacy { base, schema_version, needs_rewrite } => LoadedView::Legacy {
                base: base@,
                schema_version,
                needs_rewrite,
            },
        }
    }
}

/// The model of a result.
pub open spec fn loaded_view(r: Result<Loaded, SchemaError>) -> Result<LoadedView, SchemaError> {
    match r {
        Ok(loaded) => Ok(loaded@),
        Err(error) => Err(error),
    }
}

/// A file in which a registry of the given version was read, or none.
pub open spec fn loaded_as(
    read: Option<Registry>,
    schema_version: u32,
    needs_rewrite: bool,
) -> Result<LoadedView, SchemaError> {
    match read {
        Some(registry) => Ok(
            LoadedView::Registry {
                registry: normalized(registry@, schema_version),
                needs_rewrite,
            },
        ),
        None => Err(SchemaError::InvalidJson),
    }
}

/// `r` is what a registry file is loaded as, where `read_registry` reads the bytes of a registry of
/// a given version.
pub open spec fn load_outcome<F: Fn(&[u8], u32) -> Option<Registry>>(
    data: &[u8],
    read_registry: F,
    r: Result<LoadedView, SchemaError>,
) -> bool {
    match document_of(data@) {
        None => r == Err::<LoadedView, SchemaError>(SchemaError::InvalidJson),
        Some(root) => match inspection_of(root) {
            Err(error) => r == Err::<LoadedView, SchemaError>(error),
            Ok(InspectionView::Empty) => r == Ok::<LoadedView, SchemaError>(
                LoadedView::Registry { registry: empty_registry(), needs_rewrite: false },
            ),
            Ok(InspectionView::Stored { schema_version, needs_rewrite, legacy }) => match legacy {
                Some(base) => r == Ok::<LoadedView, SchemaError>(
                    LoadedView::Legacy { base, schema_version, needs_rewrite },
                ),
                None => exists|read: Option<Registry>|
                    #[trigger] read_registry.ensures((data, schema_version), read) && r
                        == loaded_as(read, schema_version, needs_rewrite),
            },
        },
    }
}

/// Loads a registry file, where it is there. `read_registry` reads the bytes of a registry of a
/// given version, whatever version they state, or nothing where they have another shape.
pub fn load_registry<F: Fn(&[u8], u32) -> Option<Registry>>(
    data: Option<&[u8]>,
    read_registry: F,
) -> (r: Result<Loaded, SchemaError>)
    requires
        forall|data: &[u8], version: u32| #[trigger] read_registry.requires((data, version)),
    ensures
        match data {
            Some(data) => load_outcome(data, read_registry, loaded_view(r)),
            None => loaded_view(r) == Ok::<LoadedView, SchemaError>(
                LoadedView::Registry { registry: empty_registry(), needs_rewrite: false },
            ),
        },
{
    let data = match data {
        Some(data) => data,
        None => {
            return Ok(Loaded::Registry { registry: Registry::default(), needs_rewrite: false });
        },
    };
    match inspect_registry(data) {
        Err(error) => Err(error),
        Ok(Inspection::Empty) => Ok(
            Loaded::Registry { registry: Registry::default(), needs_rewrite: false },
        ),
        Ok(Inspection::Stored { schema_version, needs_rewrite, legacy }) => match legacy {
            Some(base) => Ok(Loaded::Legacy { base, schema_version, needs_rewrite }),
            None => {
                let read = read_registry(data, schema_version);
                match read {
                    Some(registry) => {
                        let mut registry = registry;
                        normalize_registry(&mut registry, schema_version);
                        Ok(Loaded::Registry { registry, needs_rewrite })
                    },
                    None => Err(SchemaError::InvalidJson),
                }
            },
        },
    }
}

/// A registry as it is saved: of the current version, with the time of activation beside the active
/// account.
pub open spec fn is_current(registry: RegistryView) -> bool {
    &&& registry.schema_version == CURRENT_SCHEMA_VERSION
    &&& registry.active_account_key is Some ==> registry.active_account_activated_at_ms is Some
}

/// The empty registry, every registry that was brought to the current version, and whatever is then
/// made of one by putting accounts in, making one active, signing in with one, syncing, rebuilding or
/// removing is as it is saved.
pub proof fn registries_stay_current(
    registry: RegistryView,
    schema_version: u32,
    record: AccountView,
    key: Seq<char>,
    keys: Seq<Seq<char>>,
    now: i64,
)
    ensures
        is_current(empty_registry()),
        is_current(normalized(registry, schema_version)),
        is_current(registry) ==> {
            &&& is_current(with_account(registry, record))
            &&& is_current(with_active(registry, key, now))
            &&& is_current(activated(registry, key, now))
            &&& is_current(adopted(registry, record, now))
            &&& is_current(fields_synced(registry, record))
            &&& is_current(active_from_start(registry, key))
            &&& is_current(without_accounts(registry, keys))
        },
{
}

/// A document as it is saved: it states the current version, and has a `live` section and a time of
/// activation, if only an empty one.
pub open spec fn is_saved_document(root: JsonView) -> bool {
    &&& root is Object
    &&& root.member("schema_version"@) == Some(
        JsonView::Number(Some(CURRENT_SCHEMA_VERSION as u64)),
    )
    &&& root.member("live"@) is Some
    &&& root.member("active_account_activated_at_ms"@) is Some
}

/// A saved registry is loaded as it was, and not written anew: in the bytes of a saved document, in
/// which nothing but that registry can be read, it is what they are loaded as.
pub proof fn saved_registry_is_loaded<F: Fn(&[u8], u32) -> Option<Registry>>(
    registry: RegistryView,
    data: &[u8],
    read_registry: F,
    r: Result<LoadedView, SchemaError>,
)
    requires
        is_current(registry),
        document_of(data@) matches Some(root) && is_saved_document(root),
        forall|read: Option<Registry>| #[trigger]
            read_registry.ensures((data, CURRENT_SCHEMA_VERSION), read) ==> read is Some
                && read->0@ == registry,
        load_outcome(data, read_registry, r),
    ensures
        r == Ok::<LoadedView, SchemaError>(
            LoadedView::Registry { registry, needs_rewrite: false },
        ),
{
}

/// A registry that was brought to the current version stays as it is when it is read again.
pub proof fn normalized_once(registry: RegistryView, schema_version: u32)
    ensures
        normalized(normalized(registry, schema_version), CURRENT_SCHEMA_VERSION) == normalized(
            registry,
            schema_version,
        ),
        normalized(registry, schema_version).accounts == registry.accounts,
        normalized(registry, schema_version).active_account_key == registry.active_account_key,
{
}

/// A document that states the current version, has its `live` section, and has the time of
/// activation beside the active account, is read without being written anew.
pub proof fn current_document_is_not_rewritten(root: JsonView)
    requires
        root is Object,
        root.member("schema_version"@) == Some(
            JsonView::Number(Some(CURRENT_SCHEMA_VERSION as u64)),
        ),
        root.member("live"@) is Some,
        root.member("active_account_key"@) is Some ==> root.member(
            "active_account_activated_at_ms"@,
        ) is Some,
    ensures
        inspection_of(root) == Ok::<InspectionView, SchemaError>(
            InspectionView::Stored {
                schema_version: CURRENT_SCHEMA_VERSION,
                needs_rewrite: false,
                legacy: None,
            },
        ),
{
}

/// Whatever its version, a registry of an older one is written anew.
pub proof fn older_document_is_rewritten(root: JsonView)
    requires
        schema_version_of(root) < CURRENT_SCHEMA_VERSION,
    ensures
        rewrite_needed(root),
{
}

/// An account of the time when accounts were known by email.
#[derive(Debug)]
pub struct LegacyAccountRecord {
    pub email: String,
    pub alias: String,
    pub plan: Option<PlanType>,
    pub created_at: i64,
    pub last_used_at: Option<i64>,
    pub last_usage: Option<RateLimitSnapshot>,
    pub last_usage_at: Option<i64>,
}

/// The model of [`LegacyAccountRecord`].
#[verifier::ext_equal]
pub struct LegacyAccountView {
    pub email: Seq<char>,
    pub alias: Seq<char>,
    pub plan: Option<PlanType>,
    pub created_at: i64,
    pub last_used_at: Option<i64>,
    pub last_usage: Option<SnapshotView>,
    pub last_usage_at: Option<i64>,
}

impl View for LegacyAccountRecord {
    type V = LegacyAccountView;

    open spec fn view(&self) -> LegacyAccountView {
        LegacyAccountView {
            email: self.email@,
            alias: self.alias@,
            plan: self.plan,
            created_at: self.created_at,
            last_used_at: self.last_used_at,
            last_usage: option_snapshot_view(self.last_usage),
            last_usage_at: self.last_usage_at,
        }
    }
}

/// Why an account of the old kind could not be taken over.
#[derive(Debug, Clone, Copy, PartialEq, Eq, Structural)]
pub enum MigrationError {
    /// Its snapshot is not that of an account.
    Account(AccountError),
    /// Its snapshot is that of another email.
    EmailMismatch,
}

/// The message of an error.
pub open spec fn migration_error_text(error: MigrationError) -> Seq<char> {
    match error {
        MigrationError::Account(error) => account_error_text(error),
        MigrationError::EmailMismatch => "legacy account email mismatch"@,
    }
}

impl MigrationError {
    /// The message for the user.
    pub fn message(self) -> (s: &'static str)
        ensures
            s@ == migration_error_text(self),
    {
        match self {
            MigrationError::Account(error) => error.message(),
            MigrationError::EmailMismatch => "legacy account email mismatch",
        }
    }
}

/// The account that an old record becomes, with the snapshot that says `auth`: who it is comes from
/// the snapshot, what was seen of it from the record.
pub open spec fn migrated(legacy: LegacyAccountView, auth: AuthView) -> Result<
    AccountView,
    MigrationError,
> {
    match account_of_auth(legacy.alias, auth, legacy.created_at) {
        Err(error) => Err(MigrationError::Account(error)),
        Ok(account) => if account.email != ascii_lower(legacy.email) {
            Err(MigrationError::EmailMismatch)
        } else {
            Ok(
                AccountView {
                    plan: match auth.plan {
                        Some(plan) => Some(plan),
                        None => legacy.plan,
                    },
                    last_used_at: legacy.last_used_at,
                    last_usage: legacy.last_usage,
                    last_usage_at: legacy.last_usage_at,
                    ..account
                },
            )
        },
    }
}

/// The account that an old record becomes.
pub fn migrate_legacy_account(legacy: &LegacyAccountRecord, info: &AuthInfo) -> (r: Result<
    AccountRecord,
    MigrationError,
>)
    ensures
        match r {
            Ok(record) => migrated(legacy@, info@) == Ok::<AccountView, MigrationError>(record@),
            Err(error) => migrated(legacy@, info@) == Err::<AccountView, MigrationError>(error),
        },
{
    let email = to_lower(legacy.email.as_str());
    let account = match account_from_auth_at(legacy.alias.as_str(), info, legacy.created_at) {
        Ok(account) => account,
        Err(error) => {
            return Err(MigrationError::Account(error));
        },
    };
    if account.email != email {
        return Err(MigrationError::EmailMismatch);
    }
    Ok(
        AccountRecord {
            plan: match info.plan {
                Some(plan) => Some(plan),
                None => legacy.plan,
            },
            last_used_at: legacy.last_used_at,
            last_usage: copy_snapshot(&legacy.last_usage),
            last_usage_at: legacy.last_usage_at,
            ..account
        },
    )
}

/// Where the snapshot of an old account was found.
#[derive(Debug, Clone, Copy, PartialEq, Eq, Structural)]
pub enum LegacySnapshot {
    /// Under the name of its email.
    ByEmail,
    /// It is this file of the accounts directory.
    File(usize),
    /// It is the active auth file.
    Active,
}

/// A file of the accounts directory, with what it says where it is an auth file.
#[derive(Debug)]
pub struct SnapshotFile {
    pub name: String,
    pub auth: Option<AuthInfo>,
}

/// An auth file is that of an email.
pub open spec fn is_auth_of(auth: Option<AuthInfo>, email: Seq<char>) -> bool {
    auth matches Some(info) && info@.email == Some(email)
}

/// A file of the accounts directory is the snapshot of an email.
pub open spec fn is_file_of(file: SnapshotFile, email: Seq<char>) -> bool {
    snapshot_candidate(file.name@) && is_auth_of(file.auth, email)
}

fn auth_of(auth: &Option<AuthInfo>, email: &str) -> (r: bool)
    ensures
        r == is_auth_of(*auth, email@),
{
    match auth {
        Some(info) => match &info.email {
            Some(found) => same(found.as_str(), email),
            None => false,
        },
        None => false,
    }
}

/// Where the snapshot of an old account is: under the name of its email, else in the first file of
/// the accounts directory that is a snapshot of the email, else in the active auth file.
pub fn resolve_legacy_snapshot_path(
    by_email_exists: bool,
    files: &[SnapshotFile],
    active: &Option<AuthInfo>,
    email: &str,
) -> (r: Option<LegacySnapshot>)
    ensures
        match r {
            Some(LegacySnapshot::ByEmail) => by_email_exists,
            Some(LegacySnapshot::File(i)) => {
                &&& !by_email_exists
                &&& i < files@.len()
                &&& is_file_of(files@[i as int], email@)
                &&& forall|k: int| 0 <= k < i ==> !is_file_of(#[trigger] files@[k], email@)
            },
            Some(LegacySnapshot::Active) => {
                &&& !by_email_exists
                &&& forall|k: int|
                    0 <= k < files@.len() ==> !is_file_of(#[trigger] files@[k], email@)
                &&& is_auth_of(*active, email@)
            },
            None => {
                &&& !by_email_exists
                &&& forall|k: int|
                    0 <= k < files@.len() ==> !is_file_of(#[trigger] files@[k], email@)
                &&& !is_auth_of(*active, email@)
            },
        },
{
    if by_email_exists {
        return Some(LegacySnapshot::ByEmail);
    }
    let mut i: usize = 0;
    while i < files.len()
        invariant
            !by_email_exists,
            i <= files.len(),
            forall|k: int| 0 <= k < i ==> !is_file_of(#[trigger] files@[k], email@),
        decreases files.len() - i,
    {
        if is_snapshot_candidate(files[i].name.as_str()) && auth_of(&files[i].auth, email) {
            return Some(LegacySnapshot::File(i));
        }
        i = i + 1;
    }
    if auth_of(active, email) {
        Some(LegacySnapshot::Active)
    } else {
        None
    }
}

/// Whether the old snapshot is deleted once the new one is in place: it was found under the name of
/// its email, and the new one has another name.
pub fn removes_old_snapshot(found: LegacySnapshot, email: &str, account_key: &str) -> (r: bool)
    ensures
        r == (found == LegacySnapshot::ByEmail && snapshot_name(account_key@)
            != legacy_snapshot_name(email@)),
{
    found == LegacySnapshot::ByEmail && !same(
        account_file_name(account_key).as_str(),
        legacy_file_name(email).as_str(),
    )
}

/// An account of a version 2 registry, ready to go into the new one.
#[derive(Debug)]
pub struct LegacyEntry {
    pub record: AccountRecord,
    /// Whether it was known by email.
    pub by_email: bool,
}

/// The model of [`LegacyEntry`].
#[verifier::ext_equal]
pub struct LegacyEntryView {
    pub record: AccountView,
    pub by_email: bool,
}

impl View for LegacyEntry {
    type V = LegacyEntryView;

    open spec fn view(&self) -> LegacyEntryView {
        LegacyEntryView { record: self.record@, by_email: self.by_email }
    }
}

/// The models of a list of entries.
pub open spec fn legacy_entry_views(entries: Seq<LegacyEntry>) -> Seq<LegacyEntryView> {
    entries.map_values(|entry: LegacyEntry| entry@)
}

/// The new registry before any account is in it.
pub open spec fn legacy_start(
    base: LegacyBaseView,
    auto_switch: AutoSwitchConfig,
    api: ApiConfig,
    live: LiveConfig,
) -> RegistryView {
    RegistryView {
        active_account_key: base.active_account_key,
        active_account_activated_at_ms: if base.active_account_key is Some {
            Some(0)
        } else {
            None
        },
        auto_switch,
        api,
        live,
        ..empty_registry()
    }
}

/// The registry with one more account. The first that was known by the active email is made active,
/// unless an account is already.
pub open spec fn with_legacy_entry(
    registry: RegistryView,
    active_email: Option<Seq<char>>,
    entry: LegacyEntryView,
) -> RegistryView {
    let chosen = entry.by_email && registry.active_account_key is None && active_email == Some(
        entry.record.email,
    );
    with_account(
        if chosen {
            active_from_start(registry, entry.record.account_key)
        } else {
            registry
        },
        entry.record,
    )
}

/// The registry with every account in it, in the order of the file.
pub open spec fn legacy_registry(
    start: RegistryView,
    active_email: Option<Seq<char>>,
    entries: Seq<LegacyEntryView>,
) -> RegistryView
    decreases entries.len(),
{
    if entries.len() == 0 {
        start
    } else {
        with_legacy_entry(
            legacy_registry(start, active_email, entries.drop_last()),
            active_email,
            entries.last(),
        )
    }
}

fn add_legacy_entry(registry: &mut Registry, active_email: &Option<String>, entry: LegacyEntry)
    ensures
        final(registry)@ == with_legacy_entry(old(registry)@, option_view(*active_email), entry@),
{
    let LegacyEntry { record, by_email } = entry;
    let is_active_email = match active_email {
        Some(email) => *email == record.email,
        None => false,
    };
    if by_email && registry.active_account_key.is_none() && is_active_email {
        registry.active_account_key = Some(record.account_key.clone());
        registry.active_account_activated_at_ms = Some(0);
    }
    let _ = upsert_account(registry, record);
}

/// The registry that a version 2 registry becomes, with its settings where they could be read.
pub fn load_legacy_v2_registry(
    base: &LegacyBase,
    auto_switch: AutoSwitchConfig,
    api: ApiConfig,
    live: LiveConfig,
    entries: Vec<LegacyEntry>,
) -> (r: Registry)
    ensures
        r@ == legacy_registry(
            legacy_start(base@, auto_switch, api, live),
            base@.active_email,
            legacy_entry_views(entries@),
        ),
{
    let mut registry = Registry::default();
    registry.auto_switch = auto_switch;
    registry.api = api;
    registry.live = live;
    if let Some(key) = &base.active_account_key {
        registry.active_account_key = Some(key.clone());
        registry.active_account_activated_at_ms = Some(0);
    }
    let ghost start = legacy_start(base@, auto_switch, api, live);
    let ghost all = legacy_entry_views(entries@);
    let ghost items = entries@;
    assert(registry@ == start);
    assert(all.take(0) =~= Seq::empty());
    for entry in it: entries.into_iter()
        invariant
            it.seq() == items,
            all == legacy_entry_views(items),
            registry@ == legacy_registry(
                start,
                base@.active_email,
                all.take(it.index() as int),
            ),
    {
        proof {
            let i = it.index() as int;
            assert(all.take(i + 1).drop_last() =~= all.take(i));
            assert(all.take(i + 1).last() == entry@);
        }
        add_legacy_entry(&mut registry, &base.active_email, entry);
    }
    assert(all.take(all.len() as int) =~= all);
    registry
}

/// A registry made of an old one knows each key once.
pub proof fn legacy_keys_are_distinct(
    base: LegacyBaseView,
    auto_switch: AutoSwitchConfig,
    api: ApiConfig,
    live: LiveConfig,
    entries: Seq<LegacyEntryView>,
)
    ensures
        distinct_keys(
            legacy_registry(
                legacy_start(base, auto_switch, api, live),
                base.active_email,
                entries,
            ).accounts,
        ),
    decreases entries.len(),
{
    if entries.len() > 0 {
        let rest = entries.drop_last();
        legacy_keys_are_distinct(base, auto_switch, api, live, rest);
        let before = legacy_registry(
            legacy_start(base, auto_switch, api, live),
            base.active_email,
            rest,
        );
        upsert_keeps_keys_distinct(before.accounts, entries.last().record);
    }
}

/// The account was known by the given email alone.
pub open spec fn is_known_by(entry: LegacyEntryView, email: Option<Seq<char>>) -> bool {
    entry.by_email && email == Some(entry.record.email)
}

/// The first account that was known by the given email alone is at this index.
pub open spec fn first_known_by(
    entries: Seq<LegacyEntryView>,
    email: Option<Seq<char>>,
    i: int,
) -> bool {
    &&& 0 <= i < entries.len()
    &&& is_known_by(entries[i], email)
    &&& forall|k: int| 0 <= k < i ==> !is_known_by(#[trigger] entries[k], email)
}

/// A registry made of an old one has the time of activation exactly where it has an active account.
/// An active account that the old one named by key stays active. Where it named none, the first
/// account that it knew by the active email alone is active, and none where there is no such account.
pub proof fn legacy_activation(
    base: LegacyBaseView,
    auto_switch: AutoSwitchConfig,
    api: ApiConfig,
    live: LiveConfig,
    entries: Seq<LegacyEntryView>,
)
    ensures
        ({
            let registry = legacy_registry(
                legacy_start(base, auto_switch, api, live),
                base.active_email,
                entries,
            );
            &&& registry.active_account_activated_at_ms == if registry.active_account_key is Some {
                Some(0i64)
            } else {
                None
            }
            &&& base.active_account_key is Some ==> registry.active_account_key
                == base.active_account_key
            &&& base.active_account_key is None ==> {
                &&& forall|i: int| #[trigger]
                    first_known_by(entries, base.active_email, i) ==> registry.active_account_key
                        == Some(entries[i].record.account_key)
                &&& (forall|k: int|
                    0 <= k < entries.len() ==> !is_known_by(
                        #[trigger] entries[k],
                        base.active_email,
                    )) ==> registry.active_account_key is None
            }
        }),
    decreases entries.len(),
{
    if entries.len() > 0 {
        let rest = entries.drop_last();
        let last = entries.len() - 1;
        legacy_activation(base, auto_switch, api, live, rest);
        if base.active_account_key is None {
            let before = legacy_registry(
                legacy_start(base, auto_switch, api, live),
                base.active_email,
                rest,
            );
            let after = legacy_registry(
                legacy_start(base, auto_switch, api, live),
                base.active_email,
                entries,
            );
            assert forall|i: int| #[trigger]
                first_known_by(entries, base.active_email, i) implies after.active_account_key
                == Some(entries[i].record.account_key) by {
                if i < last {
                    assert forall|k: int| 0 <= k < i implies !is_known_by(
                        #[trigger] rest[k],
                        base.active_email,
                    ) by {
                        assert(rest[k] == entries[k]);
                    }
                    assert(rest[i] == entries[i]);
                    assert(first_known_by(rest, base.active_email, i));
                } else {
                    assert forall|k: int| 0 <= k < rest.len() implies !is_known_by(
                        #[trigger] rest[k],
                        base.active_email,
                    ) by {
                        assert(rest[k] == entries[k]);
                    }
                    assert(before.active_account_key is None);
                }
            }
            if forall|k: int|
                0 <= k < entries.len() ==> !is_known_by(
                    #[trigger] entries[k],
                    base.active_email,
                ) {
                assert forall|k: int| 0 <= k < rest.len() implies !is_known_by(
                    #[trigger] rest[k],
                    base.active_email,
                ) by {
                    assert(rest[k] == entries[k]);
                }
                assert(!is_known_by(entries[last], base.active_email));
            }
        }
    }
}

}
