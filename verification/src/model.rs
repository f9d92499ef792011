//! The registry of accounts and what is known of each account's usage.

use vstd::prelude::*;

use crate::text::{copy_option, option_view, same, same_option};

verus! {

pub const CURRENT_SCHEMA_VERSION: u32 = 4;

pub const MIN_SUPPORTED_SCHEMA_VERSION: u32 = 2;

pub const DEFAULT_AUTO_SWITCH_THRESHOLD_5H_PERCENT: u8 = 1;

pub const DEFAULT_AUTO_SWITCH_THRESHOLD_WEEKLY_PERCENT: u8 = 1;

pub const DEFAULT_LIVE_REFRESH_INTERVAL_SECONDS: u16 = 60;

/// The plan that an account is on.
#[derive(Debug, Clone, Copy, PartialEq, Eq, Structural)]
pub enum PlanType {
    Free,
    Plus,
    Prolite,
    Pro,
    Team,
    Business,
    Enterprise,
    Edu,
    Unknown,
}

/// The name of a plan, as it is shown and stored.
pub open spec fn plan_name(plan: PlanType) -> Seq<char> {
    match plan {
        PlanType::Free => "free"@,
        PlanType::Plus => "plus"@,
        PlanType::Prolite => "prolite"@,
        PlanType::Pro => "pro"@,
        PlanType::Team => "team"@,
        PlanType::Business => "business"@,
        PlanType::Enterprise => "enterprise"@,
        PlanType::Edu => "edu"@,
        PlanType::Unknown => "unknown"@,
    }
}

impl PlanType {
    /// The name of the plan.
    pub fn name(self) -> (s: &'static str)
        ensures
            s@ == plan_name(self),
    {
        match self {
            PlanType::Free => "free",
            PlanType::Plus => "plus",
            PlanType::Prolite => "prolite",
            PlanType::Pro => "pro",
            PlanType::Team => "team",
            PlanType::Business => "business",
            PlanType::Enterprise => "enterprise",
            PlanType::Edu => "edu",
            PlanType::Unknown => "unknown",
        }
    }
}

/// How an account signs in.
#[derive(Debug, Clone, Copy, PartialEq, Eq, Structural)]
pub enum AuthMode {
    Chatgpt,
    Apikey,
}

/// A used percentage. It is a binary floating-point number, held by its IEEE 754 encoding, with the
/// one integer that decisions are made on.
#[derive(Debug, Clone, Copy)]
pub struct UsedPercent {
    /// The encoding of the number.
    pub bits: u64,
    /// 100 minus the number, rounded to the nearest integer, halves away from zero.
    pub remaining: i64,
}

/// The encoding without its sign bit.
pub open spec fn magnitude(bits: u64) -> int {
    bits as int % 0x8000_0000_0000_0000
}

/// The encoding is that of a number, not of NaN.
pub open spec fn is_number(bits: u64) -> bool {
    magnitude(bits) <= 0x7ff0_0000_0000_0000
}

/// Equality of the encoded numbers: NaN equals nothing, and the two zeros are equal.
pub open spec fn percent_equal(a: u64, b: u64) -> bool {
    &&& is_number(a)
    &&& is_number(b)
    &&& a == b || (magnitude(a) == 0 && magnitude(b) == 0)
}

impl UsedPercent {
    /// Whether the two numbers are equal.
    pub fn equals(self, other: UsedPercent) -> (r: bool)
        ensures
            r == percent_equal(self.bits, other.bits),
    {
        let a = self.bits % 0x8000_0000_0000_0000;
        let b = other.bits % 0x8000_0000_0000_0000;
        a <= 0x7ff0_0000_0000_0000 && b <= 0x7ff0_0000_0000_0000 && (self.bits == other.bits || (a
            == 0 && b == 0))
    }
}

/// How much of a rate limit is used, over a window of time.
#[derive(Debug, Clone, Copy)]
pub struct RateLimitWindow {
    pub used_percent: UsedPercent,
    pub window_minutes: Option<i64>,
    pub resets_at: Option<i64>,
}

/// Equality of two windows.
pub open spec fn windows_equal(a: RateLimitWindow, b: RateLimitWindow) -> bool {
    &&& percent_equal(a.used_percent.bits, b.used_percent.bits)
    &&& a.window_minutes == b.window_minutes
    &&& a.resets_at == b.resets_at
}

/// Equality of two windows that may be missing.
pub open spec fn option_windows_equal(
    a: Option<RateLimitWindow>,
    b: Option<RateLimitWindow>,
) -> bool {
    match (a, b) {
        (Some(a), Some(b)) => windows_equal(a, b),
        (None, None) => true,
        _ => false,
    }
}

/// Whether two optional numbers are the same.
pub fn same_number(a: Option<i64>, b: Option<i64>) -> (r: bool)
    ensures
        r == (a == b),
{
    match (a, b) {
        (Some(a), Some(b)) => a == b,
        (None, None) => true,
        _ => false,
    }
}

/// Whether two optional plans are the same.
pub fn same_plan(a: Option<PlanType>, b: Option<PlanType>) -> (r: bool)
    ensures
        r == (a == b),
{
    match (a, b) {
        (Some(a), Some(b)) => a == b,
        (None, None) => true,
        _ => false,
    }
}

/// Whether two optional modes are the same.
pub fn same_mode(a: Option<AuthMode>, b: Option<AuthMode>) -> (r: bool)
    ensures
        r == (a == b),
{
    match (a, b) {
        (Some(a), Some(b)) => a == b,
        (None, None) => true,
        _ => false,
    }
}

fn same_window(a: Option<RateLimitWindow>, b: Option<RateLimitWindow>) -> (r: bool)
    ensures
        r == option_windows_equal(a, b),
{
    match (a, b) {
        (Some(a), Some(b)) => a.used_percent.equals(b.used_percent) && same_number(
            a.window_minutes,
            b.window_minutes,
        ) && same_number(a.resets_at, b.resets_at),
        (None, None) => true,
        _ => false,
    }
}

/// The credits of an account.
#[derive(Debug)]
pub struct CreditsSnapshot {
    pub has_credits: bool,
    pub unlimited: bool,
    pub balance: Option<String>,
}

/// The model of [`CreditsSnapshot`].
#[verifier::ext_equal]
pub struct CreditsView {
    pub has_credits: bool,
    pub unlimited: bool,
    pub balance: Option<Seq<char>>,
}

impl View for CreditsSnapshot {
    type V = CreditsView;

    open spec fn view(&self) -> CreditsView {
        CreditsView {
            has_credits: self.has_credits,
            unlimited: self.unlimited,
            balance: option_view(self.balance),
        }
    }
}

impl Clone for CreditsSnapshot {
    fn clone(&self) -> (r: Self)
        ensures
            r@ == self@,
    {
        CreditsSnapshot {
            has_credits: self.has_credits,
            unlimited: self.unlimited,
            balance: copy_option(&self.balance),
        }
    }
}

/// The limits of an account, as they were last seen.
#[derive(Debug)]
pub struct RateLimitSnapshot {
    pub primary: Option<RateLimitWindow>,
    pub secondary: Option<RateLimitWindow>,
    pub credits: Option<CreditsSnapshot>,
    pub plan_type: Option<PlanType>,
}

/// The model of [`RateLimitSnapshot`].
#[verifier::ext_equal]
pub struct SnapshotView {
    pub primary: Option<RateLimitWindow>,
    pub secondary: Option<RateLimitWindow>,
    pub credits: Option<CreditsView>,
    pub plan_type: Option<PlanType>,
}

/// The model of credits that may be missing.
pub open spec fn option_credits_view(credits: Option<CreditsSnapshot>) -> Option<CreditsView> {
    match credits {
        Some(credits) => Some(credits@),
        None => None,
    }
}

impl View for RateLimitSnapshot {
    type V = SnapshotView;

    open spec fn view(&self) -> SnapshotView {
        SnapshotView {
            primary: self.primary,
            secondary: self.secondary,
            credits: option_credits_view(self.credits),
            plan_type: self.plan_type,
        }
    }
}

impl Clone for RateLimitSnapshot {
    fn clone(&self) -> (r: Self)
        ensures
            r@ == self@,
    {
        RateLimitSnapshot {
            primary: self.primary,
            secondary: self.secondary,
            credits: match &self.credits {
                Some(credits) => Some(credits.clone()),
                None => None,
            },
            plan_type: self.plan_type,
        }
    }
}

/// Equality of two snapshots, with percentages compared as numbers.
pub open spec fn snapshots_equal(a: SnapshotView, b: SnapshotView) -> bool {
    &&& option_windows_equal(a.primary, b.primary)
    &&& option_windows_equal(a.secondary, b.secondary)
    &&& a.credits == b.credits
    &&& a.plan_type == b.plan_type
}

/// No percentage of the snapshot is NaN.
pub open spec fn snapshot_has_numbers(a: SnapshotView) -> bool {
    &&& a.primary matches Some(w) ==> is_number(w.used_percent.bits)
    &&& a.secondary matches Some(w) ==> is_number(w.used_percent.bits)
}

impl RateLimitSnapshot {
    /// Whether two snapshots are equal, percentages compared as numbers.
    pub fn equals(&self, other: &RateLimitSnapshot) -> (r: bool)
        ensures
            r == snapshots_equal(self@, other@),
    {
        let same_credits = match (&self.credits, &other.credits) {
            (Some(a), Some(b)) => a.has_credits == b.has_credits && a.unlimited == b.unlimited
                && same_option(&a.balance, &b.balance),
            (None, None) => true,
            _ => false,
        };
        same_window(self.primary, other.primary) && same_window(self.secondary, other.secondary)
            && same_credits && same_plan(self.plan_type, other.plan_type)
    }
}

/// The model of a snapshot that may be missing.
pub open spec fn option_snapshot_view(snapshot: Option<RateLimitSnapshot>) -> Option<SnapshotView> {
    match snapshot {
        Some(snapshot) => Some(snapshot@),
        None => None,
    }
}

/// A copy of a snapshot that may be missing.
pub fn copy_snapshot(snapshot: &Option<RateLimitSnapshot>) -> (r: Option<RateLimitSnapshot>)
    ensures
        option_snapshot_view(r) == option_snapshot_view(*snapshot),
{
    match snapshot {
        Some(snapshot) => Some(snapshot.clone()),
        None => None,
    }
}

/// The session file and the event in it that usage was last read from.
#[derive(Debug)]
pub struct RolloutSignature {
    pub path: String,
    pub event_timestamp_ms: i64,
}

/// The model of [`RolloutSignature`].
#[verifier::ext_equal]
pub struct RolloutView {
    pub path: Seq<char>,
    pub event_timestamp_ms: i64,
}

impl View for RolloutSignature {
    type V = RolloutView;

    open spec fn view(&self) -> RolloutView {
        RolloutView { path: self.path@, event_timestamp_ms: self.event_timestamp_ms }
    }
}

impl Clone for RolloutSignature {
    fn clone(&self) -> (r: Self)
        ensures
            r@ == self@,
    {
        RolloutSignature {
            path: self.path.clone(),
            event_timestamp_ms: self.event_timestamp_ms,
        }
    }
}

/// The model of a signature that may be missing.
pub open spec fn option_rollout_view(rollout: Option<RolloutSignature>) -> Option<RolloutView> {
    match rollout {
        Some(rollout) => Some(rollout@),
        None => None,
    }
}

/// A copy of a signature that may be missing.
pub fn copy_rollout(rollout: &Option<RolloutSignature>) -> (r: Option<RolloutSignature>)
    ensures
        option_rollout_view(r) == option_rollout_view(*rollout),
{
    match rollout {
        Some(rollout) => Some(rollout.clone()),
        None => None,
    }
}

/// When to switch away from an account by itself.
#[derive(Debug, Clone, Copy)]
pub struct AutoSwitchConfig {
    pub enabled: bool,
    pub threshold_5h_percent: u8,
    pub threshold_weekly_percent: u8,
}

/// Switched off, with the default thresholds.
pub open spec fn default_auto_switch() -> AutoSwitchConfig {
    AutoSwitchConfig {
        enabled: false,
        threshold_5h_percent: DEFAULT_AUTO_SWITCH_THRESHOLD_5H_PERCENT,
        threshold_weekly_percent: DEFAULT_AUTO_SWITCH_THRESHOLD_WEEKLY_PERCENT,
    }
}

impl Default for AutoSwitchConfig {
    fn default() -> (r: Self)
        ensures
            r == default_auto_switch(),
    {
        AutoSwitchConfig {
            enabled: false,
            threshold_5h_percent: DEFAULT_AUTO_SWITCH_THRESHOLD_5H_PERCENT,
            threshold_weekly_percent: DEFAULT_AUTO_SWITCH_THRESHOLD_WEEKLY_PERCENT,
        }
    }
}

/// What may be asked of the ChatGPT API.
#[derive(Debug, Clone, Copy)]
pub struct ApiConfig {
    pub usage: bool,
    pub account: bool,
}

/// Everything may be asked.
pub open spec fn default_api() -> ApiConfig {
    ApiConfig { usage: true, account: true }
}

impl Default for ApiConfig {
    fn default() -> (r: Self)
        ensures
            r == default_api(),
    {
        ApiConfig { usage: true, account: true }
    }
}

/// How often a live view is refreshed.
#[derive(Debug, Clone, Copy)]
pub struct LiveConfig {
    pub interval_seconds: u16,
}

/// The default interval.
pub open spec fn default_live() -> LiveConfig {
    LiveConfig { interval_seconds: DEFAULT_LIVE_REFRESH_INTERVAL_SECONDS }
}

impl Default for LiveConfig {
    fn default() -> (r: Self)
        ensures
            r == default_live(),
    {
        LiveConfig { interval_seconds: DEFAULT_LIVE_REFRESH_INTERVAL_SECONDS }
    }
}

/// An account that the registry knows.
#[derive(Debug)]
pub struct AccountRecord {
    pub account_key: String,
    pub chatgpt_account_id: String,
    pub chatgpt_user_id: String,
    pub email: String,
    pub alias: String,
    pub account_name: Option<String>,
    pub plan: Option<PlanType>,
    pub auth_mode: Option<AuthMode>,
    pub created_at: i64,
    pub last_used_at: Option<i64>,
    pub last_usage: Option<RateLimitSnapshot>,
    pub last_usage_at: Option<i64>,
    pub last_local_rollout: Option<RolloutSignature>,
}

/// The model of [`AccountRecord`].
#[verifier::ext_equal]
pub struct AccountView {
    pub account_key: Seq<char>,
    pub chatgpt_account_id: Seq<char>,
    pub chatgpt_user_id: Seq<char>,
    pub email: Seq<char>,
    pub alias: Seq<char>,
    pub account_name: Option<Seq<char>>,
    pub plan: Option<PlanType>,
    pub auth_mode: Option<AuthMode>,
    pub created_at: i64,
    pub last_used_at: Option<i64>,
    pub last_usage: Option<SnapshotView>,
    pub last_usage_at: Option<i64>,
    pub last_local_rollout: Option<RolloutView>,
}

impl View for AccountRecord {
    type V = AccountView;

    open spec fn view(&self) -> AccountView {
        AccountView {
            account_key: self.account_key@,
            chatgpt_account_id: self.chatgpt_account_id@,
            chatgpt_user_id: self.chatgpt_user_id@,
            email: self.email@,
            alias: self.alias@,
            account_name: option_view(self.account_name),
            plan: self.plan,
            auth_mode: self.auth_mode,
            created_at: self.created_at,
            last_used_at: self.last_used_at,
            last_usage: option_snapshot_view(self.last_usage),
            last_usage_at: self.last_usage_at,
            last_local_rollout: option_rollout_view(self.last_local_rollout),
        }
    }
}

impl Clone for AccountRecord {
    fn clone(&self) -> (r: Self)
        ensures
            r@ == self@,
    {
        AccountRecord {
            account_key: self.account_key.clone(),
            chatgpt_account_id: self.chatgpt_account_id.clone(),
            chatgpt_user_id: self.chatgpt_user_id.clone(),
            email: self.email.clone(),
            alias: self.alias.clone(),
            account_name: copy_option(&self.account_name),
            plan: self.plan,
            auth_mode: self.auth_mode,
            created_at: self.created_at,
            last_used_at: self.last_used_at,
            last_usage: copy_snapshot(&self.last_usage),
            last_usage_at: self.last_usage_at,
            last_local_rollout: copy_rollout(&self.last_local_rollout),
        }
    }
}

/// The models of a list of accounts.
pub open spec fn account_views(accounts: Seq<AccountRecord>) -> Seq<AccountView> {
    accounts.map_values(|record: AccountRecord| record@)
}

/// Everything that is remembered of the accounts.
#[derive(Debug)]
pub struct Registry {
    pub schema_version: u32,
    pub active_account_key: Option<String>,
    pub active_account_activated_at_ms: Option<i64>,
    pub auto_switch: AutoSwitchConfig,
    pub api: ApiConfig,
    pub live: LiveConfig,
    pub accounts: Vec<AccountRecord>,
}

/// The model of [`Registry`].
#[verifier::ext_equal]
pub struct RegistryView {
    pub schema_version: u32,
    pub active_account_key: Option<Seq<char>>,
    pub active_account_activated_at_ms: Option<i64>,
    pub auto_switch: AutoSwitchConfig,
    pub api: ApiConfig,
    pub live: LiveConfig,
    pub accounts: Seq<AccountView>,
}

impl View for Registry {
    type V = RegistryView;

    open spec fn view(&self) -> RegistryView {
        RegistryView {
            schema_version: self.schema_version,
            active_account_key: option_view(self.active_account_key),
            active_account_activated_at_ms: self.active_account_activated_at_ms,
            auto_switch: self.auto_switch,
            api: self.api,
            live: self.live,
            accounts: account_views(self.accounts@),
        }
    }
}

/// A copy of a list of accounts.
pub fn copy_accounts(accounts: &Vec<AccountRecord>) -> (r: Vec<AccountRecord>)
    ensures
        account_views(r@) == account_views(accounts@),
{
    let mut r: Vec<AccountRecord> = Vec::new();
    let mut i: usize = 0;
    while i < accounts.len()
        invariant
            i <= accounts.len(),
            r@.len() == i,
            forall|k: int| 0 <= k < i ==> (#[trigger] r@[k])@ == accounts@[k]@,
        decreases accounts.len() - i,
    {
        r.push(accounts[i].clone());
        i = i + 1;
    }
    assert(account_views(r@) =~= account_views(accounts@));
    r
}

impl Clone for Registry {
    fn clone(&self) -> (r: Self)
        ensures
            r@ == self@,
    {
        Registry {
            schema_version: self.schema_version,
            active_account_key: copy_option(&self.active_account_key),
            active_account_activated_at_ms: self.active_account_activated_at_ms,
            auto_switch: self.auto_switch,
            api: self.api,
            live: self.live,
            accounts: copy_accounts(&self.accounts),
        }
    }
}

/// The registry of someone who has no accounts yet.
pub open spec fn empty_registry() -> RegistryView {
    RegistryView {
        schema_version: CURRENT_SCHEMA_VERSION,
        active_account_key: None,
        active_account_activated_at_ms: None,
        auto_switch: default_auto_switch(),
        api: default_api(),
        live: default_live(),
        accounts: Seq::empty(),
    }
}

impl Default for Registry {
    fn default() -> (r: Self)
        ensures
            r@ == empty_registry(),
    {
        let r = Registry {
            schema_version: CURRENT_SCHEMA_VERSION,
            active_account_key: None,
            active_account_activated_at_ms: None,
            auto_switch: AutoSwitchConfig::default(),
            api: ApiConfig::default(),
            live: LiveConfig::default(),
            accounts: Vec::new(),
        };
        assert(r@.accounts =~= Seq::empty());
        r
    }
}

/// The first account with the key is at this index.
pub open spec fn first_at(accounts: Seq<AccountView>, key: Seq<char>, i: int) -> bool {
    &&& 0 <= i < accounts.len()
    &&& accounts[i].account_key == key
    &&& forall|j: int| 0 <= j < i ==> (#[trigger] accounts[j]).account_key != key
}

/// Some account has the key.
pub open spec fn has_account(accounts: Seq<AccountView>, key: Seq<char>) -> bool {
    exists|i: int| 0 <= i < accounts.len() && (#[trigger] accounts[i]).account_key == key
}

/// The index of the first account with the key, or the number of accounts where there is none.
pub open spec fn position(accounts: Seq<AccountView>, key: Seq<char>) -> int
    decreases accounts.len(),
{
    if accounts.len() == 0 {
        0
    } else if accounts[0].account_key == key {
        0
    } else {
        1 + position(accounts.drop_first(), key)
    }
}

/// What [`position`] is: the first index with the key, or the length.
pub proof fn position_is_first(accounts: Seq<AccountView>, key: Seq<char>)
    ensures
        0 <= position(accounts, key) <= accounts.len(),
        has_account(accounts, key) <==> position(accounts, key) < accounts.len(),
        position(accounts, key) < accounts.len() ==> first_at(
            accounts,
            key,
            position(accounts, key),
        ),
    decreases accounts.len(),
{
    if accounts.len() > 0 {
        if accounts[0].account_key != key {
            let rest = accounts.drop_first();
            position_is_first(rest, key);
            let p = position(rest, key);
            if p < rest.len() {
                assert(accounts[p + 1] == rest[p]);
                assert forall|j: int| 0 <= j < p + 1 implies (#[trigger] accounts[j]).account_key
                    != key by {
                    if j > 0 {
                        assert(rest[j - 1] == accounts[j]);
                    }
                }
            }
            if has_account(accounts, key) {
                let i = choose|i: int|
                    0 <= i < accounts.len() && (#[trigger] accounts[i]).account_key == key;
                assert(rest[i - 1] == accounts[i]);
            }
        }
    }
}

/// At most one index is the first with a given key.
pub proof fn first_is_position(accounts: Seq<AccountView>, key: Seq<char>, i: int)
    requires
        first_at(accounts, key, i),
    ensures
        position(accounts, key) == i,
{
    position_is_first(accounts, key);
    assert(accounts[i].account_key == key);
}

/// The account with the key, where there is one; the first where there are several.
pub open spec fn find_account(accounts: Seq<AccountView>, key: Seq<char>) -> Option<AccountView> {
    if has_account(accounts, key) {
        Some(accounts[position(accounts, key)])
    } else {
        None
    }
}

/// The index of the first account with the key.
pub fn find_index(accounts: &Vec<AccountRecord>, key: &str) -> (r: Option<usize>)
    ensures
        match r {
            Some(i) => i < accounts.len() && first_at(account_views(accounts@), key@, i as int)
                && position(account_views(accounts@), key@) == i,
            None => !has_account(account_views(accounts@), key@),
        },
{
    let ghost views = account_views(accounts@);
    let mut i: usize = 0;
    while i < accounts.len()
        invariant
            i <= accounts.len(),
            views == account_views(accounts@),
            forall|j: int| 0 <= j < i ==> (#[trigger] views[j]).account_key != key@,
        decreases accounts.len() - i,
    {
        assert(views[i as int] == accounts@[i as int]@);
        if same(accounts[i].account_key.as_str(), key) {
            proof {
                first_is_position(views, key@, i as int);
            }
            return Some(i);
        }
        i = i + 1;
    }
    None
}

/// The active account of a registry: the account with the active key.
pub open spec fn active_account_view(registry: RegistryView) -> Option<AccountView> {
    match registry.active_account_key {
        Some(key) => find_account(registry.accounts, key),
        None => None,
    }
}

impl Registry {
    /// The active account, where the active key is that of an account.
    pub fn active_account(&self) -> (r: Option<&AccountRecord>)
        ensures
            match r {
                Some(record) => active_account_view(self@) == Some(record@),
                None => active_account_view(self@) is None,
            },
    {
        match &self.active_account_key {
            Some(key) => match find_index(&self.accounts, key.as_str()) {
                Some(i) => {
                    assert(account_views(self.accounts@)[i as int] == self.accounts@[i as int]@);
                    proof {
                        position_is_first(account_views(self.accounts@), key@);
                    }
                    Some(&self.accounts[i])
                },
                None => None,
            },
            None => None,
        }
    }
}

}
