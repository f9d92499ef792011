//! What the ChatGPT API is asked, and what its answers say.

use vstd::prelude::*;

use crate::auth::{parse_plan_type, AuthInfo};
use crate::clock::quotient;
use crate::json::{document_of, parse, Json, JsonView};
use crate::model::{
    copy_snapshot, option_credits_view, option_snapshot_view, CreditsSnapshot, CreditsView, RateLimitSnapshot,
    RateLimitWindow, SnapshotView, UsedPercent,
};
use crate::registry::entry_views;
use crate::sessions::option_plan_of;
use crate::text::{blank, concat, copy_option, is_blank, option_view, same};

verus! {

pub const DEFAULT_USAGE_ENDPOINT: &'static str = "https://chatgpt.com/backend-api/wham/usage";

pub const DEFAULT_ACCOUNT_ENDPOINT: &'static str =
    "https://chatgpt.com/backend-api/accounts/check/v4-2023-04-27";

pub const BROWSER_USER_AGENT: &'static str =
    "Mozilla/5.0 (Windows NT 10.0; Win64; x64) AppleWebKit/537.36 (KHTML, like Gecko) Chrome/136.0.0.0 Safari/537.36";

/// Where the owner of an API key is asked for. That the service answers there, and in the shape that
/// [`me_of`] reads, is taken for granted.
pub const DEFAULT_ME_ENDPOINT: &'static str = "https://api.openai.com/v1/me";

/// How long an answer is waited for.
pub const TIMEOUT_SECONDS: u64 = 5;

/// The owner of an API key.
#[derive(Debug)]
pub struct MeFetchResult {
    pub user_id: String,
    pub email: String,
}

/// The answer to a question for usage.
#[derive(Debug)]
pub struct UsageFetchResult {
    pub snapshot: Option<RateLimitSnapshot>,
    pub status_code: Option<u16>,
    pub missing_auth: bool,
}

/// The model of [`UsageFetchResult`].
#[verifier::ext_equal]
pub struct UsageFetchView {
    pub snapshot: Option<SnapshotView>,
    pub status_code: Option<u16>,
    pub missing_auth: bool,
}

impl View for UsageFetchResult {
    type V = UsageFetchView;

    open spec fn view(&self) -> UsageFetchView {
        UsageFetchView {
            snapshot: option_snapshot_view(self.snapshot),
            status_code: self.status_code,
            missing_auth: self.missing_auth,
        }
    }
}

impl Clone for UsageFetchResult {
    fn clone(&self) -> (r: Self)
        ensures
            r@ == self@,
    {
        UsageFetchResult {
            snapshot: copy_snapshot(&self.snapshot),
            status_code: self.status_code,
            missing_auth: self.missing_auth,
        }
    }
}

/// An account that the API knows.
#[derive(Debug)]
pub struct AccountEntry {
    pub account_id: String,
    pub account_name: Option<String>,
}

impl View for AccountEntry {
    type V = (Seq<char>, Option<Seq<char>>);

    open spec fn view(&self) -> (Seq<char>, Option<Seq<char>>) {
        (self.account_id@, option_view(self.account_name))
    }
}

impl Clone for AccountEntry {
    fn clone(&self) -> (r: Self)
        ensures
            r@ == self@,
    {
        AccountEntry {
            account_id: self.account_id.clone(),
            account_name: copy_option(&self.account_name),
        }
    }
}

/// The model of a list of entries.
pub open spec fn account_entry_views(entries: Seq<AccountEntry>) -> Seq<
    (Seq<char>, Option<Seq<char>>),
> {
    entries.map_values(|entry: AccountEntry| entry@)
}

/// The answer to a question for accounts.
#[derive(Debug)]
pub struct AccountFetchResult {
    pub entries: Option<Vec<AccountEntry>>,
    pub status_code: Option<u16>,
}

/// The model of [`AccountFetchResult`].
#[verifier::ext_equal]
pub struct AccountFetchView {
    pub entries: Option<Seq<(Seq<char>, Option<Seq<char>>)>>,
    pub status_code: Option<u16>,
}

/// The model of a list of entries that may be missing.
pub open spec fn option_entry_views(entries: Option<Vec<AccountEntry>>) -> Option<
    Seq<(Seq<char>, Option<Seq<char>>)>,
> {
    match entries {
        Some(entries) => Some(account_entry_views(entries@)),
        None => None,
    }
}

impl View for AccountFetchResult {
    type V = AccountFetchView;

    open spec fn view(&self) -> AccountFetchView {
        AccountFetchView {
            entries: option_entry_views(self.entries),
            status_code: self.status_code,
        }
    }
}

impl Clone for AccountFetchResult {
    fn clone(&self) -> (r: Self)
        ensures
            r@ == self@,
    {
        AccountFetchResult {
            entries: match &self.entries {
                Some(entries) => {
                    let mut copies: Vec<AccountEntry> = Vec::new();
                    let mut i: usize = 0;
                    while i < entries.len()
                        invariant
                            i <= entries.len(),
                            copies@.len() == i,
                            forall|k: int| 0 <= k < i ==> (#[trigger] copies@[k])@ == entries@[k]@,
                        decreases entries.len() - i,
                    {
                        copies.push(entries[i].clone());
                        i = i + 1;
                    }
                    assert(account_entry_views(copies@) =~= account_entry_views(entries@));
                    Some(copies)
                },
                None => None,
            },
            status_code: self.status_code,
        }
    }
}

/// Why an answer was refused.
#[derive(Debug, Clone, Copy, PartialEq, Eq, Structural)]
pub enum ApiError {
    InvalidUsageJson,
    InvalidAccountsJson,
}

/// The message of an error.
pub open spec fn api_error_text(error: ApiError) -> Seq<char> {
    match error {
        ApiError::InvalidUsageJson => "invalid usage response json"@,
        ApiError::InvalidAccountsJson => "invalid accounts response json"@,
    }
}

impl ApiError {
    /// The message for the user.
    pub fn message(self) -> (s: &'static str)
        ensures
            s@ == api_error_text(self),
    {
        match self {
            ApiError::InvalidUsageJson => "invalid usage response json",
            ApiError::InvalidAccountsJson => "invalid accounts response json",
        }
    }
}

/// The access token and the account to ask for, where an auth file holds both.
pub fn request_identity(info: &AuthInfo) -> (r: Option<(String, String)>)
    ensures
        match (info@.access_token, info@.chatgpt_account_id) {
            (Some(token), Some(account)) => r matches Some((t, a)) && t@ == token && a@ == account,
            _ => r is None,
        },
{
    match (&info.access_token, &info.chatgpt_account_id) {
        (Some(token), Some(account)) => Some((token.clone(), account.clone())),
        _ => None,
    }
}

/// What stands for an answer where the auth file is not enough to ask.
pub fn missing_auth_result() -> (r: UsageFetchResult)
    ensures
        r@ == (UsageFetchView { snapshot: None, status_code: None, missing_auth: true }),
{
    UsageFetchResult { snapshot: None, status_code: None, missing_auth: true }
}

/// The models of a list of headers.
pub open spec fn header_views(headers: Seq<(String, String)>) -> Seq<(Seq<char>, Seq<char>)> {
    headers.map_values(|header: (String, String)| (header.0@, header.1@))
}

/// The headers of every question: the bearer token, the account, and the name of a browser.
pub fn build_headers(access_token: &str, account_id: &str) -> (r: Vec<(String, String)>)
    ensures
        header_views(r@) == seq![
            ("Authorization"@, "Bearer "@ + access_token@),
            ("ChatGPT-Account-Id"@, account_id@),
            ("User-Agent"@, BROWSER_USER_AGENT@),
        ],
{
    let mut r: Vec<(String, String)> = Vec::new();
    r.push(("Authorization".to_owned(), concat("Bearer ", access_token)));
    r.push(("ChatGPT-Account-Id".to_owned(), account_id.to_owned()));
    r.push(("User-Agent".to_owned(), BROWSER_USER_AGENT.to_owned()));
    assert(header_views(r@) =~= seq![
        ("Authorization"@, "Bearer "@ + access_token@),
        ("ChatGPT-Account-Id"@, account_id@),
        ("User-Agent"@, BROWSER_USER_AGENT@),
    ]);
    r
}

/// A window of an answer.
#[derive(Debug, Clone, Copy)]
pub struct ApiWindowJson {
    pub used_percent: UsedPercent,
    pub limit_window_seconds: Option<i64>,
    pub reset_at: Option<i64>,
}

/// The limits of an answer.
#[derive(Debug, Clone, Copy)]
pub struct RateLimitJson {
    pub primary_window: Option<ApiWindowJson>,
    pub secondary_window: Option<ApiWindowJson>,
}

/// An answer to a question for usage.
#[derive(Debug)]
pub struct UsageResponse {
    pub plan_type: Option<String>,
    pub credits: Option<CreditsSnapshot>,
    pub rate_limit: Option<RateLimitJson>,
}

/// The model of [`UsageResponse`].
#[verifier::ext_equal]
pub struct UsageResponseView {
    pub plan_type: Option<Seq<char>>,
    pub credits: Option<CreditsView>,
    pub rate_limit: Option<RateLimitJson>,
}

impl View for UsageResponse {
    type V = UsageResponseView;

    open spec fn view(&self) -> UsageResponseView {
        UsageResponseView {
            plan_type: option_view(self.plan_type),
            credits: option_credits_view(self.credits),
            rate_limit: self.rate_limit,
        }
    }
}

/// Whole minutes of a number of seconds, rounded up from one second on.
pub open spec fn minutes_up(seconds: int) -> int {
    quotient(seconds + 59, 60)
}

/// The length of a window can be turned into minutes.
pub open spec fn seconds_fit(seconds: int) -> bool {
    seconds <= i64::MAX - 59
}

/// Whole minutes of a number of seconds, rounded up.
pub fn ceil_minutes(seconds: i64) -> (minutes: i64)
    requires
        seconds_fit(seconds as int),
    ensures
        minutes == minutes_up(seconds as int),
{
    (seconds + 59) / 60
}

/// Rounded up means: enough for the seconds, and not a minute more.
pub proof fn minutes_are_rounded_up(seconds: int)
    requires
        seconds >= 0,
    ensures
        seconds <= 60 * minutes_up(seconds) < seconds + 60,
{
}

/// The length of the window can be turned into minutes.
pub open spec fn window_fits(window: Option<ApiWindowJson>) -> bool {
    window matches Some(window) ==> window.limit_window_seconds matches Some(seconds)
        ==> seconds_fit(seconds as int)
}

/// The length of every window of the answer can be turned into minutes.
pub open spec fn response_fits(response: UsageResponseView) -> bool {
    response.rate_limit matches Some(limits) ==> window_fits(limits.primary_window) && window_fits(
        limits.secondary_window,
    )
}

/// The window that an answer tells.
pub open spec fn api_window(window: ApiWindowJson) -> RateLimitWindow {
    RateLimitWindow {
        used_percent: window.used_percent,
        window_minutes: match window.limit_window_seconds {
            Some(seconds) => Some(minutes_up(seconds as int) as i64),
            None => None,
        },
        resets_at: window.reset_at,
    }
}

/// The window that an answer tells, where it tells one.
pub open spec fn option_api_window(window: Option<ApiWindowJson>) -> Option<RateLimitWindow> {
    match window {
        Some(window) => Some(api_window(window)),
        None => None,
    }
}

fn parse_window(window: Option<ApiWindowJson>) -> (r: Option<RateLimitWindow>)
    requires
        window_fits(window),
    ensures
        r == option_api_window(window),
{
    match window {
        Some(window) => Some(
            RateLimitWindow {
                used_percent: window.used_percent,
                window_minutes: match window.limit_window_seconds {
                    Some(seconds) => Some(ceil_minutes(seconds)),
                    None => None,
                },
                resets_at: window.reset_at,
            },
        ),
        None => None,
    }
}

/// Credits with a balance only where it is not the empty text.
pub open spec fn api_credits(credits: Option<CreditsView>) -> Option<CreditsView> {
    match credits {
        Some(credits) => Some(
            CreditsView {
                balance: match credits.balance {
                    Some(balance) if balance.len() > 0 => Some(balance),
                    _ => None,
                },
                ..credits
            },
        ),
        None => None,
    }
}

/// The limits that an answer tells, where it tells of at least one window.
pub open spec fn usage_of_response(response: UsageResponseView) -> Option<SnapshotView> {
    let primary = match response.rate_limit {
        Some(limits) => option_api_window(limits.primary_window),
        None => None,
    };
    let secondary = match response.rate_limit {
        Some(limits) => option_api_window(limits.secondary_window),
        None => None,
    };
    if primary is None && secondary is None {
        None
    } else {
        Some(
            SnapshotView {
                primary,
                secondary,
                credits: api_credits(response.credits),
                plan_type: option_plan_of(response.plan_type),
            },
        )
    }
}

/// The limits that an answer tells, where it tells of at least one window.
pub fn usage_from_response(response: UsageResponse) -> (r: Option<RateLimitSnapshot>)
    requires
        response_fits(response@),
    ensures
        option_snapshot_view(r) == usage_of_response(response@),
{
    let UsageResponse { plan_type, credits, rate_limit } = response;
    let (primary, secondary) = match rate_limit {
        Some(limits) => (
            parse_window(limits.primary_window),
            parse_window(limits.secondary_window),
        ),
        None => (None, None),
    };
    if primary.is_none() && secondary.is_none() {
        return None;
    }
    let credits = match credits {
        Some(credits) => {
            let balance = match credits.balance {
                Some(balance) => if balance.as_str().is_empty() {
                    None
                } else {
                    Some(balance)
                },
                None => None,
            };
            Some(
                CreditsSnapshot {
                    has_credits: credits.has_credits,
                    unlimited: credits.unlimited,
                    balance,
                },
            )
        },
        None => None,
    };
    let plan_type = match plan_type {
        Some(name) => Some(parse_plan_type(name.as_str())),
        None => None,
    };
    Some(RateLimitSnapshot { primary, secondary, credits, plan_type })
}

/// The model of an answer that may be malformed.
pub open spec fn option_response_view(response: Option<UsageResponse>) -> Option<
    UsageResponseView,
> {
    match response {
        Some(response) => Some(response@),
        None => None,
    }
}

/// The model of a result.
pub open spec fn usage_result_view(r: Result<Option<RateLimitSnapshot>, ApiError>) -> Result<
    Option<SnapshotView>,
    ApiError,
> {
    match r {
        Ok(snapshot) => Ok(option_snapshot_view(snapshot)),
        Err(error) => Err(error),
    }
}

/// What an answer tells, or that it is malformed.
pub open spec fn usage_told(response: Option<UsageResponse>) -> Result<
    Option<SnapshotView>,
    ApiError,
> {
    match option_response_view(response) {
        Some(response) => Ok(usage_of_response(response)),
        None => Err(ApiError::InvalidUsageJson),
    }
}

/// `r` is what a body tells, where `read_response` reads it.
pub open spec fn usage_outcome<F: Fn(&str) -> Option<UsageResponse>>(
    body: &str,
    read_response: F,
    r: Result<Option<SnapshotView>, ApiError>,
) -> bool {
    exists|response: Option<UsageResponse>|
        #[trigger] read_response.ensures((body,), response) && r == usage_told(response)
}

/// Whatever is read in the body, its windows can be turned into minutes.
pub open spec fn reads_fit<F: Fn(&str) -> Option<UsageResponse>>(
    body: &str,
    read_response: F,
) -> bool {
    forall|response: Option<UsageResponse>| #[trigger]
        read_response.ensures((body,), response) ==> (response matches Some(response)
            ==> response_fits(response@))
}

/// The limits that a body tells, where it tells of at least one window. `read_response` reads the
/// body, or nothing where it has another shape.
pub fn parse_usage_response<F: Fn(&str) -> Option<UsageResponse>>(
    body: &str,
    read_response: F,
) -> (r: Result<Option<RateLimitSnapshot>, ApiError>)
    requires
        read_response.requires((body,)),
        reads_fit(body, read_response),
    ensures
        usage_outcome(body, read_response, usage_result_view(r)),
{
    let response = read_response(body);
    match response {
        Some(response) => Ok(usage_from_response(response)),
        None => Err(ApiError::InvalidUsageJson),
    }
}

/// The model of a result.
pub open spec fn usage_fetch_view(r: Result<UsageFetchResult, ApiError>) -> Result<
    UsageFetchView,
    ApiError,
> {
    match r {
        Ok(result) => Ok(result@),
        Err(error) => Err(error),
    }
}

/// A reply with the given status, whose body tells the given limits.
pub open spec fn usage_fetched(
    status_code: u16,
    told: Result<Option<SnapshotView>, ApiError>,
) -> Result<UsageFetchView, ApiError> {
    match told {
        Ok(snapshot) => Ok(
            UsageFetchView { snapshot, status_code: Some(status_code), missing_auth: false },
        ),
        Err(error) => Err(error),
    }
}

/// What the reply to a question for usage says; a blank body tells nothing.
pub fn usage_reply<F: Fn(&str) -> Option<UsageResponse>>(
    status_code: u16,
    body: &str,
    read_response: F,
) -> (r: Result<UsageFetchResult, ApiError>)
    requires
        read_response.requires((body,)),
        reads_fit(body, read_response),
    ensures
        if blank(body@) {
            usage_fetch_view(r) == usage_fetched(status_code, Ok(None))
        } else {
            exists|told: Result<Option<SnapshotView>, ApiError>|
                #[trigger] usage_outcome(body, read_response, told) && usage_fetch_view(r)
                    == usage_fetched(status_code, told)
        },
{
    if is_blank(body) {
        return Ok(
            UsageFetchResult {
                snapshot: None,
                status_code: Some(status_code),
                missing_auth: false,
            },
        );
    }
    let told = parse_usage_response(body, read_response);
    assert(usage_outcome(body, read_response, usage_result_view(told)));
    match told {
        Ok(snapshot) => Ok(
            UsageFetchResult { snapshot, status_code: Some(status_code), missing_auth: false },
        ),
        Err(error) => Err(error),
    }
}

/// The account that a member of the `accounts` object describes. The member `default` repeats one
/// of the others.
pub open spec fn entry_of(name: Seq<char>, value: JsonView) -> Option<
    (Seq<char>, Option<Seq<char>>),
> {
    if name == "default"@ {
        None
    } else {
        match value.member("account"@) {
            Some(account) => match account.filled_member("account_id"@) {
                Some(id) => Some((id, account.filled_member("name"@))),
                None => None,
            },
            None => None,
        }
    }
}

/// The accounts that the members of the `accounts` object describe, in order.
pub open spec fn entries_of(members: Seq<(Seq<char>, JsonView)>) -> Seq<
    (Seq<char>, Option<Seq<char>>),
>
    decreases members.len(),
{
    if members.len() == 0 {
        Seq::empty()
    } else {
        let rest = entries_of(members.drop_last());
        match entry_of(members.last().0, members.last().1) {
            Some(entry) => rest.push(entry),
            None => rest,
        }
    }
}

/// The account that a member of the `accounts` object describes.
pub fn account_entry(name: &str, value: &Json) -> (r: Option<AccountEntry>)
    ensures
        match r {
            Some(entry) => entry_of(name@, value@) == Some(entry@),
            None => entry_of(name@, value@) is None,
        },
{
    if same(name, "default") {
        return None;
    }
    match value.get("account") {
        Some(account) => match account.filled_member("account_id") {
            Some(id) => Some(
                AccountEntry {
                    account_id: id.to_owned(),
                    account_name: match account.filled_member("name") {
                        Some(name) => Some(name.to_owned()),
                        None => None,
                    },
                },
            ),
            None => None,
        },
        None => None,
    }
}

/// The models of the members of an object.
pub open spec fn member_views(members: Seq<(String, Json)>) -> Seq<(Seq<char>, JsonView)> {
    members.map_values(|member: (String, Json)| (member.0@, member.1@))
}

/// The accounts that an answer lists, where it has an `accounts` object.
pub open spec fn accounts_listed(accounts: Option<Vec<(String, Json)>>) -> Option<
    Seq<(Seq<char>, Option<Seq<char>>)>,
> {
    match accounts {
        Some(members) => Some(entries_of(member_views(members@))),
        None => None,
    }
}

/// The accounts that the members of the `accounts` object describe, in order.
pub fn account_entries(members: &Vec<(String, Json)>) -> (entries: Vec<AccountEntry>)
    ensures
        account_entry_views(entries@) == entries_of(member_views(members@)),
{
    let ghost all = member_views(members@);
    let mut entries: Vec<AccountEntry> = Vec::new();
    let mut i: usize = 0;
    assert(all.take(0) =~= Seq::empty());
    assert(account_entry_views(entries@) =~= Seq::empty());
    while i < members.len()
        invariant
            i <= members.len(),
            all == member_views(members@),
            account_entry_views(entries@) == entries_of(all.take(i as int)),
        decreases members.len() - i,
    {
        let ghost before = entries@;
        proof {
            assert(all.take(i as int + 1).drop_last() =~= all.take(i as int));
            assert(all.take(i as int + 1).last() == (members@[i as int].0@, members@[i as int].1@));
        }
        if let Some(entry) = account_entry(members[i].0.as_str(), &members[i].1) {
            entries.push(entry);
            assert(account_entry_views(entries@) =~= account_entry_views(before).push(entry@));
        }
        i = i + 1;
    }
    assert(all.take(all.len() as int) =~= all);
    entries
}

/// The model of a result.
pub open spec fn entries_result_view(r: Result<Option<Vec<AccountEntry>>, ApiError>) -> Result<
    Option<Seq<(Seq<char>, Option<Seq<char>>)>>,
    ApiError,
> {
    match r {
        Ok(entries) => Ok(option_entry_views(entries)),
        Err(error) => Err(error),
    }
}

/// What an answer lists, or that it is malformed.
pub open spec fn accounts_told(response: Option<Option<Vec<(String, Json)>>>) -> Result<
    Option<Seq<(Seq<char>, Option<Seq<char>>)>>,
    ApiError,
> {
    match response {
        Some(accounts) => Ok(accounts_listed(accounts)),
        None => Err(ApiError::InvalidAccountsJson),
    }
}

/// `r` is what a body lists, where `read_response` reads it.
pub open spec fn accounts_outcome<F: Fn(&str) -> Option<Option<Vec<(String, Json)>>>>(
    body: &str,
    read_response: F,
    r: Result<Option<Seq<(Seq<char>, Option<Seq<char>>)>>, ApiError>,
) -> bool {
    exists|response: Option<Option<Vec<(String, Json)>>>|
        #[trigger] read_response.ensures((body,), response) && r == accounts_told(response)
}

/// The accounts that a body lists, where it has an `accounts` object. `read_response` reads the
/// members of that object, or nothing where the body has another shape.
pub fn parse_accounts_response<F: Fn(&str) -> Option<Option<Vec<(String, Json)>>>>(
    body: &str,
    read_response: F,
) -> (r: Result<Option<Vec<AccountEntry>>, ApiError>)
    requires
        read_response.requires((body,)),
    ensures
        accounts_outcome(body, read_response, entries_result_view(r)),
{
    let response = read_response(body);
    match &response {
        Some(Some(members)) => Ok(Some(account_entries(members))),
        Some(None) => Ok(None),
        None => Err(ApiError::InvalidAccountsJson),
    }
}

/// The model of a result.
pub open spec fn accounts_fetch_view(r: Result<AccountFetchResult, ApiError>) -> Result<
    AccountFetchView,
    ApiError,
> {
    match r {
        Ok(result) => Ok(result@),
        Err(error) => Err(error),
    }
}

/// A reply with the given status, whose body lists the given accounts.
pub open spec fn accounts_fetched(
    status_code: u16,
    told: Result<Option<Seq<(Seq<char>, Option<Seq<char>>)>>, ApiError>,
) -> Result<AccountFetchView, ApiError> {
    match told {
        Ok(entries) => Ok(AccountFetchView { entries, status_code: Some(status_code) }),
        Err(error) => Err(error),
    }
}

/// What the reply to a question for accounts says; a blank body lists nothing.
pub fn accounts_reply<F: Fn(&str) -> Option<Option<Vec<(String, Json)>>>>(
    status_code: u16,
    body: &str,
    read_response: F,
) -> (r: Result<AccountFetchResult, ApiError>)
    requires
        read_response.requires((body,)),
    ensures
        if blank(body@) {
            accounts_fetch_view(r) == accounts_fetched(status_code, Ok(None))
        } else {
            exists|told: Result<Option<Seq<(Seq<char>, Option<Seq<char>>)>>, ApiError>|
                #[trigger] accounts_outcome(body, read_response, told) && accounts_fetch_view(r)
                    == accounts_fetched(status_code, told)
        },
{
    if is_blank(body) {
        return Ok(AccountFetchResult { entries: None, status_code: Some(status_code) });
    }
    let told = parse_accounts_response(body, read_response);
    assert(accounts_outcome(body, read_response, entries_result_view(told)));
    match told {
        Ok(entries) => Ok(AccountFetchResult { entries, status_code: Some(status_code) }),
        Err(error) => Err(error),
    }
}

/// The ids and names of a list of accounts.
pub fn entry_pairs(entries: &Vec<AccountEntry>) -> (r: Vec<(String, Option<String>)>)
    ensures
        entry_views(r@) == account_entry_views(entries@),
{
    let mut r: Vec<(String, Option<String>)> = Vec::new();
    let mut i: usize = 0;
    while i < entries.len()
        invariant
            i <= entries.len(),
            r@.len() == i,
            forall|k: int|
                0 <= k < i ==> (#[trigger] r@[k]).0@ == entries@[k].account_id@ && option_view(
                    r@[k].1,
                ) == option_view(entries@[k].account_name),
        decreases entries.len() - i,
    {
        r.push((entries[i].account_id.clone(), copy_option(&entries[i].account_name)));
        i = i + 1;
    }
    assert(entry_views(r@) =~= account_entry_views(entries@));
    r
}

/// The accounts of an answer all have an id, and none has an empty name.
pub proof fn entries_are_filled(members: Seq<(Seq<char>, JsonView)>, i: int)
    requires
        0 <= i < entries_of(members).len(),
    ensures
        entries_of(members)[i].0.len() > 0,
        entries_of(members)[i].1 matches Some(name) ==> name.len() > 0,
    decreases members.len(),
{
    if members.len() > 0 && i < entries_of(members.drop_last()).len() {
        entries_are_filled(members.drop_last(), i);
    }
}

/// The owner that an answer names, where it names a user and an email. It is taken for granted that
/// the user stands in the member `id`, and the email in `email`.
pub open spec fn me_of(root: JsonView) -> Option<(Seq<char>, Seq<char>)> {
    match (root.filled_member("id"@), root.filled_member("email"@)) {
        (Some(user), Some(email)) => Some((user, email)),
        _ => None,
    }
}

/// The owner of an API key, as the answer names it.
pub fn me_from_json(root: &Json) -> (r: Option<MeFetchResult>)
    ensures
        match r {
            Some(me) => me_of(root@) == Some((me.user_id@, me.email@)),
            None => me_of(root@) is None,
        },
{
    match (root.filled_member("id"), root.filled_member("email")) {
        (Some(user), Some(email)) => Some(
            MeFetchResult { user_id: user.to_owned(), email: email.to_owned() },
        ),
        _ => None,
    }
}

/// The owner of an API key, as the bytes of the answer name it.
pub fn parse_me_response(body: &[u8]) -> (r: Option<MeFetchResult>)
    ensures
        match document_of(body@) {
            Some(root) => match r {
                Some(me) => me_of(root) == Some((me.user_id@, me.email@)),
                None => me_of(root) is None,
            },
            None => r is None,
        },
{
    match parse(body) {
        Some(root) => me_from_json(&root),
        None => None,
    }
}

}
