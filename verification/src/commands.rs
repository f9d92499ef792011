//! What the commands decide, and what they print.

use std::path::PathBuf;
use vstd::prelude::*;

use crate::auth::{AuthInfo, AuthView};
use crate::cli::{
    ConfigApiArgs, ConfigAutoArgs, ConfigToggle, DaemonArgs, ImportArgs, LoginArgs, RemoveArgs,
};
use crate::clock::{format_utc_minute, utc_minute};
use crate::display::{
    build_display_rows, display_plan, every_index, left_percent, plan_text, row_account_is_listed,
    row_views, rows_of, rows_show_every_account, stably_ordered, DisplayRow, RowView,
};
use crate::import::{ImportItem, ImportReport, ReportView};
use crate::laws::best_exists;
use crate::model::{
    active_account_view, option_snapshot_view, position_is_first, AccountRecord, AccountView,
    ApiConfig, AutoSwitchConfig, RateLimitSnapshot, RateLimitWindow, Registry, RegistryView,
    SnapshotView,
};
use crate::registry::{
    best_at, best_key, borrowed_views, find_matching_accounts, matching, score_of,
    select_best_account_key_by_usage, worse, ImportOutcome,
};
use crate::sync::{names_are_asked, usage_source_of, UsageSource};
use crate::text::{
    concat, decimal, decimal_of, join, joined, option_str_view, option_view, pad_right, padded,
    texts,
};

verus! {

/// Why a command was refused.
#[derive(Debug)]
pub enum CommandError {
    /// A rebuild and a CPA import were asked for at once.
    PurgeWithCpa,
    /// An import of standard files was asked for without a path.
    MissingPath,
    /// No account is about the query.
    AccountNotFound(String),
    /// It was not said how the daemon should run.
    MissingDaemonMode,
    /// The value of this flag is no percentage to switch at.
    PercentOutOfRange(String),
    /// The auth file after a login names no account.
    MissingRecordKey,
}

/// The model of [`CommandError`].
#[verifier::ext_equal]
pub enum CommandErrorView {
    PurgeWithCpa,
    MissingPath,
    AccountNotFound(Seq<char>),
    MissingDaemonMode,
    PercentOutOfRange(Seq<char>),
    MissingRecordKey,
}

impl View for CommandError {
    type V = CommandErrorView;

    open spec fn view(&self) -> CommandErrorView {
        match *self {
            CommandError::PurgeWithCpa => CommandErrorView::PurgeWithCpa,
            CommandError::MissingPath => CommandErrorView::MissingPath,
            CommandError::AccountNotFound(query) => CommandErrorView::AccountNotFound(query@),
            CommandError::MissingDaemonMode => CommandErrorView::MissingDaemonMode,
            CommandError::PercentOutOfRange(flag) => CommandErrorView::PercentOutOfRange(flag@),
            CommandError::MissingRecordKey => CommandErrorView::MissingRecordKey,
        }
    }
}

/// The message of an error.
pub open spec fn command_error_text(error: CommandErrorView) -> Seq<char> {
    match error {
        CommandErrorView::PurgeWithCpa => "`--purge` cannot be combined with `--cpa`"@,
        CommandErrorView::MissingPath => "`import` requires a path unless `--cpa` is used"@,
        CommandErrorView::AccountNotFound(query) => "account not found: "@ + query,
        CommandErrorView::MissingDaemonMode => "`daemon` requires `--watch` or `--once`"@,
        CommandErrorView::PercentOutOfRange(flag) => flag + " must be between 1 and 100"@,
        CommandErrorView::MissingRecordKey => "active auth is missing record key"@,
    }
}

impl CommandError {
    /// The message for the user.
    pub fn message(&self) -> (r: String)
        ensures
            r@ == command_error_text(self@),
    {
        match self {
            CommandError::PurgeWithCpa => "`--purge` cannot be combined with `--cpa`".to_owned(),
            CommandError::MissingPath => "`import` requires a path unless `--cpa` is used".to_owned(),
            CommandError::AccountNotFound(query) => concat("account not found: ", query.as_str()),
            CommandError::MissingDaemonMode => "`daemon` requires `--watch` or `--once`".to_owned(),
            CommandError::PercentOutOfRange(flag) => concat(
                flag.as_str(),
                " must be between 1 and 100",
            ),
            CommandError::MissingRecordKey => "active auth is missing record key".to_owned(),
        }
    }
}

/// What kind of import was asked for.
#[derive(Debug, Clone, Copy, PartialEq, Eq, Structural)]
pub enum ImportMode {
    /// The registry is rebuilt.
    Purge,
    Cpa,
    Standard,
}

/// What kind of import was asked for.
pub fn import_mode(args: &ImportArgs) -> (r: Result<ImportMode, CommandError>)
    ensures
        match r {
            Ok(mode) => {
                &&& !(args.purge && args.cpa)
                &&& mode == if args.purge {
                    ImportMode::Purge
                } else if args.cpa {
                    ImportMode::Cpa
                } else {
                    ImportMode::Standard
                }
            },
            Err(error) => args.purge && args.cpa && error@ == CommandErrorView::PurgeWithCpa,
        },
{
    if args.purge && args.cpa {
        return Err(CommandError::PurgeWithCpa);
    }
    if args.purge {
        Ok(ImportMode::Purge)
    } else if args.cpa {
        Ok(ImportMode::Cpa)
    } else {
        Ok(ImportMode::Standard)
    }
}

/// The path of an import of standard files.
pub fn standard_path(args: &ImportArgs) -> (r: Result<&PathBuf, CommandError>)
    ensures
        match args.path {
            Some(path) => r matches Ok(found) && *found == path,
            None => r matches Err(error) && error@ == CommandErrorView::MissingPath,
        },
{
    match &args.path {
        Some(path) => Ok(path),
        None => Err(CommandError::MissingPath),
    }
}

/// The arguments that Codex is called with for a login.
pub fn login_arguments(args: &LoginArgs) -> (r: Vec<String>)
    ensures
        texts(r@) == if args.device_auth {
            seq!["login"@, "--device-auth"@]
        } else {
            seq!["login"@]
        },
{
    let mut r: Vec<String> = Vec::new();
    r.push("login".to_owned());
    if args.device_auth {
        r.push("--device-auth".to_owned());
        assert(texts(r@) =~= seq!["login"@, "--device-auth"@]);
    } else {
        assert(texts(r@) =~= seq!["login"@]);
    }
    r
}

/// The key of the account that was logged in.
pub fn login_key(info: &AuthInfo) -> (r: Result<String, CommandError>)
    ensures
        match info@.record_key {
            Some(key) => r matches Ok(found) && found@ == key,
            None => r matches Err(error) && error@ == CommandErrorView::MissingRecordKey,
        },
{
    match &info.record_key {
        Some(key) => Ok(key.clone()),
        None => Err(CommandError::MissingRecordKey),
    }
}

/// What is printed after a login: the email of the account, or its key.
pub fn login_line(info: &AuthInfo, record_key: &str) -> (r: String)
    ensures
        r@ == "added "@ + match info@.email {
            Some(email) => email,
            None => record_key@,
        },
{
    match &info.email {
        Some(email) => concat("added ", email.as_str()),
        None => concat("added ", record_key),
    }
}

/// A text cut to a number of characters; a dot shows that something is missing.
pub open spec fn truncated(value: Seq<char>, max: nat) -> Seq<char> {
    if value.len() <= max {
        value
    } else if max == 0 {
        "."@
    } else {
        value.take(max - 1) + "."@
    }
}

/// A text cut to a number of characters.
pub fn truncate(value: &str, max: usize) -> (r: String)
    ensures
        r@ == truncated(value@, max as nat),
{
    let n = value.unicode_len();
    if n <= max {
        return value.to_owned();
    }
    if max == 0 {
        return ".".to_owned();
    }
    let head = value.substring_char(0, max - 1);
    assert(head@ =~= value@.take(max - 1));
    concat(head, ".")
}

/// A cut text is not too long, begins as the whole text does, and is not cut again.
pub proof fn truncated_fits(value: Seq<char>, max: nat)
    requires
        max > 0,
    ensures
        truncated(value, max).len() <= max,
        truncated(value, max).len() == max || truncated(value, max) == value,
        truncated(truncated(value, max), max) == truncated(value, max),
        truncated(value, max).take(
            if value.len() <= max {
                value.len() as int
            } else {
                max - 1
            },
        ).is_prefix_of(value),
{
    reveal_strlit(".");
    let cut = truncated(value, max);
    if value.len() <= max {
        assert(cut.take(value.len() as int) =~= value);
    } else {
        assert(cut.take(max - 1) =~= value.take(max - 1));
    }
}

/// An account as it is offered: its email, with the alias behind it where it has one.
pub open spec fn account_label(account: AccountView) -> Seq<char> {
    if account.alias.len() == 0 {
        truncated(account.email, 32)
    } else {
        truncated(account.email + " ("@ + account.alias + ")"@, 32)
    }
}

/// An account as it is offered.
pub fn display_account(record: &AccountRecord) -> (r: String)
    ensures
        r@ == account_label(record@),
{
    if record.alias.as_str().is_empty() {
        truncate(record.email.as_str(), 32)
    } else {
        let mut whole = concat(record.email.as_str(), " (");
        whole.append(record.alias.as_str());
        whole.append(")");
        truncate(whole.as_str(), 32)
    }
}

/// An account that the user can pick.
#[derive(Debug)]
pub struct Offer {
    pub account_key: String,
    pub label: String,
}

/// The models of a list of offers: keys and labels.
pub open spec fn offer_views(offers: Seq<Offer>) -> Seq<(Seq<char>, Seq<char>)> {
    offers.map_values(|offer: Offer| (offer.account_key@, offer.label@))
}

/// The accounts as they are offered.
pub open spec fn offers_of(accounts: Seq<AccountView>) -> Seq<(Seq<char>, Seq<char>)> {
    accounts.map_values(|account: AccountView| (account.account_key, account_label(account)))
}

/// The keys of accounts.
pub open spec fn keys_of(accounts: Seq<AccountView>) -> Seq<Seq<char>> {
    accounts.map_values(|account: AccountView| account.account_key)
}

fn offer(records: &Vec<&AccountRecord>) -> (r: Vec<Offer>)
    ensures
        offer_views(r@) == offers_of(borrowed_views(records@)),
{
    let mut r: Vec<Offer> = Vec::new();
    let mut i: usize = 0;
    while i < records.len()
        invariant
            i <= records.len(),
            r@.len() == i,
            forall|k: int|
                0 <= k < i ==> (#[trigger] r@[k]).account_key@ == records@[k]@.account_key
                    && r@[k].label@ == account_label(records@[k]@),
        decreases records.len() - i,
    {
        let record = records[i];
        r.push(
            Offer { account_key: record.account_key.clone(), label: display_account(record) },
        );
        i = i + 1;
    }
    assert(offer_views(r@) =~= offers_of(borrowed_views(records@)));
    r
}

fn all_accounts(registry: &Registry) -> (r: Vec<&AccountRecord>)
    ensures
        borrowed_views(r@) == registry@.accounts,
{
    let mut r: Vec<&AccountRecord> = Vec::new();
    let mut i: usize = 0;
    while i < registry.accounts.len()
        invariant
            i <= registry.accounts.len(),
            r@.len() == i,
            forall|k: int| 0 <= k < i ==> (#[trigger] r@[k])@ == registry.accounts@[k]@,
        decreases registry.accounts.len() - i,
    {
        r.push(&registry.accounts[i]);
        i = i + 1;
    }
    assert(borrowed_views(r@) =~= registry@.accounts);
    r
}

fn keys(records: &Vec<&AccountRecord>) -> (r: Vec<String>)
    ensures
        texts(r@) == keys_of(borrowed_views(records@)),
{
    let mut r: Vec<String> = Vec::new();
    let mut i: usize = 0;
    while i < records.len()
        invariant
            i <= records.len(),
            r@.len() == i,
            forall|k: int| 0 <= k < i ==> (#[trigger] r@[k])@ == records@[k]@.account_key,
        decreases records.len() - i,
    {
        r.push(records[i].account_key.clone());
        i = i + 1;
    }
    assert(texts(r@) =~= keys_of(borrowed_views(records@)));
    r
}

/// How the account to switch to is settled.
#[derive(Debug)]
pub enum SwitchChoice {
    /// It is this one.
    Account(String),
    /// The user picks one of these.
    Ask(Vec<Offer>),
}

/// How the account to switch to is settled, or the query that is about no account.
pub enum SwitchView {
    NotFound(Seq<char>),
    Account(Seq<char>),
    Ask(Seq<(Seq<char>, Seq<char>)>),
}

/// How the account to switch to is settled.
pub open spec fn switch_settled(accounts: Seq<AccountView>, query: Option<Seq<char>>) -> SwitchView {
    match query {
        Some(query) => {
            let found = matching(accounts, query);
            if found.len() == 0 {
                SwitchView::NotFound(query)
            } else if found.len() == 1 {
                SwitchView::Account(found[0].account_key)
            } else {
                SwitchView::Ask(offers_of(found))
            }
        },
        None => SwitchView::Ask(offers_of(accounts)),
    }
}

/// The result is how the account is settled.
pub open spec fn is_switch(r: Result<SwitchChoice, CommandError>, settled: SwitchView) -> bool {
    match settled {
        SwitchView::NotFound(query) => r matches Err(error) && error@
            == CommandErrorView::AccountNotFound(query),
        SwitchView::Account(account_key) => r matches Ok(SwitchChoice::Account(key)) && key@
            == account_key,
        SwitchView::Ask(offered) => r matches Ok(SwitchChoice::Ask(offers)) && offer_views(offers@)
            == offered,
    }
}

/// Settles the account to switch to: the only one that the query is about; where it is about
/// several, or where there is no query, the user picks.
pub fn switch_choice(registry: &Registry, query: Option<&str>) -> (r: Result<
    SwitchChoice,
    CommandError,
>)
    ensures
        match query {
            Some(query) => {
                let found = matching(registry@.accounts, query@);
                if found.len() == 0 {
                    r matches Err(error) && error@ == CommandErrorView::AccountNotFound(query@)
                } else if found.len() == 1 {
                    r matches Ok(SwitchChoice::Account(key)) && key@ == found[0].account_key
                } else {
                    r matches Ok(SwitchChoice::Ask(offers)) && offer_views(offers@) == offers_of(
                        found,
                    )
                }
            },
            None => r matches Ok(SwitchChoice::Ask(offers)) && offer_views(offers@) == offers_of(
                registry@.accounts,
            ),
        },
        is_switch(r, switch_settled(registry@.accounts, option_str_view(query))),
{
    match query {
        Some(query) => {
            let found = find_matching_accounts(registry, query);
            assert(borrowed_views(found@).len() == found@.len());
            if found.len() == 0 {
                Err(CommandError::AccountNotFound(query.to_owned()))
            } else if found.len() == 1 {
                assert(borrowed_views(found@)[0] == found@[0]@);
                Ok(SwitchChoice::Account(found[0].account_key.clone()))
            } else {
                Ok(SwitchChoice::Ask(offer(&found)))
            }
        },
        None => Ok(SwitchChoice::Ask(offer(&all_accounts(registry)))),
    }
}

/// The key of the offer that was picked.
pub fn picked(offers: &Vec<Offer>, index: usize) -> (r: Option<String>)
    ensures
        option_view(r) == if index < offers@.len() {
            Some(offers@[index as int].account_key@)
        } else {
            None
        },
{
    if index < offers.len() {
        Some(offers[index].account_key.clone())
    } else {
        None
    }
}

/// What is printed after a switch.
pub fn switch_line(account_key: &str) -> (r: String)
    ensures
        r@ == "switched to "@ + account_key@,
{
    concat("switched to ", account_key)
}

/// How the accounts to remove are settled.
#[derive(Debug)]
pub enum RemovalChoice {
    /// There are no accounts.
    NoAccounts,
    /// These are removed.
    Accounts(Vec<String>),
    /// These are removed if the user agrees.
    Confirm(Vec<String>),
    /// The user picks some of these.
    Ask(Vec<Offer>),
}

/// How the accounts to remove are settled, or the query that is about no account.
pub enum RemovalView {
    NotFound(Seq<char>),
    NoAccounts,
    Accounts(Seq<Seq<char>>),
    Confirm(Seq<Seq<char>>),
    Ask(Seq<(Seq<char>, Seq<char>)>),
}

/// How the accounts to remove are settled.
pub open spec fn removal_settled(
    accounts: Seq<AccountView>,
    all: bool,
    query: Option<Seq<char>>,
) -> RemovalView {
    if accounts.len() == 0 {
        RemovalView::NoAccounts
    } else if all {
        RemovalView::Accounts(keys_of(accounts))
    } else {
        match query {
            Some(query) => {
                let found = matching(accounts, query);
                if found.len() == 0 {
                    RemovalView::NotFound(query)
                } else if found.len() == 1 {
                    RemovalView::Accounts(keys_of(found))
                } else {
                    RemovalView::Confirm(keys_of(found))
                }
            },
            None => RemovalView::Ask(offers_of(accounts)),
        }
    }
}

/// The result is how the accounts are settled.
pub open spec fn is_removal(r: Result<RemovalChoice, CommandError>, settled: RemovalView) -> bool {
    match settled {
        RemovalView::NotFound(query) => r matches Err(error) && error@
            == CommandErrorView::AccountNotFound(query),
        RemovalView::NoAccounts => r matches Ok(RemovalChoice::NoAccounts),
        RemovalView::Accounts(listed) => r matches Ok(RemovalChoice::Accounts(keys)) && texts(keys@)
            == listed,
        RemovalView::Confirm(listed) => r matches Ok(RemovalChoice::Confirm(keys)) && texts(keys@)
            == listed,
        RemovalView::Ask(offered) => r matches Ok(RemovalChoice::Ask(offers)) && offer_views(
            offers@,
        ) == offered,
    }
}

/// Settles the accounts to remove: all where that was asked for, else those that the query is
/// about, several of them only if the user agrees; without a query the user picks.
pub fn removal_choice(registry: &Registry, args: &RemoveArgs) -> (r: Result<
    RemovalChoice,
    CommandError,
>)
    ensures
        ({
            let all = registry@.accounts;
            if all.len() == 0 {
                r matches Ok(RemovalChoice::NoAccounts)
            } else if args.all {
                r matches Ok(RemovalChoice::Accounts(keys)) && texts(keys@) == keys_of(all)
            } else {
                match option_view(args.query) {
                    Some(query) => {
                        let found = matching(all, query);
                        if found.len() == 0 {
                            r matches Err(error) && error@ == CommandErrorView::AccountNotFound(
                                query,
                            )
                        } else if found.len() == 1 {
                            r matches Ok(RemovalChoice::Accounts(keys)) && texts(keys@) == keys_of(
                                found,
                            )
                        } else {
                            r matches Ok(RemovalChoice::Confirm(keys)) && texts(keys@) == keys_of(
                                found,
                            )
                        }
                    },
                    None => r matches Ok(RemovalChoice::Ask(offers)) && offer_views(offers@)
                        == offers_of(all),
                }
            }
        }),
        is_removal(r, removal_settled(registry@.accounts, args.all, option_view(args.query))),
{
    if registry.accounts.len() == 0 {
        return Ok(RemovalChoice::NoAccounts);
    }
    if args.all {
        return Ok(RemovalChoice::Accounts(keys(&all_accounts(registry))));
    }
    match &args.query {
        Some(query) => {
            let found = find_matching_accounts(registry, query.as_str());
            assert(borrowed_views(found@).len() == found@.len());
            if found.len() == 0 {
                Err(CommandError::AccountNotFound(query.clone()))
            } else if found.len() == 1 {
                Ok(RemovalChoice::Accounts(keys(&found)))
            } else {
                Ok(RemovalChoice::Confirm(keys(&found)))
            }
        },
        None => Ok(RemovalChoice::Ask(offer(&all_accounts(registry)))),
    }
}

/// The keys of the offers that were picked, in the order of picking.
pub fn all_picked(offers: &Vec<Offer>, indices: &[usize]) -> (r: Vec<String>)
    requires
        forall|k: int| 0 <= k < indices@.len() ==> #[trigger] indices@[k] < offers@.len(),
    ensures
        r@.len() == indices@.len(),
        forall|k: int|
            0 <= k < indices@.len() ==> (#[trigger] r@[k])@
                == offers@[indices@[k] as int].account_key@,
{
    let mut r: Vec<String> = Vec::new();
    let mut i: usize = 0;
    while i < indices.len()
        invariant
            i <= indices.len(),
            r@.len() == i,
            forall|k: int| 0 <= k < indices@.len() ==> #[trigger] indices@[k] < offers@.len(),
            forall|k: int|
                0 <= k < i ==> (#[trigger] r@[k])@ == offers@[indices@[k] as int].account_key@,
        decreases indices.len() - i,
    {
        r.push(offers[indices[i]].account_key.clone());
        i = i + 1;
    }
    r
}

/// What the user is asked before several accounts are removed.
pub fn confirm_prompt(count: usize) -> (r: String)
    ensures
        r@ == "remove "@ + decimal(count as nat) + " matched accounts?"@,
{
    let mut r = concat("remove ", decimal_of(count as u128).as_str());
    r.append(" matched accounts?");
    r
}

/// What is printed after a removal.
pub fn removal_line(account_keys: &Vec<String>) -> (r: String)
    ensures
        r@ == "removed "@ + joined(texts(account_keys@), ", "@),
{
    concat("removed ", join(account_keys, ", ").as_str())
}

/// What the user is told of the automatic switch.
pub open spec fn auto_switch_text(config: AutoSwitchConfig) -> Seq<char> {
    "auto_switch: "@ + (if config.enabled {
        "enabled"@
    } else {
        "disabled"@
    }) + " (5h="@ + decimal(config.threshold_5h_percent as nat) + "%, weekly="@ + decimal(
        config.threshold_weekly_percent as nat,
    ) + "%)"@
}

/// What the user is told of the automatic switch.
pub fn auto_switch_line(config: AutoSwitchConfig) -> (r: String)
    ensures
        r@ == auto_switch_text(config),
{
    let mut r = concat(
        "auto_switch: ",
        if config.enabled {
            "enabled"
        } else {
            "disabled"
        },
    );
    r.append(" (5h=");
    r.append(decimal_of(config.threshold_5h_percent as u128).as_str());
    r.append("%, weekly=");
    r.append(decimal_of(config.threshold_weekly_percent as u128).as_str());
    r.append("%)");
    r
}

/// A switch as it is shown.
pub open spec fn bool_text(b: bool) -> Seq<char> {
    if b {
        "true"@
    } else {
        "false"@
    }
}

fn bool_str(b: bool) -> (s: &'static str)
    ensures
        s@ == bool_text(b),
{
    if b {
        "true"
    } else {
        "false"
    }
}

/// What the user is told of the use of the API.
pub open spec fn api_text(config: ApiConfig) -> Seq<char> {
    "api: usage="@ + bool_text(config.usage) + ", account="@ + bool_text(config.account)
}

/// What the user is told of the use of the API.
pub fn api_line(config: ApiConfig) -> (r: String)
    ensures
        r@ == api_text(config),
{
    let mut r = concat("api: usage=", bool_str(config.usage));
    r.append(", account=");
    r.append(bool_str(config.account));
    r
}

/// How much of a window is left, where there is one.
pub open spec fn window_left(window: Option<RateLimitWindow>) -> Option<int> {
    match window {
        Some(window) => Some(left_percent(window.used_percent)),
        None => None,
    }
}

/// How much of a window is left, in percent.
pub fn remaining_percent(window: Option<RateLimitWindow>) -> (r: Option<u8>)
    ensures
        match r {
            Some(n) => window_left(window) == Some(n as int) && n <= 100,
            None => window_left(window) is None,
        },
{
    match window {
        Some(window) => Some(crate::display::remaining_percent(window.used_percent)),
        None => None,
    }
}

/// What is left of a window, as it is shown.
pub open spec fn left_text(left: Option<int>) -> Seq<char> {
    match left {
        Some(n) => decimal(n as nat) + "%"@,
        None => "-"@,
    }
}

fn left_string(left: Option<u8>) -> (r: String)
    ensures
        r@ == left_text(
            match left {
                Some(n) => Some(n as int),
                None => None,
            },
        ),
{
    match left {
        Some(n) => concat(decimal_of(n as u128).as_str(), "%"),
        None => "-".to_owned(),
    }
}

/// What is left of both windows, as it is shown.
pub open spec fn usage_text(usage: Option<SnapshotView>) -> Seq<char> {
    match usage {
        Some(usage) => "5h="@ + left_text(window_left(usage.primary)) + ", weekly="@ + left_text(
            window_left(usage.secondary),
        ),
        None => "-"@,
    }
}

/// What is left of both windows, as it is shown.
pub fn format_usage_summary(usage: &Option<RateLimitSnapshot>) -> (r: String)
    ensures
        r@ == usage_text(option_snapshot_view(*usage)),
{
    match usage {
        Some(usage) => {
            let mut r = concat("5h=", left_string(remaining_percent(usage.primary)).as_str());
            r.append(", weekly=");
            r.append(left_string(remaining_percent(usage.secondary)).as_str());
            r
        },
        None => "-".to_owned(),
    }
}

/// What the status of a registry says, line by line.
pub open spec fn status_text(registry: RegistryView) -> Seq<Seq<char>> {
    let settings = seq![auto_switch_text(registry.auto_switch), api_text(registry.api)];
    match active_account_view(registry) {
        Some(account) => settings + seq![
            "active: "@ + account_label(account),
            "last_usage: "@ + usage_text(account.last_usage),
        ],
        None => settings + seq!["active: none"@],
    }
}

/// What the status of a registry says, line by line.
pub fn status_lines(registry: &Registry) -> (r: Vec<String>)
    ensures
        texts(r@) == status_text(registry@),
{
    let mut r: Vec<String> = Vec::new();
    r.push(auto_switch_line(registry.auto_switch));
    r.push(api_line(registry.api));
    match registry.active_account() {
        Some(active) => {
            r.push(concat("active: ", display_account(active).as_str()));
            r.push(concat("last_usage: ", format_usage_summary(&active.last_usage).as_str()));
        },
        None => {
            r.push("active: none".to_owned());
        },
    }
    assert(texts(r@) =~= status_text(registry@));
    r
}

/// What is printed after a cleanup.
pub fn clean_line(auth_backups: usize, registry_backups: usize, stale_entries: usize) -> (r: String)
    ensures
        r@ == "cleaned accounts: auth_backups="@ + decimal(auth_backups as nat)
            + ", registry_backups="@ + decimal(registry_backups as nat) + ", stale_entries="@
            + decimal(stale_entries as nat),
{
    let mut r = concat(
        "cleaned accounts: auth_backups=",
        decimal_of(auth_backups as u128).as_str(),
    );
    r.append(", registry_backups=");
    r.append(decimal_of(registry_backups as u128).as_str());
    r.append(", stale_entries=");
    r.append(decimal_of(stale_entries as u128).as_str());
    r
}

/// How the daemon runs.
#[derive(Debug, Clone, Copy, PartialEq, Eq, Structural)]
pub enum DaemonMode {
    Once,
    Watch,
}

/// How long the daemon waits between two rounds.
pub const DAEMON_INTERVAL_SECONDS: u64 = 30;

/// How the daemon runs.
pub fn daemon_mode(args: &DaemonArgs) -> (r: Result<DaemonMode, CommandError>)
    ensures
        if args.once {
            r matches Ok(DaemonMode::Once)
        } else if args.watch {
            r matches Ok(DaemonMode::Watch)
        } else {
            r matches Err(error) && error@ == CommandErrorView::MissingDaemonMode
        },
{
    if args.once {
        Ok(DaemonMode::Once)
    } else if args.watch {
        Ok(DaemonMode::Watch)
    } else {
        Err(CommandError::MissingDaemonMode)
    }
}

/// A percentage that can be switched at.
pub open spec fn valid_percent(value: int) -> bool {
    1 <= value <= 100
}

/// Refuses a percentage that cannot be switched at.
pub fn validate_percent(value: u8, flag: &str) -> (r: Result<(), CommandError>)
    ensures
        if valid_percent(value as int) {
            r is Ok
        } else {
            r matches Err(error) && error@ == CommandErrorView::PercentOutOfRange(flag@)
        },
{
    if 1 <= value && value <= 100 {
        Ok(())
    } else {
        Err(CommandError::PercentOutOfRange(flag.to_owned()))
    }
}

/// The settings with the switch set as asked.
pub open spec fn toggled(config: AutoSwitchConfig, action: Option<ConfigToggle>) -> AutoSwitchConfig {
    AutoSwitchConfig {
        enabled: match action {
            Some(action) => action == ConfigToggle::Enable,
            None => config.enabled,
        },
        ..config
    }
}

/// The settings with the short threshold set as asked.
pub open spec fn with_5h(config: AutoSwitchConfig, value: Option<u8>) -> AutoSwitchConfig {
    AutoSwitchConfig {
        threshold_5h_percent: match value {
            Some(value) => value,
            None => config.threshold_5h_percent,
        },
        ..config
    }
}

/// The settings with the long threshold set as asked.
pub open spec fn with_weekly(config: AutoSwitchConfig, value: Option<u8>) -> AutoSwitchConfig {
    AutoSwitchConfig {
        threshold_weekly_percent: match value {
            Some(value) => value,
            None => config.threshold_weekly_percent,
        },
        ..config
    }
}

/// A percentage that was asked for is one that can be switched at.
pub open spec fn acceptable(value: Option<u8>) -> bool {
    value matches Some(value) ==> valid_percent(value as int)
}

/// The registry with other settings of the automatic switch.
pub open spec fn with_auto_switch(
    registry: RegistryView,
    auto_switch: AutoSwitchConfig,
) -> RegistryView {
    RegistryView { auto_switch, ..registry }
}

/// Both thresholds are percentages that can be switched at.
pub open spec fn valid_thresholds(config: AutoSwitchConfig) -> bool {
    valid_percent(config.threshold_5h_percent as int) && valid_percent(
        config.threshold_weekly_percent as int,
    )
}

/// The settings after they were set as asked, and the flag that was refused, if one was: a flag is
/// set unless it or one before it is refused.
pub open spec fn configured(
    config: AutoSwitchConfig,
    action: Option<ConfigToggle>,
    short: Option<u8>,
    weekly: Option<u8>,
) -> (AutoSwitchConfig, Option<Seq<char>>) {
    let switched = toggled(config, action);
    if !acceptable(short) {
        (switched, Some("--5h"@))
    } else if !acceptable(weekly) {
        (with_5h(switched, short), Some("--weekly"@))
    } else {
        (with_weekly(with_5h(switched, short), weekly), None)
    }
}

/// Sets the automatic switch. A percentage out of range is refused; what was asked for before it is
/// set by then.
pub fn config_auto(registry: &mut Registry, args: &ConfigAutoArgs) -> (r: Result<(), CommandError>)
    ensures
        ({
            let before = old(registry)@;
            let switched = toggled(before.auto_switch, args.action);
            let short = with_5h(switched, args.threshold_5h_percent);
            if !acceptable(args.threshold_5h_percent) {
                &&& r matches Err(error) && error@ == CommandErrorView::PercentOutOfRange("--5h"@)
                &&& final(registry)@ == with_auto_switch(before, switched)
            } else if !acceptable(args.weekly) {
                &&& r matches Err(error) && error@ == CommandErrorView::PercentOutOfRange(
                    "--weekly"@,
                )
                &&& final(registry)@ == with_auto_switch(before, short)
            } else {
                &&& r is Ok
                &&& final(registry)@ == with_auto_switch(before, with_weekly(short, args.weekly))
            }
        }),
        valid_thresholds(old(registry)@.auto_switch) ==> valid_thresholds(
            final(registry)@.auto_switch,
        ),
        ({
            let after = configured(
                old(registry)@.auto_switch,
                args.action,
                args.threshold_5h_percent,
                args.weekly,
            );
            &&& final(registry)@ == with_auto_switch(old(registry)@, after.0)
            &&& r is Ok == after.1 is None
            &&& r matches Err(error) ==> error@ == CommandErrorView::PercentOutOfRange(after.1->0)
        }),
{
    if let Some(action) = args.action {
        registry.auto_switch.enabled = action == ConfigToggle::Enable;
    }
    if let Some(value) = args.threshold_5h_percent {
        match validate_percent(value, "--5h") {
            Ok(_) => {},
            Err(error) => {
                return Err(error);
            },
        }
        registry.auto_switch.threshold_5h_percent = value;
    }
    if let Some(value) = args.weekly {
        match validate_percent(value, "--weekly") {
            Ok(_) => {},
            Err(error) => {
                return Err(error);
            },
        }
        registry.auto_switch.threshold_weekly_percent = value;
    }
    Ok(())
}

/// The registry with the use of the API set, for usage and for names alike.
pub open spec fn with_api(registry: RegistryView, enabled: bool) -> RegistryView {
    RegistryView { api: ApiConfig { usage: enabled, account: enabled }, ..registry }
}

/// Sets whether the API may be asked, for usage and for names alike.
pub fn config_api(registry: &mut Registry, args: &ConfigApiArgs)
    ensures
        final(registry)@ == with_api(old(registry)@, args.action == ConfigToggle::Enable),
{
    let enabled = args.action == ConfigToggle::Enable;
    registry.api.usage = enabled;
    registry.api.account = enabled;
}

/// Once the API is switched off, neither usage nor names are asked of it: usage comes from the
/// session logs alone. Once it is switched on, usage is asked of it first.
pub proof fn api_switch_is_obeyed(registry: RegistryView, auth: AuthView)
    ensures
        usage_source_of(with_api(registry, false)) != UsageSource::Api,
        registry.active_account_key is Some ==> usage_source_of(with_api(registry, false))
            == UsageSource::Sessions && usage_source_of(with_api(registry, true))
            == UsageSource::Api,
        !names_are_asked(with_api(registry, false), auth),
{
}

/// A threshold is undercut.
pub open spec fn undercuts(left: Option<int>, threshold: int) -> bool {
    left matches Some(n) && n < threshold
}

/// The usage of an account undercuts a threshold.
pub open spec fn runs_low(usage: Option<SnapshotView>, config: AutoSwitchConfig) -> bool {
    usage matches Some(usage) && (undercuts(
        window_left(usage.primary),
        config.threshold_5h_percent as int,
    ) || undercuts(window_left(usage.secondary), config.threshold_weekly_percent as int))
}

fn is_low(usage: &Option<RateLimitSnapshot>, config: AutoSwitchConfig) -> (r: bool)
    ensures
        r == runs_low(option_snapshot_view(*usage), config),
{
    match usage {
        Some(usage) => {
            let primary = match remaining_percent(usage.primary) {
                Some(n) => n < config.threshold_5h_percent,
                None => false,
            };
            let weekly = match remaining_percent(usage.secondary) {
                Some(n) => n < config.threshold_weekly_percent,
                None => false,
            };
            primary || weekly
        },
        None => false,
    }
}

/// The account that is switched to by itself: the best one, where the switch is on, the active
/// account runs low and is not the best one itself.
pub open spec fn switch_target(registry: RegistryView) -> Option<Seq<char>> {
    match active_account_view(registry) {
        Some(active) => if registry.auto_switch.enabled && runs_low(
            active.last_usage,
            registry.auto_switch,
        ) && best_key(registry.accounts) != registry.active_account_key {
            best_key(registry.accounts)
        } else {
            None
        },
        None => None,
    }
}

/// The account that is switched to by itself.
pub fn auto_switch_target(registry: &Registry) -> (r: Option<String>)
    ensures
        option_view(r) == switch_target(registry@),
{
    if !registry.auto_switch.enabled {
        return None;
    }
    let low = match registry.active_account() {
        Some(active) => is_low(&active.last_usage, registry.auto_switch),
        None => {
            return None;
        },
    };
    if !low {
        return None;
    }
    match select_best_account_key_by_usage(registry) {
        Some(next) => {
            let already = match &registry.active_account_key {
                Some(key) => *key == next,
                None => false,
            };
            if already {
                None
            } else {
                Some(next)
            }
        },
        None => None,
    }
}

/// An automatic switch goes to another account that is known, and of which at least as much is left
/// as of any other.
pub proof fn switch_target_is_best(registry: RegistryView)
    requires
        switch_target(registry) is Some,
    ensures
        registry.auto_switch.enabled,
        switch_target(registry) != registry.active_account_key,
        exists|i: int|
            {
                &&& #[trigger] best_at(registry.accounts, i)
                &&& switch_target(registry) == Some(registry.accounts[i].account_key)
                &&& forall|j: int|
                    0 <= j < registry.accounts.len() ==> score_of(
                        (#[trigger] registry.accounts[j]).last_usage,
                    ) <= score_of(registry.accounts[i].last_usage)
            },
{
    position_is_first(registry.accounts, registry.active_account_key->0);
    let i = best_exists(registry.accounts);
    assert forall|j: int| 0 <= j < registry.accounts.len() implies score_of(
        (#[trigger] registry.accounts[j]).last_usage,
    ) <= score_of(registry.accounts[i].last_usage) by {
        if j < i {
            assert(!worse(registry.accounts[i], registry.accounts[j]));
        } else if j > i {
            assert(worse(registry.accounts[j], registry.accounts[i]));
        }
    }
    assert(best_at(registry.accounts, i));
}

/// What is printed after an automatic switch.
pub fn auto_switch_done_line(account_key: &str) -> (r: String)
    ensures
        r@ == "auto-switched to "@ + account_key@,
{
    concat("auto-switched to ", account_key)
}

/// The time of the last usage, as it is shown.
pub open spec fn last_seen_text(value: Option<i64>) -> Seq<char> {
    match value {
        Some(value) => match utc_minute(value) {
            Some(text) => text,
            None => "-"@,
        },
        None => "-"@,
    }
}

/// A text, or a dash.
pub fn text_or_dash(text: Option<String>) -> (r: String)
    ensures
        r@ == match option_view(text) {
            Some(text) => text,
            None => "-"@,
        },
{
    match text {
        Some(text) => text,
        None => "-".to_owned(),
    }
}

/// The time of the last usage, as it is shown.
pub fn format_last_seen(value: Option<i64>) -> (r: String)
    ensures
        r@ == last_seen_text(value),
{
    match value {
        Some(value) => text_or_dash(format_utc_minute(value)),
        None => "-".to_owned(),
    }
}

/// The columns of the list, side by side.
pub open spec fn columns(
    mark: Seq<char>,
    account: Seq<char>,
    alias: Seq<char>,
    plan: Seq<char>,
    last: Seq<char>,
    active: Seq<char>,
) -> Seq<char> {
    padded(mark, 2) + " "@ + padded(account, 32) + " "@ + padded(alias, 12) + " "@ + padded(
        plan,
        12,
    ) + " "@ + padded(last, 18) + " "@ + padded(active, 8)
}

fn column_line(
    mark: &str,
    account: &str,
    alias: &str,
    plan: &str,
    last: &str,
    active: &str,
) -> (r: String)
    ensures
        r@ == columns(mark@, account@, alias@, plan@, last@, active@),
{
    let mut r = pad_right(mark, 2);
    r.append(" ");
    r.append(pad_right(account, 32).as_str());
    r.append(" ");
    r.append(pad_right(alias, 12).as_str());
    r.append(" ");
    r.append(pad_right(plan, 12).as_str());
    r.append(" ");
    r.append(pad_right(last, 18).as_str());
    r.append(" ");
    r.append(pad_right(active, 8).as_str());
    r
}

/// The heading of the list.
pub fn list_heading() -> (r: String)
    ensures
        r@ == columns(""@, "ACCOUNT"@, "ALIAS"@, "PLAN"@, "LAST"@, "ACTIVE"@),
{
    column_line("", "ACCOUNT", "ALIAS", "PLAN", "LAST", "ACTIVE")
}

/// The account column of a row, no wider than the column: an account that is the only one with its
/// email as it is offered, others set in below their heading.
pub open spec fn account_column(registry: RegistryView, row: RowView) -> Seq<char> {
    match row.account_index {
        Some(i) => if row.depth > 0 {
            truncated("  "@ + row.account_cell, 32)
        } else {
            account_label(registry.accounts[i])
        },
        None => truncated(row.account_cell, 32),
    }
}

/// A line of the list: the account with its alias, its plan, the time of its last usage, and a mark
/// where it is the active one. A heading has nothing but the email.
pub open spec fn list_line_text(registry: RegistryView, row: RowView) -> Seq<char> {
    match row.account_index {
        Some(i) => {
            let account = registry.accounts[i];
            columns(
                if row.is_active {
                    "*"@
                } else {
                    ""@
                },
                account_column(registry, row),
                truncated(account.alias, 12),
                plan_text(account),
                last_seen_text(account.last_usage_at),
                if row.is_active {
                    "yes"@
                } else {
                    ""@
                },
            )
        },
        None => columns(""@, account_column(registry, row), ""@, ""@, ""@, ""@),
    }
}

/// A line of the list.
pub fn list_line(registry: &Registry, row: &DisplayRow) -> (r: String)
    requires
        row@.account_index matches Some(i) ==> i < registry@.accounts.len(),
    ensures
        r@ == list_line_text(registry@, row@),
{
    match row.account_index {
        Some(i) => {
            assert(registry@.accounts[i as int] == registry.accounts@[i as int]@);
            let record = &registry.accounts[i];
            let account = if row.depth > 0 {
                truncate(concat("  ", row.account_cell.as_str()).as_str(), 32)
            } else {
                display_account(record)
            };
            column_line(
                if row.is_active {
                    "*"
                } else {
                    ""
                },
                account.as_str(),
                truncate(record.alias.as_str(), 12).as_str(),
                display_plan(record).as_str(),
                format_last_seen(record.last_usage_at).as_str(),
                if row.is_active {
                    "yes"
                } else {
                    ""
                },
            )
        },
        None => column_line("", truncate(row.account_cell.as_str(), 32).as_str(), "", "", "", ""),
    }
}

/// The lines of the list below its heading.
pub open spec fn list_texts(registry: RegistryView, rows: Seq<RowView>) -> Seq<Seq<char>> {
    rows.map_values(|row: RowView| list_line_text(registry, row))
}

/// The list of accounts: the accounts of an email stand together, below a heading where there are
/// several.
pub fn list_lines(registry: &Registry) -> (r: Vec<String>)
    ensures
        if registry@.accounts.len() == 0 {
            texts(r@) == seq!["no accounts"@]
        } else {
            exists|ordered: Seq<int>|
                #[trigger] stably_ordered(
                    registry@,
                    every_index(registry@.accounts.len()),
                    ordered,
                ) && texts(r@) == seq![
                    columns(""@, "ACCOUNT"@, "ALIAS"@, "PLAN"@, "LAST"@, "ACTIVE"@),
                ] + list_texts(registry@, rows_of(registry@, ordered))
        },
{
    let mut r: Vec<String> = Vec::new();
    if registry.accounts.len() == 0 {
        r.push("no accounts".to_owned());
        assert(texts(r@) =~= seq!["no accounts"@]);
        return r;
    }
    let rows = build_display_rows(registry, None);
    let ghost view = registry@;
    let ghost all = row_views(rows@);
    let ghost heading = seq![columns(""@, "ACCOUNT"@, "ALIAS"@, "PLAN"@, "LAST"@, "ACTIVE"@)];
    let ghost ordered = choose|ordered: Seq<int>|
        #[trigger] stably_ordered(view, every_index(view.accounts.len()), ordered) && all
            == rows_of(view, ordered);
    proof {
        rows_stay_in_range(view, ordered);
    }
    r.push(list_heading());
    let mut i: usize = 0;
    assert(texts(r@) =~= heading + list_texts(view, all.take(0)));
    while i < rows.len()
        invariant
            i <= rows.len(),
            view == registry@,
            all == row_views(rows@),
            forall|k: int|
                0 <= k < all.len() ==> ((#[trigger] all[k]).account_index matches Some(n)
                    ==> 0 <= n < view.accounts.len()),
            texts(r@) == heading + list_texts(view, all.take(i as int)),
        decreases rows.len() - i,
    {
        let ghost before = texts(r@);
        assert(all[i as int] == rows@[i as int]@);
        r.push(list_line(registry, &rows[i]));
        proof {
            assert(texts(r@) =~= before.push(list_line_text(view, all[i as int])));
            assert(all.take(i as int + 1) =~= all.take(i as int).push(all[i as int]));
            assert(texts(r@) =~= heading + list_texts(view, all.take(i as int + 1)));
        }
        i = i + 1;
    }
    assert(all.take(all.len() as int) =~= all);
    r
}

proof fn rows_stay_in_range(registry: RegistryView, ordered: Seq<int>)
    requires
        stably_ordered(registry, every_index(registry.accounts.len()), ordered),
    ensures
        forall|k: int|
            0 <= k < rows_of(registry, ordered).len() ==> ((#[trigger] rows_of(
                registry,
                ordered,
            )[k]).account_index matches Some(n) ==> 0 <= n < registry.accounts.len()),
{
    let indices = every_index(registry.accounts.len());
    indices.to_multiset_ensures();
    ordered.to_multiset_ensures();
    rows_show_every_account(registry, ordered);
    assert forall|k: int| 0 <= k < rows_of(registry, ordered).len() implies ((
    #[trigger] rows_of(registry, ordered)[k]).account_index matches Some(n) ==> 0 <= n
        < registry.accounts.len()) by {
        let rows = rows_of(registry, ordered);
        if let Some(n) = rows[k].account_index {
            row_account_is_listed(rows, k);
            assert(ordered.contains(n));
            assert(indices.to_multiset().count(n) > 0);
            assert(indices.contains(n));
        }
    }
}

/// How a file fared, as it is shown.
pub open spec fn outcome_text(outcome: ImportOutcome) -> Seq<char> {
    match outcome {
        ImportOutcome::Imported => "imported"@,
        ImportOutcome::Updated => "updated"@,
        ImportOutcome::Skipped => "skipped"@,
    }
}

/// The line of a file in the report of an import.
pub open spec fn report_item_text(item: (Seq<char>, ImportOutcome)) -> Seq<char> {
    "  "@ + padded(outcome_text(item.1), 8) + " "@ + item.0
}

/// The last line of the report of an import.
pub open spec fn report_summary(report: ReportView) -> Seq<char> {
    "Import Summary: "@ + decimal(report.imported as nat) + " imported, "@ + decimal(
        report.updated as nat,
    ) + " updated, "@ + decimal(report.skipped as nat) + " skipped (total "@ + decimal(
        report.items.len(),
    ) + " files)"@
}

fn report_item_line(item: &ImportItem) -> (r: String)
    ensures
        r@ == report_item_text((item.label@, item.outcome)),
{
    let status = match item.outcome {
        ImportOutcome::Imported => "imported",
        ImportOutcome::Updated => "updated",
        ImportOutcome::Skipped => "skipped",
    };
    let mut r = concat("  ", pad_right(status, 8).as_str());
    r.append(" ");
    r.append(item.label.as_str());
    r
}

/// The report of an import, line by line.
pub fn report_lines(report: &ImportReport) -> (r: Vec<String>)
    ensures
        texts(r@) == report@.items.map_values(
            |item: (Seq<char>, ImportOutcome)| report_item_text(item),
        ).push(report_summary(report@)),
{
    let ghost all = report@.items;
    let ghost line = |item: (Seq<char>, ImportOutcome)| report_item_text(item);
    let mut r: Vec<String> = Vec::new();
    let mut i: usize = 0;
    assert(texts(r@) =~= all.take(0).map_values(line));
    while i < report.items.len()
        invariant
            i <= report.items.len(),
            all == report@.items,
            line == (|item: (Seq<char>, ImportOutcome)| report_item_text(item)),
            texts(r@) == all.take(i as int).map_values(line),
        decreases report.items.len() - i,
    {
        let ghost before = texts(r@);
        r.push(report_item_line(&report.items[i]));
        proof {
            assert(all[i as int] == (report.items@[i as int].label@, report.items@[i as int].outcome));
            assert(texts(r@) =~= before.push(line(all[i as int])));
            assert(all.take(i as int + 1) =~= all.take(i as int).push(all[i as int]));
            assert(all.take(i as int + 1).map_values(line) =~= all.take(i as int).map_values(
                line,
            ).push(line(all[i as int])));
        }
        i = i + 1;
    }
    assert(all.take(all.len() as int) =~= all);
    let ghost before = texts(r@);
    let mut summary = concat("Import Summary: ", decimal_of(report.imported as u128).as_str());
    summary.append(" imported, ");
    summary.append(decimal_of(report.updated as u128).as_str());
    summary.append(" updated, ");
    summary.append(decimal_of(report.skipped as u128).as_str());
    summary.append(" skipped (total ");
    summary.append(decimal_of(report.items.len() as u128).as_str());
    summary.append(" files)");
    r.push(summary);
    assert(texts(r@) =~= before.push(report_summary(report@)));
    r
}

}
