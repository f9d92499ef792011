//! Bringing auth files in as accounts, and rebuilding the registry from them.

use vstd::prelude::*;
use vstd::utf8::encode_utf8;

use crate::auth::{
    auth_data_outcome, auth_result_view, convert_cpa_auth_json, converted_cpa_data, cpa_tokens,
    is_standard_document, parse_auth_info_data, standard_auth_text, AuthError, AuthInfo, AuthView,
    JwtClaims, TokensView,
};
use crate::chatgpt_api::MeFetchResult;
use crate::json::{document_of, standard_file_is_read};
use crate::laws::{all_upserted, distinct_keys, import_adds_keys};
use crate::model::{
    empty_registry, has_account, AccountRecord, AccountView, AuthMode, Registry, RegistryView,
};
use crate::paths::{account_file_name, snapshot_name};
use crate::registry::{
    account_from_api_key_me, account_from_auth_info, account_of_api_key, account_of_auth,
    upsert_account, with_account, AccountError, AccountSource, ImportOutcome,
};
use crate::text::{option_str_view, option_view, same};

verus! {

/// What became of one file.
#[derive(Debug)]
pub struct ImportItem {
    pub label: String,
    pub outcome: ImportOutcome,
}

/// What became of every file of an import.
#[derive(Debug)]
pub struct ImportReport {
    pub items: Vec<ImportItem>,
    pub imported: usize,
    pub updated: usize,
    pub skipped: usize,
}

/// The model of [`ImportReport`].
#[verifier::ext_equal]
pub struct ReportView {
    pub items: Seq<(Seq<char>, ImportOutcome)>,
    pub imported: int,
    pub updated: int,
    pub skipped: int,
}

impl View for ImportReport {
    type V = ReportView;

    open spec fn view(&self) -> ReportView {
        ReportView {
            items: self.items@.map_values(|item: ImportItem| (item.label@, item.outcome)),
            imported: self.imported as int,
            updated: self.updated as int,
            skipped: self.skipped as int,
        }
    }
}

/// How many of the files had the outcome.
pub open spec fn tally(items: Seq<(Seq<char>, ImportOutcome)>, outcome: ImportOutcome) -> nat
    decreases items.len(),
{
    if items.len() == 0 {
        0
    } else {
        tally(items.drop_last(), outcome) + if items.last().1 == outcome {
            1nat
        } else {
            0nat
        }
    }
}

/// The counters of the report count its items.
pub open spec fn counted(report: ReportView) -> bool {
    &&& report.imported == tally(report.items, ImportOutcome::Imported)
    &&& report.updated == tally(report.items, ImportOutcome::Updated)
    &&& report.skipped == tally(report.items, ImportOutcome::Skipped)
}

/// The counter of an outcome.
pub open spec fn counter(report: ReportView, outcome: ImportOutcome) -> int {
    match outcome {
        ImportOutcome::Imported => report.imported,
        ImportOutcome::Updated => report.updated,
        ImportOutcome::Skipped => report.skipped,
    }
}

/// The report with one more file.
pub open spec fn with_item(
    report: ReportView,
    label: Seq<char>,
    outcome: ImportOutcome,
) -> ReportView {
    ReportView {
        items: report.items.push((label, outcome)),
        imported: report.imported + if outcome == ImportOutcome::Imported {
            1int
        } else {
            0int
        },
        updated: report.updated + if outcome == ImportOutcome::Updated {
            1int
        } else {
            0int
        },
        skipped: report.skipped + if outcome == ImportOutcome::Skipped {
            1int
        } else {
            0int
        },
    }
}

/// The report before any file was looked at.
pub open spec fn empty_report() -> ReportView {
    ReportView { items: Seq::empty(), imported: 0, updated: 0, skipped: 0 }
}

impl Default for ImportReport {
    fn default() -> (r: Self)
        ensures
            r@ == empty_report(),
    {
        let r = ImportReport { items: Vec::new(), imported: 0, updated: 0, skipped: 0 };
        assert(r@.items =~= Seq::empty());
        r
    }
}

impl ImportReport {
    /// Adds what became of a file.
    pub fn push(&mut self, label: String, outcome: ImportOutcome)
        requires
            counter(old(self)@, outcome) < usize::MAX,
        ensures
            final(self)@ == with_item(old(self)@, label@, outcome),
    {
        let ghost before = self@;
        match outcome {
            ImportOutcome::Imported => {
                self.imported = self.imported + 1;
            },
            ImportOutcome::Updated => {
                self.updated = self.updated + 1;
            },
            ImportOutcome::Skipped => {
                self.skipped = self.skipped + 1;
            },
        }
        self.items.push(ImportItem { label, outcome });
        assert(self@.items =~= before.items.push((label@, outcome)));
    }

    /// How many files changed the registry.
    pub fn applied_count(&self) -> (n: usize)
        requires
            self@.imported + self@.updated <= usize::MAX,
        ensures
            n == self@.imported + self@.updated,
    {
        self.imported + self.updated
    }
}

/// The counters go on counting the items, whatever is added.
pub proof fn report_stays_counted(report: ReportView, label: Seq<char>, outcome: ImportOutcome)
    requires
        counted(report),
    ensures
        counted(with_item(report, label, outcome)),
        counted(empty_report()),
{
    let after = with_item(report, label, outcome);
    assert(after.items.drop_last() =~= report.items);
    assert(after.items.last() == (label, outcome));
}

/// Every file is counted once.
pub proof fn report_counts_files(report: ReportView)
    requires
        counted(report),
    ensures
        report.imported + report.updated + report.skipped == report.items.len(),
    decreases report.items.len(),
{
    if report.items.len() > 0 {
        let rest = report.items.drop_last();
        report_counts_files(
            ReportView {
                items: rest,
                imported: tally(rest, ImportOutcome::Imported) as int,
                updated: tally(rest, ImportOutcome::Updated) as int,
                skipped: tally(rest, ImportOutcome::Skipped) as int,
            },
        );
    }
}

/// The bytes that are stored for a file: a CPA file is turned into a standard one first.
pub open spec fn prepared(data: Seq<u8>, cpa: bool) -> Result<Seq<u8>, AuthError> {
    if cpa {
        converted_cpa_data(data)
    } else {
        Ok(data)
    }
}

/// The bytes that are stored for a file.
pub fn prepare_import(data: Vec<u8>, cpa: bool) -> (r: Result<Vec<u8>, AuthError>)
    ensures
        match r {
            Ok(file) => prepared(data@, cpa) == Ok::<Seq<u8>, AuthError>(file@),
            Err(error) => prepared(data@, cpa) == Err::<Seq<u8>, AuthError>(error),
        },
{
    if cpa {
        convert_cpa_auth_json(data.as_slice())
    } else {
        Ok(data)
    }
}

/// What a file to import turns out to be.
#[derive(Debug)]
pub enum ImportSource {
    /// No account can be made of it.
    Skip,
    /// It is the auth file of this account.
    Account(AccountRecord),
    /// It holds an API key, and the service has to say whose it is.
    FetchMe { api_key: String, auth: AuthInfo },
}

/// `source` is what a file that says `auth`, or is malformed, turns out to be at the time `now`.
pub open spec fn source_of(
    auth: Result<AuthView, AuthError>,
    alias: Seq<char>,
    now: i64,
    source: ImportSource,
) -> bool {
    match auth {
        Err(_) => source is Skip,
        Ok(auth) => match auth.auth_mode {
            AuthMode::Chatgpt => match account_of_auth(alias, auth, now) {
                Ok(account) => source matches ImportSource::Account(record) && record@ == account,
                Err(_) => source is Skip,
            },
            AuthMode::Apikey => match auth.openai_api_key {
                Some(key) => source matches ImportSource::FetchMe { api_key, auth: kept }
                    && api_key@ == key && kept@ == auth,
                None => source is Skip,
            },
        },
    }
}

/// What a parsed auth file turns out to be.
pub fn source_of_auth(auth: Result<AuthInfo, AuthError>, alias: &str) -> (source: ImportSource)
    ensures
        exists|now: i64| #[trigger] source_of(auth_result_view(auth), alias@, now, source),
{
    match auth {
        Err(_) => {
            let source = ImportSource::Skip;
            assert(source_of(auth_result_view(auth), alias@, 0, source));
            source
        },
        Ok(info) => {
            let found = account_from_auth_info(alias, &info);
            let ghost now = choose|now: i64|
                match (#[trigger] account_of_auth(alias@, info@, now)) {
                    Ok(account) => found matches Ok(AccountSource::Record(record)) && record@
                        == account,
                    Err(error) => found == Err::<AccountSource, AccountError>(error),
                };
            let source = match found {
                Ok(AccountSource::Record(record)) => ImportSource::Account(record),
                Ok(AccountSource::FetchMe(api_key)) => ImportSource::FetchMe {
                    api_key,
                    auth: info,
                },
                Err(_) => ImportSource::Skip,
            };
            assert(source_of(auth_result_view(auth), alias@, now, source));
            source
        },
    }
}

/// What the bytes of an auth file turn out to be.
pub fn read_import<F: Fn(Vec<u8>) -> Option<JwtClaims>>(
    data: &[u8],
    alias: &str,
    read_claims: F,
) -> (source: ImportSource)
    requires
        forall|payload: Vec<u8>| #[trigger] read_claims.requires((payload,)),
    ensures
        exists|auth: Result<AuthView, AuthError>, now: i64|
            #[trigger] auth_data_outcome(data@, read_claims, auth) && #[trigger] source_of(
                auth,
                alias@,
                now,
                source,
            ),
        standard_file_is_read(data@, document_of(data@)),
{
    let auth = parse_auth_info_data(data, read_claims);
    assert(auth_data_outcome(data@, read_claims, auth_result_view(auth)));
    source_of_auth(auth, alias)
}

/// `source` is what the stored bytes of a file turn out to be.
pub open spec fn stored_source<F: Fn(Vec<u8>) -> Option<JwtClaims>>(
    file: Seq<u8>,
    alias: Seq<char>,
    read_claims: F,
    source: ImportSource,
) -> bool {
    exists|auth: Result<AuthView, AuthError>, now: i64|
        #[trigger] auth_data_outcome(file, read_claims, auth) && #[trigger] source_of(
            auth,
            alias,
            now,
            source,
        )
}

/// The tokens that a CPA file holds.
pub open spec fn cpa_file_tokens(data: Seq<u8>) -> Result<TokensView, AuthError> {
    match document_of(data) {
        Some(root) => cpa_tokens(root),
        None => Err(AuthError::InvalidCpaJson),
    }
}

/// The bytes to store for a file, and what they turn out to be. A CPA file is turned into a
/// standard one first, and the standard one is read as the document that holds the tokens of the
/// CPA file.
pub fn load_import<F: Fn(Vec<u8>) -> Option<JwtClaims>>(
    data: Vec<u8>,
    cpa: bool,
    alias: &str,
    read_claims: F,
) -> (r: Result<(Vec<u8>, ImportSource), AuthError>)
    requires
        forall|payload: Vec<u8>| #[trigger] read_claims.requires((payload,)),
    ensures
        match r {
            Ok((file, source)) => {
                &&& prepared(data@, cpa) == Ok::<Seq<u8>, AuthError>(file@)
                &&& stored_source(file@, alias@, read_claims, source)
                &&& cpa ==> {
                    &&& cpa_file_tokens(data@) is Ok
                    &&& document_of(file@) is Some
                    &&& is_standard_document(document_of(file@)->0, cpa_file_tokens(data@)->Ok_0)
                }
            },
            Err(error) => prepared(data@, cpa) == Err::<Seq<u8>, AuthError>(error),
        },
{
    let ghost bytes = data@;
    match prepare_import(data, cpa) {
        Ok(file) => {
            let source = read_import(file.as_slice(), alias, read_claims);
            proof {
                if cpa {
                    let tokens = cpa_tokens(document_of(bytes)->0)->Ok_0;
                    assert(file@ == encode_utf8(standard_auth_text(tokens)));
                }
            }
            Ok((file, source))
        },
        Err(error) => Err(error),
    }
}

/// The account of an API key file once the service was asked whose key it is; none where the
/// service did not say.
pub fn source_of_me(alias: &str, auth: &AuthInfo, me: Option<&MeFetchResult>) -> (r: Option<
    AccountRecord,
>)
    ensures
        match (me, auth@.openai_api_key) {
            (Some(me), Some(_)) => exists|now: i64|
                r matches Some(record) && (#[trigger] account_of_api_key(
                    alias@,
                    auth@,
                    me.user_id@,
                    me.email@,
                    now,
                )) == Ok::<AccountView, AccountError>(record@),
            _ => r is None,
        },
{
    match me {
        Some(me) => match account_from_api_key_me(alias, auth, me) {
            Ok(record) => Some(record),
            Err(_) => None,
        },
        None => None,
    }
}

/// The alias that an import gives.
pub open spec fn alias_text(alias: Option<Seq<char>>) -> Seq<char> {
    match alias {
        Some(alias) => alias,
        None => Seq::empty(),
    }
}

/// The alias that an import gives: the empty one where none was asked for.
pub fn alias_or_empty(alias: Option<&str>) -> (r: String)
    ensures
        r@ == alias_text(option_str_view(alias)),
{
    match alias {
        Some(alias) => alias.to_owned(),
        None => String::new(),
    }
}

/// An account with the alias of the import.
pub open spec fn aliased(account: AccountView, alias: Option<Seq<char>>) -> AccountView {
    AccountView { alias: alias_text(alias), ..account }
}

/// What an import has come to: the registry, and the report so far.
#[verifier::ext_equal]
pub struct ImportState {
    pub registry: RegistryView,
    pub report: ReportView,
}

/// A file is imported where it is that of an account with a key.
pub open spec fn importable(account: Option<AccountView>) -> bool {
    account matches Some(account) && account.account_key.len() > 0
}

/// The outcome of putting an account into the registry.
pub open spec fn upsert_outcome(accounts: Seq<AccountView>, key: Seq<char>) -> ImportOutcome {
    if has_account(accounts, key) {
        ImportOutcome::Updated
    } else {
        ImportOutcome::Imported
    }
}

/// After one more file: its account enters the registry under the alias, and the report under its
/// email. A file that is not imported enters the report under its path.
pub open spec fn after_import(
    state: ImportState,
    file: Seq<char>,
    account: Option<AccountView>,
    alias: Option<Seq<char>>,
) -> ImportState {
    if importable(account) {
        ImportState {
            registry: with_account(state.registry, aliased(account->0, alias)),
            report: with_item(
                state.report,
                account->0.email,
                upsert_outcome(state.registry.accounts, account->0.account_key),
            ),
        }
    } else {
        ImportState {
            registry: state.registry,
            report: with_item(state.report, file, ImportOutcome::Skipped),
        }
    }
}

/// The model of an account that may be missing.
pub open spec fn option_account_view(account: Option<AccountRecord>) -> Option<AccountView> {
    match account {
        Some(account) => Some(account@),
        None => None,
    }
}

/// The name of the snapshot that is stored for a file before [`import_file`], where the file is
/// imported.
pub fn snapshot_to_store(account: &Option<AccountRecord>) -> (r: Option<String>)
    ensures
        match option_view(r) {
            Some(name) => importable(option_account_view(*account)) && name == snapshot_name(
                account->0@.account_key,
            ),
            None => !importable(option_account_view(*account)),
        },
{
    match account {
        Some(account) => if account.account_key.as_str().is_empty() {
            None
        } else {
            Some(account_file_name(account.account_key.as_str()))
        },
        None => None,
    }
}

/// Imports a file that turned out to be that of an account, or of none.
pub fn import_file(
    registry: &mut Registry,
    report: &mut ImportReport,
    file: String,
    account: Option<AccountRecord>,
    alias: Option<&str>,
)
    requires
        old(report)@.imported < usize::MAX,
        old(report)@.updated < usize::MAX,
        old(report)@.skipped < usize::MAX,
    ensures
        (ImportState { registry: final(registry)@, report: final(report)@ }) == after_import(
            ImportState { registry: old(registry)@, report: old(report)@ },
            file@,
            option_account_view(account),
            option_str_view(alias),
        ),
{
    match account {
        Some(account) => {
            if account.account_key.as_str().is_empty() {
                report.push(file, ImportOutcome::Skipped);
                return ;
            }
            let label = account.email.clone();
            let ghost view = account@;
            let record = AccountRecord { alias: alias_or_empty(alias), ..account };
            assert(record@ == aliased(view, option_str_view(alias)));
            let outcome = upsert_account(registry, record);
            report.push(label, outcome);
        },
        None => {
            report.push(file, ImportOutcome::Skipped);
        },
    }
}

/// Whether a rebuild of the registry looks at a file: the registry itself is no auth file.
pub fn is_purge_source(file_name: Option<&str>) -> (r: bool)
    ensures
        r == (option_str_view(file_name) != Some("registry.json"@)),
{
    match file_name {
        Some(name) => !same(name, "registry.json"),
        None => true,
    }
}

/// After one more file of a rebuild: its account enters the registry under the alias, and the
/// report as imported under its email. A file without an account enters the report under its path.
pub open spec fn after_purge(
    state: ImportState,
    file: Seq<char>,
    account: Option<AccountView>,
    alias: Option<Seq<char>>,
) -> ImportState {
    match account {
        Some(account) => ImportState {
            registry: with_account(state.registry, aliased(account, alias)),
            report: with_item(state.report, account.email, ImportOutcome::Imported),
        },
        None => ImportState {
            registry: state.registry,
            report: with_item(state.report, file, ImportOutcome::Skipped),
        },
    }
}

/// Rebuilds the registry by a file that turned out to be that of an account, or of none.
pub fn purge_file(
    registry: &mut Registry,
    report: &mut ImportReport,
    file: String,
    account: Option<AccountRecord>,
    alias: Option<&str>,
)
    requires
        old(report)@.imported < usize::MAX,
        old(report)@.skipped < usize::MAX,
    ensures
        (ImportState { registry: final(registry)@, report: final(report)@ }) == after_purge(
            ImportState { registry: old(registry)@, report: old(report)@ },
            file@,
            option_account_view(account),
            option_str_view(alias),
        ),
{
    match account {
        Some(account) => {
            let label = account.email.clone();
            let ghost view = account@;
            let record = AccountRecord { alias: alias_or_empty(alias), ..account };
            assert(record@ == aliased(view, option_str_view(alias)));
            let _ = upsert_account(registry, record);
            report.push(label, ImportOutcome::Imported);
        },
        None => {
            report.push(file, ImportOutcome::Skipped);
        },
    }
}

/// After several files, each with its path and the account that it turned out to be of.
pub open spec fn import_run(
    state: ImportState,
    files: Seq<(Seq<char>, Option<AccountView>)>,
    alias: Option<Seq<char>>,
) -> ImportState
    decreases files.len(),
{
    if files.len() == 0 {
        state
    } else {
        let last = files.last();
        after_import(import_run(state, files.drop_last(), alias), last.0, last.1, alias)
    }
}

/// After several files of a rebuild.
pub open spec fn purge_run(
    state: ImportState,
    files: Seq<(Seq<char>, Option<AccountView>)>,
    alias: Option<Seq<char>>,
) -> ImportState
    decreases files.len(),
{
    if files.len() == 0 {
        state
    } else {
        let last = files.last();
        after_purge(purge_run(state, files.drop_last(), alias), last.0, last.1, alias)
    }
}

/// The accounts of the files that are imported, in order, under the alias.
pub open spec fn imported_accounts(
    files: Seq<(Seq<char>, Option<AccountView>)>,
    alias: Option<Seq<char>>,
) -> Seq<AccountView>
    decreases files.len(),
{
    if files.len() == 0 {
        Seq::empty()
    } else {
        let rest = imported_accounts(files.drop_last(), alias);
        if importable(files.last().1) {
            rest.push(aliased(files.last().1->0, alias))
        } else {
            rest
        }
    }
}

/// The accounts of the files of a rebuild, in order, under the alias.
pub open spec fn purged_accounts(
    files: Seq<(Seq<char>, Option<AccountView>)>,
    alias: Option<Seq<char>>,
) -> Seq<AccountView>
    decreases files.len(),
{
    if files.len() == 0 {
        Seq::empty()
    } else {
        let rest = purged_accounts(files.drop_last(), alias);
        match files.last().1 {
            Some(account) => rest.push(aliased(account, alias)),
            None => rest,
        }
    }
}

/// An import puts the accounts of its files into the registry one behind the other, changes nothing
/// else there, and reports every file: as applied where it was imported, else as skipped.
pub proof fn import_run_is_complete(
    state: ImportState,
    files: Seq<(Seq<char>, Option<AccountView>)>,
    alias: Option<Seq<char>>,
)
    requires
        counted(state.report),
    ensures
        ({
            let after = import_run(state, files, alias);
            let records = imported_accounts(files, alias);
            &&& after.registry == (RegistryView {
                accounts: all_upserted(state.registry.accounts, records),
                ..state.registry
            })
            &&& counted(after.report)
            &&& after.report.items.len() == state.report.items.len() + files.len()
            &&& after.report.imported + after.report.updated == state.report.imported
                + state.report.updated + records.len()
        }),
    decreases files.len(),
{
    if files.len() > 0 {
        import_run_is_complete(state, files.drop_last(), alias);
        let before = import_run(state, files.drop_last(), alias);
        let last = files.last();
        let after = import_run(state, files, alias);
        let rest = imported_accounts(files.drop_last(), alias);
        if importable(last.1) {
            let record = aliased(last.1->0, alias);
            assert(imported_accounts(files, alias).drop_last() =~= rest);
            let outcome = upsert_outcome(before.registry.accounts, last.1->0.account_key);
            report_stays_counted(before.report, last.1->0.email, outcome);
        } else {
            report_stays_counted(before.report, last.0, ImportOutcome::Skipped);
        }
    }
}

/// A rebuild leaves a registry of exactly the accounts of its files, each key once, and reports
/// every file: as imported where it was that of an account, else as skipped.
pub proof fn purge_run_is_complete(
    files: Seq<(Seq<char>, Option<AccountView>)>,
    alias: Option<Seq<char>>,
    key: Seq<char>,
)
    ensures
        ({
            let start = ImportState { registry: empty_registry(), report: empty_report() };
            let after = purge_run(start, files, alias);
            let records = purged_accounts(files, alias);
            &&& after.registry == (RegistryView {
                accounts: all_upserted(Seq::empty(), records),
                ..empty_registry()
            })
            &&& has_account(after.registry.accounts, key) == has_account(records, key)
            &&& distinct_keys(after.registry.accounts)
            &&& counted(after.report)
            &&& after.report.items.len() == files.len()
            &&& after.report.updated == 0
            &&& after.report.imported == records.len()
        }),
    decreases files.len(),
{
    let start = ImportState { registry: empty_registry(), report: empty_report() };
    let records = purged_accounts(files, alias);
    import_adds_keys(Seq::empty(), records, key);
    if files.len() > 0 {
        purge_run_is_complete(files.drop_last(), alias, key);
        let before = purge_run(start, files.drop_last(), alias);
        let last = files.last();
        let rest = purged_accounts(files.drop_last(), alias);
        match last.1 {
            Some(account) => {
                assert(records.drop_last() =~= rest);
                report_stays_counted(before.report, account.email, ImportOutcome::Imported);
            },
            None => {
                report_stays_counted(before.report, last.0, ImportOutcome::Skipped);
            },
        }
    }
}

/// The registry with an account active since the beginning of time.
pub open spec fn active_from_start(registry: RegistryView, key: Seq<char>) -> RegistryView {
    RegistryView {
        active_account_key: Some(key),
        active_account_activated_at_ms: Some(0),
        ..registry
    }
}

/// Ends a rebuild: the account of the active auth file, where it is that of one, is the active one.
pub fn finish_purge(registry: &mut Registry, active: Option<&AccountRecord>)
    ensures
        final(registry)@ == match active {
            Some(record) => active_from_start(old(registry)@, record@.account_key),
            None => old(registry)@,
        },
{
    if let Some(record) = active {
        registry.active_account_key = Some(record.account_key.clone());
        registry.active_account_activated_at_ms = Some(0);
    }
}

}
