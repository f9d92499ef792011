//! What the user is shown, said of the accounts and settings that are shown.

use vstd::prelude::*;

use crate::cli::ConfigToggle;
use crate::clock::{utc_minute, LocalTime};
use crate::commands::{
    acceptable, account_column, account_label, api_text, auto_switch_text, columns, keys_of, last_seen_text,
    list_line_text, list_texts, offers_of, report_item_text, report_summary, status_text, toggled,
    truncated, usage_text, valid_percent, with_5h, with_api, with_auto_switch, with_weekly,
};
use crate::display::{
    activity_text, emails_stand_together, goes_by_plan, group_len, group_rows, grouped_cell,
    has_no_label, in_display_order, plan_count, plan_count_before, plan_text,
    preferred_label, rate_limit_text, rows_of, same_email_len, shown_before, window_for, RowView,
};
use crate::import::ReportView;
use crate::model::{
    active_account_view, plan_name, AccountView, ApiConfig, AutoSwitchConfig, PlanType,
    RateLimitWindow, RegistryView, SnapshotView,
};
use crate::registry::ImportOutcome;
use crate::text::{decimal, padded, text_less};

verus! {

/// The row is that of an account, and is marked exactly where the key of that account is the active
/// key.
pub open spec fn is_marked_rightly(registry: RegistryView, row: RowView) -> bool {
    row.account_index is Some ==> {
        let account = registry.accounts[row.account_index->0];
        row.is_active == (registry.active_account_key == Some(account.account_key))
    }
}

/// Every row of the list is marked exactly where its account is the active one, be it alone under
/// its email or not; a heading is never marked.
pub proof fn rows_mark_the_active_account(registry: RegistryView, ordered: Seq<int>)
    ensures
        forall|k: int|
            0 <= k < rows_of(registry, ordered).len() ==> is_marked_rightly(
                registry,
                #[trigger] rows_of(registry, ordered)[k],
            ),
        forall|k: int|
            0 <= k < rows_of(registry, ordered).len() ==> ((#[trigger] rows_of(
                registry,
                ordered,
            )[k]).account_index is None ==> !rows_of(registry, ordered)[k].is_active),
    decreases ordered.len(),
{
    let n = group_len(registry.accounts, ordered);
    if ordered.len() == 0 || n == 0 || n > ordered.len() {
    } else {
        let group = ordered.take(n as int);
        let rest = ordered.skip(n as int);
        rows_mark_the_active_account(registry, rest);
        let head = group_rows(registry, group);
        let tail = rows_of(registry, rest);
        let rows = rows_of(registry, ordered);
        assert(rows == head + tail);
        assert forall|k: int| 0 <= k < rows.len() implies is_marked_rightly(
            registry,
            #[trigger] rows[k],
        ) && (rows[k].account_index is None ==> !rows[k].is_active) by {
            if k >= head.len() {
                assert(rows[k] == tail[k - head.len()]);
            } else {
                assert(rows[k] == head[k]);
            }
        }
    }
}

proof fn padded_begins_with(s: Seq<char>, width: nat)
    ensures
        padded(s, width).len() == if s.len() >= width {
            s.len()
        } else {
            width
        },
        s.is_prefix_of(padded(s, width)),
        forall|k: int| s.len() <= k < padded(s, width).len() ==> #[trigger] padded(s, width)[k]
            == ' ',
{
    assert(padded(s, width).take(s.len() as int) =~= s);
}

/// The line of an account begins with a star, and ends with `yes`, exactly where the account is the
/// active one, whether or not others share its email. Between these stand the account, the alias cut
/// to its column, and the plan.
pub proof fn line_marks_the_active_account(registry: RegistryView, row: RowView, i: int)
    requires
        row.account_index == Some(i),
        is_marked_rightly(registry, row),
    ensures
        ({
            let line = list_line_text(registry, row);
            let account = registry.accounts[i];
            let active = registry.active_account_key == Some(account.account_key);
            &&& line.len() >= 89
            &&& line[0] == if active {
                '*'
            } else {
                ' '
            }
            &&& line[1] == ' '
            &&& line[2] == ' '
            &&& line.subrange(line.len() - 8, line.len() as int) == if active {
                padded("yes"@, 8)
            } else {
                padded(""@, 8)
            }
            &&& line.subrange(3, 35) == padded(account_column(registry, row), 32)
            &&& line.subrange(36, 48) == padded(truncated(account.alias, 12), 12)
            &&& line.subrange(49, 61) == padded(
                if account.plan is Some {
                    plan_name(account.plan->0)
                } else {
                    "-"@
                },
                12,
            )
            &&& line.subrange(62, line.len() - 9) == padded(last_seen_text(account.last_usage_at), 18)
        }),
{
    reveal_strlit("*");
    reveal_strlit("");
    reveal_strlit("yes");
    reveal_strlit(" ");
    reveal_strlit(".");
    reveal_strlit("-");
    reveal_strlit("free");
    reveal_strlit("plus");
    reveal_strlit("prolite");
    reveal_strlit("pro");
    reveal_strlit("team");
    reveal_strlit("business");
    reveal_strlit("enterprise");
    reveal_strlit("edu");
    reveal_strlit("unknown");
    let account = registry.accounts[i];
    let mark = if row.is_active {
        "*"@
    } else {
        ""@
    };
    let end = if row.is_active {
        "yes"@
    } else {
        ""@
    };
    let a = account_column(registry, row);
    let b = truncated(account.alias, 12);
    let c = plan_text(account);
    let d = last_seen_text(account.last_usage_at);
    padded_begins_with(mark, 2);
    padded_begins_with(a, 32);
    padded_begins_with(b, 12);
    padded_begins_with(c, 12);
    padded_begins_with(d, 18);
    padded_begins_with(end, 8);
    let line = list_line_text(registry, row);
    assert(line == columns(mark, a, b, c, d, end));
    assert(padded(mark, 2).len() == 2);
    assert(padded(a, 32).len() == 32);
    assert(padded(b, 12).len() == 12);
    assert(padded(c, 12).len() == 12);
    assert(padded(end, 8).len() == 8);
    assert(line.subrange(3, 35) =~= padded(a, 32));
    assert(line.subrange(36, 48) =~= padded(b, 12));
    assert(line.subrange(49, 61) =~= padded(c, 12));
    assert(line.subrange(62, line.len() - 9) =~= padded(d, 18));
    assert(line.subrange(line.len() - 8, line.len() as int) =~= padded(end, 8));
    assert(line[0] == padded(mark, 2)[0]);
    assert(line[1] == padded(mark, 2)[1]);
}

/// An account alone under its email is shown by email and alias; an account below a heading is set
/// in by two blanks; a heading is the email. All are cut to the column.
pub proof fn account_column_fits(registry: RegistryView, row: RowView)
    ensures
        account_column(registry, row).len() <= 32,
        row.account_index is Some && row.depth == 0 ==> account_column(registry, row)
            == account_label(registry.accounts[row.account_index->0]),
        row.account_index is Some && row.depth == 1 && row.account_cell.len() <= 30
            ==> account_column(registry, row) == "  "@ + row.account_cell,
        row.account_index is None && row.account_cell.len() <= 32 ==> account_column(registry, row)
            == row.account_cell,
{
    reveal_strlit(".");
    reveal_strlit("  ");
}

/// An account is offered by its email, with its alias in brackets where it has one, cut to the
/// column where that is too long.
pub proof fn account_is_offered_by_email_and_alias(account: AccountView)
    ensures
        account.alias.len() == 0 && account.email.len() <= 32 ==> account_label(account)
            == account.email,
        account.alias.len() > 0 && account.email.len() + account.alias.len() + 3 <= 32
            ==> account_label(account) == account.email + " ("@ + account.alias + ")"@,
        account.email.len() > 32 ==> account_label(account) == account.email.take(31) + "."@,
        account_label(account).len() <= 32,
{
    reveal_strlit(" (");
    reveal_strlit(")");
    reveal_strlit(".");
    let whole = account.email + " ("@ + account.alias + ")"@;
    if account.email.len() > 32 && account.alias.len() > 0 {
        assert(whole.take(31) =~= account.email.take(31));
    }
}

/// No two of the indices are of accounts with the email.
pub open spec fn is_alone(registry: RegistryView, ordered: Seq<int>, email: Seq<char>) -> bool {
    forall|p: int, q: int|
        0 <= p < q < ordered.len() ==> !(registry.accounts[#[trigger] ordered[p]].email == email
            && registry.accounts[#[trigger] ordered[q]].email == email)
}

proof fn group_is_maximal(accounts: Seq<AccountView>, ordered: Seq<int>, email: Seq<char>)
    ensures
        same_email_len(accounts, ordered, email) <= ordered.len(),
        forall|k: int|
            0 <= k < same_email_len(accounts, ordered, email) ==> accounts[#[trigger] ordered[k]].email
                == email,
        same_email_len(accounts, ordered, email) < ordered.len() ==> accounts[ordered[same_email_len(
            accounts,
            ordered,
            email,
        ) as int]].email != email,
    decreases ordered.len(),
{
    if ordered.len() > 0 && accounts[ordered[0]].email == email {
        let rest = ordered.drop_first();
        group_is_maximal(accounts, rest, email);
        assert forall|k: int| 0 <= k < same_email_len(accounts, ordered, email) implies accounts[
        #[trigger] ordered[k]].email == email by {
            if k > 0 {
                assert(rest[k - 1] == ordered[k]);
            }
        }
        let n = same_email_len(accounts, rest, email) as int;
        if n < rest.len() {
            assert(rest[n] == ordered[n + 1]);
        }
    }
}

/// The row of an account that is alone under its email stands by itself and shows the email; the
/// row of any other stands below a heading, and a heading shows the email that several share.
pub open spec fn is_placed_rightly(
    registry: RegistryView,
    ordered: Seq<int>,
    row: RowView,
) -> bool {
    &&& row.depth == 0 || row.depth == 1
    &&& row.account_index is Some ==> {
        let email = registry.accounts[row.account_index->0].email;
        &&& (row.depth == 0) == is_alone(registry, ordered, email)
        &&& row.depth == 0 ==> row.account_cell == email
    }
    &&& row.account_index is None ==> row.depth == 0 && !is_alone(
        registry,
        ordered,
        row.account_cell,
    )
}

/// Every row of the list stands where it belongs.
pub proof fn rows_are_grouped_by_email(registry: RegistryView, ordered: Seq<int>)
    requires
        in_display_order(registry, ordered),
    ensures
        forall|k: int|
            0 <= k < rows_of(registry, ordered).len() ==> is_placed_rightly(
                registry,
                ordered,
                #[trigger] rows_of(registry, ordered)[k],
            ),
    decreases ordered.len(),
{
    if ordered.len() > 0 {
        let accounts = registry.accounts;
        let email = accounts[ordered[0]].email;
        let n = group_len(accounts, ordered) as int;
        group_is_maximal(accounts, ordered, email);
        let group = ordered.take(n);
        let rest = ordered.skip(n);
        assert forall|p: int| n <= p < ordered.len() implies accounts[
        #[trigger] ordered[p]].email != email by {
            if accounts[ordered[p]].email == email {
                emails_stand_together(registry, ordered, 0, n, p);
            }
        }
        assert forall|k: int, l: int| 0 <= k < l < rest.len() implies !shown_before(
            registry,
            #[trigger] rest[l],
            #[trigger] rest[k],
        ) by {
            assert(rest[l] == ordered[n + l] && rest[k] == ordered[n + k]);
        }
        rows_are_grouped_by_email(registry, rest);
        assert forall|other: Seq<char>| other != email implies #[trigger] is_alone(
            registry,
            ordered,
            other,
        ) == is_alone(registry, rest, other) by {
            if is_alone(registry, ordered, other) {
                assert forall|p: int, q: int| 0 <= p < q < rest.len() implies !(accounts[
                #[trigger] rest[p]].email == other && accounts[#[trigger] rest[q]].email
                    == other) by {
                    assert(rest[p] == ordered[n + p] && rest[q] == ordered[n + q]);
                }
            }
            if is_alone(registry, rest, other) {
                assert forall|p: int, q: int| 0 <= p < q < ordered.len() implies !(accounts[
                #[trigger] ordered[p]].email == other && accounts[#[trigger] ordered[q]].email
                    == other) by {
                    if p >= n {
                        assert(rest[p - n] == ordered[p] && rest[q - n] == ordered[q]);
                    }
                }
            }
        }
        assert(is_alone(registry, ordered, email) == (n == 1)) by {
            if n > 1 {
                assert(accounts[ordered[0]].email == email && accounts[ordered[1]].email == email);
            }
        }
        let head = group_rows(registry, group);
        let tail = rows_of(registry, rest);
        let rows = rows_of(registry, ordered);
        assert(rows == head + tail);
        rows_name_listed_accounts(registry, rest);
        assert forall|k: int| 0 <= k < rows.len() implies is_placed_rightly(
            registry,
            ordered,
            #[trigger] rows[k],
        ) by {
            if k >= head.len() {
                let row = tail[k - head.len()];
                assert(rows[k] == row);
                assert(is_placed_rightly(registry, rest, row));
                if row.account_index is Some {
                    let p = choose|p: int|
                        0 <= p < rest.len() && rest[p] == row.account_index->0;
                    assert(rest[p] == ordered[n + p]);
                    assert(accounts[row.account_index->0].email != email);
                } else {
                    assert(row.account_cell != email) by {
                        let (p, q) = choose|p: int, q: int|
                            0 <= p < q < rest.len() && accounts[#[trigger] rest[p]].email
                                == row.account_cell && accounts[#[trigger] rest[q]].email
                                == row.account_cell;
                        assert(rest[p] == ordered[n + p]);
                    }
                }
            } else {
                assert(rows[k] == head[k]);
                if n == 1 {
                    assert(group[0] == ordered[0]);
                } else if k > 0 {
                    assert(group[k - 1] == ordered[k - 1]);
                } else {
                    assert(group[0] == ordered[0]);
                }
            }
        }
    }
}

proof fn rows_name_listed_accounts(registry: RegistryView, ordered: Seq<int>)
    ensures
        forall|k: int|
            0 <= k < rows_of(registry, ordered).len() ==> ((#[trigger] rows_of(
                registry,
                ordered,
            )[k]).account_index is Some ==> exists|p: int|
                0 <= p < ordered.len() && ordered[p] == rows_of(
                    registry,
                    ordered,
                )[k].account_index->0),
{
    let rows = rows_of(registry, ordered);
    crate::display::rows_show_every_account(registry, ordered);
    assert forall|k: int|
        0 <= k < rows.len() && (#[trigger] rows[k]).account_index is Some implies exists|p: int|
        0 <= p < ordered.len() && ordered[p] == rows[k].account_index->0 by {
        crate::display::row_account_is_listed(rows, k);
        assert(ordered.contains(rows[k].account_index->0));
    }
}

/// The plan of an organisation.
pub open spec fn is_organisation(plan: Option<PlanType>) -> bool {
    plan == Some(PlanType::Team) || plan == Some(PlanType::Business) || plan == Some(
        PlanType::Enterprise,
    ) || plan == Some(PlanType::Edu)
}

/// The plan of a person.
pub open spec fn is_personal(plan: Option<PlanType>) -> bool {
    plan == Some(PlanType::Free) || plan == Some(PlanType::Plus) || plan == Some(PlanType::Pro)
}

/// The list goes by email; under one email the active account comes first, then plans of
/// organisations, then plans of persons, then the rest, alike ones by the name of the plan and then
/// by key.
pub proof fn list_order(registry: RegistryView, i: int, j: int)
    ensures
        ({
            let a = registry.accounts[i];
            let b = registry.accounts[j];
            let a_active = registry.active_account_key == Some(a.account_key);
            let b_active = registry.active_account_key == Some(b.account_key);
            let first = shown_before(registry, i, j);
            &&& a.email != b.email ==> first == text_less(a.email, b.email)
            &&& a.email == b.email && a_active && !b_active ==> first
            &&& a.email == b.email && !a_active && b_active ==> !first
            &&& a.email == b.email && a_active == b_active ==> {
                &&& is_organisation(a.plan) && !is_organisation(b.plan) ==> first
                &&& !is_organisation(a.plan) && is_organisation(b.plan) ==> !first
                &&& is_personal(a.plan) && !is_organisation(b.plan) && !is_personal(b.plan)
                    ==> first
                &&& !is_organisation(a.plan) && !is_personal(a.plan) && is_personal(b.plan)
                    ==> !first
                &&& is_organisation(a.plan) && is_organisation(b.plan) && a.plan != b.plan
                    ==> first == text_less(plan_name(a.plan->0), plan_name(b.plan->0))
                &&& is_personal(a.plan) && is_personal(b.plan) && a.plan != b.plan ==> first
                    == text_less(plan_name(a.plan->0), plan_name(b.plan->0))
                &&& a.plan == b.plan ==> first == text_less(a.account_key, b.account_key)
            }
        }),
{
    let a = registry.accounts[i];
    let b = registry.accounts[j];
    if a.plan is Some && b.plan is Some && a.plan != b.plan {
        if plan_name(a.plan->0) == plan_name(b.plan->0) {
            crate::account_laws::plan_names_differ(a.plan->0, b.plan->0);
        }
    }
}

/// An account is called by its alias, with its name behind it in brackets; by the one of these that
/// it has; else by the fallback. An empty name is none.
pub proof fn labels_prefer_alias_and_name(account: AccountView, fallback: Seq<char>)
    ensures
        ({
            let named = account.account_name is Some && account.account_name->0.len() > 0;
            let label = preferred_label(account, fallback);
            &&& account.alias.len() > 0 && named ==> label == account.alias + " ("@
                + account.account_name->0 + ")"@
            &&& account.alias.len() > 0 && !named ==> label == account.alias
            &&& account.alias.len() == 0 && named ==> label == account.account_name->0
            &&& account.alias.len() == 0 && !named ==> label == fallback
        }),
{
}

proof fn counted_once(accounts: Seq<AccountView>, group: Seq<int>, plan: Seq<char>, p: int)
    requires
        forall|k: int|
            0 <= k < group.len() && k != p ==> !goes_by_plan(accounts[#[trigger] group[k]], plan),
    ensures
        plan_count(accounts, group, plan) <= 1,
        !(0 <= p < group.len()) ==> plan_count(accounts, group, plan) == 0,
    decreases group.len(),
{
    if group.len() > 0 {
        let rest = group.drop_last();
        assert forall|k: int| 0 <= k < rest.len() && k != p implies !goes_by_plan(
            accounts[#[trigger] rest[k]],
            plan,
        ) by {
            assert(group[k] == rest[k]);
        }
        counted_once(accounts, rest, plan, p);
        if p != group.len() - 1 {
            assert(!goes_by_plan(accounts[group[group.len() - 1]], plan));
        }
    }
}

proof fn none_before(accounts: Seq<AccountView>, group: Seq<int>, plan: Seq<char>, key: Seq<char>)
    requires
        forall|k: int|
            0 <= k < group.len() ==> !(goes_by_plan(accounts[#[trigger] group[k]], plan)
                && text_less(accounts[group[k]].account_key, key)),
    ensures
        plan_count_before(accounts, group, plan, key) == 0,
    decreases group.len(),
{
    if group.len() > 0 {
        let rest = group.drop_last();
        assert forall|k: int| 0 <= k < rest.len() implies !(goes_by_plan(
            accounts[#[trigger] rest[k]],
            plan,
        ) && text_less(accounts[rest[k]].account_key, key)) by {
            assert(group[k] == rest[k]);
        }
        none_before(accounts, rest, plan, key);
        assert(group[group.len() - 1] == group.last());
    }
}

/// In a group, an account without alias and name is called by its plan alone where no other goes by
/// that plan; where another does, a number stands behind, and it is 1 for the first by key.
pub proof fn plans_are_numbered_where_shared(
    accounts: Seq<AccountView>,
    group: Seq<int>,
    p: int,
)
    requires
        0 <= p < group.len(),
        has_no_label(accounts[group[p]]),
    ensures
        ({
            let i = group[p];
            let plan = plan_text(accounts[i]);
            &&& (forall|k: int|
                0 <= k < group.len() && k != p ==> !goes_by_plan(
                    accounts[#[trigger] group[k]],
                    plan,
                )) ==> grouped_cell(accounts, group, i) == plan
            &&& (exists|k: int|
                0 <= k < group.len() && group[k] != i && goes_by_plan(
                    accounts[#[trigger] group[k]],
                    plan,
                )) ==> (plan + " #"@).is_prefix_of(grouped_cell(accounts, group, i))
            &&& (exists|k: int|
                0 <= k < group.len() && group[k] != i && goes_by_plan(
                    accounts[#[trigger] group[k]],
                    plan,
                )) && (forall|k: int|
                0 <= k < group.len() ==> !(goes_by_plan(accounts[#[trigger] group[k]], plan)
                    && text_less(accounts[group[k]].account_key, accounts[i].account_key)))
                ==> grouped_cell(accounts, group, i) == plan + " #"@ + decimal(1)
        }),
{
    let i = group[p];
    let plan = plan_text(accounts[i]);
    if forall|k: int|
        0 <= k < group.len() && k != p ==> !goes_by_plan(accounts[#[trigger] group[k]], plan) {
        counted_once(accounts, group, plan, p);
    }
    if exists|k: int|
        0 <= k < group.len() && group[k] != i && goes_by_plan(accounts[#[trigger] group[k]], plan) {
        let k = choose|k: int|
            0 <= k < group.len() && group[k] != i && goes_by_plan(
                accounts[#[trigger] group[k]],
                plan,
            );
        assert(group.contains(i));
        assert(group.contains(group[k]));
        crate::display::both_counted_by_plan(accounts, group, plan, i, group[k]);
        let cell = grouped_cell(accounts, group, i);
        assert(cell.take((plan + " #"@).len() as int) =~= plan + " #"@);
        if forall|k: int|
            0 <= k < group.len() ==> !(goes_by_plan(accounts[#[trigger] group[k]], plan)
                && text_less(accounts[group[k]].account_key, accounts[i].account_key)) {
            none_before(accounts, group, plan, accounts[i].account_key);
        }
    }
}

/// A limit whose reset is not known is a dash; once it was reset all of it is left; until then what
/// is left is shown, with the hour of the reset, and with the day where that is another one.
pub proof fn limits_show_what_is_left(
    window: RateLimitWindow,
    at: i64,
    now: int,
    time: LocalTime,
    today: int,
)
    requires
        window.resets_at == Some(at),
    ensures
        rate_limit_text(None, now, today, Some(time)) == "-"@,
        rate_limit_text(
            Some(RateLimitWindow { resets_at: None, ..window }),
            now,
            today,
            Some(time),
        ) == "-"@,
        now >= at ==> rate_limit_text(Some(window), now, today, Some(time)) == "100%"@,
        ({
            let left = window.used_percent.remaining;
            let percent = decimal(
                (if left < 0 {
                    0int
                } else if left > 100 {
                    100int
                } else {
                    left as int
                }) as nat,
            ) + "%"@;
            now < at ==> {
                &&& rate_limit_text(Some(window), now, today, None) == percent
                &&& time.day == today ==> rate_limit_text(Some(window), now, today, Some(time))
                    == percent + " ("@ + time.clock@ + ")"@
                &&& time.day != today ==> rate_limit_text(Some(window), now, today, Some(time))
                    == percent + " ("@ + time.clock@ + " on "@ + time.date@ + ")"@
            }
        }),
{
}

/// How long ago: in whole minutes below an hour, whole hours below a day, else whole days; less than
/// a minute, and a time to come, is now.
pub proof fn activity_is_in_whole_units(last: i64, now: i64, n: nat)
    requires
        i64::MIN <= now - last <= i64::MAX,
    ensures
        now - last < 60 ==> activity_text(Some(last), now as int) == "just now"@,
        60 <= now - last < 3600 && 60 * n <= now - last < 60 * n + 60 ==> activity_text(
            Some(last),
            now as int,
        ) == decimal(n) + "m ago"@,
        3600 <= now - last < 86_400 && 3600 * n <= now - last < 3600 * n + 3600 ==> activity_text(
            Some(last),
            now as int,
        ) == decimal(n) + "h ago"@,
        86_400 <= now - last && 86_400 * n <= now - last < 86_400 * n + 86_400 ==> activity_text(
            Some(last),
            now as int,
        ) == decimal(n) + "d ago"@,
        activity_text(None, now as int) == "-"@,
{
}

/// The window of the asked length is found in either place, the primary one first; where there is
/// none, the one that stands for it is given.
pub proof fn windows_are_found_by_length(
    primary: Option<RateLimitWindow>,
    secondary: Option<RateLimitWindow>,
    minutes: i64,
    fallback_primary: bool,
)
    ensures
        ({
            let found = window_for(primary, secondary, minutes, fallback_primary);
            let first = primary is Some && primary->0.window_minutes == Some(minutes);
            let second = secondary is Some && secondary->0.window_minutes == Some(minutes);
            &&& first ==> found == primary
            &&& !first && second ==> found == secondary
            &&& !first && !second && fallback_primary ==> found == primary
            &&& !first && !second && !fallback_primary ==> found == secondary
        }),
{
}

/// What is left, as it is shown, between none and all.
pub open spec fn shown_left(window: Option<RateLimitWindow>) -> Seq<char> {
    match window {
        Some(window) => {
            let left = window.used_percent.remaining;
            decimal(
                (if left < 0 {
                    0int
                } else if left > 100 {
                    100int
                } else {
                    left as int
                }) as nat,
            ) + "%"@
        },
        None => "-"@,
    }
}

/// The summary shows what is left of the primary window as 5h, and of the secondary one as weekly,
/// each by itself.
pub proof fn summary_shows_both_windows(usage: SnapshotView)
    ensures
        usage_text(Some(usage)) == "5h="@ + shown_left(usage.primary) + ", weekly="@ + shown_left(
            usage.secondary,
        ),
        usage_text(None) == "-"@,
{
}

/// The status tells the settings, and of the active account, where there is one, how it is offered
/// and what is left of it.
pub proof fn status_tells_settings_and_active_account(registry: RegistryView)
    ensures
        ({
            let lines = status_text(registry);
            let active = active_account_view(registry);
            &&& lines[0] == auto_switch_text(registry.auto_switch)
            &&& lines[1] == api_text(registry.api)
            &&& active is None ==> lines.len() == 3 && lines[2] == "active: none"@
            &&& active is Some ==> {
                &&& lines.len() == 4
                &&& lines[2] == "active: "@ + account_label(active->0)
                &&& lines[3] == "last_usage: "@ + usage_text(active->0.last_usage)
            }
        }),
{
}

/// The lines on the settings tell each setting.
pub proof fn settings_are_told(config: AutoSwitchConfig, api: ApiConfig)
    ensures
        ({
            let rest = " (5h="@ + decimal(config.threshold_5h_percent as nat) + "%, weekly="@
                + decimal(config.threshold_weekly_percent as nat) + "%)"@;
            &&& config.enabled ==> auto_switch_text(config) == "auto_switch: "@ + "enabled"@ + rest
            &&& !config.enabled ==> auto_switch_text(config) == "auto_switch: "@ + "disabled"@
                + rest
        }),
        api.usage && api.account ==> api_text(api) == "api: usage="@ + "true"@ + ", account="@
            + "true"@,
        api.usage && !api.account ==> api_text(api) == "api: usage="@ + "true"@ + ", account="@
            + "false"@,
        !api.usage && api.account ==> api_text(api) == "api: usage="@ + "false"@ + ", account="@
            + "true"@,
        !api.usage && !api.account ==> api_text(api) == "api: usage="@ + "false"@ + ", account="@
            + "false"@,
{
    let rest = " (5h="@ + decimal(config.threshold_5h_percent as nat) + "%, weekly="@ + decimal(
        config.threshold_weekly_percent as nat,
    ) + "%)"@;
    if config.enabled {
        assert(auto_switch_text(config) =~= "auto_switch: "@ + "enabled"@ + rest);
    } else {
        assert(auto_switch_text(config) =~= "auto_switch: "@ + "disabled"@ + rest);
    }
}

/// Each setting is set by itself: what was not asked for stays.
pub proof fn settings_are_set_one_by_one(
    config: AutoSwitchConfig,
    registry: RegistryView,
    value: u8,
    on: bool,
)
    ensures
        toggled(config, Some(ConfigToggle::Enable)).enabled,
        !toggled(config, Some(ConfigToggle::Disable)).enabled,
        toggled(config, None) == config,
        forall|action: ConfigToggle|
            {
                let after = #[trigger] toggled(config, Some(action));
                &&& after.threshold_5h_percent == config.threshold_5h_percent
                &&& after.threshold_weekly_percent == config.threshold_weekly_percent
            },
        with_5h(config, None) == config,
        with_5h(config, Some(value)).threshold_5h_percent == value,
        with_5h(config, Some(value)).threshold_weekly_percent == config.threshold_weekly_percent,
        with_5h(config, Some(value)).enabled == config.enabled,
        with_weekly(config, None) == config,
        with_weekly(config, Some(value)).threshold_weekly_percent == value,
        with_weekly(config, Some(value)).threshold_5h_percent == config.threshold_5h_percent,
        with_weekly(config, Some(value)).enabled == config.enabled,
        with_auto_switch(registry, config).auto_switch == config,
        with_auto_switch(registry, config).accounts == registry.accounts,
        with_auto_switch(registry, config).api == registry.api,
        with_auto_switch(registry, config).active_account_key == registry.active_account_key,
        with_api(registry, on).api.usage == on,
        with_api(registry, on).api.account == on,
        with_api(registry, on).accounts == registry.accounts,
        with_api(registry, on).auto_switch == registry.auto_switch,
        with_api(registry, on).active_account_key == registry.active_account_key,
{
}

/// The user is offered every account, by its key and as it is offered, in order.
pub proof fn every_account_is_offered(accounts: Seq<AccountView>, i: int)
    requires
        0 <= i < accounts.len(),
    ensures
        offers_of(accounts).len() == accounts.len(),
        offers_of(accounts)[i].0 == accounts[i].account_key,
        offers_of(accounts)[i].1 == account_label(accounts[i]),
        keys_of(accounts).len() == accounts.len(),
        keys_of(accounts)[i] == accounts[i].account_key,
{
}

/// The line of a file tells how it fared, in a column, and its label.
pub proof fn report_tells_how_a_file_fared(label: Seq<char>)
    ensures
        report_item_text((label, ImportOutcome::Imported)) == "  imported "@ + label,
        report_item_text((label, ImportOutcome::Updated)) == "  updated  "@ + label,
        report_item_text((label, ImportOutcome::Skipped)) == "  skipped  "@ + label,
{
    reveal_strlit("imported");
    reveal_strlit("updated");
    reveal_strlit("skipped");
    reveal_strlit("  ");
    reveal_strlit(" ");
    reveal_strlit("  imported ");
    reveal_strlit("  updated  ");
    reveal_strlit("  skipped  ");
    assert(report_item_text((label, ImportOutcome::Imported)) =~= "  imported "@ + label);
    assert(report_item_text((label, ImportOutcome::Updated)) =~= "  updated  "@ + label);
    assert(report_item_text((label, ImportOutcome::Skipped)) =~= "  skipped  "@ + label);
}

/// The list has a line for every row, in order.
pub proof fn every_row_has_a_line(registry: RegistryView, rows: Seq<RowView>, k: int)
    requires
        0 <= k < rows.len(),
    ensures
        list_texts(registry, rows).len() == rows.len(),
        list_texts(registry, rows)[k] == list_line_text(registry, rows[k]),
{
}

/// A time is shown as the date and minute that it has in UTC, and as a dash where it has none.
pub proof fn last_seen_is_the_minute(seconds: i64)
    ensures
        last_seen_text(None) == "-"@,
        utc_minute(seconds) is None ==> last_seen_text(Some(seconds)) == "-"@,
        utc_minute(seconds) matches Some(text) ==> last_seen_text(Some(seconds)) == text,
{
}

/// The report ends with how many files were imported, updated and skipped, and how many there were.
pub proof fn report_ends_with_its_counts(report: ReportView)
    ensures
        report_summary(report) == "Import Summary: "@ + decimal(report.imported as nat)
            + " imported, "@ + decimal(report.updated as nat) + " updated, "@ + decimal(
            report.skipped as nat,
        ) + " skipped (total "@ + decimal(report.items.len()) + " files)"@,
{
}

/// A threshold can be any percentage from 1 to 100.
pub proof fn thresholds_are_percentages(value: u8)
    ensures
        valid_percent(value as int) == (value != 0 && value <= 100),
        acceptable(None),
        acceptable(Some(value)) == (value != 0 && value <= 100),
{
}

}
