//! How accounts, limits and times are shown.

use vstd::prelude::*;

use crate::clock::{
    at_calendar_end, day_at, in_calendar, is_local_day, is_local_time, local_now, local_time, local_today,
    LocalTime,
};
use crate::model::{
    plan_name, same_number, AccountRecord, AccountView, PlanType, RateLimitSnapshot,
    RateLimitWindow, Registry, RegistryView, UsedPercent,
};
use crate::text::{
    concat, decimal, decimal_injective, decimal_of, is_less, text_less, text_less_asymmetric, text_less_total,
    text_less_transitive,
};

verus! {

/// A row of the list of accounts.
#[derive(Debug)]
pub struct DisplayRow {
    /// The account of the row; none for the heading of a group.
    pub account_index: Option<usize>,
    pub account_cell: String,
    pub depth: u8,
    pub is_active: bool,
}

/// The model of [`DisplayRow`].
#[verifier::ext_equal]
pub struct RowView {
    pub account_index: Option<int>,
    pub account_cell: Seq<char>,
    pub depth: int,
    pub is_active: bool,
}

impl View for DisplayRow {
    type V = RowView;

    open spec fn view(&self) -> RowView {
        RowView {
            account_index: match self.account_index {
                Some(i) => Some(i as int),
                None => None,
            },
            account_cell: self.account_cell@,
            depth: self.depth as int,
            is_active: self.is_active,
        }
    }
}

impl Clone for DisplayRow {
    fn clone(&self) -> (r: Self)
        ensures
            r@ == self@,
    {
        DisplayRow {
            account_index: self.account_index,
            account_cell: self.account_cell.clone(),
            depth: self.depth,
            is_active: self.is_active,
        }
    }
}

/// The models of a list of rows.
pub open spec fn row_views(rows: Seq<DisplayRow>) -> Seq<RowView> {
    rows.map_values(|row: DisplayRow| row@)
}

/// The plan as it is shown; a dash where it is not known.
pub open spec fn plan_text(account: AccountView) -> Seq<char> {
    match account.plan {
        Some(plan) => plan_name(plan),
        None => "-"@,
    }
}

/// The plan as it is shown.
pub fn display_plan(record: &AccountRecord) -> (r: String)
    ensures
        r@ == plan_text(record@),
{
    match record.plan {
        Some(plan) => plan.name().to_owned(),
        None => "-".to_owned(),
    }
}

/// Plans of organisations come first, then plans of persons, then the rest.
pub open spec fn plan_rank(account: AccountView) -> int {
    match account.plan {
        Some(PlanType::Team) | Some(PlanType::Business) | Some(PlanType::Enterprise) | Some(
            PlanType::Edu,
        ) => 0,
        Some(PlanType::Free) | Some(PlanType::Plus) | Some(PlanType::Pro) => 1,
        _ => 2,
    }
}

/// The place of the plan in the order of the list.
pub fn plan_sort_rank(record: &AccountRecord) -> (r: u8)
    ensures
        r == plan_rank(record@),
{
    match record.plan {
        Some(PlanType::Team) | Some(PlanType::Business) | Some(PlanType::Enterprise) | Some(
            PlanType::Edu,
        ) => 0,
        Some(PlanType::Free) | Some(PlanType::Plus) | Some(PlanType::Pro) => 1,
        _ => 2,
    }
}

/// The account is the active one.
pub open spec fn is_active_account(registry: RegistryView, i: int) -> bool {
    registry.active_account_key == Some(registry.accounts[i].account_key)
}

/// Whether an account is the active one.
pub fn is_active(registry: &Registry, account_idx: usize) -> (r: bool)
    requires
        account_idx < registry@.accounts.len(),
    ensures
        r == is_active_account(registry@, account_idx as int),
{
    assert(registry@.accounts[account_idx as int] == registry.accounts@[account_idx as int]@);
    match &registry.active_account_key {
        Some(active) => *active == registry.accounts[account_idx].account_key,
        None => false,
    }
}

/// The order of the list: by email, the active account first, then by the rank and the name of the
/// plan, then by key.
pub open spec fn shown_before(registry: RegistryView, i: int, j: int) -> bool {
    let a = registry.accounts[i];
    let b = registry.accounts[j];
    if a.email != b.email {
        text_less(a.email, b.email)
    } else if is_active_account(registry, i) != is_active_account(registry, j) {
        is_active_account(registry, i)
    } else if plan_rank(a) != plan_rank(b) {
        plan_rank(a) < plan_rank(b)
    } else if plan_text(a) != plan_text(b) {
        text_less(plan_text(a), plan_text(b))
    } else {
        text_less(a.account_key, b.account_key)
    }
}

/// The two accounts have the same place in the order.
pub open spec fn same_place(registry: RegistryView, i: int, j: int) -> bool {
    let a = registry.accounts[i];
    let b = registry.accounts[j];
    &&& a.email == b.email
    &&& is_active_account(registry, i) == is_active_account(registry, j)
    &&& plan_rank(a) == plan_rank(b)
    &&& plan_text(a) == plan_text(b)
    &&& a.account_key == b.account_key
}

/// Of two accounts exactly one comes first, or they have the same place.
pub proof fn shown_before_total(registry: RegistryView, i: int, j: int)
    ensures
        shown_before(registry, i, j) || shown_before(registry, j, i) || same_place(registry, i, j),
        !(shown_before(registry, i, j) && shown_before(registry, j, i)),
        same_place(registry, i, j) ==> !shown_before(registry, i, j),
{
    let a = registry.accounts[i];
    let b = registry.accounts[j];
    text_less_total(a.email, b.email);
    text_less_asymmetric(a.email, b.email);
    text_less_total(plan_text(a), plan_text(b));
    text_less_asymmetric(plan_text(a), plan_text(b));
    text_less_total(a.account_key, b.account_key);
    text_less_asymmetric(a.account_key, b.account_key);
}

/// The order of the list is transitive.
pub proof fn shown_before_transitive(registry: RegistryView, i: int, j: int, k: int)
    requires
        shown_before(registry, i, j),
        shown_before(registry, j, k),
    ensures
        shown_before(registry, i, k),
{
    let a = registry.accounts[i];
    let b = registry.accounts[j];
    let c = registry.accounts[k];
    text_less_total(a.email, c.email);
    text_less_asymmetric(a.email, b.email);
    text_less_asymmetric(b.email, a.email);
    if text_less(a.email, b.email) && text_less(b.email, c.email) {
        text_less_transitive(a.email, b.email, c.email);
        text_less_asymmetric(a.email, c.email);
    }
    if text_less(plan_text(a), plan_text(b)) && text_less(plan_text(b), plan_text(c)) {
        text_less_transitive(plan_text(a), plan_text(b), plan_text(c));
    }
    text_less_asymmetric(plan_text(a), plan_text(b));
    text_less_asymmetric(plan_text(a), plan_text(c));
    if text_less(a.account_key, b.account_key) && text_less(b.account_key, c.account_key) {
        text_less_transitive(a.account_key, b.account_key, c.account_key);
    }
}

/// Whether an account comes before another in the list.
pub fn comes_before(registry: &Registry, lhs: usize, rhs: usize) -> (r: bool)
    requires
        lhs < registry@.accounts.len(),
        rhs < registry@.accounts.len(),
    ensures
        r == shown_before(registry@, lhs as int, rhs as int),
{
    assert(registry@.accounts[lhs as int] == registry.accounts@[lhs as int]@);
    assert(registry@.accounts[rhs as int] == registry.accounts@[rhs as int]@);
    let a = &registry.accounts[lhs];
    let b = &registry.accounts[rhs];
    if a.email != b.email {
        return is_less(a.email.as_str(), b.email.as_str());
    }
    let a_active = is_active(registry, lhs);
    let b_active = is_active(registry, rhs);
    if a_active != b_active {
        return a_active;
    }
    let a_rank = plan_sort_rank(a);
    let b_rank = plan_sort_rank(b);
    if a_rank != b_rank {
        return a_rank < b_rank;
    }
    let a_plan = display_plan(a);
    let b_plan = display_plan(b);
    if a_plan != b_plan {
        return is_less(a_plan.as_str(), b_plan.as_str());
    }
    is_less(a.account_key.as_str(), b.account_key.as_str())
}

/// The indices as numbers.
pub open spec fn numbers(indices: Seq<usize>) -> Seq<int> {
    indices.map_values(|i: usize| i as int)
}

/// Every index is that of an account.
pub open spec fn all_in_range(registry: RegistryView, indices: Seq<int>) -> bool {
    forall|k: int| 0 <= k < indices.len() ==> 0 <= #[trigger] indices[k] < registry.accounts.len()
}

/// None comes before one that stands in front of it.
pub open spec fn in_display_order(registry: RegistryView, indices: Seq<int>) -> bool {
    forall|k: int, l: int|
        0 <= k < l < indices.len() ==> !shown_before(
            registry,
            #[trigger] indices[l],
            #[trigger] indices[k],
        )
}

/// Those of the indices with the place of the given one.
pub open spec fn with_place(registry: RegistryView, indices: Seq<int>, place: int) -> Seq<int> {
    indices.filter(|i: int| same_place(registry, i, place))
}

/// The indices put in order; those with the same place stay as they were among themselves.
pub open spec fn stably_ordered(
    registry: RegistryView,
    indices: Seq<int>,
    ordered: Seq<int>,
) -> bool {
    &&& in_display_order(registry, ordered)
    &&& ordered.to_multiset() == indices.to_multiset()
    &&& forall|place: int|
        #[trigger] with_place(registry, ordered, place) == with_place(registry, indices, place)
}

proof fn insertion_keeps_places(
    registry: RegistryView,
    indices: Seq<int>,
    at: int,
    index: int,
    place: int,
)
    requires
        0 <= at <= indices.len(),
        forall|k: int|
            at <= k < indices.len() ==> shown_before(registry, index, #[trigger] indices[k]),
    ensures
        with_place(registry, indices.insert(at, index), place) == with_place(
            registry,
            indices.push(index),
            place,
        ),
{
    let pred = |i: int| same_place(registry, i, place);
    let head = indices.take(at);
    let tail = indices.skip(at);
    assert(indices =~= head + tail);
    assert(indices.insert(at, index) =~= head.push(index) + tail);
    Seq::filter_distributes_over_add(head.push(index), tail, pred);
    Seq::filter_distributes_over_add(head, tail, pred);
    head.lemma_filter_push(index, pred);
    indices.lemma_filter_push(index, pred);
    if same_place(registry, index, place) {
        assert(tail.filter(pred) =~= Seq::empty()) by {
            if tail.filter(pred).len() > 0 {
                tail.lemma_filter_pred(pred, 0);
                tail.lemma_filter_contains_rev(pred, tail.filter(pred)[0]);
                let other = tail.filter(pred)[0];
                assert(tail.contains(other));
                let k = choose|k: int| 0 <= k < tail.len() && tail[k] == other;
                assert(indices[at + k] == other);
                shown_before_total(registry, index, other);
                assert(same_place(registry, index, other));
                assert(false);
            }
        }
    }
}

fn insert_index(registry: &Registry, ordered: &mut Vec<usize>, index: usize)
    requires
        all_in_range(registry@, numbers(old(ordered)@)),
        index < registry@.accounts.len(),
        in_display_order(registry@, numbers(old(ordered)@)),
    ensures
        all_in_range(registry@, numbers(final(ordered)@)),
        in_display_order(registry@, numbers(final(ordered)@)),
        numbers(final(ordered)@).to_multiset() == numbers(old(ordered)@).to_multiset().insert(
            index as int,
        ),
        forall|place: int|
            #[trigger] with_place(registry@, numbers(final(ordered)@), place) == with_place(
                registry@,
                numbers(old(ordered)@).push(index as int),
                place,
            ),
{
    let ghost before = numbers(ordered@);
    let ghost view = registry@;
    let ghost new = index as int;
    let mut at: usize = ordered.len();
    proof {
        if at > 0 {
            assert(before[at - 1] == ordered@[at - 1] as int);
        }
    }
    while at > 0 && comes_before(registry, index, ordered[at - 1])
        invariant
            at <= ordered.len(),
            before == numbers(ordered@),
            view == registry@,
            new == index as int,
            index < view.accounts.len(),
            all_in_range(view, before),
            at > 0 ==> before[at - 1] == ordered@[at - 1] as int && ordered@[at - 1]
                < view.accounts.len(),
            forall|k: int|
                at <= k < before.len() ==> shown_before(view, new, #[trigger] before[k]),
        decreases at,
    {
        at = at - 1;
        proof {
            if at > 0 {
                assert(before[at - 1] == ordered@[at - 1] as int);
            }
        }
    }
    ordered.insert(at, index);
    proof {
        let after = numbers(ordered@);
        assert(after =~= before.insert(at as int, new));
        vstd::seq_lib::to_multiset_insert(before, at as int, new);
        assert forall|k: int, l: int| 0 <= k < l < after.len() implies !shown_before(
            view,
            #[trigger] after[l],
            #[trigger] after[k],
        ) by {
            if l < at {
                assert(after[k] == before[k] && after[l] == before[l]);
            } else if l == at {
                assert(after[k] == before[k]);
                if shown_before(view, new, before[k]) {
                    if k < at - 1 {
                        shown_before_total(view, before[k], before[at - 1]);
                        if shown_before(view, before[k], before[at - 1]) {
                            shown_before_transitive(view, new, before[k], before[at - 1]);
                        }
                    }
                    assert(false);
                }
            } else if k == at {
                assert(after[l] == before[l - 1]);
                shown_before_total(view, new, before[l - 1]);
            } else if k < at {
                assert(after[k] == before[k] && after[l] == before[l - 1]);
            } else {
                assert(after[k] == before[k - 1] && after[l] == before[l - 1]);
            }
        }
        assert forall|place: int| #[trigger] with_place(view, after, place) == with_place(
            view,
            before.push(new),
            place,
        ) by {
            insertion_keeps_places(view, before, at as int, new, place);
        }
    }
}

/// The indices in the order of the list.
pub fn display_order(registry: &Registry, indices: &[usize]) -> (ordered: Vec<usize>)
    requires
        all_in_range(registry@, numbers(indices@)),
    ensures
        all_in_range(registry@, numbers(ordered@)),
        stably_ordered(registry@, numbers(indices@), numbers(ordered@)),
{
    let ghost all = numbers(indices@);
    let ghost view = registry@;
    let mut ordered: Vec<usize> = Vec::new();
    let mut i: usize = 0;
    assert(numbers(ordered@) =~= all.take(0));
    while i < indices.len()
        invariant
            i <= indices.len(),
            all == numbers(indices@),
            view == registry@,
            all_in_range(view, all),
            all_in_range(view, numbers(ordered@)),
            stably_ordered(view, all.take(i as int), numbers(ordered@)),
        decreases indices.len() - i,
    {
        let ghost before = numbers(ordered@);
        let ghost done = all.take(i as int);
        let ghost new = all[i as int];
        assert(all.take(i as int + 1) =~= done.push(new));
        insert_index(registry, &mut ordered, indices[i]);
        proof {
            let after = numbers(ordered@);
            done.to_multiset_ensures();
            assert forall|place: int| #[trigger] with_place(view, after, place) == with_place(
                view,
                done.push(new),
                place,
            ) by {
                let pred = |i: int| same_place(view, i, place);
                assert(with_place(view, after, place) == with_place(view, before.push(new), place));
                before.lemma_filter_push(new, pred);
                done.lemma_filter_push(new, pred);
                assert(with_place(view, before, place) == with_place(view, done, place));
            }
        }
        i = i + 1;
    }
    assert(all.take(all.len() as int) =~= all);
    ordered
}

/// There is only one way to put indices in the order of the list.
pub proof fn display_order_is_unique(
    registry: RegistryView,
    indices: Seq<int>,
    a: Seq<int>,
    b: Seq<int>,
)
    requires
        stably_ordered(registry, indices, a),
        stably_ordered(registry, indices, b),
    ensures
        a == b,
{
    assert forall|place: int| #[trigger] with_place(registry, a, place) == with_place(
        registry,
        b,
        place,
    ) by {
        assert(with_place(registry, a, place) == with_place(registry, indices, place));
        assert(with_place(registry, b, place) == with_place(registry, indices, place));
    }
    same_places_same_order(registry, a, b);
}

proof fn last_of_place(registry: RegistryView, indices: Seq<int>, place: int)
    requires
        indices.len() > 0,
    ensures
        with_place(registry, indices, place) == if same_place(registry, indices.last(), place) {
            with_place(registry, indices.drop_last(), place).push(indices.last())
        } else {
            with_place(registry, indices.drop_last(), place)
        },
{
    let pred = |i: int| same_place(registry, i, place);
    assert(indices.drop_last().push(indices.last()) =~= indices);
    indices.drop_last().lemma_filter_push(indices.last(), pred);
}

proof fn same_places_same_order(registry: RegistryView, a: Seq<int>, b: Seq<int>)
    requires
        in_display_order(registry, a),
        in_display_order(registry, b),
        forall|place: int|
            #[trigger] with_place(registry, a, place) == with_place(registry, b, place),
    ensures
        a == b,
    decreases a.len(),
{
    if a.len() == 0 {
        if b.len() > 0 {
            last_of_place(registry, b, b.last());
            assert(with_place(registry, a, b.last()).len() == 0) by {
                reveal(Seq::filter);
            }
            assert(with_place(registry, a, b.last()) == with_place(registry, b, b.last()));
        }
        assert(a =~= b);
    } else {
        let x = a.last();
        last_of_place(registry, a, x);
        assert(with_place(registry, a, x) == with_place(registry, b, x));
        let found = with_place(registry, b, x);
        assert(found.last() == x);
        let pred = |i: int| same_place(registry, i, x);
        b.lemma_filter_contains_rev(pred, x);
        assert(found.contains(x)) by {
            assert(found[found.len() - 1] == x);
        }
        assert(b.contains(x));
        let j = choose|j: int| 0 <= j < b.len() && b[j] == x;
        let y = b.last();
        last_of_place(registry, b, y);
        assert(with_place(registry, a, y) == with_place(registry, b, y));
        let found_y = with_place(registry, a, y);
        assert(found_y.last() == y);
        let pred_y = |i: int| same_place(registry, i, y);
        a.lemma_filter_contains_rev(pred_y, y);
        assert(found_y.contains(y)) by {
            assert(found_y[found_y.len() - 1] == y);
        }
        assert(a.contains(y));
        let i = choose|i: int| 0 <= i < a.len() && a[i] == y;
        shown_before_total(registry, x, y);
        assert(same_place(registry, x, y)) by {
            if i < a.len() - 1 {
                assert(!shown_before(registry, a[a.len() - 1], a[i]));
            }
            if j < b.len() - 1 {
                assert(!shown_before(registry, b[b.len() - 1], b[j]));
            }
        }
        last_of_place(registry, b, x);
        assert(x == y);
        let p = a.drop_last();
        let q = b.drop_last();
        assert forall|place: int| #[trigger] with_place(registry, p, place) == with_place(
            registry,
            q,
            place,
        ) by {
            last_of_place(registry, a, place);
            last_of_place(registry, b, place);
            assert(with_place(registry, a, place) == with_place(registry, b, place));
            let s = with_place(registry, p, place);
            let t = with_place(registry, q, place);
            if same_place(registry, x, place) {
                assert(s.push(x).drop_last() =~= s);
                assert(t.push(x).drop_last() =~= t);
            }
        }
        assert forall|k: int, l: int| 0 <= k < l < p.len() implies !shown_before(
            registry,
            #[trigger] p[l],
            #[trigger] p[k],
        ) by {
            assert(!shown_before(registry, a[l], a[k]));
        }
        assert forall|k: int, l: int| 0 <= k < l < q.len() implies !shown_before(
            registry,
            #[trigger] q[l],
            #[trigger] q[k],
        ) by {
            assert(!shown_before(registry, b[l], b[k]));
        }
        same_places_same_order(registry, p, q);
        assert(a =~= p.push(x));
        assert(b =~= q.push(x));
    }
}

/// In the order of the list, the accounts of an email stand together.
pub proof fn emails_stand_together(
    registry: RegistryView,
    ordered: Seq<int>,
    i: int,
    j: int,
    k: int,
)
    requires
        in_display_order(registry, ordered),
        0 <= i <= j <= k < ordered.len(),
        registry.accounts[ordered[i]].email == registry.accounts[ordered[k]].email,
    ensures
        registry.accounts[ordered[j]].email == registry.accounts[ordered[i]].email,
{
    let a = registry.accounts[ordered[i]].email;
    let b = registry.accounts[ordered[j]].email;
    if i < j && j < k && a != b {
        assert(!shown_before(registry, ordered[j], ordered[i]));
        assert(!shown_before(registry, ordered[k], ordered[j]));
        text_less_total(a, b);
    }
}

/// What an account is called: its alias with its name behind it, else the one that it has, else the
/// fallback.
pub open spec fn preferred_label(account: AccountView, fallback: Seq<char>) -> Seq<char> {
    let name = match account.account_name {
        Some(name) if name.len() > 0 => Some(name),
        _ => None,
    };
    match (account.alias.len() > 0, name) {
        (true, Some(name)) => account.alias + " ("@ + name + ")"@,
        (true, None) => account.alias,
        (false, Some(name)) => name,
        (false, None) => fallback,
    }
}

/// What an account is called.
pub fn build_preferred_account_label(record: &AccountRecord, fallback: &str) -> (r: String)
    ensures
        r@ == preferred_label(record@, fallback@),
{
    let has_alias = !record.alias.as_str().is_empty();
    match &record.account_name {
        Some(name) if !name.as_str().is_empty() => if has_alias {
            let mut r = concat(record.alias.as_str(), " (");
            r.append(name.as_str());
            r.append(")");
            r
        } else {
            name.clone()
        },
        _ => if has_alias {
            record.alias.clone()
        } else {
            fallback.to_owned()
        },
    }
}

/// The account has no alias, and the given plan.
pub open spec fn goes_by_plan(account: AccountView, plan: Seq<char>) -> bool {
    account.alias.len() == 0 && plan_text(account) == plan
}

/// How many of a group go by the given plan.
pub open spec fn plan_count(accounts: Seq<AccountView>, group: Seq<int>, plan: Seq<char>) -> nat
    decreases group.len(),
{
    if group.len() == 0 {
        0
    } else {
        plan_count(accounts, group.drop_last(), plan) + if goes_by_plan(
            accounts[group.last()],
            plan,
        ) {
            1nat
        } else {
            0nat
        }
    }
}

/// How many of a group go by the given plan and have a key before the given one.
pub open spec fn plan_count_before(
    accounts: Seq<AccountView>,
    group: Seq<int>,
    plan: Seq<char>,
    key: Seq<char>,
) -> nat
    decreases group.len(),
{
    if group.len() == 0 {
        0
    } else {
        plan_count_before(accounts, group.drop_last(), plan, key) + if goes_by_plan(
            accounts[group.last()],
            plan,
        ) && text_less(accounts[group.last()].account_key, key) {
            1nat
        } else {
            0nat
        }
    }
}

/// What an account is called within a group: as it prefers, else by its plan, with a number where
/// several of the group go by that plan.
pub open spec fn grouped_cell(accounts: Seq<AccountView>, group: Seq<int>, i: int) -> Seq<char> {
    let account = accounts[i];
    let plan = plan_text(account);
    let fallback = if plan_count(accounts, group, plan) <= 1 {
        plan
    } else {
        plan + " #"@ + decimal(
            plan_count_before(accounts, group, plan, account.account_key) + 1,
        )
    };
    preferred_label(account, fallback)
}

/// The account goes by its plan alone: it has neither alias nor name.
pub open spec fn has_no_label(account: AccountView) -> bool {
    account.alias.len() == 0 && (account.account_name matches Some(name) ==> name.len() == 0)
}

proof fn plan_text_has_no_space(account: AccountView, i: int)
    requires
        0 <= i < plan_text(account).len(),
    ensures
        plan_text(account)[i] != ' ',
{
    reveal_strlit("free");
    reveal_strlit("plus");
    reveal_strlit("prolite");
    reveal_strlit("pro");
    reveal_strlit("team");
    reveal_strlit("business");
    reveal_strlit("enterprise");
    reveal_strlit("edu");
    reveal_strlit("unknown");
    reveal_strlit("-");
}

proof fn counted_by_plan(accounts: Seq<AccountView>, group: Seq<int>, plan: Seq<char>, i: int)
    requires
        group.contains(i),
        goes_by_plan(accounts[i], plan),
    ensures
        plan_count(accounts, group, plan) >= 1,
    decreases group.len(),
{
    if group.last() != i {
        let k = choose|k: int| 0 <= k < group.len() && group[k] == i;
        assert(group.drop_last()[k] == i);
        counted_by_plan(accounts, group.drop_last(), plan, i);
    }
}

/// Two accounts of a group that go by the same plan are counted both.
pub proof fn both_counted_by_plan(
    accounts: Seq<AccountView>,
    group: Seq<int>,
    plan: Seq<char>,
    i: int,
    j: int,
)
    requires
        i != j,
        group.contains(i),
        group.contains(j),
        goes_by_plan(accounts[i], plan),
        goes_by_plan(accounts[j], plan),
    ensures
        plan_count(accounts, group, plan) >= 2,
    decreases group.len(),
{
    let rest = group.drop_last();
    let k = choose|k: int| 0 <= k < group.len() && group[k] == i;
    let l = choose|l: int| 0 <= l < group.len() && group[l] == j;
    if group.last() == i {
        assert(rest[l] == j);
        counted_by_plan(accounts, rest, plan, j);
    } else if group.last() == j {
        assert(rest[k] == i);
        counted_by_plan(accounts, rest, plan, i);
    } else {
        assert(rest[k] == i);
        assert(rest[l] == j);
        both_counted_by_plan(accounts, rest, plan, i, j);
    }
}

proof fn count_before_grows(
    accounts: Seq<AccountView>,
    group: Seq<int>,
    plan: Seq<char>,
    low: Seq<char>,
    high: Seq<char>,
)
    requires
        text_less(low, high),
    ensures
        plan_count_before(accounts, group, plan, low) <= plan_count_before(
            accounts,
            group,
            plan,
            high,
        ),
        (exists|k: int|
            0 <= k < group.len() && goes_by_plan(accounts[#[trigger] group[k]], plan)
                && accounts[group[k]].account_key == low) ==> plan_count_before(
            accounts,
            group,
            plan,
            low,
        ) < plan_count_before(accounts, group, plan, high),
    decreases group.len(),
{
    if group.len() > 0 {
        let rest = group.drop_last();
        count_before_grows(accounts, rest, plan, low, high);
        let last = accounts[group.last()].account_key;
        if text_less(last, low) {
            text_less_transitive(last, low, high);
        }
        text_less_asymmetric(low, low);
        if exists|k: int|
            0 <= k < group.len() && goes_by_plan(accounts[#[trigger] group[k]], plan)
                && accounts[group[k]].account_key == low {
            let k = choose|k: int|
                0 <= k < group.len() && goes_by_plan(accounts[#[trigger] group[k]], plan)
                    && accounts[group[k]].account_key == low;
            if k < rest.len() {
                assert(goes_by_plan(accounts[rest[k]], plan));
            }
        }
    }
}

/// Two accounts of a group with different keys, of which neither has an alias or a name, are called
/// differently.
pub proof fn grouped_cells_differ(accounts: Seq<AccountView>, group: Seq<int>, i: int, j: int)
    requires
        group.contains(i),
        group.contains(j),
        accounts[i].account_key != accounts[j].account_key,
        has_no_label(accounts[i]),
        has_no_label(accounts[j]),
    ensures
        grouped_cell(accounts, group, i) != grouped_cell(accounts, group, j),
{
    let p = plan_text(accounts[i]);
    let q = plan_text(accounts[j]);
    if p == q {
        both_counted_by_plan(accounts, group, p, i, j);
        text_less_total(accounts[i].account_key, accounts[j].account_key);
        if text_less(accounts[i].account_key, accounts[j].account_key) {
            grouped_numbers_follow_keys(accounts, group, i, j);
        } else {
            grouped_numbers_follow_keys(accounts, group, j, i);
        }
        let m = plan_count_before(accounts, group, p, accounts[i].account_key) + 1;
        let n = plan_count_before(accounts, group, p, accounts[j].account_key) + 1;
        let head = p + " #"@;
        if head + decimal(m) == head + decimal(n) {
            assert((head + decimal(m)).skip(head.len() as int) =~= decimal(m));
            assert((head + decimal(n)).skip(head.len() as int) =~= decimal(n));
            decimal_injective(m, n);
        }
    } else {
        let a = grouped_cell(accounts, group, i);
        let b = grouped_cell(accounts, group, j);
        reveal_strlit(" #");
        if a == b {
            if p.len() < q.len() {
                assert(b[p.len() as int] == q[p.len() as int]);
                plan_text_has_no_space(accounts[j], p.len() as int);
            } else if q.len() < p.len() {
                assert(a[q.len() as int] == p[q.len() as int]);
                plan_text_has_no_space(accounts[i], q.len() as int);
            } else {
                assert(a.take(p.len() as int) =~= p);
                assert(b.take(q.len() as int) =~= q);
            }
            assert(false);
        }
    }
}

/// The numbers of accounts that go by the same plan follow their keys.
pub proof fn grouped_numbers_follow_keys(
    accounts: Seq<AccountView>,
    group: Seq<int>,
    i: int,
    j: int,
)
    requires
        group.contains(i),
        goes_by_plan(accounts[i], plan_text(accounts[j])),
        text_less(accounts[i].account_key, accounts[j].account_key),
    ensures
        plan_count_before(
            accounts,
            group,
            plan_text(accounts[j]),
            accounts[i].account_key,
        ) < plan_count_before(
            accounts,
            group,
            plan_text(accounts[j]),
            accounts[j].account_key,
        ),
{
    let k = choose|k: int| 0 <= k < group.len() && group[k] == i;
    assert(goes_by_plan(accounts[group[k]], plan_text(accounts[j])));
    count_before_grows(
        accounts,
        group,
        plan_text(accounts[j]),
        accounts[i].account_key,
        accounts[j].account_key,
    );
}

/// What an account is called within a group.
pub fn grouped_account_cell(registry: &Registry, group: &[usize], account_idx: usize) -> (r: String)
    requires
        account_idx < registry@.accounts.len(),
        all_in_range(registry@, numbers(group@)),
    ensures
        r@ == grouped_cell(registry@.accounts, numbers(group@), account_idx as int),
{
    let ghost accounts = registry@.accounts;
    let ghost all = numbers(group@);
    assert(accounts[account_idx as int] == registry.accounts@[account_idx as int]@);
    let record = &registry.accounts[account_idx];
    let base = display_plan(record);
    let mut count: usize = 0;
    let mut before: usize = 0;
    let mut k: usize = 0;
    assert(all.take(0) =~= Seq::empty());
    while k < group.len()
        invariant
            k <= group.len(),
            accounts == registry@.accounts,
            account_idx < accounts.len(),
            record@ == accounts[account_idx as int],
            all == numbers(group@),
            all_in_range(registry@, all),
            base@ == plan_text(record@),
            count <= k,
            before <= k,
            count == plan_count(accounts, all.take(k as int), base@),
            before == plan_count_before(
                accounts,
                all.take(k as int),
                base@,
                record@.account_key,
            ),
        decreases group.len() - k,
    {
        proof {
            assert(all[k as int] == group@[k as int] as int);
            assert(accounts[all[k as int]] == registry.accounts@[all[k as int]]@);
            assert(all.take(k as int + 1).drop_last() =~= all.take(k as int));
            assert(all.take(k as int + 1).last() == all[k as int]);
        }
        let other = &registry.accounts[group[k]];
        if other.alias.as_str().is_empty() && display_plan(other) == base {
            count = count + 1;
            if is_less(other.account_key.as_str(), record.account_key.as_str()) {
                before = before + 1;
            }
        }
        k = k + 1;
    }
    assert(all.take(all.len() as int) =~= all);
    if count <= 1 {
        build_preferred_account_label(record, base.as_str())
    } else {
        let mut fallback = concat(base.as_str(), " #");
        fallback.append(decimal_of(before as u128 + 1).as_str());
        build_preferred_account_label(record, fallback.as_str())
    }
}

/// How many at the front have the same email as the first.
pub open spec fn group_len(accounts: Seq<AccountView>, ordered: Seq<int>) -> nat {
    same_email_len(accounts, ordered, accounts[ordered[0]].email)
}

/// How many at the front have the given email.
pub open spec fn same_email_len(
    accounts: Seq<AccountView>,
    ordered: Seq<int>,
    email: Seq<char>,
) -> nat
    decreases ordered.len(),
{
    if ordered.len() > 0 && accounts[ordered[0]].email == email {
        1 + same_email_len(accounts, ordered.drop_first(), email)
    } else {
        0
    }
}

/// The row of an account that is the only one with its email.
pub open spec fn single_row(registry: RegistryView, i: int) -> RowView {
    RowView {
        account_index: Some(i),
        account_cell: registry.accounts[i].email,
        depth: 0,
        is_active: is_active_account(registry, i),
    }
}

/// The row above the accounts of an email.
pub open spec fn heading_row(email: Seq<char>) -> RowView {
    RowView { account_index: None, account_cell: email, depth: 0, is_active: false }
}

/// The row of an account below a heading.
pub open spec fn member_row(registry: RegistryView, group: Seq<int>, i: int) -> RowView {
    RowView {
        account_index: Some(i),
        account_cell: grouped_cell(registry.accounts, group, i),
        depth: 1,
        is_active: is_active_account(registry, i),
    }
}

/// The rows of the accounts of one email.
pub open spec fn group_rows(registry: RegistryView, group: Seq<int>) -> Seq<RowView> {
    if group.len() == 1 {
        seq![single_row(registry, group[0])]
    } else {
        seq![heading_row(registry.accounts[group[0]].email)] + group.map_values(
            |i: int| member_row(registry, group, i),
        )
    }
}

/// The rows of accounts in order, email by email.
pub open spec fn rows_of(registry: RegistryView, ordered: Seq<int>) -> Seq<RowView>
    decreases ordered.len(),
{
    let n = group_len(registry.accounts, ordered);
    if ordered.len() == 0 || n == 0 || n > ordered.len() {
        Seq::empty()
    } else {
        group_rows(registry, ordered.take(n as int)) + rows_of(registry, ordered.skip(n as int))
    }
}

proof fn same_email_len_bound(accounts: Seq<AccountView>, ordered: Seq<int>, email: Seq<char>)
    ensures
        same_email_len(accounts, ordered, email) <= ordered.len(),
    decreases ordered.len(),
{
    if ordered.len() > 0 {
        same_email_len_bound(accounts, ordered.drop_first(), email);
    }
}

/// The accounts of a list of rows, top down.
pub open spec fn row_accounts(rows: Seq<RowView>) -> Seq<int>
    decreases rows.len(),
{
    if rows.len() == 0 {
        Seq::empty()
    } else {
        let rest = row_accounts(rows.drop_last());
        match rows.last().account_index {
            Some(i) => rest.push(i),
            None => rest,
        }
    }
}

/// The account of a row is one of the accounts of the rows.
pub proof fn row_account_is_listed(rows: Seq<RowView>, k: int)
    requires
        0 <= k < rows.len(),
        rows[k].account_index is Some,
    ensures
        row_accounts(rows).contains(rows[k].account_index->0),
    decreases rows.len(),
{
    let listed = row_accounts(rows);
    let rest = row_accounts(rows.drop_last());
    if k == rows.len() - 1 {
        assert(listed[rest.len() as int] == rows[k].account_index->0);
    } else {
        row_account_is_listed(rows.drop_last(), k);
        let j = choose|j: int|
            0 <= j < rest.len() && rest[j] == rows[k].account_index->0;
        assert(listed[j] == rest[j]);
    }
}

proof fn row_accounts_join(a: Seq<RowView>, b: Seq<RowView>)
    ensures
        row_accounts(a + b) == row_accounts(a) + row_accounts(b),
    decreases b.len(),
{
    if b.len() == 0 {
        assert(a + b =~= a);
        assert(row_accounts(a) + row_accounts(b) =~= row_accounts(a));
    } else {
        row_accounts_join(a, b.drop_last());
        assert((a + b).drop_last() =~= a + b.drop_last());
        assert((a + b).last() == b.last());
        assert(row_accounts(a + b) =~= row_accounts(a) + row_accounts(b));
    }
}

proof fn member_rows_accounts(registry: RegistryView, group: Seq<int>, part: Seq<int>)
    ensures
        row_accounts(part.map_values(|i: int| member_row(registry, group, i))) == part,
    decreases part.len(),
{
    let rows = part.map_values(|i: int| member_row(registry, group, i));
    if part.len() > 0 {
        member_rows_accounts(registry, group, part.drop_last());
        assert(rows.drop_last() =~= part.drop_last().map_values(
            |i: int| member_row(registry, group, i),
        ));
        assert(row_accounts(rows) =~= part);
    } else {
        assert(row_accounts(rows) =~= part);
    }
}

/// Every account that is to be shown has exactly one row, in the order of the list.
pub proof fn rows_show_every_account(registry: RegistryView, ordered: Seq<int>)
    ensures
        row_accounts(rows_of(registry, ordered)) == ordered,
    decreases ordered.len(),
{
    let n = group_len(registry.accounts, ordered);
    if ordered.len() > 0 {
        let email = registry.accounts[ordered[0]].email;
        same_email_len_bound(registry.accounts, ordered, email);
        assert(n >= 1);
        let group = ordered.take(n as int);
        let rest = ordered.skip(n as int);
        rows_show_every_account(registry, rest);
        row_accounts_join(group_rows(registry, group), rows_of(registry, rest));
        if group.len() == 1 {
            let rows = seq![single_row(registry, group[0])];
            assert(rows.drop_last() =~= Seq::empty());
            assert(row_accounts(rows) =~= group) by {
                assert(row_accounts(rows.drop_last()) =~= Seq::empty());
            }
        } else {
            let heading = seq![heading_row(email)];
            let members = group.map_values(|i: int| member_row(registry, group, i));
            assert(heading.drop_last() =~= Seq::empty());
            assert(row_accounts(heading) =~= Seq::empty()) by {
                assert(row_accounts(heading.drop_last()) =~= Seq::empty());
            }
            row_accounts_join(heading, members);
            member_rows_accounts(registry, group, group);
            assert(row_accounts(heading + members) =~= group);
        }
        assert(group + rest =~= ordered);
    } else {
        assert(row_accounts(rows_of(registry, ordered)) =~= ordered);
    }
}

fn group_end(registry: &Registry, ordered: &Vec<usize>, start: usize) -> (end: usize)
    requires
        start < ordered.len(),
        all_in_range(registry@, numbers(ordered@)),
    ensures
        start < end <= ordered.len(),
        end - start == group_len(registry@.accounts, numbers(ordered@).skip(start as int)),
{
    let ghost accounts = registry@.accounts;
    let ghost all = numbers(ordered@);
    let ghost rest = all.skip(start as int);
    assert(all[start as int] == ordered@[start as int] as int);
    assert(accounts[all[start as int]] == registry.accounts@[all[start as int]]@);
    let email = &registry.accounts[ordered[start]].email;
    assert(rest[0] == all[start as int]);
    assert(rest.drop_first() =~= all.skip(start as int + 1));
    let mut end: usize = start + 1;
    while end < ordered.len()
        invariant
            start < end <= ordered.len(),
            accounts == registry@.accounts,
            all == numbers(ordered@),
            rest == all.skip(start as int),
            all_in_range(registry@, all),
            same_email_len(accounts, rest, email@) == end - start + same_email_len(
                accounts,
                all.skip(end as int),
                email@,
            ),
        ensures
            start < end <= ordered.len(),
            same_email_len(accounts, rest, email@) == end - start,
        decreases ordered.len() - end,
    {
        proof {
            assert(all[end as int] == ordered@[end as int] as int);
            assert(accounts[all[end as int]] == registry.accounts@[all[end as int]]@);
            assert(all.skip(end as int)[0] == all[end as int]);
            assert(all.skip(end as int).drop_first() =~= all.skip(end as int + 1));
        }
        if registry.accounts[ordered[end]].email != *email {
            break;
        }
        end = end + 1;
    }
    end
}

fn push_group(registry: &Registry, rows: &mut Vec<DisplayRow>, group: &[usize])
    requires
        0 < group@.len(),
        all_in_range(registry@, numbers(group@)),
    ensures
        row_views(final(rows)@) == row_views(old(rows)@) + group_rows(
            registry@,
            numbers(group@),
        ),
{
    let ghost view = registry@;
    let ghost all = numbers(group@);
    let ghost start = row_views(rows@);
    assert(all[0] == group@[0] as int);
    assert(view.accounts[all[0]] == registry.accounts@[all[0]]@);
    if group.len() == 1 {
        let idx = group[0];
        rows.push(
            DisplayRow {
                account_index: Some(idx),
                account_cell: registry.accounts[idx].email.clone(),
                depth: 0,
                is_active: is_active(registry, idx),
            },
        );
        assert(row_views(rows@) =~= start + group_rows(view, all));
        return ;
    }
    rows.push(
        DisplayRow {
            account_index: None,
            account_cell: registry.accounts[group[0]].email.clone(),
            depth: 0,
            is_active: false,
        },
    );
    let ghost heading = seq![heading_row(view.accounts[all[0]].email)];
    let ghost row = |i: int| member_row(view, all, i);
    assert(row_views(rows@) =~= start + (heading + all.take(0).map_values(row)));
    let mut k: usize = 0;
    while k < group.len()
        invariant
            k <= group.len(),
            view == registry@,
            all == numbers(group@),
            all_in_range(view, all),
            row == (|i: int| member_row(view, all, i)),
            row_views(rows@) == start + (heading + all.take(k as int).map_values(row)),
        decreases group.len() - k,
    {
        let ghost before = row_views(rows@);
        let idx = group[k];
        assert(all[k as int] == idx as int);
        rows.push(
            DisplayRow {
                account_index: Some(idx),
                account_cell: grouped_account_cell(registry, group, idx),
                depth: 1,
                is_active: is_active(registry, idx),
            },
        );
        proof {
            assert(row_views(rows@) =~= before.push(row(all[k as int])));
            assert(all.take(k as int + 1) =~= all.take(k as int).push(all[k as int]));
            assert(all.take(k as int + 1).map_values(row) =~= all.take(k as int).map_values(
                row,
            ).push(row(all[k as int])));
            assert(row_views(rows@) =~= start + (heading + all.take(k as int + 1).map_values(
                row,
            )));
        }
        k = k + 1;
    }
    assert(all.take(all.len() as int) =~= all);
}

/// The rows of indices that are in order.
pub fn rows_in_order(registry: &Registry, ordered: &Vec<usize>) -> (rows: Vec<DisplayRow>)
    requires
        all_in_range(registry@, numbers(ordered@)),
    ensures
        row_views(rows@) == rows_of(registry@, numbers(ordered@)),
{
    let ghost view = registry@;
    let ghost all = numbers(ordered@);
    let mut rows: Vec<DisplayRow> = Vec::new();
    let mut i: usize = 0;
    proof {
        assert(all.skip(0) =~= all);
        assert(row_views(rows@) + rows_of(view, all) =~= rows_of(view, all));
    }
    while i < ordered.len()
        invariant
            i <= ordered.len(),
            view == registry@,
            all == numbers(ordered@),
            all_in_range(view, all),
            rows_of(view, all) == row_views(rows@) + rows_of(view, all.skip(i as int)),
        decreases ordered.len() - i,
    {
        let end = group_end(registry, ordered, i);
        let group = vstd::slice::slice_subrange(ordered.as_slice(), i, end);
        let ghost before = row_views(rows@);
        let ghost rest = all.skip(i as int);
        proof {
            assert(numbers(group@) =~= rest.take(end - i));
            assert forall|k: int| 0 <= k < numbers(group@).len() implies 0 <= #[trigger] numbers(
                group@,
            )[k] < view.accounts.len() by {
                assert(numbers(group@)[k] == all[i + k]);
            }
            assert(rest.skip(end - i) =~= all.skip(end as int));
        }
        push_group(registry, &mut rows, group);
        proof {
            assert(rows_of(view, rest) == group_rows(view, rest.take(end - i)) + rows_of(
                view,
                all.skip(end as int),
            ));
            assert(before + (group_rows(view, rest.take(end - i)) + rows_of(
                view,
                all.skip(end as int),
            )) =~= row_views(rows@) + rows_of(view, all.skip(end as int)));
        }
        i = end;
    }
    assert(row_views(rows@) + rows_of(view, all.skip(i as int)) =~= row_views(rows@));
    rows
}

/// All indices of a list, in order.
pub open spec fn every_index(n: nat) -> Seq<int> {
    Seq::new(n, |i: int| i)
}

/// The indices that are to be shown.
pub open spec fn wanted_indices(registry: RegistryView, indices: Option<&[usize]>) -> Seq<int> {
    match indices {
        Some(indices) => numbers(indices@),
        None => every_index(registry.accounts.len()),
    }
}

/// The rows of the given accounts, or of all: the accounts of an email stand together, below a
/// heading where there are several.
pub fn build_display_rows(registry: &Registry, account_indices: Option<&[usize]>) -> (rows: Vec<
    DisplayRow,
>)
    requires
        all_in_range(registry@, wanted_indices(registry@, account_indices)),
    ensures
        exists|ordered: Seq<int>|
            #[trigger] stably_ordered(
                registry@,
                wanted_indices(registry@, account_indices),
                ordered,
            ) && row_views(rows@) == rows_of(registry@, ordered),
{
    let ordered = match account_indices {
        Some(indices) => display_order(registry, indices),
        None => {
            let mut indices: Vec<usize> = Vec::new();
            let n = registry.accounts.len();
            let mut i: usize = 0;
            assert(numbers(indices@) =~= every_index(0));
            while i < n
                invariant
                    i <= n,
                    n == registry@.accounts.len(),
                    numbers(indices@) == every_index(i as nat),
                decreases n - i,
            {
                let ghost before = numbers(indices@);
                indices.push(i);
                assert(numbers(indices@) =~= before.push(i as int));
                assert(every_index(i as nat + 1) =~= every_index(i as nat).push(i as int));
                i = i + 1;
            }
            display_order(registry, indices.as_slice())
        },
    };
    rows_in_order(registry, &ordered)
}

/// How much is left, between none and all of it.
pub open spec fn left_percent(used: UsedPercent) -> int {
    if used.remaining < 0 {
        0
    } else if used.remaining > 100 {
        100
    } else {
        used.remaining as int
    }
}

/// How much is left, in percent.
pub fn remaining_percent(used: UsedPercent) -> (r: u8)
    ensures
        r == left_percent(used),
        r <= 100,
{
    if used.remaining < 0 {
        0
    } else if used.remaining > 100 {
        100
    } else {
        used.remaining as u8
    }
}

/// A limit as it is shown at the time `now` of the day `today`, where `reset` is the local form of
/// the time at which it is reset.
pub open spec fn rate_limit_text(
    window: Option<RateLimitWindow>,
    now: int,
    today: int,
    reset: Option<LocalTime>,
) -> Seq<char> {
    match window {
        Some(window) => match window.resets_at {
            Some(reset_at) => if now >= reset_at {
                "100%"@
            } else {
                let percent = decimal(left_percent(window.used_percent) as nat) + "%"@;
                match reset {
                    None => percent,
                    Some(time) => if time.day == today {
                        percent + " ("@ + time.clock@ + ")"@
                    } else {
                        percent + " ("@ + time.clock@ + " on "@ + time.date@ + ")"@
                    },
                }
            },
            None => "-"@,
        },
        None => "-"@,
    }
}

/// A limit as it is shown at a given time.
pub fn format_rate_limit_ui_at(
    window: Option<&RateLimitWindow>,
    now: i64,
    today: i32,
    reset: Option<LocalTime>,
) -> (r: String)
    ensures
        r@ == rate_limit_text(option_window(window), now as int, today as int, reset),
{
    let (used, reset_at) = match window {
        Some(window) => match window.resets_at {
            Some(reset_at) => (window.used_percent, reset_at),
            None => {
                return "-".to_owned();
            },
        },
        None => {
            return "-".to_owned();
        },
    };
    if now >= reset_at {
        return "100%".to_owned();
    }
    let mut r = concat(decimal_of(remaining_percent(used) as u128).as_str(), "%");
    match reset {
        None => r,
        Some(time) => {
            r.append(" (");
            r.append(time.clock.as_str());
            if time.day != today {
                r.append(" on ");
                r.append(time.date.as_str());
            }
            r.append(")");
            r
        },
    }
}

/// A window by value.
pub open spec fn option_window(window: Option<&RateLimitWindow>) -> Option<RateLimitWindow> {
    match window {
        Some(window) => Some(*window),
        None => None,
    }
}

/// The time at which a window is reset, where it is known.
pub open spec fn reset_time(window: Option<RateLimitWindow>) -> Option<int> {
    match window {
        Some(window) => match window.resets_at {
            Some(at) => Some(at as int),
            None => None,
        },
        None => None,
    }
}

/// A limit as it is shown now. A reset within a day of the end of the calendar has no local form
/// that could be relied on.
pub fn format_rate_limit_ui(window: Option<&RateLimitWindow>) -> (r: String)
    requires
        reset_time(option_window(window)) matches Some(at) ==> at > 0 ==> !at_calendar_end(at),
    ensures
        exists|now: int, today: int, reset: Option<LocalTime>|
            {
                &&& r@ == #[trigger] rate_limit_text(option_window(window), now, today, reset)
                &&& now >= 0
                &&& in_calendar(now)
                &&& is_local_day(today)
                &&& reset matches Some(time) ==> {
                    &&& reset_time(option_window(window)) is Some
                    &&& is_local_time(reset_time(option_window(window))->0, time)
                }
                &&& reset_time(option_window(window)) matches Some(at) ==> now < at ==> (reset
                    is Some <==> in_calendar(at))
            },
{
    let (known, at) = match window {
        Some(known) => match known.resets_at {
            Some(at) => (known, at),
            None => {
                assert(is_local_day(day_at(0, 0)));
                assert("-"@ == rate_limit_text(option_window(window), 0, day_at(0, 0), None));
                return "-".to_owned();
            },
        },
        None => {
            assert(is_local_day(day_at(0, 0)));
            assert("-"@ == rate_limit_text(option_window(window), 0, day_at(0, 0), None));
            return "-".to_owned();
        },
    };
    let now = local_now();
    if now >= at {
        assert(is_local_day(day_at(0, 0)));
        assert("100%"@ == rate_limit_text(option_window(window), now as int, day_at(0, 0), None));
        return "100%".to_owned();
    }
    let reset = local_time(at);
    let ghost kept = reset;
    let today = match &reset {
        Some(_) => local_today(),
        // The date is not looked at.
        None => 719_163,
    };
    assert(day_at(0, 0) == 719_163);
    let r = format_rate_limit_ui_at(Some(known), now, today, reset);
    assert(r@ == rate_limit_text(option_window(window), now as int, today as int, kept));
    r
}

/// The time that has passed, within the numbers that an `i64` can hold.
pub open spec fn passed(now: int, then: int) -> int {
    if now - then > i64::MAX {
        i64::MAX as int
    } else if now - then < i64::MIN {
        i64::MIN as int
    } else {
        now - then
    }
}

/// How long ago a time is, as it is shown.
pub open spec fn activity_text(last: Option<i64>, now: int) -> Seq<char> {
    match last {
        Some(last) => {
            let delta = passed(now, last as int);
            if delta < 60 {
                "just now"@
            } else if delta < 3600 {
                decimal((delta / 60) as nat) + "m ago"@
            } else if delta < 86_400 {
                decimal((delta / 3600) as nat) + "h ago"@
            } else {
                decimal((delta / 86_400) as nat) + "d ago"@
            }
        },
        None => "-"@,
    }
}

fn time_passed(now: i64, then: i64) -> (delta: i64)
    ensures
        delta == passed(now as int, then as int),
{
    if then < 0 && now > i64::MAX + then {
        i64::MAX
    } else if then > 0 && now < i64::MIN + then {
        i64::MIN
    } else {
        now - then
    }
}

/// How long ago a time is, as it is shown at a given time.
pub fn format_last_activity_at(last_usage_at: Option<i64>, now: i64) -> (r: String)
    ensures
        r@ == activity_text(last_usage_at, now as int),
{
    match last_usage_at {
        Some(last) => {
            let delta = time_passed(now, last);
            if delta < 60 {
                "just now".to_owned()
            } else if delta < 3600 {
                concat(decimal_of((delta / 60) as u128).as_str(), "m ago")
            } else if delta < 86_400 {
                concat(decimal_of((delta / 3600) as u128).as_str(), "h ago")
            } else {
                concat(decimal_of((delta / 86_400) as u128).as_str(), "d ago")
            }
        },
        None => "-".to_owned(),
    }
}

/// How long ago a time is, as it is shown now.
pub fn format_last_activity(last_usage_at: Option<i64>) -> (r: String)
    ensures
        exists|now: int|
            now >= 0 && in_calendar(now) && r@ == #[trigger] activity_text(last_usage_at, now),
{
    if last_usage_at.is_none() {
        assert("-"@ == activity_text(last_usage_at, 0));
        return "-".to_owned();
    }
    let now = local_now();
    let r = format_last_activity_at(last_usage_at, now);
    assert(r@ == activity_text(last_usage_at, now as int));
    r
}

/// The window of the given length, else the one that stands for it.
pub open spec fn window_for(
    primary: Option<RateLimitWindow>,
    secondary: Option<RateLimitWindow>,
    minutes: i64,
    fallback_primary: bool,
) -> Option<RateLimitWindow> {
    if primary matches Some(window) && window.window_minutes == Some(minutes) {
        primary
    } else if secondary matches Some(window) && window.window_minutes == Some(minutes) {
        secondary
    } else if fallback_primary {
        primary
    } else {
        secondary
    }
}

/// The window of the given length; where there is none, the primary or the secondary one.
pub fn resolve_rate_window(
    usage: Option<&RateLimitSnapshot>,
    minutes: i64,
    fallback_primary: bool,
) -> (r: Option<&RateLimitWindow>)
    ensures
        option_window(r) == match usage {
            Some(usage) => window_for(usage@.primary, usage@.secondary, minutes, fallback_primary),
            None => None,
        },
{
    match usage {
        Some(usage) => {
            if let Some(window) = &usage.primary {
                if same_number(window.window_minutes, Some(minutes)) {
                    return Some(window);
                }
            }
            if let Some(window) = &usage.secondary {
                if same_number(window.window_minutes, Some(minutes)) {
                    return Some(window);
                }
            }
            if fallback_primary {
                usage.primary.as_ref()
            } else {
                usage.secondary.as_ref()
            }
        },
        None => None,
    }
}

}
