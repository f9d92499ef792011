//! The usage that the session logs of Codex tell.

use vstd::prelude::*;

use crate::auth::{parse_plan_type, plan_of};
use crate::clock::{parse_rfc3339, rfc3339_millis};
use crate::model::{
    option_credits_view, option_snapshot_view, CreditsSnapshot, CreditsView, PlanType,
    RateLimitSnapshot, RateLimitWindow, SnapshotView, UsedPercent,
};
use crate::text::{contains, has_part, option_view, same};

verus! {

/// The usage that was told last, and where.
#[derive(Debug)]
pub struct LatestUsage {
    pub path: String,
    pub event_timestamp_ms: i64,
    pub snapshot: RateLimitSnapshot,
}

/// The model of [`LatestUsage`].
#[verifier::ext_equal]
pub struct LatestView {
    pub path: Seq<char>,
    pub event_timestamp_ms: i64,
    pub snapshot: SnapshotView,
}

impl View for LatestUsage {
    type V = LatestView;

    open spec fn view(&self) -> LatestView {
        LatestView {
            path: self.path@,
            event_timestamp_ms: self.event_timestamp_ms,
            snapshot: self.snapshot@,
        }
    }
}

impl Clone for LatestUsage {
    fn clone(&self) -> (r: Self)
        ensures
            r@ == self@,
    {
        LatestUsage {
            path: self.path.clone(),
            event_timestamp_ms: self.event_timestamp_ms,
            snapshot: self.snapshot.clone(),
        }
    }
}

/// The model of usage that may be missing.
pub open spec fn option_latest_view(latest: Option<LatestUsage>) -> Option<LatestView> {
    match latest {
        Some(latest) => Some(latest@),
        None => None,
    }
}

/// A window of a usage event, with its percentage where that is a number.
#[derive(Debug, Clone, Copy)]
pub struct UsageWindowJson {
    pub used_percent: Option<UsedPercent>,
    pub window_minutes: Option<i64>,
    pub resets_at: Option<i64>,
}

/// The limits of a usage event.
#[derive(Debug)]
pub struct UsageRateLimitsJson {
    pub primary: Option<UsageWindowJson>,
    pub secondary: Option<UsageWindowJson>,
    pub credits: Option<CreditsSnapshot>,
    pub plan_type: Option<String>,
}

/// A line of a session log that has the shape of a usage event.
#[derive(Debug)]
pub struct UsageEventLineJson {
    pub timestamp: String,
    pub kind: String,
    pub payload_kind: String,
    pub rate_limits: Option<UsageRateLimitsJson>,
}

/// The model of [`UsageRateLimitsJson`].
#[verifier::ext_equal]
pub struct RateLimitsView {
    pub primary: Option<UsageWindowJson>,
    pub secondary: Option<UsageWindowJson>,
    pub credits: Option<CreditsView>,
    pub plan_type: Option<Seq<char>>,
}

impl View for UsageRateLimitsJson {
    type V = RateLimitsView;

    open spec fn view(&self) -> RateLimitsView {
        RateLimitsView {
            primary: self.primary,
            secondary: self.secondary,
            credits: option_credits_view(self.credits),
            plan_type: option_view(self.plan_type),
        }
    }
}

/// The model of [`UsageEventLineJson`].
#[verifier::ext_equal]
pub struct UsageEventView {
    pub timestamp: Seq<char>,
    pub kind: Seq<char>,
    pub payload_kind: Seq<char>,
    pub rate_limits: Option<RateLimitsView>,
}

impl View for UsageEventLineJson {
    type V = UsageEventView;

    open spec fn view(&self) -> UsageEventView {
        UsageEventView {
            timestamp: self.timestamp@,
            kind: self.kind@,
            payload_kind: self.payload_kind@,
            rate_limits: match self.rate_limits {
                Some(limits) => Some(limits@),
                None => None,
            },
        }
    }
}

/// The model of a line that may be no event.
pub open spec fn option_event_view(event: Option<UsageEventLineJson>) -> Option<UsageEventView> {
    match event {
        Some(event) => Some(event@),
        None => None,
    }
}

/// The line holds every word that a usage event holds.
pub open spec fn names_usage(line: Seq<char>) -> bool {
    &&& has_part(line, "\"event_msg\""@)
    &&& has_part(line, "\"token_count\""@)
    &&& has_part(line, "\"rate_limits\""@)
    &&& has_part(line, "\"timestamp\""@)
}

/// Whether a line is worth parsing.
pub fn may_be_usage_event(line: &str) -> (r: bool)
    ensures
        r == names_usage(line@),
{
    contains(line, "\"event_msg\"") && contains(line, "\"token_count\"") && contains(
        line,
        "\"rate_limits\"",
    ) && contains(line, "\"timestamp\"")
}

/// The window, where its percentage is a number.
pub open spec fn window_of(window: Option<UsageWindowJson>) -> Option<RateLimitWindow> {
    match window {
        Some(window) => match window.used_percent {
            Some(used_percent) => Some(
                RateLimitWindow {
                    used_percent,
                    window_minutes: window.window_minutes,
                    resets_at: window.resets_at,
                },
            ),
            None => None,
        },
        None => None,
    }
}

/// The window, where its percentage is a number.
pub fn parse_window(window: Option<UsageWindowJson>) -> (r: Option<RateLimitWindow>)
    ensures
        r == window_of(window),
{
    match window {
        Some(window) => match window.used_percent {
            Some(used_percent) => Some(
                RateLimitWindow {
                    used_percent,
                    window_minutes: window.window_minutes,
                    resets_at: window.resets_at,
                },
            ),
            None => None,
        },
        None => None,
    }
}

/// The plan of a name that may be missing.
pub open spec fn option_plan_of(name: Option<Seq<char>>) -> Option<PlanType> {
    match name {
        Some(name) => Some(plan_of(name)),
        None => None,
    }
}

/// The limits, where they have at least one window.
pub open spec fn snapshot_of(limits: RateLimitsView) -> Option<SnapshotView> {
    let primary = window_of(limits.primary);
    let secondary = window_of(limits.secondary);
    if primary is None && secondary is None {
        None
    } else {
        Some(
            SnapshotView {
                primary,
                secondary,
                credits: limits.credits,
                plan_type: option_plan_of(limits.plan_type),
            },
        )
    }
}

/// The limits, where they have at least one window.
pub fn parse_rate_limits(limits: UsageRateLimitsJson) -> (r: Option<RateLimitSnapshot>)
    ensures
        option_snapshot_view(r) == snapshot_of(limits@),
{
    let UsageRateLimitsJson { primary, secondary, credits, plan_type } = limits;
    let primary = parse_window(primary);
    let secondary = parse_window(secondary);
    if primary.is_none() && secondary.is_none() {
        return None;
    }
    Some(
        RateLimitSnapshot {
            primary,
            secondary,
            credits,
            plan_type: match plan_type {
                Some(name) => Some(parse_plan_type(name.as_str())),
                None => None,
            },
        },
    )
}

/// The model of the time and the limits that a line tells.
pub open spec fn event_result_view(r: Option<(i64, RateLimitSnapshot)>) -> Option<
    (i64, SnapshotView),
> {
    match r {
        Some((ms, snapshot)) => Some((ms, snapshot@)),
        None => None,
    }
}

/// The limits of an event whose time is known to be `ms`, or to be none.
pub open spec fn timed_usage(event: UsageEventView, ms: Option<i64>) -> Option<(i64, SnapshotView)> {
    if event.kind != "event_msg"@ || event.payload_kind != "token_count"@ {
        None
    } else {
        match event.rate_limits {
            Some(limits) => match (snapshot_of(limits), ms) {
                (Some(snapshot), Some(ms)) => Some((ms, snapshot)),
                _ => None,
            },
            None => None,
        }
    }
}

/// The time and the limits that a line tells, where it is a usage event.
pub open spec fn usage_event(event: UsageEventView) -> Option<(i64, SnapshotView)> {
    timed_usage(event, rfc3339_millis(event.timestamp))
}

/// The time and the limits that a line tells, with the time of its timestamp read already.
pub fn parse_timed_event(event: UsageEventLineJson, ms: Option<i64>) -> (r: Option<
    (i64, RateLimitSnapshot),
>)
    ensures
        event_result_view(r) == timed_usage(event@, ms),
{
    if !same(event.kind.as_str(), "event_msg") || !same(
        event.payload_kind.as_str(),
        "token_count",
    ) {
        return None;
    }
    match event.rate_limits {
        Some(limits) => match (parse_rate_limits(limits), ms) {
            (Some(snapshot), Some(ms)) => Some((ms, snapshot)),
            _ => None,
        },
        None => None,
    }
}

/// The time and the limits that a line tells, where it is a usage event.
pub fn parse_usage_event(event: UsageEventLineJson) -> (r: Option<(i64, RateLimitSnapshot)>)
    ensures
        event_result_view(r) == usage_event(event@),
{
    let ms = parse_rfc3339(event.timestamp.as_str());
    parse_timed_event(event, ms)
}

/// What a line tells: nothing unless it holds the words of a usage event. `read_event` reads the
/// line, or nothing where it has another shape.
pub open spec fn line_outcome<F: Fn(&str) -> Option<UsageEventLineJson>>(
    line: &str,
    read_event: F,
    r: Option<(i64, SnapshotView)>,
) -> bool {
    if names_usage(line@) {
        exists|event: Option<UsageEventLineJson>|
            {
                &&& #[trigger] read_event.ensures((line,), event)
                &&& r == match option_event_view(event) {
                    Some(event) => usage_event(event),
                    None => None,
                }
            }
    } else {
        r is None
    }
}

/// What a line tells.
pub fn parse_usage_event_line<F: Fn(&str) -> Option<UsageEventLineJson>>(
    line: &str,
    read_event: F,
) -> (r: Option<(i64, RateLimitSnapshot)>)
    requires
        read_event.requires((line,)),
    ensures
        line_outcome(line, read_event, event_result_view(r)),
{
    if !may_be_usage_event(line) {
        return None;
    }
    let event = read_event(line);
    match event {
        Some(event) => parse_usage_event(event),
        None => None,
    }
}

/// The later of two events; of two at the same time, the second.
pub open spec fn later(best: Option<LatestView>, candidate: LatestView) -> LatestView {
    match best {
        Some(best) if candidate.event_timestamp_ms < best.event_timestamp_ms => best,
        _ => candidate,
    }
}

/// Goes on with the later of two events.
pub fn keep_latest(best: Option<LatestUsage>, candidate: LatestUsage) -> (r: LatestUsage)
    ensures
        r@ == later(option_latest_view(best), candidate@),
{
    match best {
        Some(best) => if candidate.event_timestamp_ms < best.event_timestamp_ms {
            best
        } else {
            candidate
        },
        None => candidate,
    }
}

/// The event that is left when the later of two is kept each time, beginning with `best`.
pub open spec fn latest_from(best: Option<LatestView>, events: Seq<LatestView>) -> Option<
    LatestView,
>
    decreases events.len(),
{
    if events.len() == 0 {
        best
    } else {
        Some(later(latest_from(best, events.drop_last()), events.last()))
    }
}

/// The events of a log, of whose lines each told something or nothing.
pub open spec fn told_events(path: Seq<char>, told: Seq<Option<(i64, SnapshotView)>>) -> Seq<
    LatestView,
>
    decreases told.len(),
{
    if told.len() == 0 {
        Seq::empty()
    } else {
        let rest = told_events(path, told.drop_last());
        match told.last() {
            Some((event_timestamp_ms, snapshot)) => rest.push(
                LatestView { path, event_timestamp_ms, snapshot },
            ),
            None => rest,
        }
    }
}

/// Each line of a log told what is listed for it.
pub open spec fn lines_told<F: Fn(&str) -> Option<UsageEventLineJson>>(
    lines: Seq<&str>,
    read_event: F,
    told: Seq<Option<(i64, SnapshotView)>>,
) -> bool {
    &&& told.len() == lines.len()
    &&& forall|i: int|
        0 <= i < lines.len() ==> line_outcome(lines[i], read_event, #[trigger] told[i])
}

/// Goes on with the latest event, after the lines of one log.
pub fn scan_log<F: Fn(&str) -> Option<UsageEventLineJson>>(
    best: Option<LatestUsage>,
    path: &str,
    lines: &[&str],
    read_event: F,
) -> (r: Option<LatestUsage>)
    requires
        forall|line: &str| #[trigger] read_event.requires((line,)),
    ensures
        exists|told: Seq<Option<(i64, SnapshotView)>>|
            #[trigger] lines_told(lines@, read_event, told) && option_latest_view(r)
                == latest_from(option_latest_view(best), told_events(path@, told)),
{
    let ghost start = option_latest_view(best);
    let ghost mut told: Seq<Option<(i64, SnapshotView)>> = Seq::empty();
    let mut best = best;
    let mut i: usize = 0;
    while i < lines.len()
        invariant
            i <= lines.len(),
            told.len() == i,
            forall|line: &str| #[trigger] read_event.requires((line,)),
            forall|k: int|
                0 <= k < i ==> line_outcome(lines@[k], read_event, #[trigger] told[k]),
            option_latest_view(best) == latest_from(start, told_events(path@, told)),
        decreases lines.len() - i,
    {
        let ghost before = told;
        let parsed = parse_usage_event_line(lines[i], &read_event);
        proof {
            told = told.push(event_result_view(parsed));
            assert(told.drop_last() =~= before);
        }
        if let Some((event_timestamp_ms, snapshot)) = parsed {
            let candidate = LatestUsage { path: path.to_owned(), event_timestamp_ms, snapshot };
            proof {
                let events = told_events(path@, told);
                assert(events.drop_last() =~= told_events(path@, before));
            }
            best = Some(keep_latest(best, candidate));
        }
        i = i + 1;
    }
    assert(lines_told(lines@, read_event, told));
    best
}

/// Going through one log and then another is going through the events of both.
pub proof fn scans_join(best: Option<LatestView>, first: Seq<LatestView>, second: Seq<LatestView>)
    ensures
        latest_from(latest_from(best, first), second) == latest_from(best, first + second),
    decreases second.len(),
{
    if second.len() == 0 {
        assert(first + second =~= first);
    } else {
        scans_join(best, first, second.drop_last());
        assert((first + second).drop_last() =~= first + second.drop_last());
        assert((first + second).last() == second.last());
    }
}

/// What is left of several events is the last of the latest ones.
pub proof fn latest_is_last_of_latest(events: Seq<LatestView>) -> (i: int)
    requires
        events.len() > 0,
    ensures
        0 <= i < events.len(),
        latest_from(None, events) == Some(events[i]),
        forall|j: int|
            0 <= j < events.len() ==> (#[trigger] events[j]).event_timestamp_ms
                <= events[i].event_timestamp_ms,
        forall|j: int|
            i < j < events.len() ==> (#[trigger] events[j]).event_timestamp_ms
                < events[i].event_timestamp_ms,
    decreases events.len(),
{
    let last = events.len() - 1;
    if last == 0 {
        last
    } else {
        let rest = events.drop_last();
        let i = latest_is_last_of_latest(rest);
        assert forall|j: int| 0 <= j < last implies (#[trigger] events[j]).event_timestamp_ms
            <= rest[i].event_timestamp_ms by {
            assert(rest[j] == events[j]);
        }
        if events[last].event_timestamp_ms < events[i].event_timestamp_ms {
            assert forall|j: int| i < j < last implies (#[trigger] events[j]).event_timestamp_ms
                < rest[i].event_timestamp_ms by {
                assert(rest[j] == events[j]);
            }
            i
        } else {
            last
        }
    }
}

}
