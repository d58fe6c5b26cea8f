//! Report analytics: percentages, chart slices with an "other" remainder, the
//! cumulative trend and the per-day figures of a period.

use vstd::prelude::*;

use crate::text::{is_blank, str_is_blank};

verus! {

/// Hours logged on one issue in the period.
#[derive(Clone, Debug, PartialEq, Eq)]
pub struct TaskHours {
    pub issue_key: String,
    pub summary: String,
    pub issue_url: String,
    pub duration_seconds: u32,
    pub entries: usize,
}

/// Hours logged on one day; `date` is the day's Julian day number.
#[derive(Clone, Copy, Debug, PartialEq, Eq, Structural)]
pub struct DailyHours {
    pub date: i32,
    pub duration_seconds: u32,
}

/// The figures of a personal report that analytics reads.
#[derive(Clone, Debug, PartialEq, Eq)]
pub struct WeeklySummary {
    pub loaded_seconds: u32,
    pub days: Vec<DailyHours>,
    pub tasks: Vec<TaskHours>,
}

/// A logged worklog; `started_date` is the Julian day number of its start.
#[derive(Clone, Debug, PartialEq, Eq)]
pub struct Worklog {
    pub id: String,
    pub issue_key: String,
    pub issue_summary: String,
    pub author: String,
    pub started_date: i32,
    pub duration_seconds: u32,
    pub comment: String,
    pub issue_url: String,
}

/// A slice of the task chart; `issue_key` is `None` for the "other" remainder.
#[derive(Clone, Debug, PartialEq, Eq)]
pub struct TaskSlice {
    pub issue_key: Option<String>,
    pub seconds: u32,
    pub percentage: u32,
}

/// A point of the cumulative trend.
#[derive(Clone, Copy, Debug, PartialEq, Eq, Structural)]
pub struct TrendPoint {
    pub date: i32,
    pub seconds: u32,
    pub cumulative_seconds: u32,
}

/// The analytics of a personal report.
#[derive(Clone, Debug, PartialEq, Eq)]
pub struct ReportAnalytics {
    pub task_slices: Vec<TaskSlice>,
    pub trend: Vec<TrendPoint>,
    pub active_days: usize,
    pub average_active_day_seconds: u32,
    pub busiest_day: Option<DailyHours>,
    pub top_task_percentage: u32,
    pub uncommented_entries: usize,
}

/// A team member's figures.
#[derive(Clone, Debug, PartialEq, Eq)]
pub struct TeamMemberAnalytics {
    pub account_id: String,
    pub display_name: String,
    pub seconds: u32,
    pub active_days: usize,
    pub task_count: usize,
    pub entries: usize,
}

/// A slice of the member chart; `display_name` is `None` for the "other" remainder.
#[derive(Clone, Debug, PartialEq, Eq)]
pub struct TeamMemberSlice {
    pub display_name: Option<String>,
    pub seconds: u32,
}

/// `value` as a whole percentage of `total`: `value * 100` (saturating at
/// `u32::MAX`) divided by `total`, or 0 when `total` is 0.
pub open spec fn spec_percentage(value: u32, total: u32) -> u32 {
    if total == 0 {
        0
    } else if value * 100 > u32::MAX {
        (u32::MAX / total) as u32
    } else {
        ((value * 100) / (total as int)) as u32
    }
}

/// The whole percentage of `value` in `total`.
pub fn percentage(value: u32, total: u32) -> (p: u32)
    ensures
        p == spec_percentage(value, total),
{
    if total == 0 {
        return 0;
    }
    let scaled: u32 = if value > 42949672 {
        4294967295
    } else {
        value * 100
    };
    scaled / total
}

/// The average over the active days, or 0 when there are none (or more than
/// `u32::MAX` of them).
pub fn average_seconds(total_seconds: u32, active_days: usize) -> (average: u32)
    ensures
        average == (if active_days == 0 || active_days > u32::MAX {
            0
        } else {
            (total_seconds / (active_days as u32)) as u32
        }),
{
    if active_days == 0 || active_days > 4294967295usize {
        return 0;
    }
    let count = active_days as u32;
    total_seconds / count
}

/// The number of chart slices actually used: at least two.
pub open spec fn slice_limit(maximum: usize) -> int {
    if maximum < 2 {
        2
    } else {
        maximum as int
    }
}

/// The sum of the task durations.
pub open spec fn task_seconds(tasks: Seq<TaskHours>) -> int
    decreases tasks.len(),
{
    if tasks.len() == 0 {
        0
    } else {
        task_seconds(tasks.drop_last()) + tasks.last().duration_seconds
    }
}

/// The slice of one task.
pub open spec fn task_slice_of(task: TaskHours, slice: TaskSlice, total_seconds: u32) -> bool {
    &&& slice.issue_key matches Some(key) && key@ == task.issue_key@
    &&& slice.seconds == task.duration_seconds
    &&& slice.percentage == spec_percentage(task.duration_seconds, total_seconds)
}

/// The task chart: one slice per task when they fit within the limit; else the
/// first `limit - 1` tasks and a remainder slice with the rest of the time.
pub open spec fn task_slices_of(
    tasks: Seq<TaskHours>,
    total_seconds: u32,
    maximum: usize,
    slices: Seq<TaskSlice>,
) -> bool {
    let limit = slice_limit(maximum);
    if tasks.len() <= limit {
        &&& slices.len() == tasks.len()
        &&& forall|i: int| 0 <= i < tasks.len() ==> task_slice_of(tasks[i], #[trigger] slices[i], total_seconds)
    } else {
        let rest = task_seconds(tasks.skip(limit - 1));
        &&& slices.len() == limit
        &&& forall|i: int| 0 <= i < limit - 1 ==> task_slice_of(tasks[i], #[trigger] slices[i], total_seconds)
        &&& slices[limit - 1].issue_key is None
        &&& slices[limit - 1].seconds == rest
        &&& slices[limit - 1].percentage == spec_percentage(rest as u32, total_seconds)
    }
}

/// The remainder of the task chart fits in `u32`, as summing it requires.
pub open spec fn task_remainder_fits(tasks: Seq<TaskHours>, maximum: usize) -> bool {
    tasks.len() > slice_limit(maximum) ==> task_seconds(tasks.skip(slice_limit(maximum) - 1))
        <= u32::MAX
}

fn task_slice(task: &TaskHours, total_seconds: u32) -> (slice: TaskSlice)
    ensures
        task_slice_of(*task, slice, total_seconds),
{
    TaskSlice {
        issue_key: Some(task.issue_key.clone()),
        seconds: task.duration_seconds,
        percentage: percentage(task.duration_seconds, total_seconds),
    }
}

/// The chart slices of the tasks, grouping those beyond the limit into one remainder.
pub fn task_slices(tasks: &Vec<TaskHours>, total_seconds: u32, maximum: usize) -> (slices: Vec<
    TaskSlice,
>)
    requires
        task_remainder_fits(tasks@, maximum),
    ensures
        task_slices_of(tasks@, total_seconds, maximum, slices@),
{
    let limit: usize = if maximum < 2 {
        2
    } else {
        maximum
    };
    let visible: usize = if tasks.len() <= limit {
        tasks.len()
    } else {
        limit - 1
    };
    let mut slices: Vec<TaskSlice> = Vec::new();
    let mut i: usize = 0;
    while i < visible
        invariant
            i <= visible <= tasks.len(),
            slices.len() == i,
            forall|k: int| 0 <= k < i ==> task_slice_of(tasks@[k], #[trigger] slices@[k], total_seconds),
        decreases visible - i,
    {
        slices.push(task_slice(&tasks[i], total_seconds));
        i = i + 1;
    }
    if tasks.len() <= limit {
        return slices;
    }
    let mut other_seconds: u32 = 0;
    let mut k: usize = visible;
    while k < tasks.len()
        invariant
            visible <= k <= tasks.len(),
            visible == limit - 1,
            limit == slice_limit(maximum),
            tasks.len() > limit,
            task_remainder_fits(tasks@, maximum),
            other_seconds == task_seconds(tasks@.subrange(visible as int, k as int)),
        decreases tasks.len() - k,
    {
        assert(tasks@.subrange(visible as int, k + 1).drop_last() =~= tasks@.subrange(
            visible as int,
            k as int,
        ));
        proof {
            lemma_task_seconds_prefix(tasks@.skip(visible as int), (k + 1 - visible) as int);
            assert(tasks@.skip(visible as int).take((k + 1 - visible) as int) =~= tasks@.subrange(
                visible as int,
                k + 1,
            ));
        }
        other_seconds = other_seconds + tasks[k].duration_seconds;
        k = k + 1;
    }
    assert(tasks@.subrange(visible as int, tasks.len() as int) =~= tasks@.skip(visible as int));
    slices.push(
        TaskSlice {
            issue_key: None,
            seconds: other_seconds,
            percentage: percentage(other_seconds, total_seconds),
        },
    );
    slices
}

/// A prefix of a task list sums to at most the whole list.
pub proof fn lemma_task_seconds_prefix(tasks: Seq<TaskHours>, n: int)
    requires
        0 <= n <= tasks.len(),
    ensures
        0 <= task_seconds(tasks.take(n)) <= task_seconds(tasks),
    decreases tasks.len() - n,
{
    if n < tasks.len() {
        lemma_task_seconds_prefix(tasks, n + 1);
        assert(tasks.take(n + 1).drop_last() =~= tasks.take(n));
    } else {
        assert(tasks.take(n) =~= tasks);
    }
    lemma_task_seconds_nonnegative(tasks.take(n));
}

pub proof fn lemma_task_seconds_nonnegative(tasks: Seq<TaskHours>)
    ensures
        task_seconds(tasks) >= 0,
    decreases tasks.len(),
{
    if tasks.len() > 0 {
        lemma_task_seconds_nonnegative(tasks.drop_last());
    }
}

} // verus!

verus! {

/// The sum of the members' seconds.
pub open spec fn member_seconds(members: Seq<TeamMemberAnalytics>) -> int
    decreases members.len(),
{
    if members.len() == 0 {
        0
    } else {
        member_seconds(members.drop_last()) + members.last().seconds
    }
}

/// The slice of one member.
pub open spec fn member_slice_of(member: TeamMemberAnalytics, slice: TeamMemberSlice) -> bool {
    &&& slice.display_name matches Some(name) && name@ == member.display_name@
    &&& slice.seconds == member.seconds
}

/// The member chart: one slice per member when they fit within the limit; else
/// the first `limit - 1` members and a remainder slice with the rest of the time.
pub open spec fn member_slices_of(
    members: Seq<TeamMemberAnalytics>,
    maximum: usize,
    slices: Seq<TeamMemberSlice>,
) -> bool {
    let limit = slice_limit(maximum);
    if members.len() <= limit {
        &&& slices.len() == members.len()
        &&& forall|i: int| 0 <= i < members.len() ==> member_slice_of(members[i], #[trigger] slices[i])
    } else {
        &&& slices.len() == limit
        &&& forall|i: int| 0 <= i < limit - 1 ==> member_slice_of(members[i], #[trigger] slices[i])
        &&& slices[limit - 1].display_name is None
        &&& slices[limit - 1].seconds == member_seconds(members.skip(limit - 1))
    }
}

/// The remainder of the member chart fits in `u32`, as summing it requires.
pub open spec fn member_remainder_fits(members: Seq<TeamMemberAnalytics>, maximum: usize) -> bool {
    members.len() > slice_limit(maximum) ==> member_seconds(members.skip(slice_limit(maximum) - 1))
        <= u32::MAX
}

proof fn lemma_member_seconds_prefix(members: Seq<TeamMemberAnalytics>, n: int)
    requires
        0 <= n <= members.len(),
    ensures
        0 <= member_seconds(members.take(n)) <= member_seconds(members),
    decreases members.len() - n,
{
    if n < members.len() {
        lemma_member_seconds_prefix(members, n + 1);
        assert(members.take(n + 1).drop_last() =~= members.take(n));
    } else {
        assert(members.take(n) =~= members);
    }
    lemma_member_seconds_nonnegative(members.take(n));
}

proof fn lemma_member_seconds_nonnegative(members: Seq<TeamMemberAnalytics>)
    ensures
        member_seconds(members) >= 0,
    decreases members.len(),
{
    if members.len() > 0 {
        lemma_member_seconds_nonnegative(members.drop_last());
    }
}

fn team_member_slice(member: &TeamMemberAnalytics) -> (slice: TeamMemberSlice)
    ensures
        member_slice_of(*member, slice),
{
    TeamMemberSlice { display_name: Some(member.display_name.clone()), seconds: member.seconds }
}

/// The chart slices of the members, grouping those beyond the limit into one remainder.
pub fn team_member_slices(members: &Vec<TeamMemberAnalytics>, maximum: usize) -> (slices: Vec<
    TeamMemberSlice,
>)
    requires
        member_remainder_fits(members@, maximum),
    ensures
        member_slices_of(members@, maximum, slices@),
{
    let limit: usize = if maximum < 2 {
        2
    } else {
        maximum
    };
    let visible: usize = if members.len() <= limit {
        members.len()
    } else {
        limit - 1
    };
    let mut slices: Vec<TeamMemberSlice> = Vec::new();
    let mut i: usize = 0;
    while i < visible
        invariant
            i <= visible <= members.len(),
            slices.len() == i,
            forall|k: int| 0 <= k < i ==> member_slice_of(members@[k], #[trigger] slices@[k]),
        decreases visible - i,
    {
        slices.push(team_member_slice(&members[i]));
        i = i + 1;
    }
    if members.len() <= limit {
        return slices;
    }
    let mut other_seconds: u32 = 0;
    let mut k: usize = visible;
    while k < members.len()
        invariant
            visible <= k <= members.len(),
            visible == limit - 1,
            limit == slice_limit(maximum),
            members.len() > limit,
            member_remainder_fits(members@, maximum),
            other_seconds == member_seconds(members@.subrange(visible as int, k as int)),
        decreases members.len() - k,
    {
        assert(members@.subrange(visible as int, k + 1).drop_last() =~= members@.subrange(
            visible as int,
            k as int,
        ));
        proof {
            lemma_member_seconds_prefix(members@.skip(visible as int), (k + 1 - visible) as int);
            assert(members@.skip(visible as int).take((k + 1 - visible) as int)
                =~= members@.subrange(visible as int, k + 1));
        }
        other_seconds = other_seconds + members[k].seconds;
        k = k + 1;
    }
    assert(members@.subrange(visible as int, members.len() as int) =~= members@.skip(
        visible as int,
    ));
    slices.push(TeamMemberSlice { display_name: None, seconds: other_seconds });
    slices
}

/// The running total of the day seconds up to and including day `i`, saturating at `u32::MAX`.
pub open spec fn cumulative_seconds(days: Seq<DailyHours>, i: int) -> u32
    decreases i + 1,
{
    if i < 0 {
        0
    } else {
        let total = cumulative_seconds(days, i - 1) + days[i].duration_seconds;
        if total > u32::MAX {
            u32::MAX
        } else {
            total as u32
        }
    }
}

/// The trend: one point per day, with the day's seconds and the running total.
pub fn trend_points(days: &Vec<DailyHours>) -> (points: Vec<TrendPoint>)
    ensures
        points.len() == days.len(),
        forall|i: int|
            0 <= i < days.len() ==> (#[trigger] points@[i]).date == days@[i].date && points@[i].seconds
                == days@[i].duration_seconds && points@[i].cumulative_seconds == cumulative_seconds(
                days@,
                i,
            ),
{
    let mut points: Vec<TrendPoint> = Vec::new();
    let mut cumulative: u32 = 0;
    let mut i: usize = 0;
    while i < days.len()
        invariant
            i <= days.len(),
            points.len() == i,
            cumulative == cumulative_seconds(days@, i - 1),
            forall|k: int|
                0 <= k < i ==> (#[trigger] points@[k]).date == days@[k].date && points@[k].seconds
                    == days@[k].duration_seconds && points@[k].cumulative_seconds
                    == cumulative_seconds(days@, k),
        decreases days.len() - i,
    {
        let day = days[i];
        cumulative = if cumulative > 4294967295u32 - day.duration_seconds {
            4294967295u32
        } else {
            cumulative + day.duration_seconds
        };
        points.push(
            TrendPoint {
                date: day.date,
                seconds: day.duration_seconds,
                cumulative_seconds: cumulative,
            },
        );
        i = i + 1;
    }
    points
}

/// The number of days with logged time.
pub open spec fn active_days_in(days: Seq<DailyHours>) -> nat
    decreases days.len(),
{
    if days.len() == 0 {
        0
    } else {
        active_days_in(days.drop_last()) + if days.last().duration_seconds > 0 {
            1nat
        } else {
            0nat
        }
    }
}

/// The number of days with logged time.
pub fn active_day_count(days: &Vec<DailyHours>) -> (count: usize)
    ensures
        count == active_days_in(days@),
{
    let mut count: usize = 0;
    let mut i: usize = 0;
    while i < days.len()
        invariant
            i <= days.len(),
            count == active_days_in(days@.take(i as int)),
            count <= i,
        decreases days.len() - i,
    {
        assert(days@.take(i + 1).drop_last() =~= days@.take(i as int));
        if days[i].duration_seconds > 0 {
            count = count + 1;
        }
        i = i + 1;
    }
    assert(days@.take(days.len() as int) =~= days@);
    count
}

/// `i` is the busiest day: it has logged time, no day has more, and no later day
/// has as much (the last of equally busy days is chosen).
pub open spec fn is_busiest_day(days: Seq<DailyHours>, i: int) -> bool {
    &&& 0 <= i < days.len()
    &&& days[i].duration_seconds > 0
    &&& forall|j: int| 0 <= j < days.len() ==> (#[trigger] days[j]).duration_seconds <= days[i].duration_seconds
    &&& forall|j: int| i < j < days.len() ==> (#[trigger] days[j]).duration_seconds < days[i].duration_seconds
}

/// The busiest day with logged time, if any day has some.
pub fn busiest_day(days: &Vec<DailyHours>) -> (busiest: Option<DailyHours>)
    ensures
        busiest is None <==> forall|j: int| 0 <= j < days.len() ==> (#[trigger] days@[j]).duration_seconds == 0,
        busiest matches Some(day) ==> exists|i: int| #[trigger] is_busiest_day(days@, i) && days@[i] == day,
{
    let mut best: Option<usize> = None;
    let mut i: usize = 0;
    while i < days.len()
        invariant
            i <= days.len(),
            best is None ==> forall|j: int| 0 <= j < i ==> (#[trigger] days@[j]).duration_seconds == 0,
            best matches Some(b) ==> b < i && days@[b as int].duration_seconds > 0 && (forall|j: int|
                0 <= j < i ==> (#[trigger] days@[j]).duration_seconds
                    <= days@[b as int].duration_seconds) && (forall|j: int|
                b < j < i ==> (#[trigger] days@[j]).duration_seconds
                    < days@[b as int].duration_seconds),
        decreases days.len() - i,
    {
        let seconds = days[i].duration_seconds;
        if seconds > 0 {
            match best {
                None => {
                    best = Some(i);
                },
                Some(b) => {
                    if seconds >= days[b].duration_seconds {
                        best = Some(i);
                    }
                },
            }
        }
        i = i + 1;
    }
    match best {
        None => None,
        Some(b) => {
            assert(is_busiest_day(days@, b as int));
            Some(days[b])
        },
    }
}

/// The percentage of the first task, or 0 when there are no tasks.
pub fn top_task_percentage(tasks: &Vec<TaskHours>, total_seconds: u32) -> (p: u32)
    ensures
        p == (if tasks.len() == 0 {
            0
        } else {
            spec_percentage(tasks@[0].duration_seconds, total_seconds)
        }),
{
    if tasks.len() == 0 {
        0
    } else {
        percentage(tasks[0].duration_seconds, total_seconds)
    }
}

/// The number of worklogs with a blank comment.
pub open spec fn uncommented_in(worklogs: Seq<Worklog>) -> nat
    decreases worklogs.len(),
{
    if worklogs.len() == 0 {
        0
    } else {
        uncommented_in(worklogs.drop_last()) + if is_blank(worklogs.last().comment@) {
            1nat
        } else {
            0nat
        }
    }
}

/// The number of worklogs with a blank comment.
pub fn uncommented_entry_count(worklogs: &Vec<Worklog>) -> (count: usize)
    ensures
        count == uncommented_in(worklogs@),
{
    let mut count: usize = 0;
    let mut i: usize = 0;
    while i < worklogs.len()
        invariant
            i <= worklogs.len(),
            count == uncommented_in(worklogs@.take(i as int)),
            count <= i,
        decreases worklogs.len() - i,
    {
        assert(worklogs@.take(i + 1).drop_last() =~= worklogs@.take(i as int));
        if str_is_blank(worklogs[i].comment.as_str()) {
            count = count + 1;
        }
        i = i + 1;
    }
    assert(worklogs@.take(worklogs.len() as int) =~= worklogs@);
    count
}

impl ReportAnalytics {
    /// The analytics of a personal report.
    pub fn calculate(summary: &WeeklySummary, worklogs: &Vec<Worklog>, maximum_task_slices: usize) -> (a:
        ReportAnalytics)
        requires
            task_remainder_fits(summary.tasks@, maximum_task_slices),
        ensures
            task_slices_of(summary.tasks@, summary.loaded_seconds, maximum_task_slices, a.task_slices@),
            a.trend.len() == summary.days.len(),
            forall|i: int|
                0 <= i < summary.days.len() ==> (#[trigger] a.trend@[i]).date == summary.days@[i].date
                    && a.trend@[i].seconds == summary.days@[i].duration_seconds
                    && a.trend@[i].cumulative_seconds == cumulative_seconds(summary.days@, i),
            a.active_days == active_days_in(summary.days@),
            a.average_active_day_seconds == (if a.active_days == 0 || a.active_days > u32::MAX {
                0
            } else {
                (summary.loaded_seconds / (a.active_days as u32)) as u32
            }),
            a.busiest_day is None <==> forall|j: int|
                0 <= j < summary.days.len() ==> (#[trigger] summary.days@[j]).duration_seconds == 0,
            a.busiest_day matches Some(day) ==> exists|i: int| #[trigger]
                is_busiest_day(summary.days@, i) && summary.days@[i] == day,
            a.top_task_percentage == (if summary.tasks.len() == 0 {
                0
            } else {
                spec_percentage(summary.tasks@[0].duration_seconds, summary.loaded_seconds)
            }),
            a.uncommented_entries == uncommented_in(worklogs@),
    {
        let active_days = active_day_count(&summary.days);
        ReportAnalytics {
            task_slices: task_slices(&summary.tasks, summary.loaded_seconds, maximum_task_slices),
            trend: trend_points(&summary.days),
            active_days,
            average_active_day_seconds: average_seconds(summary.loaded_seconds, active_days),
            busiest_day: busiest_day(&summary.days),
            top_task_percentage: top_task_percentage(&summary.tasks, summary.loaded_seconds),
            uncommented_entries: uncommented_entry_count(worklogs),
        }
    }
}

} // verus!
