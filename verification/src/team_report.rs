//! The analytics of a whole team report, as its dashboard and exports show them.

use vstd::prelude::*;

use crate::analytics::{
    member_seconds, task_seconds, cumulative_seconds, task_slices, task_slices_of, trend_points, uncommented_entry_count,
    uncommented_in, DailyHours, TaskHours, TaskSlice, TeamMemberAnalytics, TrendPoint, Worklog,
    slice_limit,
};
use crate::categories::{
    category_slices, entries_seconds, is_chart_breakdown, slices_seconds, CategoryEntry, CategorySlice,
};
use crate::report::{week_seconds, ReportWeek};
use crate::team::{TeamMember, TeamWorklog};
use crate::team_analytics::{
    date_seconds, is_task_summary, lemma_task_seconds_split, lemma_task_suffix_fits,
    lemma_tasks_keep_all_time, loaded_seconds, summarize_team_days,
    summarize_team_tasks, worklogs_seconds,
};
use crate::team_members::{is_member_summary, lemma_members_keep_all_time, summarize_members, team_seconds};

verus! {

/// What a team report's dashboard shows.
#[derive(Clone, Debug, PartialEq, Eq)]
pub struct TeamAnalytics {
    pub loaded_seconds: u32,
    pub members: Vec<TeamMemberAnalytics>,
    pub tasks: Vec<TaskHours>,
    pub task_slices: Vec<TaskSlice>,
    pub issue_type_slices: Vec<CategorySlice>,
    pub issue_status_slices: Vec<CategorySlice>,
    pub trend: Vec<TrendPoint>,
    pub uncommented_entries: usize,
}

/// The worklogs of the team's entries.
pub open spec fn worklogs_of(entries: Seq<TeamWorklog>) -> Seq<Worklog> {
    entries.map_values(|entry: TeamWorklog| entry.worklog)
}

/// What the entries contribute to the breakdown by issue type.
pub open spec fn type_entries(entries: Seq<TeamWorklog>) -> Seq<CategoryEntry> {
    entries.map_values(
        |entry: TeamWorklog| CategoryEntry { value: entry.issue_type, seconds: entry.worklog.duration_seconds },
    )
}

/// What the entries contribute to the breakdown by issue status.
pub open spec fn status_entries(entries: Seq<TeamWorklog>) -> Seq<CategoryEntry> {
    entries.map_values(
        |entry: TeamWorklog| CategoryEntry { value: entry.issue_status, seconds: entry.worklog.duration_seconds },
    )
}

/// The team's time on each of the period's dates.
pub open spec fn team_days(dates: Seq<i32>, worklogs: Seq<Worklog>) -> Seq<DailyHours> {
    Seq::new(
        dates.len(),
        |k: int| DailyHours { date: dates[k], duration_seconds: date_seconds(worklogs, dates[k]) as u32 },
    )
}

proof fn lemma_team_sums(entries: Seq<TeamWorklog>)
    ensures
        worklogs_seconds(worklogs_of(entries)) == team_seconds(entries),
        entries_seconds(type_entries(entries)) == team_seconds(entries),
        entries_seconds(status_entries(entries)) == team_seconds(entries),
    decreases entries.len(),
{
    if entries.len() > 0 {
        lemma_team_sums(entries.drop_last());
        assert(worklogs_of(entries).drop_last() =~= worklogs_of(entries.drop_last()));
        assert(type_entries(entries).drop_last() =~= type_entries(entries.drop_last()));
        assert(status_entries(entries).drop_last() =~= status_entries(entries.drop_last()));
    }
}

fn copy_text(text: &String) -> (r: String)
    ensures
        r == *text,
{
    text.clone()
}

fn copy_optional_text(text: &Option<String>) -> (r: Option<String>)
    ensures
        r == *text,
{
    match text {
        Some(value) => Some(value.clone()),
        None => None,
    }
}

fn copy_worklog(worklog: &Worklog) -> (r: Worklog)
    ensures
        r == *worklog,
{
    Worklog {
        id: copy_text(&worklog.id),
        issue_key: copy_text(&worklog.issue_key),
        issue_summary: copy_text(&worklog.issue_summary),
        author: copy_text(&worklog.author),
        started_date: worklog.started_date,
        duration_seconds: worklog.duration_seconds,
        comment: copy_text(&worklog.comment),
        issue_url: copy_text(&worklog.issue_url),
    }
}

/// The worklogs of the entries, in order.
fn team_worklogs(entries: &Vec<TeamWorklog>) -> (worklogs: Vec<Worklog>)
    ensures
        worklogs@ == worklogs_of(entries@),
{
    let mut worklogs: Vec<Worklog> = Vec::new();
    let mut i: usize = 0;
    while i < entries.len()
        invariant
            i <= entries.len(),
            worklogs@ == worklogs_of(entries@.take(i as int)),
        decreases entries.len() - i,
    {
        worklogs.push(copy_worklog(&entries[i].worklog));
        assert(worklogs_of(entries@.take(i + 1)) =~= worklogs_of(entries@.take(i as int)).push(entries@[i as int].worklog));
        i = i + 1;
    }
    assert(entries@.take(entries.len() as int) =~= entries@);
    worklogs
}

/// What the entries contribute to a breakdown by type (or else by status).
fn category_entries(entries: &Vec<TeamWorklog>, by_type: bool) -> (r: Vec<CategoryEntry>)
    ensures
        r@ == if by_type {
            type_entries(entries@)
        } else {
            status_entries(entries@)
        },
{
    let mut r: Vec<CategoryEntry> = Vec::new();
    let mut i: usize = 0;
    while i < entries.len()
        invariant
            i <= entries.len(),
            r@ == if by_type {
                type_entries(entries@.take(i as int))
            } else {
                status_entries(entries@.take(i as int))
            },
        decreases entries.len() - i,
    {
        let entry = &entries[i];
        let value = if by_type {
            copy_optional_text(&entry.issue_type)
        } else {
            copy_optional_text(&entry.issue_status)
        };
        r.push(CategoryEntry { value, seconds: entry.worklog.duration_seconds });
        assert(type_entries(entries@.take(i + 1)) =~= type_entries(entries@.take(i as int)).push(
            CategoryEntry { value: entry.issue_type, seconds: entry.worklog.duration_seconds },
        ));
        assert(status_entries(entries@.take(i + 1)) =~= status_entries(entries@.take(i as int)).push(
            CategoryEntry { value: entry.issue_status, seconds: entry.worklog.duration_seconds },
        ));
        i = i + 1;
    }
    assert(entries@.take(entries.len() as int) =~= entries@);
    r
}

/// The seconds of the task chart's slices, added up.
pub open spec fn task_slice_seconds(slices: Seq<TaskSlice>) -> int
    decreases slices.len(),
{
    if slices.len() == 0 {
        0
    } else {
        task_slice_seconds(slices.drop_last()) + slices.last().seconds
    }
}

proof fn lemma_slice_prefix(tasks: Seq<TaskHours>, slices: Seq<TaskSlice>, n: int)
    requires
        0 <= n <= tasks.len(),
        n <= slices.len(),
        forall|i: int| 0 <= i < n ==> (#[trigger] slices[i]).seconds == tasks[i].duration_seconds,
    ensures
        task_slice_seconds(slices.take(n)) == task_seconds(tasks.take(n)),
    decreases n,
{
    if n > 0 {
        lemma_slice_prefix(tasks, slices, n - 1);
        assert(slices.take(n).drop_last() =~= slices.take(n - 1));
        assert(tasks.take(n).drop_last() =~= tasks.take(n - 1));
    }
}

/// The task chart holds all of the tasks' time.
proof fn lemma_task_slices_keep_all_time(
    tasks: Seq<TaskHours>,
    total: u32,
    maximum: usize,
    slices: Seq<TaskSlice>,
)
    requires
        task_slices_of(tasks, total, maximum, slices),
    ensures
        task_slice_seconds(slices) == task_seconds(tasks),
{
    let limit = slice_limit(maximum);
    if tasks.len() <= limit {
        lemma_slice_prefix(tasks, slices, tasks.len() as int);
        assert(slices.take(tasks.len() as int) =~= slices);
        assert(tasks.take(tasks.len() as int) =~= tasks);
    } else {
        lemma_slice_prefix(tasks, slices, limit - 1);
        assert(slices.drop_last() =~= slices.take(limit - 1));
        lemma_task_seconds_split(tasks, limit - 1);
    }
}

impl TeamAnalytics {
    /// The dashboard of a team report for the period's `dates`, as the period
    /// lists them; the worklogs' seconds must add up within `u32`.
    pub fn calculate(
        dates: &Vec<i32>,
        members: &Vec<TeamMember>,
        team_worklogs_in: &Vec<TeamWorklog>,
        maximum_task_slices: usize,
    ) -> (a: TeamAnalytics)
        requires
            team_seconds(team_worklogs_in@) <= u32::MAX,
        ensures
            a.loaded_seconds == team_seconds(team_worklogs_in@),
            is_member_summary(members@, team_worklogs_in@, a.members@),
            is_task_summary(worklogs_of(team_worklogs_in@), a.tasks@),
            task_slices_of(a.tasks@, a.loaded_seconds, maximum_task_slices, a.task_slices@),
            is_chart_breakdown(
                type_entries(team_worklogs_in@),
                a.loaded_seconds,
                maximum_task_slices,
                a.issue_type_slices@,
            ),
            is_chart_breakdown(
                status_entries(team_worklogs_in@),
                a.loaded_seconds,
                maximum_task_slices,
                a.issue_status_slices@,
            ),
            a.trend.len() == dates.len(),
            forall|i: int|
                0 <= i < dates.len() ==> (#[trigger] a.trend@[i]).date == dates@[i]
                    && a.trend@[i].seconds == date_seconds(worklogs_of(team_worklogs_in@), dates@[i])
                    && a.trend@[i].cumulative_seconds == cumulative_seconds(
                    team_days(dates@, worklogs_of(team_worklogs_in@)),
                    i,
                ),
            a.uncommented_entries == uncommented_in(worklogs_of(team_worklogs_in@)),
            task_slice_seconds(a.task_slices@) == a.loaded_seconds,
            slices_seconds(a.issue_type_slices@) == a.loaded_seconds,
            slices_seconds(a.issue_status_slices@) == a.loaded_seconds,
            member_seconds(a.members@) == a.loaded_seconds,
    {
        proof {
            lemma_team_sums(team_worklogs_in@);
        }
        let worklogs = team_worklogs(team_worklogs_in);
        let loaded = loaded_seconds(&worklogs);
        let tasks = summarize_team_tasks(&worklogs);
        proof {
            if tasks@.len() > slice_limit(maximum_task_slices) {
                lemma_task_suffix_fits(worklogs@, tasks@, slice_limit(maximum_task_slices) - 1);
            }
        }
        let task_slice_list = task_slices(&tasks, loaded, maximum_task_slices);
        let types = category_entries(team_worklogs_in, true);
        let statuses = category_entries(team_worklogs_in, false);
        let days = summarize_team_days(dates, &worklogs);
        assert(days@ =~= team_days(dates@, worklogs@));
        let trend = trend_points(&days);
        let member_list = summarize_members(members, team_worklogs_in);
        let type_slices = category_slices(&types, loaded, maximum_task_slices);
        let status_slices = category_slices(&statuses, loaded, maximum_task_slices);
        proof {
            lemma_task_slices_keep_all_time(tasks@, loaded, maximum_task_slices, task_slice_list@);
            lemma_tasks_keep_all_time(worklogs@, tasks@);
            lemma_members_keep_all_time(members@, team_worklogs_in@, member_list@);
        }
        TeamAnalytics {
            loaded_seconds: loaded,
            members: member_list,
            task_slices: task_slice_list,
            issue_type_slices: type_slices,
            issue_status_slices: status_slices,
            trend,
            uncommented_entries: uncommented_entry_count(&worklogs),
            tasks,
        }
    }
}

/// The seconds the team logged within the week, added up until `u32::MAX`.
pub fn team_week_seconds(entries: &Vec<TeamWorklog>, week: ReportWeek) -> (seconds: u32)
    ensures
        seconds == week_seconds(worklogs_of(entries@), week),
{
    let mut total: u32 = 0;
    let mut i: usize = 0;
    while i < entries.len()
        invariant
            i <= entries.len(),
            total == week_seconds(worklogs_of(entries@.take(i as int)), week),
        decreases entries.len() - i,
    {
        assert(worklogs_of(entries@.take(i + 1)).drop_last() =~= worklogs_of(entries@.take(i as int)));
        let worklog = &entries[i].worklog;
        if week.contains(worklog.started_date) {
            total = total.saturating_add(worklog.duration_seconds);
        }
        i = i + 1;
    }
    assert(entries@.take(entries.len() as int) =~= entries@);
    total
}

} // verus!
