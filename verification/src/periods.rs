//! The periods a person can look at: whole weeks (Monday to Sunday), weeks
//! so far, and chosen ranges, as Julian day numbers.

use vstd::prelude::*;

use crate::analytics::Worklog;
use crate::report::{monday_of, valid_day, weekday};
use crate::team::{lowercase, str_contains, str_to_lowercase, text_contains};
use crate::text::{str_equal, str_trim, trim};

verus! {

/// A period of days, first and last included.
#[derive(Clone, Copy, Debug, PartialEq, Eq, Structural)]
pub struct DateRange {
    pub start: i32,
    pub end: i32,
}

/// Why a period cannot be chosen.
#[derive(Clone, Copy, Debug, PartialEq, Eq, Structural)]
pub enum PeriodError {
    Shift,
    FutureDate,
    InvalidOrder,
    TooLong { maximum_days: u16 },
}

/// The week, Monday to Sunday, that holds the day.
pub open spec fn week_of(day: int) -> DateRange {
    DateRange { start: monday_of(day) as i32, end: (monday_of(day) + 6) as i32 }
}

/// The week that holds the day.
pub fn week_containing(day: i32) -> (week: DateRange)
    requires
        valid_day(day as int),
    ensures
        week == week_of(day as int),
{
    let monday = day - weekday(day);
    DateRange { start: monday, end: monday + 6 }
}

/// The week before or after the period's (by `direction` weeks), up to today;
/// a week that starts after today cannot be chosen.
pub open spec fn shifted_outcome(period: DateRange, direction: i8, today: i32) -> Result<DateRange, PeriodError> {
    let candidate = week_of(period.start + 7 * direction);
    if candidate.start > today {
        Err(PeriodError::FutureDate)
    } else {
        Ok(DateRange { start: candidate.start, end: if candidate.end < today { candidate.end } else { today } })
    }
}

/// Moves the period by `direction` weeks.
pub fn shifted_period(period: DateRange, direction: i8, today: i32) -> (r: Result<DateRange, PeriodError>)
    requires
        valid_day(period.start + 7 * direction),
    ensures
        r == shifted_outcome(period, direction, today),
{
    let target = period.start + (direction as i32) * 7;
    let candidate = week_containing(target);
    if candidate.start > today {
        return Err(PeriodError::FutureDate);
    }
    let end = if candidate.end < today {
        candidate.end
    } else {
        today
    };
    Ok(DateRange { start: candidate.start, end })
}

/// From the Monday of today's week to today.
pub fn current_week_to_date(today: i32) -> (r: DateRange)
    requires
        valid_day(today as int),
    ensures
        r == (DateRange { start: monday_of(today as int) as i32, end: today }),
{
    let week = week_containing(today);
    DateRange { start: week.start, end: today }
}

/// The whole week before today's.
pub fn previous_week(today: i32) -> (r: DateRange)
    requires
        valid_day(today as int),
        valid_day(monday_of(today as int) - 7),
    ensures
        r == (DateRange { start: (monday_of(today as int) - 7) as i32, end: (monday_of(today as int) - 1) as i32 }),
{
    let week = week_containing(today);
    DateRange { start: week.start - 7, end: week.end - 7 }
}

/// The `day_count` days that end today (at least today).
pub fn trailing_days(today: i32, day_count: u16) -> (r: DateRange)
    requires
        valid_day(today - if day_count == 0 { 0 } else { day_count - 1 }),
    ensures
        r == (DateRange {
            start: (today - if day_count == 0 { 0 } else { day_count - 1 }) as i32,
            end: today,
        }),
{
    let before: i32 = if day_count == 0 {
        0
    } else {
        (day_count - 1) as i32
    };
    DateRange { start: today - before, end: today }
}

/// The period is a whole week, or today's week so far.
pub fn is_week_view(period: DateRange, today: i32) -> (r: bool)
    requires
        valid_day(period.start as int),
        valid_day(today as int),
    ensures
        r == (period == week_of(period.start as int) || period == (DateRange {
            start: monday_of(today as int) as i32,
            end: today,
        })),
{
    let week = week_containing(period.start);
    let so_far = current_week_to_date(today);
    (period.start == week.start && period.end == week.end) || (period.start == so_far.start
        && period.end == so_far.end)
}

/// A chosen range: it may not end after today, must be in order, and may
/// span at most `maximum_days` days.
pub open spec fn range_outcome(start: i32, end: i32, today: i32, maximum_days: u16) -> Result<DateRange, PeriodError> {
    if end > today {
        Err(PeriodError::FutureDate)
    } else if end < start {
        Err(PeriodError::InvalidOrder)
    } else if end - start + 1 > maximum_days {
        Err(PeriodError::TooLong { maximum_days })
    } else {
        Ok(DateRange { start, end })
    }
}

/// Checks a chosen range.
pub fn parse_range(start: i32, end: i32, today: i32, maximum_days: u16) -> (r: Result<DateRange, PeriodError>)
    ensures
        r == range_outcome(start, end, today, maximum_days),
{
    if end > today {
        return Err(PeriodError::FutureDate);
    }
    if end < start {
        return Err(PeriodError::InvalidOrder);
    }
    let day_count = (end as i64) - (start as i64) + 1;
    if day_count > maximum_days as i64 {
        return Err(PeriodError::TooLong { maximum_days });
    }
    Ok(DateRange { start, end })
}

/// The option a keyboard arrow moves to in a list of `option_count`: the next
/// one (or the first) going down, the previous one (or the last) going up,
/// wrapping around.
pub open spec fn spec_next_option(current: Option<usize>, option_count: usize, direction: i8) -> Option<usize> {
    if option_count == 0 {
        None
    } else {
        let at: int = match current {
            Some(index) => index as int,
            None => if direction > 0 { option_count - 1 } else { 0 },
        };
        if direction > 0 {
            Some(((at + 1) % (option_count as int)) as usize)
        } else if at == 0 {
            Some((option_count - 1) as usize)
        } else {
            Some((at - 1) as usize)
        }
    }
}

/// Moves the highlighted option.
pub fn next_option(current: Option<usize>, option_count: usize, direction: i8) -> (r: Option<usize>)
    requires
        match current {
            Some(index) => direction > 0 ==> index + 1 <= usize::MAX,
            None => true,
        },
    ensures
        r == spec_next_option(current, option_count, direction),
{
    if option_count == 0 {
        return None;
    }
    let at = match current {
        Some(index) => index,
        None => if direction > 0 {
            option_count - 1
        } else {
            0
        },
    };
    if direction > 0 {
        return Some((at + 1) % option_count);
    }
    if at == 0 {
        Some(option_count - 1)
    } else {
        Some(at - 1)
    }
}

/// Adds `value` to `total`, stopping at `u32::MAX`.
pub open spec fn saturating_sum(total: int, value: int) -> int {
    if total + value > u32::MAX {
        u32::MAX as int
    } else {
        total + value
    }
}

/// The seconds already logged on the issue, added up until `u32::MAX`.
pub open spec fn issue_loaded_seconds(worklogs: Seq<Worklog>, issue_key: Seq<char>) -> int
    decreases worklogs.len(),
{
    if worklogs.len() == 0 {
        0
    } else if worklogs.last().issue_key@ == issue_key {
        saturating_sum(issue_loaded_seconds(worklogs.drop_last(), issue_key), worklogs.last().duration_seconds as int)
    } else {
        issue_loaded_seconds(worklogs.drop_last(), issue_key)
    }
}

/// The seconds already logged on the issue.
pub fn loaded_seconds_for(issue_key: &str, worklogs: &Vec<Worklog>) -> (seconds: u32)
    ensures
        seconds == issue_loaded_seconds(worklogs@, issue_key@),
{
    let mut total: u32 = 0;
    let mut i: usize = 0;
    while i < worklogs.len()
        invariant
            i <= worklogs.len(),
            total == issue_loaded_seconds(worklogs@.take(i as int), issue_key@),
        decreases worklogs.len() - i,
    {
        assert(worklogs@.take(i + 1).drop_last() =~= worklogs@.take(i as int));
        if str_equal(worklogs[i].issue_key.as_str(), issue_key) {
            total = total.saturating_add(worklogs[i].duration_seconds);
        }
        i = i + 1;
    }
    assert(worklogs@.take(worklogs.len() as int) =~= worklogs@);
    total
}

/// An issue offered when logging time.
#[derive(Clone, Debug, PartialEq, Eq)]
pub struct AccessibleIssue {
    pub key: String,
    pub summary: String,
}

/// The issue matches the search text (already trimmed and in lower case) by key or summary.
pub open spec fn issue_matches(issue: AccessibleIssue, query: Seq<char>) -> bool {
    text_contains(lowercase(issue.key@), query) || text_contains(lowercase(issue.summary@), query)
}

/// Decides `issue_matches`.
pub fn suggestion_matches(issue: &AccessibleIssue, normalized_query: &str) -> (r: bool)
    ensures
        r == issue_matches(*issue, normalized_query@),
{
    str_contains(str_to_lowercase(issue.key.as_str()).as_str(), normalized_query) || str_contains(
        str_to_lowercase(issue.summary.as_str()).as_str(),
        normalized_query,
    )
}

/// The suggestions that match the search text; all of them while it is blank.
pub fn filter_suggestions(results: Vec<AccessibleIssue>, query: &str) -> (r: Vec<AccessibleIssue>)
    ensures
        lowercase(trim(query@)).len() == 0 ==> r@ == results@,
        lowercase(trim(query@)).len() > 0 ==> r@ == results@.filter(
            |issue: AccessibleIssue| issue_matches(issue, lowercase(trim(query@))),
        ),
{
    let normalized = str_to_lowercase(str_trim(query));
    if normalized.as_str().is_empty() {
        return results;
    }
    let ghost orig = results@;
    let ghost pred = |issue: AccessibleIssue| issue_matches(issue, lowercase(trim(query@)));
    let mut rest = results;
    let mut kept: Vec<AccessibleIssue> = Vec::new();
    let ghost mut done: int = 0;
    proof {
        reveal(Seq::filter);
        assert(orig.take(0) =~= Seq::<AccessibleIssue>::empty());
    }
    while rest.len() > 0
        invariant
            0 <= done <= orig.len(),
            rest@ == orig.skip(done),
            kept@ == orig.take(done).filter(pred),
            normalized@ == lowercase(trim(query@)),
            pred == (|issue: AccessibleIssue| issue_matches(issue, lowercase(trim(query@)))),
        decreases rest.len(),
    {
        let issue = rest.remove(0);
        proof {
            reveal(Seq::filter);
            assert(issue == orig[done]);
            assert(orig.take(done + 1).drop_last() =~= orig.take(done));
            assert(orig.take(done + 1).last() == issue);
            assert(rest@ =~= orig.skip(done + 1));
        }
        if suggestion_matches(&issue, normalized.as_str()) {
            kept.push(issue);
        }
        proof {
            done = done + 1;
        }
    }
    proof {
        assert(orig.take(done) =~= orig);
    }
    kept
}


/// An issue offered when logging time, with the time already logged on it.
#[derive(Clone, Debug, PartialEq, Eq)]
pub struct SuggestedIssue {
    pub issue: AccessibleIssue,
    pub loaded_seconds: u32,
}

/// The issues in Jira's order, each with the time already logged on it.
pub fn suggestions_for(issues: Vec<AccessibleIssue>, worklogs: &Vec<Worklog>) -> (r: Vec<SuggestedIssue>)
    ensures
        r.len() == issues.len(),
        forall|k: int|
            0 <= k < r.len() ==> (#[trigger] r@[k]).issue == issues@[k] && r@[k].loaded_seconds
                == issue_loaded_seconds(worklogs@, issues@[k].key@),
{
    let ghost orig = issues@;
    let mut rest = issues;
    let mut r: Vec<SuggestedIssue> = Vec::new();
    while rest.len() > 0
        invariant
            r.len() + rest.len() == orig.len(),
            rest@ == orig.skip(r.len() as int),
            forall|k: int|
                0 <= k < r.len() ==> (#[trigger] r@[k]).issue == orig[k] && r@[k].loaded_seconds
                    == issue_loaded_seconds(worklogs@, orig[k].key@),
        decreases rest.len(),
    {
        let issue = rest.remove(0);
        assert(issue == orig[r.len() as int]);
        assert(rest@ =~= orig.skip(r.len() + 1));
        let loaded_seconds = loaded_seconds_for(issue.key.as_str(), worklogs);
        r.push(SuggestedIssue { issue, loaded_seconds });
    }
    r
}

} // verus!
