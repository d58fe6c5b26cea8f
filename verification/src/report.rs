//! The decisions behind report exports: file formats, the weeks a period is
//! split into, the hours of each week, chart colours and the text of labels.
//! Dates are Julian day numbers, as `time::Date::to_julian_day` gives them.

use vstd::prelude::*;
use vstd::string::StringExecFns;

use crate::analytics::{TeamMemberAnalytics, Worklog};

verus! {

/// The first Julian day that a date may have (the year -9999 begins).
pub const JULIAN_DAY_MIN: i32 = -1930999;

/// The last Julian day that a date may have (the year 9999 ends).
pub const JULIAN_DAY_MAX: i32 = 5373484;

/// A multiple of seven that makes every valid Julian day positive.
const WEEKDAY_SHIFT: i32 = 1931006;

/// The format a report is exported to.
#[derive(Clone, Copy, Debug, PartialEq, Eq, Structural)]
pub enum ExportFormat {
    Xlsx,
    Pdf,
}

impl ExportFormat {
    /// The file extension of the format.
    pub open spec fn spec_extension(self) -> Seq<char> {
        match self {
            ExportFormat::Xlsx => "xlsx"@,
            ExportFormat::Pdf => "pdf"@,
        }
    }

    /// The file extension of the format.
    pub fn extension(self) -> (r: &'static str)
        ensures
            r@ == self.spec_extension(),
    {
        match self {
            ExportFormat::Xlsx => "xlsx",
            ExportFormat::Pdf => "pdf",
        }
    }

    /// The name of the format shown to people.
    pub fn label(self) -> (r: &'static str)
        ensures
            r@ == (match self {
                ExportFormat::Xlsx => "Excel"@,
                ExportFormat::Pdf => "PDF"@,
            }),
    {
        match self {
            ExportFormat::Xlsx => "Excel",
            ExportFormat::Pdf => "PDF",
        }
    }
}

/// A week of a report, clipped to the report's period.
#[derive(Clone, Copy, Debug, PartialEq, Eq, Structural)]
pub struct ReportWeek {
    pub start: i32,
    pub end: i32,
}

/// A Julian day that a date may have.
pub open spec fn valid_day(day: int) -> bool {
    JULIAN_DAY_MIN <= day <= JULIAN_DAY_MAX
}

/// Days since the last Monday: Julian day 0 was a Monday.
pub open spec fn weekday_from_monday(day: int) -> int {
    day % 7
}

/// The Monday of the day's week.
pub open spec fn monday_of(day: int) -> int {
    day - weekday_from_monday(day)
}

/// The week starting on `monday`, clipped to the period.
pub open spec fn spec_clipped_week(monday: int, period_start: int, period_end: int) -> ReportWeek {
    ReportWeek {
        start: (if monday < period_start {
            period_start
        } else {
            monday
        }) as i32,
        end: (if monday + 6 < period_end {
            monday + 6
        } else {
            period_end
        }) as i32,
    }
}

/// The number of weeks, Monday to Sunday, that the period touches.
pub open spec fn week_count(start: int, end: int) -> int {
    if monday_of(start) > end {
        0
    } else {
        (end - monday_of(start)) / 7 + 1
    }
}

impl ReportWeek {
    /// The day falls within the week.
    pub fn contains(self, date: i32) -> (r: bool)
        ensures
            r == (self.start <= date && date <= self.end),
    {
        date >= self.start && date <= self.end
    }
}

/// Days since the last Monday.
pub fn weekday(day: i32) -> (r: i32)
    requires
        valid_day(day as int),
    ensures
        r == weekday_from_monday(day as int),
        0 <= r < 7,
{
    let shifted = day + WEEKDAY_SHIFT;
    assert(shifted % 7 == day % 7) by {
        assert(WEEKDAY_SHIFT == 7 * 275858);
    }
    shifted % 7
}

/// The week starting on `monday`, clipped to the period.
pub fn clipped_week(monday: i32, period_start: i32, period_end: i32) -> (week: ReportWeek)
    requires
        monday + 6 <= i32::MAX,
    ensures
        week == spec_clipped_week(monday as int, period_start as int, period_end as int),
{
    let sunday = monday + 6;
    ReportWeek {
        start: if monday < period_start {
            period_start
        } else {
            monday
        },
        end: if sunday < period_end {
            sunday
        } else {
            period_end
        },
    }
}

/// Splits the period into its weeks, Monday to Sunday, the first and last
/// clipped to the period.
pub fn report_weeks(start: i32, end: i32) -> (weeks: Vec<ReportWeek>)
    requires
        valid_day(start as int),
        valid_day(end as int),
        valid_day(monday_of(start as int)),
        monday_of(start as int) <= end ==> valid_day(monday_of(end as int) + 7),
    ensures
        weeks.len() == week_count(start as int, end as int),
        forall|k: int|
            0 <= k < weeks.len() ==> #[trigger] weeks@[k] == spec_clipped_week(
                monday_of(start as int) + 7 * k,
                start as int,
                end as int,
            ),
{
    let first = start - weekday(start);
    let mut monday = first;
    let mut weeks: Vec<ReportWeek> = Vec::new();
    proof {
        if first <= end {
            assert(monday_of(end as int) == first + 7 * ((end - first) / 7)) by (nonlinear_arith)
                requires
                    first % 7 == 0,
                    first <= end,
            {
            }
        }
    }
    while monday <= end
        invariant
            first == monday_of(start as int),
            valid_day(end as int),
            first <= end ==> valid_day(monday_of(end as int) + 7),
            first <= end ==> monday_of(end as int) == first + 7 * ((end - first) / 7),
            monday == first + 7 * weeks.len(),
            weeks.len() > 0 ==> monday <= end + 7,
            weeks.len() <= (if first > end { 0 } else { (end - first) / 7 + 1 }),
            monday <= end ==> weeks.len() < (end - first) / 7 + 1,
            forall|k: int|
                0 <= k < weeks.len() ==> #[trigger] weeks@[k] == spec_clipped_week(
                    first + 7 * k,
                    start as int,
                    end as int,
                ),
        decreases end + 7 - monday,
    {
        weeks.push(clipped_week(monday, start, end));
        assert(monday + 7 <= monday_of(end as int) + 7) by (nonlinear_arith)
            requires
                monday == first + 7 * (weeks.len() - 1),
                monday <= end,
                monday_of(end as int) == first + 7 * ((end - first) / 7),
                first <= end,
                weeks.len() - 1 < (end - first) / 7 + 1,
        {
        }
        monday = monday + 7;
        assert((monday <= end) ==> weeks.len() < (end - first) / 7 + 1) by (nonlinear_arith)
            requires
                monday == first + 7 * weeks.len(),
                first <= end,
        {
        }
    }
    assert(weeks.len() == week_count(start as int, end as int)) by (nonlinear_arith)
        requires
            monday == first + 7 * weeks.len(),
            monday > end,
            weeks.len() > 0 ==> monday <= end + 7,
            first == monday_of(start as int),
            weeks.len() <= (if first > end { 0 } else { (end - first) / 7 + 1 }),
    {
    }
    weeks
}

/// Adds `value` to `total`, stopping at `u32::MAX`.
pub open spec fn saturating(total: int, value: int) -> int {
    if total + value > u32::MAX {
        u32::MAX as int
    } else {
        total + value
    }
}

/// The seconds of the worklogs started within the week, added up until `u32::MAX`.
pub open spec fn week_seconds(worklogs: Seq<Worklog>, week: ReportWeek) -> int
    decreases worklogs.len(),
{
    if worklogs.len() == 0 {
        0
    } else {
        let last = worklogs.last();
        if week.start <= last.started_date <= week.end {
            saturating(week_seconds(worklogs.drop_last(), week), last.duration_seconds as int)
        } else {
            week_seconds(worklogs.drop_last(), week)
        }
    }
}

/// The seconds logged within the week.
pub fn worklog_seconds_for_week(worklogs: &Vec<Worklog>, week: ReportWeek) -> (seconds: u32)
    ensures
        seconds == week_seconds(worklogs@, week),
{
    let mut total: u32 = 0;
    let mut i: usize = 0;
    while i < worklogs.len()
        invariant
            i <= worklogs.len(),
            total == week_seconds(worklogs@.take(i as int), week),
        decreases worklogs.len() - i,
    {
        assert(worklogs@.take(i + 1).drop_last() =~= worklogs@.take(i as int));
        let worklog = &worklogs[i];
        if week.contains(worklog.started_date) {
            total = total.saturating_add(worklog.duration_seconds);
        }
        i = i + 1;
    }
    assert(worklogs@.take(worklogs.len() as int) =~= worklogs@);
    total
}

/// The seconds of one person's worklogs started within the week, added up until `u32::MAX`.
pub open spec fn member_week_seconds(worklogs: Seq<Worklog>, account_id: Seq<char>, week: ReportWeek) -> int
    decreases worklogs.len(),
{
    if worklogs.len() == 0 {
        0
    } else {
        let last = worklogs.last();
        if last.author@ == account_id && week.start <= last.started_date <= week.end {
            saturating(
                member_week_seconds(worklogs.drop_last(), account_id, week),
                last.duration_seconds as int,
            )
        } else {
            member_week_seconds(worklogs.drop_last(), account_id, week)
        }
    }
}

/// The seconds one person logged within the week.
pub fn team_member_week_seconds(worklogs: &Vec<Worklog>, account_id: &str, week: ReportWeek) -> (seconds:
    u32)
    ensures
        seconds == member_week_seconds(worklogs@, account_id@, week),
{
    let mut total: u32 = 0;
    let mut i: usize = 0;
    while i < worklogs.len()
        invariant
            i <= worklogs.len(),
            total == member_week_seconds(worklogs@.take(i as int), account_id@, week),
        decreases worklogs.len() - i,
    {
        assert(worklogs@.take(i + 1).drop_last() =~= worklogs@.take(i as int));
        let worklog = &worklogs[i];
        if crate::text::str_equal(worklog.author.as_str(), account_id) && week.contains(
            worklog.started_date,
        ) {
            total = total.saturating_add(worklog.duration_seconds);
        }
        i = i + 1;
    }
    assert(worklogs@.take(worklogs.len() as int) =~= worklogs@);
    total
}

/// The number of members with hours.
pub open spec fn members_with_hours_in(members: Seq<TeamMemberAnalytics>) -> nat
    decreases members.len(),
{
    if members.len() == 0 {
        0
    } else {
        members_with_hours_in(members.drop_last()) + if members.last().seconds > 0 {
            1nat
        } else {
            0nat
        }
    }
}

proof fn lemma_members_with_hours_bounded(members: Seq<TeamMemberAnalytics>)
    ensures
        members_with_hours_in(members) <= members.len(),
    decreases members.len(),
{
    if members.len() > 0 {
        lemma_members_with_hours_bounded(members.drop_last());
    }
}

/// Counts the members who logged any time.
pub fn members_with_hours(members: &Vec<TeamMemberAnalytics>) -> (count: usize)
    ensures
        count == members_with_hours_in(members@),
{
    let mut count: usize = 0;
    let mut i: usize = 0;
    while i < members.len()
        invariant
            i <= members.len(),
            count == members_with_hours_in(members@.take(i as int)),
            count <= i,
        decreases members.len() - i,
    {
        assert(members@.take(i + 1).drop_last() =~= members@.take(i as int));
        if members[i].seconds > 0 {
            count = count + 1;
        }
        i = i + 1;
    }
    assert(members@.take(members.len() as int) =~= members@);
    count
}

/// The colour of the chart point at `index`: the palette's colours in turn.
pub fn chart_color(palette: &Vec<String>, index: usize) -> (color: String)
    requires
        palette.len() > 0,
    ensures
        color@ == palette@[index as int % palette.len() as int]@,
{
    palette[index % palette.len()].clone()
}

/// The colours of `count` chart points.
pub fn chart_point_colors(palette: &Vec<String>, count: usize) -> (colors: Vec<String>)
    requires
        palette.len() > 0,
    ensures
        colors.len() == count,
        forall|k: int|
            0 <= k < count ==> (#[trigger] colors@[k])@ == palette@[k % palette.len() as int]@,
{
    let mut colors: Vec<String> = Vec::new();
    let mut i: usize = 0;
    while i < count
        invariant
            i <= count,
            palette.len() > 0,
            colors.len() == i,
            forall|k: int|
                0 <= k < i ==> (#[trigger] colors@[k])@ == palette@[k % palette.len() as int]@,
        decreases count - i,
    {
        colors.push(chart_color(palette, i));
        i = i + 1;
    }
    colors
}

/// The character of a decimal digit.
pub open spec fn digit_char(d: int) -> char {
    ('0' as int + d) as char
}

/// The decimal digits of `n`, as Rust writes an unsigned integer.
pub open spec fn decimal(n: nat) -> Seq<char>
    decreases n,
{
    if n < 10 {
        seq![digit_char(n as int)]
    } else {
        decimal(n / 10).push(digit_char((n % 10) as int))
    }
}

/// `n` written with at least two digits, as `{:02}` writes it.
pub open spec fn two_digits(n: nat) -> Seq<char> {
    if n < 10 {
        seq!['0'].add(decimal(n))
    } else {
        decimal(n)
    }
}

fn digit_text(d: u64) -> (r: &'static str)
    requires
        d < 10,
    ensures
        r@ == seq![digit_char(d as int)],
{
    proof {
        reveal_strlit("0");
        reveal_strlit("1");
        reveal_strlit("2");
        reveal_strlit("3");
        reveal_strlit("4");
        reveal_strlit("5");
        reveal_strlit("6");
        reveal_strlit("7");
        reveal_strlit("8");
        reveal_strlit("9");
    }
    if d == 0 {
        "0"
    } else if d == 1 {
        "1"
    } else if d == 2 {
        "2"
    } else if d == 3 {
        "3"
    } else if d == 4 {
        "4"
    } else if d == 5 {
        "5"
    } else if d == 6 {
        "6"
    } else if d == 7 {
        "7"
    } else if d == 8 {
        "8"
    } else {
        "9"
    }
}

/// Writes `n` in decimal.
pub fn decimal_text(n: u64) -> (r: String)
    ensures
        r@ == decimal(n as nat),
    decreases n,
{
    if n < 10 {
        String::from_str(digit_text(n))
    } else {
        let mut text = decimal_text(n / 10);
        text.append(digit_text(n % 10));
        text
    }
}

/// The label of a time zone offset, such as `UTC-03:00` or `UTC+05:30`.
pub open spec fn spec_utc_offset_label(minutes: i16) -> Seq<char> {
    let absolute: nat = if minutes < 0 {
        (-minutes) as nat
    } else {
        minutes as nat
    };
    "UTC"@ + (if minutes < 0 {
        "-"@
    } else {
        "+"@
    }) + two_digits(absolute / 60) + ":"@ + two_digits(absolute % 60)
}

pub(crate) fn two_digit_text(n: u64) -> (r: String)
    ensures
        r@ == two_digits(n as nat),
{
    if n < 10 {
        proof {
            reveal_strlit("0");
        }
        String::from_str("0").concat(digit_text(n))
    } else {
        decimal_text(n)
    }
}

/// Writes the label of a time zone offset.
pub fn utc_offset_label(minutes: i16) -> (label: String)
    ensures
        label@ == spec_utc_offset_label(minutes),
{
    let absolute: u64 = if minutes < 0 {
        (-(minutes as i32)) as u64
    } else {
        minutes as u64
    };
    let sign = if minutes < 0 {
        "-"
    } else {
        "+"
    };
    let hours = two_digit_text(absolute / 60);
    let rest = two_digit_text(absolute % 60);
    String::from_str("UTC").concat(sign).concat(hours.as_str()).concat(":").concat(rest.as_str())
}

/// How many of the results are shown, such as `3 / 10`.
pub fn result_count(included: usize, total: usize) -> (text: String)
    ensures
        text@ == decimal(included as nat) + " / "@ + decimal(total as nat),
{
    decimal_text(included as u64).concat(" / ").concat(decimal_text(total as u64).as_str())
}

} // verus!
