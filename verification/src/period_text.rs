//! Periods as a person reads and types them: the presets of the period
//! picker, the labels of a period, the typed range, the labels of a trend's
//! axis and the names of exported files. Month names come from the copy
//! resources, as the caller passes them.

use vstd::prelude::*;

use crate::analytics::{DailyHours, TrendPoint};
use crate::calendar::{
    calendar_date, calendar_of, current_month, date_text, iso_date, parse_date, spec_current_month, spec_date_text,
    DateError,
};
use crate::periods::{
    current_week_to_date, parse_range, previous_week, range_outcome, trailing_days, DateRange,
    PeriodError,
};
use crate::report::{decimal, decimal_text, monday_of, valid_day, weekday, weekday_from_monday, ExportFormat};
use crate::report_text::{
    format_hours, spec_format_hours, spec_trend_interval, spec_trend_point_is_visible,
    trend_interval, trend_point_is_visible,
};
use crate::team::{lowercase, str_to_lowercase};
use crate::team_filter_text::joined;

verus! {

/// The ranges the period picker offers.
#[derive(Clone, Copy, Debug, PartialEq, Eq, Structural)]
pub enum RangePreset {
    CurrentWeek,
    PreviousWeek,
    LastFourteenDays,
    CurrentMonth,
}

/// The days of the trailing preset.
pub const LAST_FOURTEEN_DAYS: u16 = 14;

/// The period of a preset, for today.
pub open spec fn spec_preset_range(preset: RangePreset, today: int) -> DateRange {
    match preset {
        RangePreset::CurrentWeek => DateRange { start: monday_of(today) as i32, end: today as i32 },
        RangePreset::PreviousWeek => DateRange {
            start: (monday_of(today) - 7) as i32,
            end: (monday_of(today) - 1) as i32,
        },
        RangePreset::LastFourteenDays => DateRange { start: (today - 13) as i32, end: today as i32 },
        RangePreset::CurrentMonth => spec_current_month(today),
    }
}

/// The period of a preset. (A preset that would start before the earliest
/// day the calendar holds is left out.)
pub fn preset_range(preset: RangePreset, today: i32) -> (r: DateRange)
    requires
        valid_day(today as int),
        preset == RangePreset::PreviousWeek ==> valid_day(monday_of(today as int) - 7),
        preset == RangePreset::LastFourteenDays ==> valid_day(today - 13),
    ensures
        r == spec_preset_range(preset, today as int),
{
    match preset {
        RangePreset::CurrentWeek => current_week_to_date(today),
        RangePreset::PreviousWeek => previous_week(today),
        RangePreset::LastFourteenDays => trailing_days(today, LAST_FOURTEEN_DAYS),
        RangePreset::CurrentMonth => current_month(today),
    }
}

/// The name of a month (1 to 12) among the twelve names.
pub open spec fn month_name(names: Seq<String>, month: int) -> Seq<char> {
    names[month - 1]@
}

/// A period with its days and months, such as `7–13 September` or
/// `28 September–4 October` (the months are compared, not the years).
pub open spec fn spec_format_period(period: DateRange, names: Seq<String>) -> Seq<char> {
    let (_, start_month, start_day) = calendar_of(period.start as int);
    let (_, end_month, end_day) = calendar_of(period.end as int);
    if start_month == end_month {
        decimal(start_day as nat) + seq!['–'] + decimal(end_day as nat) + seq![' '] + month_name(names, end_month)
    } else {
        decimal(start_day as nat) + seq![' '] + month_name(names, start_month) + seq!['–'] + decimal(end_day as nat)
            + seq![' '] + month_name(names, end_month)
    }
}

/// Writes `spec_format_period`; `month_names` holds the twelve names, January first.
pub fn format_period(period: DateRange, month_names: &Vec<String>) -> (r: String)
    requires
        valid_day(period.start as int),
        valid_day(period.end as int),
        month_names@.len() == 12,
    ensures
        r@ == spec_format_period(period, month_names@),
{
    let (_, start_month, start_day) = calendar_date(period.start);
    let (_, end_month, end_day) = calendar_date(period.end);
    proof {
        reveal_strlit("–");
        reveal_strlit(" ");
    }
    let mut text = decimal_text(start_day as u64);
    if start_month == end_month {
        text.append("–");
        text.append(decimal_text(end_day as u64).as_str());
        text.append(" ");
        text.append(month_names[(end_month - 1) as usize].as_str());
    } else {
        text.append(" ");
        text.append(month_names[(start_month - 1) as usize].as_str());
        text.append("–");
        text.append(decimal_text(end_day as u64).as_str());
        text.append(" ");
        text.append(month_names[(end_month - 1) as usize].as_str());
    }
    text
}

/// A period in the short form, with the months in lower case, such as
/// `7–13 september` or `28 september – 4 october`.
pub open spec fn spec_format_short_period(period: DateRange, names: Seq<String>) -> Seq<char> {
    let (_, start_month, start_day) = calendar_of(period.start as int);
    let (_, end_month, end_day) = calendar_of(period.end as int);
    let end_name = lowercase(month_name(names, end_month));
    if start_month == end_month {
        decimal(start_day as nat) + seq!['–'] + decimal(end_day as nat) + seq![' '] + end_name
    } else {
        decimal(start_day as nat) + seq![' '] + lowercase(month_name(names, start_month)) + seq![' ', '–', ' ']
            + decimal(end_day as nat) + seq![' '] + end_name
    }
}

/// Writes `spec_format_short_period`.
pub fn format_short_period(period: DateRange, month_names: &Vec<String>) -> (r: String)
    requires
        valid_day(period.start as int),
        valid_day(period.end as int),
        month_names@.len() == 12,
    ensures
        r@ == spec_format_short_period(period, month_names@),
{
    let (_, start_month, start_day) = calendar_date(period.start);
    let (_, end_month, end_day) = calendar_date(period.end);
    let end_name = str_to_lowercase(month_names[(end_month - 1) as usize].as_str());
    proof {
        reveal_strlit("–");
        reveal_strlit(" ");
        reveal_strlit(" – ");
    }
    let mut text = decimal_text(start_day as u64);
    if start_month == end_month {
        text.append("–");
        text.append(decimal_text(end_day as u64).as_str());
        text.append(" ");
        text.append(end_name.as_str());
    } else {
        let start_name = str_to_lowercase(month_names[(start_month - 1) as usize].as_str());
        text.append(" ");
        text.append(start_name.as_str());
        text.append(" – ");
        text.append(decimal_text(end_day as u64).as_str());
        text.append(" ");
        text.append(end_name.as_str());
    }
    text
}

/// The words of the loaded-period label.
#[derive(Clone, Debug, PartialEq, Eq)]
pub struct LoadedPeriodWords {
    pub current_week: String,
    pub current_month: String,
    pub prefix: String,
}

/// The loaded period: this week so far, this month so far, or the period itself.
pub open spec fn spec_loaded_period_label(
    period: DateRange,
    today: int,
    words: LoadedPeriodWords,
    names: Seq<String>,
) -> Seq<char> {
    if period == (DateRange { start: monday_of(today) as i32, end: today as i32 }) {
        words.current_week@
    } else if period == spec_current_month(today) {
        words.current_month@
    } else {
        words.prefix@ + spec_format_short_period(period, names)
    }
}

/// Writes `spec_loaded_period_label`.
pub fn loaded_period_label(period: DateRange, today: i32, words: &LoadedPeriodWords, month_names: &Vec<String>) -> (r:
    String)
    requires
        valid_day(period.start as int),
        valid_day(period.end as int),
        valid_day(today as int),
        month_names@.len() == 12,
    ensures
        r@ == spec_loaded_period_label(period, today as int, *words, month_names@),
{
    let week = current_week_to_date(today);
    if period == week {
        return words.current_week.clone();
    }
    let month = current_month(today);
    if period == month {
        return words.current_month.clone();
    }
    let mut text = words.prefix.clone();
    text.append(format_short_period(period, month_names).as_str());
    text
}

/// A trend point's axis label: its day and month, such as `7/9`, when it
/// is labelled, and nothing otherwise.
pub open spec fn trend_label(points: Seq<TrendPoint>, maximum: int, index: int) -> Seq<char> {
    let last_index = if points.len() == 0 { 0 } else { points.len() - 1 };
    let interval = spec_trend_interval(points.len() as int, maximum);
    if spec_trend_point_is_visible(index, last_index, interval) {
        let (_, month, day) = calendar_of(points[index].date as int);
        decimal(day as nat) + seq!['/'] + decimal(month as nat)
    } else {
        Seq::empty()
    }
}

/// The axis labels of a trend chart that shows at most `maximum` labels.
pub fn trend_labels(points: &Vec<TrendPoint>, maximum: usize) -> (labels: Vec<String>)
    requires
        forall|i: int| 0 <= i < points@.len() ==> valid_day((#[trigger] points@[i]).date as int),
    ensures
        labels@.len() == points@.len(),
        forall|i: int| 0 <= i < points@.len() ==> (#[trigger] labels@[i])@ == trend_label(points@, maximum as int, i),
{
    let last_index = if points.len() == 0 { 0 } else { points.len() - 1 };
    let interval = trend_interval(points.len(), maximum);
    let mut labels: Vec<String> = Vec::new();
    let mut i: usize = 0;
    while i < points.len()
        invariant
            i <= points.len(),
            forall|k: int| 0 <= k < points@.len() ==> valid_day((#[trigger] points@[k]).date as int),
            last_index == (if points@.len() == 0 { 0 } else { points@.len() - 1 }),
            interval == spec_trend_interval(points@.len() as int, maximum as int),
            labels@.len() == i,
            forall|k: int| 0 <= k < i ==> (#[trigger] labels@[k])@ == trend_label(points@, maximum as int, k),
        decreases points.len() - i,
    {
        if trend_point_is_visible(i, last_index, interval) {
            let (_, month, day) = calendar_date(points[i].date);
            proof {
                reveal_strlit("/");
            }
            let mut label = decimal_text(day as u64);
            label.append("/");
            label.append(decimal_text(month as u64).as_str());
            labels.push(label);
        } else {
            labels.push(String::new());
        }
        i = i + 1;
    }
    labels
}

/// Why a typed range cannot be used: a day is not a date, or the period is refused.
#[derive(Clone, Copy, Debug, PartialEq, Eq, Structural)]
pub enum RangeError {
    InvalidDate,
    Period(PeriodError),
}

/// A typed range: both days must read as dates, then the range is checked.
pub open spec fn spec_parse_range_text(start: Seq<char>, end: Seq<char>, today: i32, maximum_days: u16) -> Result<
    DateRange,
    RangeError,
> {
    match iso_date(start) {
        None => Err(RangeError::InvalidDate),
        Some(first) => match iso_date(end) {
            None => Err(RangeError::InvalidDate),
            Some(last) => match range_outcome(first as i32, last as i32, today, maximum_days) {
                Ok(period) => Ok(period),
                Err(error) => Err(RangeError::Period(error)),
            },
        },
    }
}

/// Reads and checks a range typed as two `YYYY-MM-DD` days.
pub fn parse_range_text(start: &str, end: &str, today: i32, maximum_days: u16) -> (r: Result<DateRange, RangeError>)
    ensures
        r == spec_parse_range_text(start@, end@, today, maximum_days),
{
    let first = match parse_date(start) {
        Ok(day) => day,
        Err(DateError::InvalidDate) => return Err(RangeError::InvalidDate),
    };
    let last = match parse_date(end) {
        Ok(day) => day,
        Err(DateError::InvalidDate) => return Err(RangeError::InvalidDate),
    };
    match parse_range(first, last, today, maximum_days) {
        Ok(period) => Ok(period),
        Err(error) => Err(RangeError::Period(error)),
    }
}

/// A period as the export writes it: `start - end`.
pub open spec fn spec_period_label(period: DateRange) -> Seq<char> {
    spec_date_text(calendar_of(period.start as int)) + seq![' ', '-', ' '] + spec_date_text(
        calendar_of(period.end as int),
    )
}

/// Writes `spec_period_label`.
pub fn period_label(period: DateRange) -> (r: String)
    requires
        valid_day(period.start as int),
        valid_day(period.end as int),
    ensures
        r@ == spec_period_label(period),
{
    proof {
        reveal_strlit(" - ");
    }
    let mut text = date_text(period.start);
    text.append(" - ");
    text.append(date_text(period.end).as_str());
    text
}

/// The name offered for an exported personal report:
/// `prefix-start-end.extension`.
pub open spec fn spec_report_filename(format: ExportFormat, period: DateRange, prefix: Seq<char>) -> Seq<char> {
    prefix + seq!['-'] + spec_date_text(calendar_of(period.start as int)) + seq!['-'] + spec_date_text(
        calendar_of(period.end as int),
    ) + seq!['.'] + format.spec_extension()
}

/// The name offered for an exported team report: `prefix-equipo-start-end.extension`.
pub open spec fn spec_team_report_filename(format: ExportFormat, period: DateRange, prefix: Seq<char>) -> Seq<char> {
    prefix + "-equipo-"@ + spec_date_text(calendar_of(period.start as int)) + seq!['-'] + spec_date_text(
        calendar_of(period.end as int),
    ) + seq!['.'] + format.spec_extension()
}

/// Writes `spec_report_filename`; `prefix` comes from the copy resources.
pub fn report_filename(format: ExportFormat, period: DateRange, prefix: &str) -> (r: String)
    requires
        valid_day(period.start as int),
        valid_day(period.end as int),
    ensures
        r@ == spec_report_filename(format, period, prefix@),
{
    proof {
        reveal_strlit("-");
        reveal_strlit(".");
    }
    let mut name = prefix.to_owned();
    name.append("-");
    name.append(date_text(period.start).as_str());
    name.append("-");
    name.append(date_text(period.end).as_str());
    name.append(".");
    name.append(format.extension());
    name
}

/// Writes `spec_team_report_filename`.
pub fn team_report_filename(format: ExportFormat, period: DateRange, prefix: &str) -> (r: String)
    requires
        valid_day(period.start as int),
        valid_day(period.end as int),
    ensures
        r@ == spec_team_report_filename(format, period, prefix@),
{
    proof {
        reveal_strlit("-equipo-");
        reveal_strlit("-");
        reveal_strlit(".");
    }
    let mut name = prefix.to_owned();
    name.append("-equipo-");
    name.append(date_text(period.start).as_str());
    name.append("-");
    name.append(date_text(period.end).as_str());
    name.append(".");
    name.append(format.extension());
    name
}

/// The busiest day of a report, as `date · 7 h 30 min`, or the words for no activity.
pub open spec fn spec_busiest_day_label(day: Option<DailyHours>, no_activity: Seq<char>) -> Seq<char> {
    match day {
        None => no_activity,
        Some(day) => spec_date_text(calendar_of(day.date as int)) + seq![' ', '·', ' '] + spec_format_hours(
            day.duration_seconds as int,
            "h"@,
            "min"@,
        ),
    }
}

/// Writes `spec_busiest_day_label`.
pub fn busiest_day_label(day: &Option<DailyHours>, no_activity: &str) -> (r: String)
    requires
        day matches Some(d) ==> valid_day(d.date as int),
    ensures
        r@ == spec_busiest_day_label(*day, no_activity@),
{
    match day {
        None => no_activity.to_owned(),
        Some(day) => {
            proof {
                reveal_strlit(" · ");
            }
            let mut label = date_text(day.date);
            label.append(" · ");
            label.append(format_hours(day.duration_seconds, "h", "min").as_str());
            label
        },
    }
}

/// One day of the week chart, for people who do not see it: the weekday's
/// name and the hours logged.
pub open spec fn day_description(day: DailyHours, weekday_names: Seq<String>, hour_word: Seq<char>, minute_word: Seq<char>) -> Seq<char> {
    weekday_names[weekday_from_monday(day.date as int)]@ + seq![' '] + spec_format_hours(
        day.duration_seconds as int,
        hour_word,
        minute_word,
    )
}

/// The descriptions of the days, in order.
pub open spec fn day_descriptions(days: Seq<DailyHours>, weekday_names: Seq<String>, hour_word: Seq<char>, minute_word: Seq<char>) -> Seq<Seq<char>> {
    Seq::new(days.len(), |i: int| day_description(days[i], weekday_names, hour_word, minute_word))
}

/// The text alternative of the week chart: the days' descriptions joined by `, `.
pub open spec fn spec_chart_description(days: Seq<DailyHours>, weekday_names: Seq<String>, hour_word: Seq<char>, minute_word: Seq<char>) -> Seq<char> {
    joined(day_descriptions(days, weekday_names, hour_word, minute_word), seq![',', ' '])
}

/// Writes `spec_chart_description`; `weekday_names` holds the seven names, Monday first.
pub fn chart_description(days: &Vec<DailyHours>, weekday_names: &Vec<String>, hour_word: &str, minute_word: &str) -> (r:
    String)
    requires
        weekday_names@.len() == 7,
        forall|i: int| 0 <= i < days@.len() ==> valid_day((#[trigger] days@[i]).date as int),
    ensures
        r@ == spec_chart_description(days@, weekday_names@, hour_word@, minute_word@),
{
    let ghost all = day_descriptions(days@, weekday_names@, hour_word@, minute_word@);
    let mut text = String::new();
    let mut i: usize = 0;
    assert(all.take(0) =~= Seq::<Seq<char>>::empty());
    while i < days.len()
        invariant
            i <= days.len(),
            weekday_names@.len() == 7,
            forall|k: int| 0 <= k < days@.len() ==> valid_day((#[trigger] days@[k]).date as int),
            all == day_descriptions(days@, weekday_names@, hour_word@, minute_word@),
            text@ == joined(all.take(i as int), seq![',', ' ']),
        decreases days.len() - i,
    {
        proof {
            reveal_strlit(", ");
            reveal_strlit(" ");
        }
        if i > 0 {
            text.append(", ");
        }
        let day = &days[i];
        let name = &weekday_names[weekday(day.date) as usize];
        text.append(name.as_str());
        text.append(" ");
        text.append(format_hours(day.duration_seconds, hour_word, minute_word).as_str());
        proof {
            let next = all.take(i + 1);
            assert(next.drop_last() =~= all.take(i as int));
            assert(next.last() == day_description(days@[i as int], weekday_names@, hour_word@, minute_word@));
            if i == 0 {
                assert(next.len() == 1);
            }
        }
        i = i + 1;
    }
    assert(all.take(days@.len() as int) =~= all);
    text
}

/// The subtitle of the team dashboard: its period, the source line and the filter summary.
pub open spec fn spec_team_dashboard_subtitle(period: DateRange, source: Seq<char>, filter_summary: Seq<char>) -> Seq<char> {
    spec_period_label(period) + seq![' ', '·', ' '] + source + seq![' ', '·', ' '] + filter_summary
}

/// Writes `spec_team_dashboard_subtitle`.
pub fn team_dashboard_subtitle(period: DateRange, source: &str, filter_summary: &str) -> (r: String)
    requires
        valid_day(period.start as int),
        valid_day(period.end as int),
    ensures
        r@ == spec_team_dashboard_subtitle(period, source@, filter_summary@),
{
    proof {
        reveal_strlit(" · ");
    }
    let mut text = period_label(period);
    text.append(" · ");
    text.append(source);
    text.append(" · ");
    text.append(filter_summary);
    text
}

} // verus!
