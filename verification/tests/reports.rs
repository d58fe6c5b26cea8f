use worklogger::analytics::{
    team_member_slices, DailyHours, ReportAnalytics, TaskHours, TeamMemberAnalytics,
    WeeklySummary, Worklog,
};
use worklogger::categories::{
    category_label, category_slice_order, category_slices, CategoryEntry, CategoryLabel,
    CategorySlice,
};
use worklogger::periods::{
    current_week_to_date, filter_suggestions, is_week_view, loaded_seconds_for, next_option,
    parse_range, previous_week, shifted_period, suggestions_for, trailing_days,
    week_containing, AccessibleIssue, DateRange, PeriodError,
};
use worklogger::report::{
    chart_point_colors, members_with_hours, report_weeks, result_count, team_member_week_seconds,
    utc_offset_label, worklog_seconds_for_week, ExportFormat, ReportWeek,
};
use worklogger::team::{
    filtered_team_report, parse_comment_filter, team_entry_matches, team_filters_active,
    CommentFilter, TeamFilters, TeamMember, TeamReport, TeamWorklog,
};
use worklogger::period_text::{loaded_period_label, parse_range_text, preset_range, LoadedPeriodWords, RangeError, RangePreset};
use worklogger::report_text::{page_window, PageWindow};
use worklogger::team_report::TeamAnalytics;

/// The Julian day number of a Gregorian date.
fn julian_day(year: i32, month: i32, day: i32) -> i32 {
    let a = (14 - month) / 12;
    let y = year + 4800 - a;
    let m = month + 12 * a - 3;
    day + (153 * m + 2) / 5 + 365 * y + y / 4 - y / 100 + y / 400 - 32045
}

fn worklog(day_offset: i32, comment: &str) -> Worklog {
    Worklog {
        id: day_offset.to_string(),
        issue_key: format!("TASK-{}", day_offset + 1),
        issue_summary: format!("Tarea {day_offset}"),
        author: "account".to_owned(),
        started_date: julian_day(2026, 9, 1) + day_offset,
        duration_seconds: 3_600,
        comment: comment.to_owned(),
        issue_url: format!("https://example.test/TASK-{}", day_offset + 1),
    }
}

fn summary_of(worklogs: &[Worklog]) -> WeeklySummary {
    let monday = julian_day(2026, 8, 31);
    WeeklySummary {
        loaded_seconds: worklogs.iter().map(|worklog| worklog.duration_seconds).sum(),
        days: (0..7)
            .map(|offset| DailyHours {
                date: monday + offset,
                duration_seconds: worklogs
                    .iter()
                    .filter(|worklog| worklog.started_date == monday + offset)
                    .map(|worklog| worklog.duration_seconds)
                    .sum(),
            })
            .collect(),
        tasks: worklogs
            .iter()
            .map(|worklog| TaskHours {
                issue_key: worklog.issue_key.clone(),
                summary: worklog.issue_summary.clone(),
                issue_url: worklog.issue_url.clone(),
                duration_seconds: worklog.duration_seconds,
                entries: 1,
            })
            .collect(),
    }
}

#[test]
fn groups_small_tasks_into_other_slice() {
    let worklogs = vec![worklog(0, "Uno"), worklog(1, "Dos"), worklog(2, "Tres")];
    let summary = summary_of(&worklogs);
    let analytics = ReportAnalytics::calculate(&summary, &vec![], 2);
    assert_eq!(analytics.task_slices.len(), 2);
    assert_eq!(analytics.task_slices[1].issue_key, None);
    assert_eq!(analytics.task_slices[1].seconds, 7_200);
}

#[test]
fn calculates_cumulative_trend_and_comment_gaps() {
    let worklogs = vec![worklog(0, ""), worklog(1, "Revisión")];
    let summary = summary_of(&worklogs);
    let analytics = ReportAnalytics::calculate(&summary, &worklogs, 6);
    assert_eq!(analytics.uncommented_entries, 1);
    assert_eq!(analytics.trend.last().map(|point| point.cumulative_seconds), Some(7_200));
    assert_eq!(analytics.active_days, 2);
    assert_eq!(analytics.average_active_day_seconds, 3_600);
}

fn member(display_name: &str, seconds: u32) -> TeamMemberAnalytics {
    TeamMemberAnalytics {
        account_id: display_name.to_lowercase(),
        display_name: display_name.to_owned(),
        seconds,
        active_days: 1,
        task_count: 1,
        entries: 1,
    }
}

#[test]
fn groups_members_beyond_the_chart_limit() {
    let members = vec![member("Ana", 10_800), member("Beto", 7_200), member("Caro", 3_600)];
    let slices = team_member_slices(&members, 2);
    assert_eq!(slices.len(), 2);
    assert_eq!(slices[0].display_name.as_deref(), Some("Ana"));
    assert_eq!(slices[1].display_name, None);
    assert_eq!(slices[1].seconds, 10_800);
}

fn team_worklog(
    account: &str,
    display_name: &str,
    day_offset: i32,
    issue_type: Option<&str>,
    issue_status: Option<&str>,
) -> TeamWorklog {
    let mut worklog = worklog(day_offset, "Trabajo");
    worklog.author = account.to_owned();
    TeamWorklog {
        worklog,
        author_display_name: display_name.to_owned(),
        issue_type: issue_type.map(str::to_owned),
        issue_status: issue_status.map(str::to_owned),
        assignee_display_name: None,
    }
}

fn week_dates() -> Vec<i32> {
    let monday = julian_day(2026, 8, 31);
    (0..7).map(|offset| monday + offset).collect()
}

#[test]
fn consolidates_team_worklogs_by_authenticated_jira_author() {
    let first = team_worklog("one", "Ana", 0, Some("Tarea"), Some("En curso"));
    let second = team_worklog("two", "Beto", 1, Some("Bug"), Some("Finalizado"));
    let roster = vec![TeamMember {
        account_id: "zero".to_owned(),
        display_name: "Cero Horas".to_owned(),
        active: true,
    }];
    let analytics = TeamAnalytics::calculate(&week_dates(), &roster, &vec![first, second], 6);
    assert_eq!(analytics.loaded_seconds, 7_200);
    assert_eq!(analytics.members.len(), 3);
    assert!(analytics.members.iter().any(|member| member.seconds == 0));
    assert_eq!(analytics.tasks.len(), 2);
    assert_eq!(analytics.issue_type_slices.len(), 2);
    assert_eq!(analytics.issue_status_slices.len(), 2);
}

#[test]
fn groups_missing_and_overflowing_categories_without_losing_time() {
    let worklogs = vec![
        team_worklog("one", "Ana", 0, Some("Tarea"), None),
        team_worklog("one", "Ana", 1, Some("Bug"), None),
        team_worklog("one", "Ana", 2, Some("Historia"), None),
    ];
    let analytics = TeamAnalytics::calculate(&week_dates(), &vec![], &worklogs, 2);
    assert_eq!(analytics.issue_type_slices.len(), 2);
    assert!(analytics
        .issue_status_slices
        .iter()
        .any(|slice| slice.label == CategoryLabel::Unspecified));
    assert_eq!(
        analytics.issue_type_slices.iter().map(|slice| slice.seconds).sum::<u32>(),
        analytics.loaded_seconds
    );
}

#[test]
fn team_members_are_ordered_by_time_then_name() {
    let worklogs = vec![
        team_worklog("b", "Beto", 0, None, None),
        team_worklog("a", "Ana", 1, None, None),
        team_worklog("a", "Ana Lucía", 1, None, None),
    ];
    let analytics = TeamAnalytics::calculate(&week_dates(), &vec![], &worklogs, 6);
    assert_eq!(analytics.members.len(), 2);
    assert_eq!(analytics.members[0].account_id, "a");
    assert_eq!(analytics.members[0].display_name, "Ana Lucía");
    assert_eq!(analytics.members[0].seconds, 7_200);
    assert_eq!(analytics.members[0].active_days, 1);
    assert_eq!(analytics.members[0].task_count, 1);
    assert_eq!(analytics.members[0].entries, 2);
    assert_eq!(analytics.members[1].account_id, "b");
    assert_eq!(analytics.tasks[0].issue_key, "TASK-2");
    assert_eq!(analytics.tasks[0].duration_seconds, 7_200);
    assert_eq!(analytics.trend[1].cumulative_seconds, 3_600);
    assert_eq!(analytics.trend[2].cumulative_seconds, 10_800);
}

#[test]
fn categories_are_named_unless_blank_and_ordered_by_time_then_name() {
    assert_eq!(category_label(Some("  ")), CategoryLabel::Unspecified);
    assert_eq!(category_label(None), CategoryLabel::Unspecified);
    assert_eq!(category_label(Some("Bug")), CategoryLabel::Value("Bug".to_owned()));
    let entries = vec![
        CategoryEntry { value: Some("Bug".to_owned()), seconds: 100 },
        CategoryEntry { value: None, seconds: 300 },
        CategoryEntry { value: Some("Alpha".to_owned()), seconds: 100 },
        CategoryEntry { value: Some("Bug".to_owned()), seconds: 50 },
    ];
    let slices = category_slices(&entries, 550, 6);
    let labels: Vec<CategoryLabel> = slices.iter().map(|slice| slice.label.clone()).collect();
    assert_eq!(
        labels,
        vec![
            CategoryLabel::Unspecified,
            CategoryLabel::Value("Bug".to_owned()),
            CategoryLabel::Value("Alpha".to_owned()),
        ]
    );
    assert_eq!(slices[1].seconds, 150);
    assert_eq!(slices[0].percentage, 54);
    let limited = category_slices(&entries, 550, 2);
    assert_eq!(limited.len(), 2);
    assert_eq!(limited[1].label, CategoryLabel::Other);
    assert_eq!(limited[1].seconds, 250);
    let more = CategorySlice { label: CategoryLabel::Other, seconds: 9, percentage: 0 };
    let less = CategorySlice { label: CategoryLabel::Value("A".to_owned()), seconds: 1, percentage: 0 };
    assert_eq!(category_slice_order(&more, &less), std::cmp::Ordering::Less);
    assert_eq!(category_slice_order(&less, &more), std::cmp::Ordering::Greater);
    assert_eq!(category_slice_order(&less, &less.clone()), std::cmp::Ordering::Equal);
}

#[test]
fn splits_partial_period_into_clipped_weeks() {
    let start = julian_day(2026, 9, 1);
    let end = julian_day(2026, 9, 9);
    let weeks = report_weeks(start, end);
    assert_eq!(weeks.len(), 2);
    assert_eq!(weeks[0].start, start);
    assert_eq!(weeks[0].end, julian_day(2026, 9, 6));
    assert_eq!(weeks[1].start, julian_day(2026, 9, 7));
    assert_eq!(weeks[1].end, end);
}

#[test]
fn weekly_sheets_add_up_each_week() {
    let worklogs = vec![worklog(0, "a"), worklog(7, "b"), worklog(8, "c")];
    let week = ReportWeek { start: julian_day(2026, 9, 7), end: julian_day(2026, 9, 13) };
    assert_eq!(worklog_seconds_for_week(&worklogs, week), 7_200);
    assert_eq!(team_member_week_seconds(&worklogs, "account", week), 7_200);
    assert_eq!(team_member_week_seconds(&worklogs, "other", week), 0);
    assert_eq!(members_with_hours(&vec![member("Ana", 1), member("Beto", 0)]), 1);
}

#[test]
fn export_labels_and_extensions() {
    assert_eq!(ExportFormat::Xlsx.extension(), "xlsx");
    assert_eq!(ExportFormat::Pdf.extension(), "pdf");
    assert_eq!(ExportFormat::Xlsx.label(), "Excel");
    assert_eq!(utc_offset_label(-180), "UTC-03:00");
    assert_eq!(utc_offset_label(330), "UTC+05:30");
    assert_eq!(utc_offset_label(0), "UTC+00:00");
    assert_eq!(result_count(3, 10), "3 / 10");
    let palette = vec!["#111111".to_owned(), "#222222".to_owned()];
    assert_eq!(chart_point_colors(&palette, 3), vec!["#111111", "#222222", "#111111"]);
}

fn team_entry(account: &str, name: &str, comment: &str) -> TeamWorklog {
    TeamWorklog {
        worklog: Worklog {
            id: "worklog-one".to_owned(),
            issue_key: "DEMO-1".to_owned(),
            issue_summary: "Tarea demostrativa".to_owned(),
            author: account.to_owned(),
            started_date: julian_day(2026, 9, 1),
            duration_seconds: 3_600,
            comment: comment.to_owned(),
            issue_url: "https://example.test/browse/DEMO-1".to_owned(),
        },
        author_display_name: name.to_owned(),
        issue_type: Some("Tarea".to_owned()),
        issue_status: Some("En curso".to_owned()),
        assignee_display_name: None,
    }
}

fn matching_filters() -> TeamFilters {
    TeamFilters {
        member_account_id: "account-one".to_owned(),
        issue_type: "Tarea".to_owned(),
        issue_status: "En curso".to_owned(),
        query: "demo-1".to_owned(),
        comments: CommentFilter::WithComment,
    }
}

#[test]
fn team_filters_match_member_text_and_comment_state() {
    let entry = team_entry("account-one", "Ana", "Análisis funcional");
    let matching = matching_filters();
    let without_comment = TeamFilters { comments: CommentFilter::WithoutComment, ..matching.clone() };
    let wrong_status = TeamFilters { issue_status: "Finalizado".to_owned(), ..matching.clone() };
    assert!(team_entry_matches(&entry, &matching));
    assert!(!team_entry_matches(&entry, &without_comment));
    assert!(!team_entry_matches(&entry, &wrong_status));
}

#[test]
fn filtering_a_team_report_keeps_the_matching_entries_and_members() {
    let report = TeamReport {
        period_start: julian_day(2026, 8, 31),
        period_end: julian_day(2026, 9, 6),
        members: vec![
            TeamMember { account_id: "account-one".to_owned(), display_name: "Ana".to_owned(), active: true },
            TeamMember { account_id: "account-two".to_owned(), display_name: "Beto".to_owned(), active: true },
        ],
        worklogs: vec![team_entry("account-one", "Ana", "Hecho"), team_entry("account-two", "Beto", "")],
        warnings: vec!["partial".to_owned()],
    };
    let filtered = filtered_team_report(report, &matching_filters());
    assert_eq!(filtered.members.len(), 1);
    assert_eq!(filtered.worklogs.len(), 1);
    assert_eq!(filtered.warnings, vec!["partial".to_owned()]);
    assert!(team_filters_active(&matching_filters()));
    assert!(!team_filters_active(&TeamFilters {
        member_account_id: String::new(),
        issue_type: String::new(),
        issue_status: String::new(),
        query: "  ".to_owned(),
        comments: CommentFilter::All,
    }));
    assert_eq!(parse_comment_filter("with"), CommentFilter::WithComment);
    assert_eq!(parse_comment_filter("anything"), CommentFilter::All);
}

#[test]
fn weekly_presets_never_extend_beyond_today() {
    let today = julian_day(2026, 9, 2);
    let current = preset_range(RangePreset::CurrentWeek, today);
    let previous = preset_range(RangePreset::PreviousWeek, today);
    assert_eq!(current.start, julian_day(2026, 8, 31));
    assert_eq!(current.end, today);
    assert_eq!(previous.start, julian_day(2026, 8, 24));
    assert_eq!(previous.end, julian_day(2026, 8, 30));
    assert_eq!(current, current_week_to_date(today));
    assert_eq!(previous, previous_week(today));
}

#[test]
fn extended_presets_cross_boundaries_safely() {
    let today = julian_day(2026, 9, 2);
    let trailing = preset_range(RangePreset::LastFourteenDays, today);
    let month = preset_range(RangePreset::CurrentMonth, today);
    assert_eq!(trailing.start, julian_day(2026, 8, 20));
    assert_eq!(trailing.end, today);
    assert_eq!(month.start, julian_day(2026, 9, 1));
    assert_eq!(month.end, today);
    assert_eq!(trailing, trailing_days(today, 14));
}

#[test]
fn weekly_navigation_returns_to_the_current_partial_week() {
    let today = julian_day(2026, 9, 2);
    let previous = preset_range(RangePreset::PreviousWeek, today);
    let current = shifted_period(previous, 1, today).expect("current week is available");
    assert_eq!(current, preset_range(RangePreset::CurrentWeek, today));
    assert_eq!(shifted_period(current, 1, today), Err(PeriodError::FutureDate));
    assert!(is_week_view(previous, today));
    assert!(is_week_view(current, today));
    assert_eq!(week_containing(today), DateRange { start: julian_day(2026, 8, 31), end: julian_day(2026, 9, 6) });
}

#[test]
fn manual_ranges_reject_future_dates() {
    let today = julian_day(2026, 9, 2);
    let result = parse_range_text("2026-09-01", "2026-09-03", today, 31);
    assert!(result.is_err());
    assert_eq!(result, Err(RangeError::Period(PeriodError::FutureDate)));
    assert_eq!(
        parse_range(julian_day(2026, 9, 2), julian_day(2026, 9, 1), today, 31),
        Err(PeriodError::InvalidOrder)
    );
    assert_eq!(
        parse_range(julian_day(2026, 7, 1), julian_day(2026, 9, 1), today, 31),
        Err(PeriodError::TooLong { maximum_days: 31 })
    );
}

fn spanish_short_months() -> Vec<String> {
    ["Ene", "Feb", "Mar", "Abr", "May", "Jun", "Jul", "Ago", "Sep", "Oct", "Nov", "Dic"]
        .iter()
        .map(|name| (*name).to_owned())
        .collect()
}

#[test]
fn loaded_metric_describes_the_selected_period() {
    let today = julian_day(2026, 9, 2);
    let current = preset_range(RangePreset::CurrentWeek, today);
    let custom = DateRange { start: julian_day(2026, 8, 19), end: julian_day(2026, 9, 1) };
    let words = LoadedPeriodWords {
        current_week: "Cargadas esta semana".to_owned(),
        current_month: "Cargadas este mes".to_owned(),
        prefix: "Cargadas ".to_owned(),
    };
    let months = spanish_short_months();
    assert_eq!(loaded_period_label(current, today, &words, &months), "Cargadas esta semana");
    assert_eq!(loaded_period_label(custom, today, &words, &months), "Cargadas 19 ago – 1 sep");
}

#[test]
fn pagination_clamps_stale_pages_after_the_data_changes() {
    let window = page_window(11, usize::MAX, 10);
    assert_eq!(
        window,
        PageWindow {
            current: 1,
            total: 2,
            start: 10,
            end: 11,
        }
    );
}

#[test]
fn issue_keyboard_navigation_wraps_both_directions() {
    assert_eq!(next_option(None, 3, 1), Some(0));
    assert_eq!(next_option(Some(2), 3, 1), Some(0));
    assert_eq!(next_option(None, 3, -1), Some(2));
    assert_eq!(next_option(Some(0), 3, -1), Some(2));
    assert_eq!(next_option(Some(0), 0, 1), None);
}

fn issue(key: &str) -> AccessibleIssue {
    AccessibleIssue { key: key.to_owned(), summary: "Tarea".to_owned() }
}

#[test]
fn issue_suggestions_preserve_jiras_recent_first_order() {
    let issues = vec![issue("DEMO-2"), issue("DEMO-1")];
    let suggestions = suggestions_for(issues, &vec![]);
    let keys = suggestions.iter().map(|suggestion| suggestion.issue.key.as_str()).collect::<Vec<_>>();
    assert_eq!(keys, vec!["DEMO-2", "DEMO-1"]);
}

#[test]
fn suggestions_show_logged_time_and_match_key_or_summary() {
    let worklogs = vec![worklog(0, "a"), worklog(0, "b")];
    assert_eq!(loaded_seconds_for("TASK-1", &worklogs), 7_200);
    let found = filter_suggestions(vec![issue("DEMO-2"), issue("OTHER-1")], " demo ");
    assert_eq!(found, vec![issue("DEMO-2")]);
    assert_eq!(filter_suggestions(vec![issue("DEMO-2")], "  ").len(), 1);
}
