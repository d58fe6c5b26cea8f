use worklogger::analytics::{DailyHours, TrendPoint, Worklog};
use worklogger::calendar::{current_month, date_text, month_key, parse_date, weekday_key, DateError};
use worklogger::categories::CategoryLabel;
use worklogger::connection::ConnectionRequest;
use worklogger::file_names::{json_path, with_extension};
use worklogger::messages::{rate_limit_message, Message, RateLimitWords};
use worklogger::period_text::{
    busiest_day_label, chart_description, team_dashboard_subtitle, format_period, format_short_period, parse_range_text,
    period_label, report_filename, team_report_filename, trend_labels, RangeError,
};
use worklogger::periods::DateRange;
use worklogger::report::{ExportFormat, ReportWeek};
use worklogger::team_report::team_week_seconds;
use worklogger::report_text::{
    category_label_text, context_scope_rows, display_comment, filter_result_label, fit_label,
    fit_text, format_hours, format_minutes, initials, live_source_label, member_status_class,
    member_status_key, page_window, report_comment, report_source, suggestion_hours,
    team_source_label, trend_interval, trend_point_is_visible, visible_trend_points,
    ReportContext,
};
use worklogger::sheet_layout::{
    classification_chart_row, dashboard_task_column, dashboard_week_column, sheet_column,
    sheet_row, team_dashboard_chart_row, team_task_header_keys, LayoutError,
};
use worklogger::team::{CommentFilter, TeamFilters, TeamMember, TeamWorklog};
use worklogger::team_filter_text::{
    comment_filter_key, comment_filter_options, filter_option_pairs, selected_member_name,
    team_filter_members, team_filter_options, team_filter_summary, FilterField,
    FilterSummaryWords,
};
use worklogger::worklog_form::{
    build_command, parse_duration_part, worklog_input, CreateWorklogCommand, DraftError, DurationPart,
    DurationPartError, WorklogDraft,
};

/// The Julian day number of a Gregorian date.
fn julian_day(year: i32, month: i32, day: i32) -> i32 {
    let a = (14 - month) / 12;
    let y = year + 4800 - a;
    let m = month + 12 * a - 3;
    day + (153 * m + 2) / 5 + 365 * y + y / 4 - y / 100 + y / 400 - 32045
}

fn english_months() -> Vec<String> {
    [
        "January", "February", "March", "April", "May", "June", "July", "August", "September",
        "October", "November", "December",
    ]
    .iter()
    .map(|name| (*name).to_owned())
    .collect()
}

fn point(day: i32) -> TrendPoint {
    TrendPoint { date: julian_day(2026, 9, 1) + day, seconds: 3_600, cumulative_seconds: 3_600 }
}

#[test]
fn trend_axis_keeps_the_ends_and_every_step() {
    assert_eq!(trend_interval(10, 4), 3);
    assert_eq!(trend_interval(10, 1), 9);
    assert_eq!(trend_interval(0, 4), 0);
    assert!(trend_point_is_visible(0, 9, 3));
    assert!(trend_point_is_visible(9, 9, 3));
    assert!(trend_point_is_visible(6, 9, 3));
    assert!(!trend_point_is_visible(5, 9, 3));
    let points: Vec<TrendPoint> = (0..10).map(point).collect();
    let visible = visible_trend_points(&points, 4);
    let days: Vec<i32> = visible.iter().map(|p| p.date - julian_day(2026, 9, 1)).collect();
    assert_eq!(days, vec![0, 3, 6, 9]);
    let labels = trend_labels(&points, 4);
    assert_eq!(labels[0], "1/9");
    assert_eq!(labels[1], "");
    assert_eq!(labels[3], "4/9");
    assert_eq!(labels[9], "10/9");
}

#[test]
fn labels_are_fitted_to_the_visible_width() {
    assert_eq!(fit_label("abc", 3), "abc");
    assert_eq!(fit_label("abcd", 3), "abc…");
    assert_eq!(fit_label("áéíóú", 2), "áé…");
    assert_eq!(fit_text("line one\nline two\r!"), "line one line two !");
    let long = "x".repeat(80);
    assert_eq!(fit_text(&long), format!("{}…", "x".repeat(78)));
}

#[test]
fn category_and_member_labels() {
    assert_eq!(category_label_text(&CategoryLabel::Value("Bug".to_owned()), "Sin tipo", "Otros"), "Bug");
    assert_eq!(category_label_text(&CategoryLabel::Unspecified, "Sin tipo", "Otros"), "Sin tipo");
    assert_eq!(category_label_text(&CategoryLabel::Other, "Sin tipo", "Otros"), "Otros");
    assert_eq!(member_status_key(0), "reports.coverageNoHours");
    assert_eq!(member_status_key(60), "reports.coverageWithHours");
    assert_eq!(member_status_class(0), "status-chip pending");
    assert_eq!(member_status_class(1), "status-chip complete");
}

#[test]
fn report_source_names_the_site_and_board() {
    let context = ReportContext {
        jira_site: "https://example.atlassian.net".to_owned(),
        board_id: 768,
        utc_offset_minutes: -180,
    };
    assert_eq!(report_source("Jira", &None, "tablero"), "Jira");
    assert_eq!(
        report_source("Jira", &Some(context.clone()), "tablero"),
        "Jira · https://example.atlassian.net · tablero 768"
    );
    let rows = context_scope_rows(&Some(context), "2026-09-02 10:00:00 -03:00");
    assert_eq!(rows.len(), 4);
    assert_eq!(rows[0], ("reports.export.site", "https://example.atlassian.net".to_owned()));
    assert_eq!(rows[1], ("reports.export.board", "768".to_owned()));
    assert_eq!(rows[2], ("reports.export.timezone", "UTC-03:00".to_owned()));
    assert_eq!(rows[3].1, "2026-09-02 10:00:00 -03:00");
    assert!(context_scope_rows(&None, "now").is_empty());
}

#[test]
fn source_and_count_labels() {
    assert_eq!(team_source_label(0, "Completo", "Avisos: "), "Completo");
    assert_eq!(team_source_label(3, "Completo", "Avisos: "), "Avisos: 3");
    assert_eq!(live_source_label(0, "Completo", "Con ", " avisos"), "Completo");
    assert_eq!(live_source_label(2, "Completo", "Con ", " avisos"), "Con 2 avisos");
    assert_eq!(filter_result_label(3, 8, "de"), "3 de 8");
}

#[test]
fn durations_are_written_in_hours_and_minutes() {
    assert_eq!(format_hours(7 * 3_600, "h", "min"), "7 h");
    assert_eq!(format_hours(7 * 3_600 + 30 * 60 + 59, "h", "min"), "7 h 30 min");
    assert_eq!(format_hours(0, "h", "min"), "0 h");
    assert_eq!(format_minutes(90, "h", "min"), "1 h 30 min");
    assert_eq!(format_minutes(u32::MAX, "h", "min"), "1193046 h 28 min");
    assert_eq!(suggestion_hours(0, "Sin horas", "h", "min"), "Sin horas");
    assert_eq!(suggestion_hours(5_400, "Sin horas", "h", "min"), "1 h 30 min");
    assert_eq!(display_comment("", "Sin comentario"), "Sin comentario");
    assert_eq!(display_comment(" ", "Sin comentario"), " ");
    assert_eq!(report_comment(" \t", "Sin comentario"), "Sin comentario");
    assert_eq!(report_comment("hecho", "Sin comentario"), "hecho");
}

#[test]
fn initials_take_the_first_two_words_in_upper_case() {
    assert_eq!(initials("ana maría lópez"), "AM");
    assert_eq!(initials("  émile  "), "É");
    assert_eq!(initials(""), "");
}

#[test]
fn pages_cover_the_rows_without_gaps() {
    let first = page_window(25, 0, 10);
    let second = page_window(25, 1, 10);
    let third = page_window(25, 2, 10);
    assert_eq!((first.start, first.end, first.total), (0, 10, 3));
    assert_eq!((second.start, second.end), (10, 20));
    assert_eq!((third.start, third.end, third.current), (20, 25, 2));
    let empty = page_window(0, 4, 10);
    assert_eq!((empty.current, empty.total, empty.start, empty.end), (0, 1, 0, 0));
    let tiny = page_window(3, 1, 0);
    assert_eq!((tiny.total, tiny.start, tiny.end), (3, 1, 2));
}

fn draft(hours: &str, minutes: &str) -> WorklogDraft {
    WorklogDraft {
        issue_key: " DEMO-1 ".to_owned(),
        date: "2026-09-01".to_owned(),
        hours: hours.to_owned(),
        minutes: minutes.to_owned(),
        comment: "  revisión  ".to_owned(),
    }
}

#[test]
fn worklog_form_checks_each_part_of_the_duration() {
    assert_eq!(parse_duration_part("7", 12), Ok(7));
    assert_eq!(parse_duration_part("+7", 12), Ok(7));
    assert_eq!(parse_duration_part("13", 12), Err(DurationPartError::TooLarge));
    assert_eq!(parse_duration_part("x", 12), Err(DurationPartError::Invalid));
    assert_eq!(parse_duration_part("", 12), Err(DurationPartError::Invalid));
    assert_eq!(parse_duration_part("99999999999", 12), Err(DurationPartError::Invalid));
    let command = build_command(&draft("1", "30"), 12, true).expect("valid form");
    assert_eq!(command.issue_key, "DEMO-1");
    assert_eq!(command.minutes, 90);
    assert_eq!(command.comment, "revisión");
    assert_eq!(command.date, "2026-09-01");
    assert_eq!(
        build_command(&draft("13", "0"), 12, true),
        Err(DraftError::Part(DurationPart::Hours, DurationPartError::TooLarge))
    );
    assert_eq!(
        build_command(&draft("1", "60"), 12, true),
        Err(DraftError::Part(DurationPart::Minutes, DurationPartError::TooLarge))
    );
    assert_eq!(
        build_command(&draft("1", "x"), 12, true),
        Err(DraftError::Part(DurationPart::Minutes, DurationPartError::Invalid))
    );
    assert_eq!(build_command(&draft("0", "0"), 12, true), Err(DraftError::Required));
    assert_eq!(build_command(&draft("1", "0"), 12, false), Err(DraftError::IssueInvalid));
}

#[test]
fn sheet_positions_fit_the_worksheet() {
    assert_eq!(sheet_row(3, 5), Ok(8));
    assert_eq!(sheet_row(u32::MAX as usize, 1), Err(LayoutError::RowColumnLimit));
    assert_eq!(sheet_column(3, 1), Ok(4));
    assert_eq!(sheet_column(70_000, 0), Err(LayoutError::RowColumnLimit));
    assert_eq!(dashboard_week_column(5), Ok(9));
    assert_eq!(dashboard_task_column(5), Ok(13));
    assert_eq!(team_dashboard_chart_row(20, 8, 5, 3), Ok(15));
    assert_eq!(team_dashboard_chart_row(2, 8, 5, 9), Ok(16));
    assert_eq!(classification_chart_row(4, 6), Ok(9));
    let keys = team_task_header_keys();
    assert_eq!(keys.len(), 8);
    assert_eq!(keys[0], "table.issue");
    assert_eq!(keys[7], "reports.export.link");
}

fn entry(issue_type: Option<&str>, issue_status: Option<&str>) -> TeamWorklog {
    TeamWorklog {
        worklog: Worklog {
            id: "1".to_owned(),
            issue_key: "DEMO-1".to_owned(),
            issue_summary: "Tarea".to_owned(),
            author: "account-one".to_owned(),
            started_date: julian_day(2026, 9, 1),
            duration_seconds: 3_600,
            comment: String::new(),
            issue_url: "https://example.test/browse/DEMO-1".to_owned(),
        },
        author_display_name: "Ana".to_owned(),
        issue_type: issue_type.map(str::to_owned),
        issue_status: issue_status.map(str::to_owned),
        assignee_display_name: None,
    }
}

#[test]
fn filter_options_are_distinct_sorted_and_not_blank() {
    let worklogs = vec![
        entry(Some("Tarea"), Some("En curso")),
        entry(Some("Error"), None),
        entry(Some("Tarea"), Some("  ")),
        entry(None, Some("Finalizado")),
        entry(Some("Épica"), Some("En curso")),
    ];
    assert_eq!(team_filter_options(&worklogs, FilterField::IssueType), vec!["Error", "Tarea", "Épica"]);
    assert_eq!(team_filter_options(&worklogs, FilterField::IssueStatus), vec!["En curso", "Finalizado"]);
    assert_eq!(
        filter_option_pairs(vec!["a".to_owned()]),
        vec![("a".to_owned(), "a".to_owned())]
    );
    assert_eq!(comment_filter_key(CommentFilter::WithComment), "reports.commentsWith");
    assert_eq!(comment_filter_key(CommentFilter::All), "reports.commentsFilterDefault");
    assert_eq!(
        comment_filter_options(),
        vec![("with", "reports.commentsWith"), ("without", "reports.commentsWithout")]
    );
}

fn members() -> Vec<TeamMember> {
    vec![
        TeamMember { account_id: "account-one".to_owned(), display_name: "Ana".to_owned(), active: true },
        TeamMember { account_id: "account-two".to_owned(), display_name: "Luis".to_owned(), active: true },
    ]
}

fn words() -> FilterSummaryWords {
    FilterSummaryWords {
        member: "Persona".to_owned(),
        issue_type: "Tipo".to_owned(),
        issue_status: "Estado".to_owned(),
        search: "Búsqueda".to_owned(),
        comments_with: "Con comentario".to_owned(),
        comments_without: "Sin comentario".to_owned(),
        none: "Sin filtros".to_owned(),
    }
}

#[test]
fn filter_summary_lists_the_active_filters() {
    assert_eq!(selected_member_name(&members(), "account-two"), Some("Luis".to_owned()));
    assert_eq!(selected_member_name(&members(), "account-three"), None);
    assert_eq!(
        team_filter_members(&members()),
        vec![
            ("account-one".to_owned(), "Ana".to_owned()),
            ("account-two".to_owned(), "Luis".to_owned())
        ]
    );
    let none = TeamFilters {
        member_account_id: String::new(),
        issue_type: String::new(),
        issue_status: String::new(),
        query: "   ".to_owned(),
        comments: CommentFilter::All,
    };
    assert_eq!(team_filter_summary(&members(), &none, &words()), "Sin filtros");
    let all = TeamFilters {
        member_account_id: "account-two".to_owned(),
        issue_type: "Tarea".to_owned(),
        issue_status: "En curso".to_owned(),
        query: "  demo ".to_owned(),
        comments: CommentFilter::WithoutComment,
    };
    assert_eq!(
        team_filter_summary(&members(), &all, &words()),
        "Persona: Luis · Tipo: Tarea · Estado: En curso · Búsqueda: demo · Sin comentario"
    );
    let unknown_member = TeamFilters { member_account_id: "nobody".to_owned(), ..none };
    assert_eq!(team_filter_summary(&members(), &unknown_member, &words()), "Sin filtros");
}

#[test]
fn calendar_dates_come_from_julian_days() {
    let day = julian_day(2026, 9, 7);
    assert_eq!(date_text(day), "2026-09-07");
    assert_eq!(date_text(julian_day(1, 1, 1)), "0001-01-01");
    assert_eq!(date_text(-1930999), "-9999-01-01");
    assert_eq!(date_text(5373484), "9999-12-31");
    assert_eq!(current_month(day), DateRange { start: julian_day(2026, 9, 1), end: day });
    assert_eq!(current_month(julian_day(2024, 3, 1)), DateRange { start: julian_day(2024, 3, 1), end: julian_day(2024, 3, 1) });
    assert_eq!(parse_date("2026-09-07"), Ok(day));
    assert_eq!(parse_date("2026-02-29"), Err(DateError::InvalidDate));
    assert_eq!(parse_date("2024-02-29"), Ok(julian_day(2024, 2, 29)));
    assert_eq!(parse_date("7/9/2026"), Err(DateError::InvalidDate));
    assert_eq!(month_key(9), "month.september");
    assert_eq!(weekday_key(0), "weekday.monday");
    assert_eq!(weekday_key(6), "weekday.sunday");
}

#[test]
fn periods_are_labelled_with_days_and_months() {
    let months = english_months();
    let same = DateRange { start: julian_day(2026, 9, 7), end: julian_day(2026, 9, 13) };
    let across = DateRange { start: julian_day(2026, 9, 28), end: julian_day(2026, 10, 4) };
    assert_eq!(format_period(same, &months), "7–13 September");
    assert_eq!(format_period(across, &months), "28 September–4 October");
    assert_eq!(format_short_period(same, &months), "7–13 september");
    assert_eq!(format_short_period(across, &months), "28 september – 4 october");
    assert_eq!(period_label(same), "2026-09-07 - 2026-09-13");
    assert_eq!(report_filename(ExportFormat::Xlsx, same, "informe"), "informe-2026-09-07-2026-09-13.xlsx");
    assert_eq!(team_report_filename(ExportFormat::Pdf, same, "informe"), "informe-equipo-2026-09-07-2026-09-13.pdf");
    let busiest = Some(DailyHours { date: julian_day(2026, 9, 8), duration_seconds: 27_000 });
    assert_eq!(busiest_day_label(&busiest, "Sin actividad"), "2026-09-08 · 7 h 30 min");
    assert_eq!(busiest_day_label(&None, "Sin actividad"), "Sin actividad");
}

#[test]
fn typed_ranges_must_be_dates() {
    let today = julian_day(2026, 9, 2);
    assert_eq!(parse_range_text("2026-09-01", "2026-09-02", today, 31), Ok(DateRange { start: julian_day(2026, 9, 1), end: today }));
    assert_eq!(parse_range_text("ayer", "2026-09-02", today, 31), Err(RangeError::InvalidDate));
    assert_eq!(parse_range_text("2026-09-01", "2026-13-01", today, 31), Err(RangeError::InvalidDate));
}

#[test]
fn week_chart_is_described_in_words() {
    let names: Vec<String> = ["Lunes", "Martes", "Miércoles", "Jueves", "Viernes", "Sábado", "Domingo"]
        .iter()
        .map(|name| (*name).to_owned())
        .collect();
    let days = vec![
        DailyHours { date: julian_day(2026, 9, 7), duration_seconds: 3_600 },
        DailyHours { date: julian_day(2026, 9, 8), duration_seconds: 5_400 },
    ];
    assert_eq!(chart_description(&days, &names, "h", "min"), "Lunes 1 h, Martes 1 h 30 min");
    assert_eq!(chart_description(&Vec::new(), &names, "h", "min"), "");
}

#[test]
fn rate_limit_message_says_how_long_to_wait() {
    let words = RateLimitWords {
        limited: "Demasiadas solicitudes".to_owned(),
        prefix: "Reintenta en ".to_owned(),
        suffix: " s".to_owned(),
    };
    assert_eq!(rate_limit_message(None, &words), "Demasiadas solicitudes");
    assert_eq!(rate_limit_message(Some(30), &words), "Reintenta en 30 s");
}

fn connection_request() -> ConnectionRequest {
    ConnectionRequest {
        site: "https://example.atlassian.net".to_owned(),
        email: "ana@example.com".to_owned(),
        token: "fixture-token".to_owned(),
        board_id: 768,
        weekly_target_hours: 40,
        utc_offset_minutes: -180,
        request_timeout_seconds: 30,
        page_size: 100,
        maximum_collection_items: 2_000,
        maximum_issue_search_results: 20,
        maximum_concurrent_worklog_requests: 8,
        maximum_daily_hours: 10,
        default_worklog_start_hour: 9,
        default_worklog_start_minute: 30,
        enable_team_reports: false,
    }
}

fn command(date: &str, minutes: u32) -> CreateWorklogCommand {
    CreateWorklogCommand {
        issue_key: "DEMO-1".to_owned(),
        date: date.to_owned(),
        minutes,
        comment: "revisión".to_owned(),
    }
}

#[test]
fn worklog_input_checks_the_day_zone_and_duration() {
    let today = julian_day(2026, 9, 2);
    let request = connection_request();
    let start = worklog_input(&command("2026-09-01", 90), &request, today).expect("valid worklog");
    assert_eq!(start.date, julian_day(2026, 9, 1));
    assert_eq!((start.hour, start.minute), (9, 30));
    assert_eq!(start.utc_offset_seconds, -10_800);
    assert_eq!(start.duration_seconds, 5_400);
    assert_eq!(start.comment, "revisión");
    assert_eq!(worklog_input(&command("2026-09-03", 90), &request, today), Err(Message::FutureDate));
    assert_eq!(worklog_input(&command("01/09/2026", 90), &request, today), Err(Message::InvalidDate));
    assert_eq!(worklog_input(&command("2026-09-01", 601), &request, today), Err(Message::ExceedsDailyMaximum));
    let late = ConnectionRequest { default_worklog_start_hour: 24, ..connection_request() };
    assert_eq!(worklog_input(&command("2026-09-01", 90), &late, today), Err(Message::InvalidInput));
    let far = ConnectionRequest { utc_offset_minutes: 1_600, ..connection_request() };
    assert_eq!(worklog_input(&command("2026-09-01", 90), &far, today), Err(Message::InvalidTimeZone));
    assert_eq!(Message::InvalidDate.key(), "connection.invalidDate");
}

#[test]
fn adds_extension_only_when_missing() {
    assert_eq!(with_extension("report".to_owned(), "pdf"), "report.pdf");
    assert_eq!(with_extension("report.xlsx".to_owned(), "pdf"), "report.pdf");
    assert_eq!(with_extension("report.PDF".to_owned(), "pdf"), "report.PDF");
}

#[test]
fn export_path_keeps_or_adds_the_json_extension() {
    assert_eq!(json_path("config".to_owned()), "config.json");
    assert_eq!(json_path("config.JSON".to_owned()), "config.JSON");
}

#[test]
fn team_dashboard_sums_up_the_week_and_its_scope() {
    let mut late = entry(Some("Tarea"), None);
    late.worklog.started_date = julian_day(2026, 9, 8);
    late.worklog.duration_seconds = 1_800;
    let worklogs = vec![entry(Some("Tarea"), None), entry(None, None), late];
    let week = ReportWeek { start: julian_day(2026, 8, 31), end: julian_day(2026, 9, 6) };
    assert_eq!(team_week_seconds(&worklogs, week), 7_200);
    let next = ReportWeek { start: julian_day(2026, 9, 7), end: julian_day(2026, 9, 13) };
    assert_eq!(team_week_seconds(&worklogs, next), 1_800);
    let period = DateRange { start: julian_day(2026, 9, 1), end: julian_day(2026, 9, 7) };
    assert_eq!(
        team_dashboard_subtitle(period, "Jira", "Sin filtros"),
        "2026-09-01 - 2026-09-07 · Jira · Sin filtros"
    );
}
