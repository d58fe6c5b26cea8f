use std::collections::BTreeSet;

use worklogger::connection::{
    apply_configuration, combine_disconnect_results, configuration_from, disconnect_error,
    ensure_not_future, hours_configuration, request_from, settings_from,
    team_report_permission_granted, utc_offset_seconds, validate_daily_duration,
    validate_issue_membership, validate_organization_request, validate_organization_site,
    weekly_target_minutes, worklog_seconds, ConfigurationUpdate, ConnectionRequest,
    HoursConfiguration, JiraConfigurationUpdate, ReportsConfiguration,
    committed_refresh_result, WorklogMutationOutcome,
};
use worklogger::desktop_settings::{
    migrate_legacy_reports, validate_email, AppSettings, HoursSettings, JiraSettings,
    ReportsSettings, SettingsError, SettingsProblem,
};
use worklogger::forms::{
    parse_configuration, parse_hours, parse_jira, parse_offset, parse_positive,
    parse_unsigned_text, replacement_token, validate_jira_update, ConfigurationDraft, HoursDraft,
    JiraDraft,
};
use worklogger::mcp::{
    check_capability_toggle, credentials_available, ensure_server_ready, jira_configuration,
    jira_credential_action, mcp_jira_configuration, rejected_credential_error,
    JiraCredentialAction, McpJiraConfiguration,
};
use worklogger::messages::Message;
use worklogger::profile::{
    BrandingProfile, Capability, HoursProfile, JiraModuleProfile, JiraSiteProfile, ModuleProfiles,
    OrganizationProfile, ProviderScopeMode, ReportsModuleProfile, TeamReportAccessPolicy,
    UtcOffsetOption,
};
use worklogger::settings::{self, SettingsDocument};
use worklogger::setup::{
    board_label, build_discovery_request, build_request, filter_boards, parse_board_id,
    result_summary, selected_board_outside_results, single_board_id, validate_identity,
    AccessibleBoard, ConnectionDraft,
};
use worklogger::toolkit::{
    build_request as toolkit_request, parse_utc_offset, request_timeout, team_reports_enabled,
    ToolkitConfig, ToolkitCredentials, ToolkitHours, ToolkitHttp, ToolkitReports,
};

const TEST_JIRA_SITE: &str = "https://example.atlassian.net";
const TEST_JIRA_BOARD_ID: u64 = 123;

fn hours_profile() -> HoursProfile {
    HoursProfile {
        minimum_weekly_target_hours: 1,
        maximum_weekly_target_hours: 60,
        suggested_weekly_target_hours: 40,
        maximum_daily_hours: 12,
        default_worklog_start_hour: 9,
        default_worklog_start_minute: 0,
        default_duration_minutes: 60,
        maximum_custom_range_days: 31,
        suggested_utc_offset_minutes: -180,
        utc_offset_options: vec![
            UtcOffsetOption { minutes: -180, label: "UTC-03:00".to_owned() },
            UtcOffsetOption { minutes: 0, label: "UTC".to_owned() },
        ],
    }
}

fn jira_profile() -> JiraModuleProfile {
    JiraModuleProfile {
        scope_mode: ProviderScopeMode::Restricted,
        sites: vec![JiraSiteProfile {
            name: "Example".to_owned(),
            url: TEST_JIRA_SITE.to_owned(),
            allowed_board_ids: Some(BTreeSet::from([TEST_JIRA_BOARD_ID])),
        }],
        request_timeout_seconds: 30,
        page_size: 50,
        maximum_collection_items: 2_000,
        maximum_issue_search_results: 20,
        maximum_concurrent_worklog_requests: 8,
        maximum_allowed_request_timeout_seconds: 120,
        maximum_allowed_page_size: 100,
        maximum_allowed_collection_items: 10_000,
        maximum_allowed_issue_search_results: 100,
        maximum_allowed_concurrent_worklog_requests: 16,
        mcp_capabilities: vec![Capability::ReadJiraIssues, Capability::ReadOwnTimeEntries],
        hours: hours_profile(),
    }
}

fn test_profile() -> OrganizationProfile {
    OrganizationProfile {
        schema_version: 2,
        branding: BrandingProfile {
            company_name: "Example".to_owned(),
            logo_url: None,
            primary_color: "#0052CC".to_owned(),
            text_color: "#172B4D".to_owned(),
            muted_color: "#5E6C84".to_owned(),
            surface_color: "#FFFFFF".to_owned(),
            border_color: "#DFE1E6".to_owned(),
            chart_palette: vec!["#0052CC".to_owned(); 6],
        },
        modules: ModuleProfiles {
            jira: Some(jira_profile()),
            bitbucket: None,
            reports: Some(ReportsModuleProfile {
                pdf_export_enabled: true,
                team_report_access_policy: TeamReportAccessPolicy::ProjectAdmin,
                maximum_task_slices: 6,
                maximum_trend_labels: 8,
                maximum_team_chart_members: 8,
                table_page_size: 10,
            }),
        },
    }
}

fn request(site: &str, email: &str, board_id: u64) -> ConnectionRequest {
    ConnectionRequest {
        site: site.to_owned(),
        email: email.to_owned(),
        token: "fixture-token".to_owned(),
        board_id,
        weekly_target_hours: 40,
        utc_offset_minutes: 0,
        request_timeout_seconds: 30,
        page_size: 100,
        maximum_collection_items: 2_000,
        maximum_issue_search_results: 20,
        maximum_concurrent_worklog_requests: 8,
        maximum_daily_hours: 24,
        default_worklog_start_hour: 9,
        default_worklog_start_minute: 0,
        enable_team_reports: false,
    }
}

fn valid_settings() -> AppSettings {
    let jira = jira_profile();
    AppSettings {
        schema_version: 1,
        jira: JiraSettings {
            base_url: TEST_JIRA_SITE.to_owned(),
            email: "person@example.com".to_owned(),
            board_id: TEST_JIRA_BOARD_ID,
            request_timeout_seconds: jira.request_timeout_seconds,
            page_size: jira.page_size,
            maximum_collection_items: jira.maximum_collection_items,
            maximum_issue_search_results: jira.maximum_issue_search_results,
            maximum_concurrent_worklog_requests: jira.maximum_concurrent_worklog_requests,
        },
        hours: HoursSettings {
            weekly_target: 40,
            utc_offset_minutes: -180,
            maximum_daily_hours: 12,
            maximum_report_period_days: 7,
            default_worklog_start_hour: 9,
            default_worklog_start_minute: 0,
            legacy_enable_team_reports: None,
        },
        reports: ReportsSettings { enable_team_reports: false },
    }
}

#[test]
fn future_dates_are_rejected_before_accessing_jira() {
    let today = 2_461_286;
    assert!(ensure_not_future(today, today).is_ok());
    assert!(ensure_not_future(today + 1, today).is_err());
}

#[test]
fn worklog_mutations_fail_closed_outside_the_board() {
    assert!(validate_issue_membership(true).is_ok());
    assert_eq!(validate_issue_membership(false), Err(Message::BoardOutsideScope));
    assert_eq!(Message::BoardOutsideScope.key(), "settings.error.boardOutsideScope");
}

#[test]
fn parses_toolkit_time_zone_offset() {
    assert_eq!(parse_utc_offset("-0300"), Ok(-180));
    assert_eq!(parse_utc_offset("+0530"), Ok(330));
    assert!(parse_utc_offset("UTC-3").is_err());
}

fn toolkit_config(reports: Option<ToolkitReports>, legacy: Option<bool>) -> ToolkitConfig {
    ToolkitConfig {
        hours: ToolkitHours {
            weekly_target_hours: 30,
            jira_board_id: 768,
            jira_time_zone_offset: "-0300".to_owned(),
            legacy_enable_team_reports: legacy,
        },
        reports,
        http: None,
    }
}

#[test]
fn reads_reports_section_and_migrates_legacy_hours_flag() {
    let legacy = toolkit_config(None, Some(true));
    assert!(team_reports_enabled(&legacy));

    let current = toolkit_config(Some(ToolkitReports { enable_team_reports: false }), Some(true));
    assert!(!team_reports_enabled(&current));
}

#[test]
fn toolkit_request_rounds_the_timeout_up_to_seconds() {
    let jira = jira_profile();
    let mut config = toolkit_config(None, None);
    assert_eq!(request_timeout(&config, &jira), 30);
    config.http = Some(ToolkitHttp { timeout_ms: 1_001 });
    assert_eq!(request_timeout(&config, &jira), 2);
    config.http = Some(ToolkitHttp { timeout_ms: 2_000 });
    assert_eq!(request_timeout(&config, &jira), 2);
}

#[test]
fn toolkit_request_takes_the_account_and_the_organization_limits() {
    let jira = jira_profile();
    let credentials = ToolkitCredentials {
        url: TEST_JIRA_SITE.to_owned(),
        email: "person@example.com".to_owned(),
        token: "secret".to_owned(),
    };
    let built = toolkit_request(credentials.clone(), &toolkit_config(None, None), &jira).unwrap();
    assert_eq!(built.site, TEST_JIRA_SITE);
    assert_eq!(built.board_id, 768);
    assert_eq!(built.utc_offset_minutes, -180);
    assert_eq!(built.page_size, 50);
    assert_eq!(built.maximum_daily_hours, 12);
    assert!(!built.enable_team_reports);

    let mut broken = toolkit_config(None, None);
    broken.hours.jira_time_zone_offset = "UTC".to_owned();
    assert_eq!(toolkit_request(credentials, &broken, &jira), Err(Message::TimeZoneInvalid));
}

#[test]
fn disabled_jira_deletes_its_mcp_credential() {
    assert_eq!(jira_credential_action(false, true, true), JiraCredentialAction::Delete);
}

#[test]
fn existing_mcp_credential_is_preserved() {
    assert_eq!(jira_credential_action(true, true, false), JiraCredentialAction::Preserve);
}

#[test]
fn matching_desktop_credential_is_transferred() {
    assert_eq!(jira_credential_action(true, false, true), JiraCredentialAction::Transfer);
}

#[test]
fn mismatched_desktop_credential_is_rejected() {
    assert_eq!(jira_credential_action(true, false, false), JiraCredentialAction::Reject);
    assert_eq!(
        rejected_credential_error(JiraCredentialAction::Reject),
        Some(Message::McpScopeCredentialMissing)
    );
    assert_eq!(rejected_credential_error(JiraCredentialAction::Transfer), None);
}

fn connection_configuration(board_id: u64) -> worklogger::connection::ConnectionConfiguration {
    configuration_from(&request(TEST_JIRA_SITE, "person@example.com", board_id)).unwrap()
}

fn mcp_fixture_for_board(board_id: u64) -> McpJiraConfiguration {
    jira_configuration(&connection_configuration(board_id))
}

#[test]
fn capability_toggle_preserves_the_mcp_scope() {
    let application = connection_configuration(10);
    let current = mcp_fixture_for_board(20);
    let updated =
        mcp_jira_configuration(&application, Capability::ReadJiraIssues, true, Some(current));
    assert_eq!(updated.board_id, 20);
}

#[test]
fn enabling_hours_completes_only_missing_hours_configuration() {
    let application = connection_configuration(10);
    let mut current = mcp_fixture_for_board(20);
    current.hours = None;
    let updated =
        mcp_jira_configuration(&application, Capability::ReadOwnTimeEntries, true, Some(current));
    assert_eq!(updated.board_id, 20);
    assert_eq!(updated.hours.expect("hours are completed").weekly_target_hours, 40);
}

#[test]
fn mcp_server_needs_tools_and_credentials() {
    assert_eq!(ensure_server_ready(0, true), Err(Message::McpNoToolsEnabled));
    assert_eq!(ensure_server_ready(2, false), Err(Message::McpCredentialMissing));
    assert_eq!(ensure_server_ready(2, true), Ok(()));
    assert!(credentials_available(true, true, true, false, false));
    assert!(!credentials_available(true, true, false, false, false));
    assert!(!credentials_available(false, false, false, false, false));
}

#[test]
fn capabilities_outside_the_profile_cannot_be_enabled() {
    let profile = test_profile();
    assert_eq!(
        check_capability_toggle(&profile, Capability::WriteOwnTimeEntries, true),
        Err(Message::McpCapabilityBlocked)
    );
    assert_eq!(check_capability_toggle(&profile, Capability::WriteOwnTimeEntries, false), Ok(()));
    assert_eq!(check_capability_toggle(&profile, Capability::ReadJiraIssues, true), Ok(()));
}

#[test]
fn configuration_updates_keep_the_account_and_replace_the_token_only_when_given() {
    let mut request = request(TEST_JIRA_SITE, "person@example.com", 10);
    let update = ConfigurationUpdate {
        replacement_token: None,
        jira: JiraConfigurationUpdate {
            board_id: 11,
            request_timeout_seconds: 45,
            page_size: 25,
            maximum_collection_items: 500,
            maximum_issue_search_results: 10,
            maximum_concurrent_worklog_requests: 4,
        },
        hours: HoursConfiguration {
            weekly_target_hours: 35,
            utc_offset_minutes: -180,
            maximum_daily_hours: 10,
            default_worklog_start_hour: 8,
            default_worklog_start_minute: 30,
        },
        reports: ReportsConfiguration { enable_team_reports: true },
    };
    apply_configuration(&mut request, update.clone());
    assert_eq!(request.token, "fixture-token");
    assert_eq!(request.site, TEST_JIRA_SITE);
    assert_eq!(request.board_id, 11);
    assert_eq!(request.weekly_target_hours, 35);
    assert!(request.enable_team_reports);
    apply_configuration(
        &mut request,
        ConfigurationUpdate { replacement_token: Some("new-token".to_owned()), ..update },
    );
    assert_eq!(request.token, "new-token");
}

#[test]
fn oversized_weekly_targets_do_not_fit_the_configuration() {
    let mut request = request(TEST_JIRA_SITE, "person@example.com", 10);
    request.weekly_target_hours = 70_000;
    assert_eq!(hours_configuration(&request), Err(Message::TargetDoesNotFit));
    assert_eq!(configuration_from(&request), Err(Message::TargetDoesNotFit));
    assert_eq!(settings_from(&request), Err(Message::TargetDoesNotFit));
}

#[test]
fn saved_settings_and_token_give_back_the_request() {
    let first = request(TEST_JIRA_SITE, "person@example.com", 10);
    let settings = settings_from(&first).unwrap();
    assert_eq!(request_from(settings, first.token.clone()), first);
}

#[test]
fn duration_and_target_arithmetic_reports_overflow() {
    assert_eq!(worklog_seconds(90), Ok(5_400));
    assert_eq!(worklog_seconds(u32::MAX), Err(Message::DurationTooLarge));
    assert_eq!(weekly_target_minutes(40), Ok(2_400));
    assert_eq!(weekly_target_minutes(u32::MAX), Err(Message::TargetTooLarge));
    assert_eq!(validate_daily_duration(600, 10), Ok(()));
    assert_eq!(validate_daily_duration(601, 10), Err(Message::ExceedsDailyMaximum));
    assert_eq!(utc_offset_seconds(-180), Ok(-10_800));
    assert_eq!(utc_offset_seconds(i16::MIN), Err(Message::InvalidTimeZone));
}

#[test]
fn disconnect_errors_keep_both_failures() {
    assert_eq!(combine_disconnect_results(Ok(()), Ok(())), Ok(()));
    assert_eq!(
        combine_disconnect_results(Err("token".to_owned()), Err("settings".to_owned())),
        Err("token; settings".to_owned())
    );
    assert_eq!(
        disconnect_error("failed".to_owned(), Err("rollback".to_owned())),
        "failed; rollback"
    );
    assert_eq!(disconnect_error("failed".to_owned(), Ok(())), "failed");
}

#[test]
fn organization_scope_limits_sites_boards_and_team_reports() {
    let profile = test_profile();
    assert_eq!(validate_organization_site(&profile, "https://example.atlassian.net/"), Ok(()));
    assert_eq!(
        validate_organization_site(&profile, "https://other.atlassian.net"),
        Err(Message::BoardOutsideScope)
    );
    let inside = request(TEST_JIRA_SITE, "person@example.com", TEST_JIRA_BOARD_ID);
    let outside = request(TEST_JIRA_SITE, "person@example.com", 124);
    assert_eq!(validate_organization_request(&profile, &inside), Ok(()));
    assert_eq!(validate_organization_request(&profile, &outside), Err(Message::BoardOutsideScope));
    assert!(team_report_permission_granted(&profile, false, true));
    assert!(!team_report_permission_granted(&profile, true, false));
}

#[test]
fn shared_draft_does_not_invent_a_desktop_board() {
    let document = SettingsDocument {
        jira: Some(settings::JiraSettings {
            base_url: Some(TEST_JIRA_SITE.into()),
            ..settings::JiraSettings::default()
        }),
        ..SettingsDocument::default()
    };
    assert_eq!(AppSettings::from_shared(&document, &test_profile(), true).unwrap(), None);
}

#[test]
fn desktop_reads_back_the_settings_it_wrote() {
    let settings = valid_settings();
    let mut document = SettingsDocument::default();
    settings.update_shared(&mut document).unwrap();
    assert_eq!(
        AppSettings::from_shared(&document, &test_profile(), true).unwrap(),
        Some(settings)
    );
}

#[test]
fn missing_limits_take_the_organization_defaults() {
    let document = SettingsDocument {
        jira: Some(settings::JiraSettings {
            base_url: Some(TEST_JIRA_SITE.into()),
            email: Some("person@example.com".into()),
            board_id: Some(TEST_JIRA_BOARD_ID),
            ..settings::JiraSettings::default()
        }),
        ..SettingsDocument::default()
    };
    let settings = AppSettings::from_shared(&document, &test_profile(), true).unwrap().unwrap();
    assert_eq!(settings.jira.page_size, 50);
    assert_eq!(settings.hours.weekly_target, 40);
    assert_eq!(settings.hours.utc_offset_minutes, -180);
    assert_eq!(settings.hours.maximum_report_period_days, 7);
    assert!(!settings.reports.enable_team_reports);
}

#[test]
fn rejects_invalid_schema_and_fields_before_writing() {
    let mut settings = valid_settings();
    settings.schema_version = 2;
    assert_eq!(
        settings.validate(&test_profile(), true),
        Err(SettingsError::Invalid(SettingsProblem::SchemaVersion))
    );
}

#[test]
fn settings_rejects_jira_limits_above_the_safe_maxima() {
    let mut settings = valid_settings();
    settings.jira.maximum_collection_items = 10_001;
    assert_eq!(
        settings.validate(&test_profile(), true),
        Err(SettingsError::Invalid(SettingsProblem::JiraLimitsAboveMaxima))
    );
}

#[test]
fn rejects_hours_outside_the_organization_profile() {
    let mut settings = valid_settings();
    settings.hours.utc_offset_minutes = 15;
    assert_eq!(
        settings.validate(&test_profile(), true),
        Err(SettingsError::Invalid(SettingsProblem::HoursOutsideProfile))
    );
}

#[test]
fn extreme_time_offset_is_rejected_without_overflowing() {
    let mut settings = valid_settings();
    settings.hours.utc_offset_minutes = i16::MIN;
    assert_eq!(
        settings.validate(&test_profile(), true),
        Err(SettingsError::Invalid(SettingsProblem::UtcOffset))
    );
}

#[test]
fn desktop_settings_check_the_site_account_and_board() {
    let profile = test_profile();
    assert!(valid_settings().validate(&profile, true).is_ok());
    assert_eq!(
        valid_settings().validate(&profile, false),
        Err(SettingsError::Invalid(SettingsProblem::JiraBaseUrl))
    );
    let mut other_board = valid_settings();
    other_board.jira.board_id = 124;
    assert_eq!(
        other_board.validate(&profile, true),
        Err(SettingsError::Invalid(SettingsProblem::BoardOutsideScope))
    );
    let mut zero = valid_settings();
    zero.jira.page_size = 0;
    assert_eq!(
        zero.validate(&profile, true),
        Err(SettingsError::Invalid(SettingsProblem::JiraLimitsZero))
    );
}

#[test]
fn e_mail_addresses_are_trimmed_and_checked() {
    assert_eq!(validate_email("  person@example.com  "), Ok(()));
    assert_eq!(validate_email("person example.com"), Err(SettingsProblem::JiraEmail));
    assert_eq!(validate_email("pers on@example.com"), Err(SettingsProblem::JiraEmail));
    assert_eq!(validate_email("   "), Err(SettingsProblem::JiraEmail));
    let long = format!("{}@example.com", "a".repeat(250));
    assert_eq!(validate_email(&long), Err(SettingsProblem::JiraEmail));
}

#[test]
fn migrates_team_reports_out_of_hours() {
    let mut settings = valid_settings();
    settings.hours.legacy_enable_team_reports = Some(true);
    migrate_legacy_reports(&mut settings);
    assert!(settings.reports.enable_team_reports);
    assert_eq!(settings.hours.legacy_enable_team_reports, None);
}

#[test]
fn blank_token_preserves_the_current_credential() {
    assert_eq!(replacement_token("   "), None);
    assert_eq!(replacement_token(" replacement "), Some("replacement".to_owned()));
}

#[test]
fn rejects_zero_limits() {
    assert_eq!(parse_positive("0", u16::MAX as u64), Err(Message::InvalidNumber));
}

#[test]
fn preferences_rejects_jira_limits_above_the_safe_maxima() {
    let limits = jira_profile();
    let configuration = JiraConfigurationUpdate {
        board_id: 42,
        request_timeout_seconds: limits.request_timeout_seconds,
        page_size: limits.page_size,
        maximum_collection_items: limits.maximum_allowed_collection_items.saturating_add(1),
        maximum_issue_search_results: limits.maximum_issue_search_results,
        maximum_concurrent_worklog_requests: limits.maximum_concurrent_worklog_requests,
    };
    assert_eq!(validate_jira_update(&configuration, &limits), Err(Message::InvalidNumber));
}

#[test]
fn numbers_are_read_as_rust_reads_unsigned_integers() {
    assert_eq!(parse_unsigned_text("42", u64::MAX), Some(42));
    assert_eq!(parse_unsigned_text("+7", u64::MAX), Some(7));
    assert_eq!(parse_unsigned_text("-7", u64::MAX), None);
    assert_eq!(parse_unsigned_text("", u64::MAX), None);
    assert_eq!(parse_unsigned_text("256", u8::MAX as u64), None);
    assert_eq!(parse_unsigned_text("18446744073709551616", u64::MAX), None);
    assert_eq!(parse_unsigned_text("18446744073709551615", u64::MAX), Some(u64::MAX));
}

fn draft() -> ConfigurationDraft {
    ConfigurationDraft {
        replacement_token: " ".to_owned(),
        jira: JiraDraft {
            board_id: "123".to_owned(),
            request_timeout_seconds: "30".to_owned(),
            page_size: "50".to_owned(),
            maximum_collection_items: "2000".to_owned(),
            maximum_issue_search_results: "20".to_owned(),
            maximum_concurrent_worklog_requests: "8".to_owned(),
        },
        hours: HoursDraft {
            weekly_target_hours: "40".to_owned(),
            utc_offset_minutes: "-180".to_owned(),
            maximum_daily_hours: "8".to_owned(),
            default_worklog_start_hour: "9".to_owned(),
            default_worklog_start_minute: "30".to_owned(),
        },
        enable_team_reports: true,
    }
}

#[test]
fn preferences_form_gives_a_configuration_update() {
    let limits = jira_profile();
    let update = parse_configuration(&draft(), &limits).unwrap();
    assert_eq!(update.replacement_token, None);
    assert_eq!(update.jira.board_id, 123);
    assert_eq!(update.hours.utc_offset_minutes, -180);
    assert_eq!(update.hours.default_worklog_start_minute, 30);
    assert!(update.reports.enable_team_reports);

    let mut unknown_zone = draft();
    unknown_zone.hours.utc_offset_minutes = "60".to_owned();
    assert_eq!(parse_configuration(&unknown_zone, &limits), Err(Message::SetupTimeZone));
    let mut late = draft();
    late.hours.default_worklog_start_hour = "24".to_owned();
    assert_eq!(parse_hours(&late.hours, &limits.hours), Err(Message::InvalidNumber));
    let mut big_page = draft();
    big_page.jira.page_size = "70000".to_owned();
    assert_eq!(parse_jira(&big_page.jira, &limits), Err(Message::InvalidNumber));
    assert_eq!(parse_offset("abc", &limits.hours), Err(Message::InvalidNumber));
}

fn connection_draft() -> ConnectionDraft {
    ConnectionDraft {
        site: " https://example.atlassian.net// ".to_owned(),
        email: " person@example.com ".to_owned(),
        token: "secret".to_owned(),
        board_id: "123".to_owned(),
    }
}

#[test]
fn setup_builds_the_first_request_from_the_form_and_the_defaults() {
    let jira = jira_profile();
    let built = build_request(&connection_draft(), &jira).unwrap();
    assert_eq!(built.site, TEST_JIRA_SITE);
    assert_eq!(built.email, "person@example.com");
    assert_eq!(built.board_id, 123);
    assert_eq!(built.weekly_target_hours, 40);
    assert!(!built.enable_team_reports);
    let discovery = build_discovery_request(&connection_draft(), &jira).unwrap();
    assert_eq!(discovery.maximum_items, 2_000);
}

#[test]
fn setup_reports_the_first_missing_field() {
    let mut insecure = connection_draft();
    insecure.site = "http://example.atlassian.net".to_owned();
    assert_eq!(validate_identity(&insecure), Err(Message::SetupSecureUrl));
    let mut no_at = connection_draft();
    no_at.email = "person".to_owned();
    assert_eq!(validate_identity(&no_at), Err(Message::SetupEmail));
    let mut no_token = connection_draft();
    no_token.token = "  ".to_owned();
    assert_eq!(validate_identity(&no_token), Err(Message::SetupToken));
    assert_eq!(parse_board_id("x"), Err(Message::SetupBoard));
    assert_eq!(parse_board_id("0"), Err(Message::SetupBoardPositive));
    assert_eq!(parse_board_id("9"), Ok(9));
}

fn board(id: u64, name: &str, project_key: &str) -> AccessibleBoard {
    AccessibleBoard {
        id,
        name: name.to_owned(),
        board_type: "scrum".to_owned(),
        project_key: Some(project_key.to_owned()),
    }
}

#[test]
fn searches_and_labels_boards_by_project_name_and_identifier() {
    let boards = vec![board(42, "Operaciones", "DEMO")];

    assert_eq!(filter_boards(&boards, "demo"), boards);
    assert_eq!(filter_boards(&boards, "operaciones"), boards);
    assert_eq!(filter_boards(&boards, "42"), boards);
    assert!(filter_boards(&boards, "otro").is_empty());
    assert_eq!(board_label(&boards[0]), "DEMO · Operaciones · scrum");
}

#[test]
fn the_selected_board_stays_on_offer_and_a_single_board_is_preselected() {
    let boards = vec![board(42, "Operaciones", "DEMO"), board(7, "Ventas", "SALES")];
    let filtered = filter_boards(&boards, "ventas");
    assert_eq!(selected_board_outside_results(&boards, &filtered, "42"), Some(boards[0].clone()));
    assert_eq!(selected_board_outside_results(&boards, &filtered, "7"), None);
    assert_eq!(single_board_id(&boards), "");
    assert_eq!(single_board_id(&filtered), "7");
    assert_eq!(result_summary("Tableros", 1, 2), "Tableros: 1/2");
}

#[test]
fn committed_mutation_is_not_reported_as_failed_when_refresh_fails() {
    let refresh_error = "refresh unavailable".to_owned();
    let outcome = committed_refresh_result::<u32>(Err(refresh_error), "Guardado; no se pudo actualizar:");
    let WorklogMutationOutcome::CommittedWithoutRefresh(message) = outcome else {
        panic!("refresh failure must preserve committed mutation status");
    };
    assert!(message.starts_with("Guardado; no se pudo actualizar:"));
    assert_eq!(message, "Guardado; no se pudo actualizar: refresh unavailable");
    assert_eq!(
        committed_refresh_result(Ok(7_u32), "Guardado"),
        WorklogMutationOutcome::Refreshed(7)
    );
}
