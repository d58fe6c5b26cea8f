//! The desktop client's own view of its settings: what it requires before it
//! connects, and how it reads and writes the settings shared with other frontends.

use vstd::prelude::*;

use crate::profile::{HoursProfile, JiraModuleProfile, OrganizationProfile};
use crate::settings::{self, settings_outcome, SettingsDocument, DEFAULT_MAXIMUM_REPORT_PERIOD_DAYS};
use crate::text::{has_whitespace, lemma_utf8_len_positive, str_contains_char, str_has_whitespace, str_trim, trim, utf8_len};

verus! {

/// The schema version of the desktop settings.
pub const SETTINGS_SCHEMA_VERSION: u16 = 1;

/// The longest e-mail address accepted, in bytes.
pub const MAX_EMAIL_LENGTH: usize = 254;

/// The largest weekly target: every hour of a week.
pub const MAX_WEEKLY_HOURS: u16 = 168;

/// The hours of a day.
pub const HOURS_PER_DAY: u16 = 24;

/// The largest distance from UTC, in minutes (fourteen hours).
pub const MAX_UTC_OFFSET_MINUTES: u16 = 840;

/// The settings the desktop client needs to connect.
#[derive(Clone, Debug, PartialEq, Eq)]
pub struct AppSettings {
    pub schema_version: u16,
    pub jira: JiraSettings,
    pub hours: HoursSettings,
    pub reports: ReportsSettings,
}

/// The Jira account, board and limits of the desktop client.
#[derive(Clone, Debug, PartialEq, Eq)]
pub struct JiraSettings {
    pub base_url: String,
    pub email: String,
    pub board_id: u64,
    pub request_timeout_seconds: u64,
    pub page_size: u16,
    pub maximum_collection_items: usize,
    pub maximum_issue_search_results: usize,
    pub maximum_concurrent_worklog_requests: usize,
}

/// The hours preferences of the desktop client; the team reports flag once
/// lived here and is moved to the reports section when read.
#[derive(Clone, Copy, Debug, PartialEq, Eq, Structural)]
pub struct HoursSettings {
    pub weekly_target: u16,
    pub utc_offset_minutes: i16,
    pub maximum_daily_hours: u8,
    pub maximum_report_period_days: u16,
    pub default_worklog_start_hour: u8,
    pub default_worklog_start_minute: u8,
    pub legacy_enable_team_reports: Option<bool>,
}

/// The reports preferences of the desktop client.
#[derive(Clone, Copy, Debug, PartialEq, Eq, Structural)]
pub struct ReportsSettings {
    pub enable_team_reports: bool,
}

impl Default for ReportsSettings {
    fn default() -> (s: Self)
        ensures
            !s.enable_team_reports,
    {
        ReportsSettings { enable_team_reports: false }
    }
}

/// The rule that desktop settings break, in the order they are checked.
#[derive(Clone, Copy, Debug, PartialEq, Eq, Structural)]
pub enum SettingsProblem {
    SchemaVersion,
    JiraBaseUrl,
    JiraEmail,
    JiraBoardId,
    BoardOutsideScope,
    JiraLimitsZero,
    JiraLimitsAboveMaxima,
    WeeklyTarget,
    MaximumDailyHours,
    DefaultStart,
    UtcOffset,
    HoursOutsideProfile,
    DefaultWeeklyTargetTooLarge,
}

/// Why the desktop settings cannot be used or saved.
#[derive(Clone, Copy, Debug, PartialEq, Eq, Structural)]
pub enum SettingsError {
    Shared(settings::SettingsError),
    Invalid(SettingsProblem),
}

/// An e-mail address: once trimmed, non-empty, at most 254 bytes, without
/// whitespace and holding an `@`.
pub open spec fn email_acceptable(email: Seq<char>) -> bool {
    let value = trim(email);
    &&& value.len() > 0
    &&& utf8_len(value) <= MAX_EMAIL_LENGTH
    &&& !has_whitespace(value)
    &&& value.contains('@')
}

/// Every Jira limit is positive.
pub open spec fn jira_limits_positive(jira: JiraSettings) -> bool {
    &&& jira.request_timeout_seconds > 0
    &&& jira.page_size > 0
    &&& jira.maximum_collection_items > 0
    &&& jira.maximum_issue_search_results > 0
    &&& jira.maximum_concurrent_worklog_requests > 0
}

/// Every Jira limit is within the organization's safe maxima.
pub open spec fn jira_limits_within(jira: JiraSettings, profile: OrganizationProfile) -> bool {
    match profile.modules.jira {
        Some(limits) => {
            &&& jira.request_timeout_seconds <= limits.maximum_allowed_request_timeout_seconds
            &&& jira.page_size <= limits.maximum_allowed_page_size
            &&& jira.maximum_collection_items <= limits.maximum_allowed_collection_items
            &&& jira.maximum_issue_search_results <= limits.maximum_allowed_issue_search_results
            &&& jira.maximum_concurrent_worklog_requests
                <= limits.maximum_allowed_concurrent_worklog_requests
        },
        None => false,
    }
}

/// The first rule the Jira settings break; `site_accepted` is whether the base
/// URL parses as an HTTPS `atlassian.net` site.
pub open spec fn jira_outcome(
    jira: JiraSettings,
    profile: OrganizationProfile,
    site_accepted: bool,
) -> Result<(), SettingsProblem> {
    if !site_accepted {
        Err(SettingsProblem::JiraBaseUrl)
    } else if !email_acceptable(jira.email@) {
        Err(SettingsProblem::JiraEmail)
    } else if jira.board_id == 0 {
        Err(SettingsProblem::JiraBoardId)
    } else if !profile.spec_allows_jira_board(jira.base_url@, jira.board_id) {
        Err(SettingsProblem::BoardOutsideScope)
    } else if !jira_limits_positive(jira) {
        Err(SettingsProblem::JiraLimitsZero)
    } else if !jira_limits_within(jira, profile) {
        Err(SettingsProblem::JiraLimitsAboveMaxima)
    } else {
        Ok(())
    }
}

/// The hours are within what the organization's profile allows.
pub open spec fn hours_within_profile(hours: HoursSettings, profile: OrganizationProfile) -> bool {
    match profile.modules.jira {
        Some(jira) => {
            &&& jira.hours.spec_allows_weekly_target(hours.weekly_target as u32)
            &&& hours.maximum_daily_hours <= jira.hours.maximum_daily_hours
            &&& jira.hours.spec_allows_utc_offset(hours.utc_offset_minutes)
        },
        None => false,
    }
}

/// The distance of an offset from UTC, as `i16::unsigned_abs` gives it.
pub open spec fn offset_distance(minutes: i16) -> int {
    if minutes < 0 {
        -minutes
    } else {
        minutes as int
    }
}

/// The first rule the hours break.
pub open spec fn hours_outcome(hours: HoursSettings, profile: OrganizationProfile) -> Result<
    (),
    SettingsProblem,
> {
    if hours.weekly_target == 0 || hours.weekly_target > MAX_WEEKLY_HOURS {
        Err(SettingsProblem::WeeklyTarget)
    } else if hours.maximum_daily_hours == 0 || hours.maximum_daily_hours > HOURS_PER_DAY {
        Err(SettingsProblem::MaximumDailyHours)
    } else if hours.default_worklog_start_hour >= HOURS_PER_DAY
        || hours.default_worklog_start_minute >= 60 {
        Err(SettingsProblem::DefaultStart)
    } else if offset_distance(hours.utc_offset_minutes) > MAX_UTC_OFFSET_MINUTES {
        Err(SettingsProblem::UtcOffset)
    } else if !hours_within_profile(hours, profile) {
        Err(SettingsProblem::HoursOutsideProfile)
    } else {
        Ok(())
    }
}

/// The first rule the settings break, checked schema, then Jira, then hours.
pub open spec fn app_settings_outcome(
    app: AppSettings,
    profile: OrganizationProfile,
    site_accepted: bool,
) -> Result<(), SettingsError> {
    if app.schema_version != SETTINGS_SCHEMA_VERSION {
        Err(SettingsError::Invalid(SettingsProblem::SchemaVersion))
    } else {
        match jira_outcome(app.jira, profile, site_accepted) {
            Err(problem) => Err(SettingsError::Invalid(problem)),
            Ok(()) => match hours_outcome(app.hours, profile) {
                Err(problem) => Err(SettingsError::Invalid(problem)),
                Ok(()) => Ok(()),
            },
        }
    }
}

/// Decides `email_acceptable`.
pub fn validate_email(email: &str) -> (r: Result<(), SettingsProblem>)
    ensures
        r == (if email_acceptable(email@) {
            Ok(())
        } else {
            Err(SettingsProblem::JiraEmail)
        }),
{
    let value = str_trim(email);
    let length = value.as_bytes().len();
    proof {
        lemma_utf8_len_positive(value@);
    }
    let valid_length = length > 0 && length <= MAX_EMAIL_LENGTH;
    if !valid_length || str_has_whitespace(value) || !str_contains_char(value, '@') {
        return Err(SettingsProblem::JiraEmail);
    }
    Ok(())
}

fn jira_limits_are_positive(jira: &JiraSettings) -> (r: bool)
    ensures
        r == jira_limits_positive(*jira),
{
    jira.request_timeout_seconds > 0 && jira.page_size > 0 && jira.maximum_collection_items > 0
        && jira.maximum_issue_search_results > 0 && jira.maximum_concurrent_worklog_requests > 0
}

fn jira_limits_are_within(jira: &JiraSettings, profile: &OrganizationProfile) -> (r: bool)
    ensures
        r == jira_limits_within(*jira, *profile),
{
    match &profile.modules.jira {
        Some(limits) => jira.request_timeout_seconds <= limits.maximum_allowed_request_timeout_seconds
            && jira.page_size <= limits.maximum_allowed_page_size && jira.maximum_collection_items
            <= limits.maximum_allowed_collection_items && jira.maximum_issue_search_results
            <= limits.maximum_allowed_issue_search_results
            && jira.maximum_concurrent_worklog_requests
            <= limits.maximum_allowed_concurrent_worklog_requests,
        None => false,
    }
}

/// Checks the Jira settings against the organization's scope and limits.
pub fn validate_jira(jira: &JiraSettings, profile: &OrganizationProfile, site_accepted: bool) -> (r:
    Result<(), SettingsProblem>)
    ensures
        r == jira_outcome(*jira, *profile, site_accepted),
{
    if !site_accepted {
        return Err(SettingsProblem::JiraBaseUrl);
    }
    validate_email(jira.email.as_str())?;
    if jira.board_id == 0 {
        return Err(SettingsProblem::JiraBoardId);
    }
    if !profile.allows_jira_board(jira.base_url.as_str(), jira.board_id) {
        return Err(SettingsProblem::BoardOutsideScope);
    }
    if !jira_limits_are_positive(jira) {
        return Err(SettingsProblem::JiraLimitsZero);
    }
    if !jira_limits_are_within(jira, profile) {
        return Err(SettingsProblem::JiraLimitsAboveMaxima);
    }
    Ok(())
}

fn hours_are_within_profile(hours: &HoursSettings, profile: &OrganizationProfile) -> (r: bool)
    ensures
        r == hours_within_profile(*hours, *profile),
{
    match &profile.modules.jira {
        Some(jira) => jira.hours.allows_weekly_target(hours.weekly_target as u32)
            && hours.maximum_daily_hours <= jira.hours.maximum_daily_hours
            && jira.hours.allows_utc_offset(hours.utc_offset_minutes),
        None => false,
    }
}

/// Checks the hours against the fixed bounds of a day and week and against
/// the organization's profile.
pub fn validate_hours(hours: &HoursSettings, profile: &OrganizationProfile) -> (r: Result<
    (),
    SettingsProblem,
>)
    ensures
        r == hours_outcome(*hours, *profile),
{
    if hours.weekly_target == 0 || hours.weekly_target > MAX_WEEKLY_HOURS {
        return Err(SettingsProblem::WeeklyTarget);
    }
    if hours.maximum_daily_hours == 0 || (hours.maximum_daily_hours as u16) > HOURS_PER_DAY {
        return Err(SettingsProblem::MaximumDailyHours);
    }
    if (hours.default_worklog_start_hour as u16) >= HOURS_PER_DAY
        || hours.default_worklog_start_minute >= 60 {
        return Err(SettingsProblem::DefaultStart);
    }
    let offset = hours.utc_offset_minutes;
    let distance: u16 = if offset < 0 {
        (-(offset as i32)) as u16
    } else {
        offset as u16
    };
    if distance > MAX_UTC_OFFSET_MINUTES {
        return Err(SettingsProblem::UtcOffset);
    }
    if !hours_are_within_profile(hours, profile) {
        return Err(SettingsProblem::HoursOutsideProfile);
    }
    Ok(())
}

impl AppSettings {
    /// Checks the settings before they are used or saved; `site_accepted` is
    /// whether the Jira base URL parses as an HTTPS `atlassian.net` site.
    pub fn validate(&self, profile: &OrganizationProfile, site_accepted: bool) -> (r: Result<
        (),
        SettingsError,
    >)
        ensures
            r == app_settings_outcome(*self, *profile, site_accepted),
    {
        if self.schema_version != SETTINGS_SCHEMA_VERSION {
            return Err(SettingsError::Invalid(SettingsProblem::SchemaVersion));
        }
        match validate_jira(&self.jira, profile, site_accepted) {
            Err(problem) => return Err(SettingsError::Invalid(problem)),
            Ok(()) => {},
        }
        match validate_hours(&self.hours, profile) {
            Err(problem) => Err(SettingsError::Invalid(problem)),
            Ok(()) => Ok(()),
        }
    }
}

/// Moves the team reports flag that older files kept among the hours to the
/// reports section; everything else is left as it was.
pub fn migrate_legacy_reports(settings: &mut AppSettings)
    ensures
        final(settings).hours.legacy_enable_team_reports is None,
        final(settings).reports.enable_team_reports == (match old(
            settings,
        ).hours.legacy_enable_team_reports {
            Some(enabled) => enabled,
            None => old(settings).reports.enable_team_reports,
        }),
        final(settings).schema_version == old(settings).schema_version,
        final(settings).jira == old(settings).jira,
        final(settings).hours == (HoursSettings {
            legacy_enable_team_reports: None,
            ..old(settings).hours
        }),
{
    match settings.hours.legacy_enable_team_reports {
        Some(enabled) => {
            settings.reports.enable_team_reports = enabled;
            settings.hours.legacy_enable_team_reports = None;
        },
        None => {},
    }
}

/// The value, or `default` when there is none.
pub open spec fn value_or<T>(value: Option<T>, default: T) -> T {
    match value {
        Some(value) => value,
        None => default,
    }
}

/// The desktop's Jira settings read from shared ones: only a connection that
/// names its site, account and board; missing limits take the organization's.
pub open spec fn projected_jira(jira: settings::JiraSettings, limits: JiraModuleProfile) -> Option<
    JiraSettings,
> {
    match (jira.base_url, jira.email, jira.board_id) {
        (Some(base_url), Some(email), Some(board_id)) => Some(
            JiraSettings {
                base_url,
                email,
                board_id,
                request_timeout_seconds: value_or(
                    jira.request_timeout_seconds,
                    limits.request_timeout_seconds,
                ),
                page_size: value_or(jira.page_size, limits.page_size),
                maximum_collection_items: value_or(
                    jira.maximum_collection_items,
                    limits.maximum_collection_items,
                ),
                maximum_issue_search_results: value_or(
                    jira.maximum_issue_search_results,
                    limits.maximum_issue_search_results,
                ),
                maximum_concurrent_worklog_requests: value_or(
                    jira.maximum_concurrent_worklog_requests,
                    limits.maximum_concurrent_worklog_requests,
                ),
            },
        ),
        _ => None,
    }
}

/// The desktop's hours read from shared ones; what is missing takes the
/// organization's suggestion (the weekly target one must fit in `u16`).
pub open spec fn projected_hours(hours: Option<settings::HoursSettings>, limits: HoursProfile) -> HoursSettings {
    let shared = match hours {
        Some(hours) => hours,
        None => settings::HoursSettings {
            weekly_target_hours: None,
            utc_offset_minutes: None,
            maximum_daily_hours: None,
            maximum_report_period_days: None,
            default_worklog_start_hour: None,
            default_worklog_start_minute: None,
        },
    };
    HoursSettings {
        weekly_target: value_or(shared.weekly_target_hours, limits.suggested_weekly_target_hours as u16),
        utc_offset_minutes: value_or(shared.utc_offset_minutes, limits.suggested_utc_offset_minutes),
        maximum_daily_hours: value_or(shared.maximum_daily_hours, limits.maximum_daily_hours),
        maximum_report_period_days: value_or(
            shared.maximum_report_period_days,
            DEFAULT_MAXIMUM_REPORT_PERIOD_DAYS,
        ),
        default_worklog_start_hour: value_or(
            shared.default_worklog_start_hour,
            limits.default_worklog_start_hour,
        ),
        default_worklog_start_minute: value_or(
            shared.default_worklog_start_minute,
            limits.default_worklog_start_minute,
        ),
        legacy_enable_team_reports: None,
    }
}

/// Team reports are on only when the shared document turns them on.
pub open spec fn projected_team_reports(document: SettingsDocument) -> bool {
    match document.reports {
        Some(reports) => reports.enable_team_reports == Some(true),
        None => false,
    }
}

/// What reading the desktop settings from a shared document gives: nothing
/// while the document lacks a site, account or board; otherwise the projected
/// settings, if they are valid.
pub open spec fn from_shared_outcome(
    document: SettingsDocument,
    profile: OrganizationProfile,
    site_accepted: bool,
) -> Result<Option<AppSettings>, SettingsError> {
    let limits = profile.modules.jira.unwrap();
    match document.jira {
        None => Ok(None),
        Some(shared) => match projected_jira(shared, limits) {
            None => Ok(None),
            Some(jira) => if limits.hours.suggested_weekly_target_hours > u16::MAX {
                Err(SettingsError::Invalid(SettingsProblem::DefaultWeeklyTargetTooLarge))
            } else {
                let app = AppSettings {
                    schema_version: SETTINGS_SCHEMA_VERSION,
                    jira,
                    hours: projected_hours(document.hours, limits.hours),
                    reports: ReportsSettings {
                        enable_team_reports: projected_team_reports(document),
                    },
                };
                match app_settings_outcome(app, profile, site_accepted) {
                    Ok(()) => Ok(Some(app)),
                    Err(error) => Err(error),
                }
            },
        },
    }
}

fn option_or<T: Copy>(value: Option<T>, default: T) -> (r: T)
    ensures
        r == value_or(value, default),
{
    match value {
        Some(value) => value,
        None => default,
    }
}

fn project_jira(jira: &settings::JiraSettings, limits: &JiraModuleProfile) -> (r: Option<JiraSettings>)
    ensures
        r == projected_jira(*jira, *limits),
{
    let base_url = match &jira.base_url {
        Some(base_url) => base_url.clone(),
        None => return None,
    };
    let email = match &jira.email {
        Some(email) => email.clone(),
        None => return None,
    };
    let board_id = match jira.board_id {
        Some(board_id) => board_id,
        None => return None,
    };
    Some(
        JiraSettings {
            base_url,
            email,
            board_id,
            request_timeout_seconds: option_or(
                jira.request_timeout_seconds,
                limits.request_timeout_seconds,
            ),
            page_size: option_or(jira.page_size, limits.page_size),
            maximum_collection_items: option_or(
                jira.maximum_collection_items,
                limits.maximum_collection_items,
            ),
            maximum_issue_search_results: option_or(
                jira.maximum_issue_search_results,
                limits.maximum_issue_search_results,
            ),
            maximum_concurrent_worklog_requests: option_or(
                jira.maximum_concurrent_worklog_requests,
                limits.maximum_concurrent_worklog_requests,
            ),
        },
    )
}

fn project_hours(hours: &Option<settings::HoursSettings>, limits: &HoursProfile) -> (r: HoursSettings)
    requires
        limits.suggested_weekly_target_hours <= u16::MAX,
    ensures
        r == projected_hours(*hours, *limits),
{
    let suggested = limits.suggested_weekly_target_hours as u16;
    match hours {
        Some(hours) => HoursSettings {
            weekly_target: option_or(hours.weekly_target_hours, suggested),
            utc_offset_minutes: option_or(hours.utc_offset_minutes, limits.suggested_utc_offset_minutes),
            maximum_daily_hours: option_or(hours.maximum_daily_hours, limits.maximum_daily_hours),
            maximum_report_period_days: option_or(
                hours.maximum_report_period_days,
                DEFAULT_MAXIMUM_REPORT_PERIOD_DAYS,
            ),
            default_worklog_start_hour: option_or(
                hours.default_worklog_start_hour,
                limits.default_worklog_start_hour,
            ),
            default_worklog_start_minute: option_or(
                hours.default_worklog_start_minute,
                limits.default_worklog_start_minute,
            ),
            legacy_enable_team_reports: None,
        },
        None => HoursSettings {
            weekly_target: suggested,
            utc_offset_minutes: limits.suggested_utc_offset_minutes,
            maximum_daily_hours: limits.maximum_daily_hours,
            maximum_report_period_days: DEFAULT_MAXIMUM_REPORT_PERIOD_DAYS,
            default_worklog_start_hour: limits.default_worklog_start_hour,
            default_worklog_start_minute: limits.default_worklog_start_minute,
            legacy_enable_team_reports: None,
        },
    }
}

/// The shared form of the desktop's Jira settings.
pub open spec fn shared_jira(jira: JiraSettings) -> settings::JiraSettings {
    settings::JiraSettings {
        base_url: Some(jira.base_url),
        email: Some(jira.email),
        board_id: Some(jira.board_id),
        request_timeout_seconds: Some(jira.request_timeout_seconds),
        page_size: Some(jira.page_size),
        maximum_collection_items: Some(jira.maximum_collection_items),
        maximum_issue_search_results: Some(jira.maximum_issue_search_results),
        maximum_concurrent_worklog_requests: Some(jira.maximum_concurrent_worklog_requests),
    }
}

/// The shared form of the desktop's hours.
pub open spec fn shared_hours(hours: HoursSettings) -> settings::HoursSettings {
    settings::HoursSettings {
        weekly_target_hours: Some(hours.weekly_target),
        utc_offset_minutes: Some(hours.utc_offset_minutes),
        maximum_daily_hours: Some(hours.maximum_daily_hours),
        maximum_report_period_days: Some(hours.maximum_report_period_days),
        default_worklog_start_hour: Some(hours.default_worklog_start_hour),
        default_worklog_start_minute: Some(hours.default_worklog_start_minute),
    }
}

/// The shared document after the desktop writes its settings into it: its
/// Jira, hours and reports sections are the desktop's, the rest is untouched.
pub open spec fn shared_with(document: SettingsDocument, app: AppSettings) -> SettingsDocument {
    SettingsDocument {
        jira: Some(shared_jira(app.jira)),
        hours: Some(shared_hours(app.hours)),
        reports: Some(settings::ReportsSettings { enable_team_reports: Some(app.reports.enable_team_reports) }),
        ..document
    }
}

impl AppSettings {
    /// Reads the desktop settings from the shared document (see `from_shared_outcome`).
    pub fn from_shared(
        document: &SettingsDocument,
        profile: &OrganizationProfile,
        site_accepted: bool,
    ) -> (r: Result<Option<AppSettings>, SettingsError>)
        requires
            profile.modules.jira is Some,
        ensures
            r == from_shared_outcome(*document, *profile, site_accepted),
    {
        let limits = match &profile.modules.jira {
            Some(limits) => limits,
            None => return Ok(None),
        };
        let shared = match &document.jira {
            Some(shared) => shared,
            None => return Ok(None),
        };
        let jira = match project_jira(shared, limits) {
            Some(jira) => jira,
            None => return Ok(None),
        };
        if limits.hours.suggested_weekly_target_hours > 65535u32 {
            return Err(SettingsError::Invalid(SettingsProblem::DefaultWeeklyTargetTooLarge));
        }
        let enable_team_reports = match &document.reports {
            Some(reports) => match reports.enable_team_reports {
                Some(enabled) => enabled,
                None => false,
            },
            None => false,
        };
        let settings = AppSettings {
            schema_version: SETTINGS_SCHEMA_VERSION,
            jira,
            hours: project_hours(&document.hours, &limits.hours),
            reports: ReportsSettings { enable_team_reports },
        };
        settings.validate(profile, site_accepted)?;
        Ok(Some(settings))
    }

    /// Writes the desktop settings into the shared document and checks it.
    pub fn update_shared(&self, document: &mut SettingsDocument) -> (r: Result<(), SettingsError>)
        requires
            old(document).sets_well_formed(),
        ensures
            *final(document) == shared_with(*old(document), *self),
            r == (match settings_outcome(*final(document)) {
                Ok(()) => Ok(()),
                Err(error) => Err(SettingsError::Shared(error)),
            }),
    {
        document.jira = Some(
            settings::JiraSettings {
                base_url: Some(self.jira.base_url.clone()),
                email: Some(self.jira.email.clone()),
                board_id: Some(self.jira.board_id),
                request_timeout_seconds: Some(self.jira.request_timeout_seconds),
                page_size: Some(self.jira.page_size),
                maximum_collection_items: Some(self.jira.maximum_collection_items),
                maximum_issue_search_results: Some(self.jira.maximum_issue_search_results),
                maximum_concurrent_worklog_requests: Some(
                    self.jira.maximum_concurrent_worklog_requests,
                ),
            },
        );
        document.hours = Some(
            settings::HoursSettings {
                weekly_target_hours: Some(self.hours.weekly_target),
                utc_offset_minutes: Some(self.hours.utc_offset_minutes),
                maximum_daily_hours: Some(self.hours.maximum_daily_hours),
                maximum_report_period_days: Some(self.hours.maximum_report_period_days),
                default_worklog_start_hour: Some(self.hours.default_worklog_start_hour),
                default_worklog_start_minute: Some(self.hours.default_worklog_start_minute),
            },
        );
        document.reports = Some(
            settings::ReportsSettings { enable_team_reports: Some(self.reports.enable_team_reports) },
        );
        match document.validate() {
            Ok(()) => Ok(()),
            Err(error) => Err(SettingsError::Shared(error)),
        }
    }
}

} // verus!
