//! The decisions around a Jira connection: what a request holds, how an update
//! changes it, and the checks made before Jira is contacted.

use vstd::prelude::*;
use vstd::string::StringExecFns;

use crate::desktop_settings::{AppSettings, HoursSettings, JiraSettings, ReportsSettings, SETTINGS_SCHEMA_VERSION};
use crate::messages::Message;
use crate::settings::DEFAULT_MAXIMUM_REPORT_PERIOD_DAYS;
use crate::profile::OrganizationProfile;

verus! {

/// Everything needed to connect to Jira on a person's behalf.
#[derive(Clone, Debug, PartialEq, Eq)]
pub struct ConnectionRequest {
    pub site: String,
    pub email: String,
    pub token: String,
    pub board_id: u64,
    pub weekly_target_hours: u32,
    pub utc_offset_minutes: i16,
    pub request_timeout_seconds: u64,
    pub page_size: u16,
    pub maximum_collection_items: usize,
    pub maximum_issue_search_results: usize,
    pub maximum_concurrent_worklog_requests: usize,
    pub maximum_daily_hours: u8,
    pub default_worklog_start_hour: u8,
    pub default_worklog_start_minute: u8,
    pub enable_team_reports: bool,
}

/// The configuration shown for a connection (without the token).
#[derive(Clone, Debug, PartialEq, Eq)]
pub struct ConnectionConfiguration {
    pub jira: JiraConfiguration,
    pub hours: HoursConfiguration,
    pub reports: ReportsConfiguration,
}

/// The Jira part of a connection's configuration.
#[derive(Clone, Debug, PartialEq, Eq)]
pub struct JiraConfiguration {
    pub site: String,
    pub email: String,
    pub board_id: u64,
    pub request_timeout_seconds: u64,
    pub page_size: u16,
    pub maximum_collection_items: usize,
    pub maximum_issue_search_results: usize,
    pub maximum_concurrent_worklog_requests: usize,
}

/// The hours part of a connection's configuration.
#[derive(Clone, Copy, Debug, PartialEq, Eq, Structural)]
pub struct HoursConfiguration {
    pub weekly_target_hours: u16,
    pub utc_offset_minutes: i16,
    pub maximum_daily_hours: u8,
    pub default_worklog_start_hour: u8,
    pub default_worklog_start_minute: u8,
}

/// The reports part of a connection's configuration.
#[derive(Clone, Copy, Debug, PartialEq, Eq, Structural)]
pub struct ReportsConfiguration {
    pub enable_team_reports: bool,
}

/// A change of configuration; the token is replaced only when one is given.
#[derive(Clone, Debug, PartialEq, Eq)]
pub struct ConfigurationUpdate {
    pub replacement_token: Option<String>,
    pub jira: JiraConfigurationUpdate,
    pub hours: HoursConfiguration,
    pub reports: ReportsConfiguration,
}

/// The Jira values a configuration change may set.
#[derive(Clone, Copy, Debug, PartialEq, Eq, Structural)]
pub struct JiraConfigurationUpdate {
    pub board_id: u64,
    pub request_timeout_seconds: u64,
    pub page_size: u16,
    pub maximum_collection_items: usize,
    pub maximum_issue_search_results: usize,
    pub maximum_concurrent_worklog_requests: usize,
}

/// `after` is `before` with the update applied: the site and e-mail stay, the
/// token is replaced when the update brings one, and every other value is the update's.
pub open spec fn configuration_applied(
    before: ConnectionRequest,
    update: ConfigurationUpdate,
    after: ConnectionRequest,
) -> bool {
    &&& after.site == before.site
    &&& after.email == before.email
    &&& after.token == (match update.replacement_token {
        Some(token) => token,
        None => before.token,
    })
    &&& after.board_id == update.jira.board_id
    &&& after.weekly_target_hours == update.hours.weekly_target_hours as u32
    &&& after.utc_offset_minutes == update.hours.utc_offset_minutes
    &&& after.request_timeout_seconds == update.jira.request_timeout_seconds
    &&& after.page_size == update.jira.page_size
    &&& after.maximum_collection_items == update.jira.maximum_collection_items
    &&& after.maximum_issue_search_results == update.jira.maximum_issue_search_results
    &&& after.maximum_concurrent_worklog_requests
        == update.jira.maximum_concurrent_worklog_requests
    &&& after.maximum_daily_hours == update.hours.maximum_daily_hours
    &&& after.default_worklog_start_hour == update.hours.default_worklog_start_hour
    &&& after.default_worklog_start_minute == update.hours.default_worklog_start_minute
    &&& after.enable_team_reports == update.reports.enable_team_reports
}

/// Applies a configuration change to a request.
pub fn apply_configuration(request: &mut ConnectionRequest, update: ConfigurationUpdate)
    ensures
        configuration_applied(*old(request), update, *final(request)),
{
    match update.replacement_token {
        Some(token) => {
            request.token = token;
        },
        None => {},
    }
    request.board_id = update.jira.board_id;
    request.weekly_target_hours = update.hours.weekly_target_hours as u32;
    request.utc_offset_minutes = update.hours.utc_offset_minutes;
    request.request_timeout_seconds = update.jira.request_timeout_seconds;
    request.page_size = update.jira.page_size;
    request.maximum_collection_items = update.jira.maximum_collection_items;
    request.maximum_issue_search_results = update.jira.maximum_issue_search_results;
    request.maximum_concurrent_worklog_requests = update.jira.maximum_concurrent_worklog_requests;
    request.maximum_daily_hours = update.hours.maximum_daily_hours;
    request.default_worklog_start_hour = update.hours.default_worklog_start_hour;
    request.default_worklog_start_minute = update.hours.default_worklog_start_minute;
    request.enable_team_reports = update.reports.enable_team_reports;
}

/// The hours configuration of a request; the weekly target must fit in `u16`.
pub fn hours_configuration(request: &ConnectionRequest) -> (r: Result<HoursConfiguration, Message>)
    ensures
        request.weekly_target_hours > u16::MAX ==> r == Err::<HoursConfiguration, Message>(
            Message::TargetDoesNotFit,
        ),
        request.weekly_target_hours <= u16::MAX ==> r == Ok::<HoursConfiguration, Message>(
            HoursConfiguration {
                weekly_target_hours: request.weekly_target_hours as u16,
                utc_offset_minutes: request.utc_offset_minutes,
                maximum_daily_hours: request.maximum_daily_hours,
                default_worklog_start_hour: request.default_worklog_start_hour,
                default_worklog_start_minute: request.default_worklog_start_minute,
            },
        ),
{
    if request.weekly_target_hours > 65535u32 {
        return Err(Message::TargetDoesNotFit);
    }
    Ok(
        HoursConfiguration {
            weekly_target_hours: request.weekly_target_hours as u16,
            utc_offset_minutes: request.utc_offset_minutes,
            maximum_daily_hours: request.maximum_daily_hours,
            default_worklog_start_hour: request.default_worklog_start_hour,
            default_worklog_start_minute: request.default_worklog_start_minute,
        },
    )
}

/// The configuration of a request: its Jira values, hours and reports.
pub fn configuration_from(request: &ConnectionRequest) -> (r: Result<ConnectionConfiguration, Message>)
    ensures
        request.weekly_target_hours > u16::MAX ==> r is Err && r->Err_0 == Message::TargetDoesNotFit,
        request.weekly_target_hours <= u16::MAX ==> (r matches Ok(configuration) && {
            &&& configuration.jira.site == request.site
            &&& configuration.jira.email == request.email
            &&& configuration.jira.board_id == request.board_id
            &&& configuration.jira.request_timeout_seconds == request.request_timeout_seconds
            &&& configuration.jira.page_size == request.page_size
            &&& configuration.jira.maximum_collection_items == request.maximum_collection_items
            &&& configuration.jira.maximum_issue_search_results
                == request.maximum_issue_search_results
            &&& configuration.jira.maximum_concurrent_worklog_requests
                == request.maximum_concurrent_worklog_requests
            &&& configuration.hours.weekly_target_hours == request.weekly_target_hours
            &&& configuration.hours.utc_offset_minutes == request.utc_offset_minutes
            &&& configuration.hours.maximum_daily_hours == request.maximum_daily_hours
            &&& configuration.hours.default_worklog_start_hour
                == request.default_worklog_start_hour
            &&& configuration.hours.default_worklog_start_minute
                == request.default_worklog_start_minute
            &&& configuration.reports.enable_team_reports == request.enable_team_reports
        }),
{
    let hours = hours_configuration(request)?;
    Ok(
        ConnectionConfiguration {
            jira: JiraConfiguration {
                site: request.site.clone(),
                email: request.email.clone(),
                board_id: request.board_id,
                request_timeout_seconds: request.request_timeout_seconds,
                page_size: request.page_size,
                maximum_collection_items: request.maximum_collection_items,
                maximum_issue_search_results: request.maximum_issue_search_results,
                maximum_concurrent_worklog_requests: request.maximum_concurrent_worklog_requests,
            },
            hours,
            reports: ReportsConfiguration { enable_team_reports: request.enable_team_reports },
        },
    )
}

/// An issue outside the configured board may not be changed.
pub fn validate_issue_membership(allowed: bool) -> (r: Result<(), Message>)
    ensures
        r == (if allowed {
            Ok(())
        } else {
            Err(Message::BoardOutsideScope)
        }),
{
    if allowed {
        Ok(())
    } else {
        Err(Message::BoardOutsideScope)
    }
}

/// The organization profile allows the Jira site.
pub open spec fn profile_allows_site(profile: OrganizationProfile, site_url: Seq<char>) -> bool {
    profile.modules.jira matches Some(jira) && jira.spec_allows_site(site_url)
}

/// The site is within the organization's Jira scope.
pub fn validate_organization_site(profile: &OrganizationProfile, site_url: &str) -> (r: Result<
    (),
    Message,
>)
    ensures
        r == (if profile_allows_site(*profile, site_url@) {
            Ok(())
        } else {
            Err(Message::BoardOutsideScope)
        }),
{
    let allowed = match &profile.modules.jira {
        Some(jira) => jira.allows_site(site_url),
        None => false,
    };
    if allowed {
        Ok(())
    } else {
        Err(Message::BoardOutsideScope)
    }
}

/// The request's board is within the organization's Jira scope.
pub fn validate_organization_request(profile: &OrganizationProfile, request: &ConnectionRequest) -> (r:
    Result<(), Message>)
    ensures
        r == (if profile.spec_allows_jira_board(request.site@, request.board_id) {
            Ok(())
        } else {
            Err(Message::BoardOutsideScope)
        }),
{
    if profile.allows_jira_board(request.site.as_str(), request.board_id) {
        Ok(())
    } else {
        Err(Message::BoardOutsideScope)
    }
}

/// Whether the organization's policy lets an account with these project
/// permissions open team reports; never when the profile has no Reports module.
pub fn team_report_permission_granted(
    profile: &OrganizationProfile,
    browse_projects: bool,
    administer_projects: bool,
) -> (granted: bool)
    ensures
        granted == (match profile.modules.reports {
            Some(reports) => match reports.team_report_access_policy {
                crate::profile::TeamReportAccessPolicy::ProjectAdmin => administer_projects,
                crate::profile::TeamReportAccessPolicy::BrowseProject => browse_projects,
            },
            None => false,
        }),
{
    match &profile.modules.reports {
        Some(reports) => reports.team_report_access_policy.allows(browse_projects, administer_projects),
        None => false,
    }
}

/// A worklog may not be longer than the daily maximum.
pub fn validate_daily_duration(minutes: u32, maximum_hours: u8) -> (r: Result<(), Message>)
    ensures
        r == (if minutes > maximum_hours * 60 {
            Err(Message::ExceedsDailyMaximum)
        } else {
            Ok(())
        }),
{
    let maximum_minutes = (maximum_hours as u32) * 60;
    if minutes > maximum_minutes {
        return Err(Message::ExceedsDailyMaximum);
    }
    Ok(())
}

/// The duration of a worklog of `minutes` minutes, in seconds.
pub fn worklog_seconds(minutes: u32) -> (r: Result<u32, Message>)
    ensures
        r == (if minutes * 60 > u32::MAX {
            Err(Message::DurationTooLarge)
        } else {
            Ok((minutes * 60) as u32)
        }),
{
    match minutes.checked_mul(60) {
        Some(seconds) => Ok(seconds),
        None => Err(Message::DurationTooLarge),
    }
}

/// The weekly target of `hours` hours, in minutes.
pub fn weekly_target_minutes(hours: u32) -> (r: Result<u32, Message>)
    ensures
        r == (if hours * 60 > u32::MAX {
            Err(Message::TargetTooLarge)
        } else {
            Ok((hours * 60) as u32)
        }),
{
    match hours.checked_mul(60) {
        Some(minutes) => Ok(minutes),
        None => Err(Message::TargetTooLarge),
    }
}

/// A date after today (Julian day numbers) is rejected before Jira is contacted.
pub fn ensure_not_future(date: i32, today: i32) -> (r: Result<(), Message>)
    ensures
        r == (if date > today {
            Err(Message::FutureDate)
        } else {
            Ok(())
        }),
{
    if date > today {
        return Err(Message::FutureDate);
    }
    Ok(())
}

/// The two results of undoing a disconnect, joined: both errors are kept, joined by `; `.
pub fn combine_disconnect_results(token: Result<(), String>, settings: Result<(), String>) -> (r:
    Result<(), String>)
    ensures
        match (token, settings) {
            (Ok(()), Ok(())) => r is Ok,
            (Err(error), Ok(())) => r matches Err(message) && message@ == error@,
            (Ok(()), Err(error)) => r matches Err(message) && message@ == error@,
            (Err(first), Err(second)) => r matches Err(message) && message@ == first@ + "; "@
                + second@,
        },
{
    match (token, settings) {
        (Ok(()), Ok(())) => Ok(()),
        (Err(error), Ok(())) => Err(error),
        (Ok(()), Err(error)) => Err(error),
        (Err(token_error), Err(settings_error)) => Err(
            token_error.concat("; ").concat(settings_error.as_str()),
        ),
    }
}

/// The error of a failed disconnect, followed by that of a failed rollback.
pub fn disconnect_error(error: String, rollback: Result<(), String>) -> (message: String)
    ensures
        match rollback {
            Ok(()) => message@ == error@,
            Err(rollback_error) => message@ == error@ + "; "@ + rollback_error@,
        },
{
    match rollback {
        Ok(()) => error,
        Err(rollback_error) => error.concat("; ").concat(rollback_error.as_str()),
    }
}


/// The desktop settings saved for a request (everything but its token).
pub open spec fn spec_settings_from(request: ConnectionRequest) -> AppSettings {
    AppSettings {
        schema_version: SETTINGS_SCHEMA_VERSION,
        jira: JiraSettings {
            base_url: request.site,
            email: request.email,
            board_id: request.board_id,
            request_timeout_seconds: request.request_timeout_seconds,
            page_size: request.page_size,
            maximum_collection_items: request.maximum_collection_items,
            maximum_issue_search_results: request.maximum_issue_search_results,
            maximum_concurrent_worklog_requests: request.maximum_concurrent_worklog_requests,
        },
        hours: HoursSettings {
            weekly_target: request.weekly_target_hours as u16,
            utc_offset_minutes: request.utc_offset_minutes,
            maximum_daily_hours: request.maximum_daily_hours,
            maximum_report_period_days: DEFAULT_MAXIMUM_REPORT_PERIOD_DAYS,
            default_worklog_start_hour: request.default_worklog_start_hour,
            default_worklog_start_minute: request.default_worklog_start_minute,
            legacy_enable_team_reports: None,
        },
        reports: ReportsSettings { enable_team_reports: request.enable_team_reports },
    }
}

/// The request made of saved settings and the stored token.
pub open spec fn spec_request_from(settings: AppSettings, token: String) -> ConnectionRequest {
    ConnectionRequest {
        site: settings.jira.base_url,
        email: settings.jira.email,
        token,
        board_id: settings.jira.board_id,
        weekly_target_hours: settings.hours.weekly_target as u32,
        utc_offset_minutes: settings.hours.utc_offset_minutes,
        request_timeout_seconds: settings.jira.request_timeout_seconds,
        page_size: settings.jira.page_size,
        maximum_collection_items: settings.jira.maximum_collection_items,
        maximum_issue_search_results: settings.jira.maximum_issue_search_results,
        maximum_concurrent_worklog_requests: settings.jira.maximum_concurrent_worklog_requests,
        maximum_daily_hours: settings.hours.maximum_daily_hours,
        default_worklog_start_hour: settings.hours.default_worklog_start_hour,
        default_worklog_start_minute: settings.hours.default_worklog_start_minute,
        enable_team_reports: settings.reports.enable_team_reports,
    }
}

/// The settings to save for a request; its weekly target must fit in `u16`.
pub fn settings_from(request: &ConnectionRequest) -> (r: Result<AppSettings, Message>)
    ensures
        r == (if request.weekly_target_hours > u16::MAX {
            Err(Message::TargetDoesNotFit)
        } else {
            Ok(spec_settings_from(*request))
        }),
{
    if request.weekly_target_hours > 65535u32 {
        return Err(Message::TargetDoesNotFit);
    }
    Ok(
        AppSettings {
            schema_version: SETTINGS_SCHEMA_VERSION,
            jira: JiraSettings {
                base_url: request.site.clone(),
                email: request.email.clone(),
                board_id: request.board_id,
                request_timeout_seconds: request.request_timeout_seconds,
                page_size: request.page_size,
                maximum_collection_items: request.maximum_collection_items,
                maximum_issue_search_results: request.maximum_issue_search_results,
                maximum_concurrent_worklog_requests: request.maximum_concurrent_worklog_requests,
            },
            hours: HoursSettings {
                weekly_target: request.weekly_target_hours as u16,
                utc_offset_minutes: request.utc_offset_minutes,
                maximum_daily_hours: request.maximum_daily_hours,
                maximum_report_period_days: DEFAULT_MAXIMUM_REPORT_PERIOD_DAYS,
                default_worklog_start_hour: request.default_worklog_start_hour,
                default_worklog_start_minute: request.default_worklog_start_minute,
                legacy_enable_team_reports: None,
            },
            reports: ReportsSettings { enable_team_reports: request.enable_team_reports },
        },
    )
}

/// The request made of saved settings and the stored token.
pub fn request_from(settings: AppSettings, token: String) -> (r: ConnectionRequest)
    ensures
        r == spec_request_from(settings, token),
{
    ConnectionRequest {
        site: settings.jira.base_url,
        email: settings.jira.email,
        token,
        board_id: settings.jira.board_id,
        weekly_target_hours: settings.hours.weekly_target as u32,
        utc_offset_minutes: settings.hours.utc_offset_minutes,
        request_timeout_seconds: settings.jira.request_timeout_seconds,
        page_size: settings.jira.page_size,
        maximum_collection_items: settings.jira.maximum_collection_items,
        maximum_issue_search_results: settings.jira.maximum_issue_search_results,
        maximum_concurrent_worklog_requests: settings.jira.maximum_concurrent_worklog_requests,
        maximum_daily_hours: settings.hours.maximum_daily_hours,
        default_worklog_start_hour: settings.hours.default_worklog_start_hour,
        default_worklog_start_minute: settings.hours.default_worklog_start_minute,
        enable_team_reports: settings.reports.enable_team_reports,
    }
}

/// The largest distance from UTC that a time zone offset may have, in seconds
/// (25:59:59, the range of the `time` crate's `UtcOffset`).
pub const MAXIMUM_OFFSET_SECONDS: i32 = 93599;

/// The request's time zone offset in seconds; it must be a valid offset.
pub fn utc_offset_seconds(minutes: i16) -> (r: Result<i32, Message>)
    ensures
        r == (if minutes * 60 > MAXIMUM_OFFSET_SECONDS || minutes * 60 < -MAXIMUM_OFFSET_SECONDS {
            Err(Message::InvalidTimeZone)
        } else {
            Ok((minutes * 60) as i32)
        }),
{
    let seconds = (minutes as i32) * 60;
    if seconds > MAXIMUM_OFFSET_SECONDS || seconds < -MAXIMUM_OFFSET_SECONDS {
        return Err(Message::InvalidTimeZone);
    }
    Ok(seconds)
}

/// Saving a request's settings and reading them back with its token gives the
/// same request.
pub proof fn lemma_saved_request_round_trip(request: ConnectionRequest)
    requires
        request.weekly_target_hours <= u16::MAX,
    ensures
        spec_request_from(spec_settings_from(request), request.token) == request,
{
}
/// What a worklog change reports once Jira committed it: the refreshed session,
/// or, when refreshing failed, that the change was saved all the same.
#[derive(Clone, Debug, PartialEq, Eq)]
pub enum WorklogMutationOutcome<S> {
    Refreshed(S),
    CommittedWithoutRefresh(String),
}

/// The outcome of a committed worklog change after the refresh that followed
/// it: a failed refresh still reports the change as saved, with the words
/// `committed_refresh_failed`, a space and the refresh's error.
pub fn committed_refresh_result<S>(refresh: Result<S, String>, committed_refresh_failed: &str) -> (r:
    WorklogMutationOutcome<S>)
    ensures
        match refresh {
            Ok(session) => r == WorklogMutationOutcome::Refreshed(session),
            Err(error) => r matches WorklogMutationOutcome::CommittedWithoutRefresh(message)
                && message@ == committed_refresh_failed@ + seq![' '] + error@,
        },
{
    match refresh {
        Ok(session) => WorklogMutationOutcome::Refreshed(session),
        Err(error) => {
            proof {
                reveal_strlit(" ");
            }
            let mut message = committed_refresh_failed.to_owned();
            message.append(" ");
            message.append(error.as_str());
            WorklogMutationOutcome::CommittedWithoutRefresh(message)
        },
    }
}

} // verus!
