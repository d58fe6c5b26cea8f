//! What the setup and preferences forms accept: the numbers typed into them,
//! checked against the organization's profile, and the requests built from them.

use vstd::prelude::*;

use crate::connection::{
    ConfigurationUpdate, HoursConfiguration, JiraConfigurationUpdate,
    ReportsConfiguration,
};
use crate::messages::Message;
use crate::profile::{HoursProfile, JiraModuleProfile};
use crate::text::{chars_of, str_trim, trim};
use crate::toolkit::{all_digits, decimal_value, is_digit, lemma_decimal_value_grows, lemma_decimal_value_nonnegative, parse_i16, parse_i16_chars};

verus! {

/// The digits of an unsigned number, after an optional `+`.
pub open spec fn unsigned_digits(s: Seq<char>) -> Seq<char> {
    if s.len() > 0 && s[0] == '+' {
        s.skip(1)
    } else {
        s
    }
}

/// Rust's `from_str` for an unsigned integer type whose largest value is
/// `max`: an optional `+`, then one or more decimal digits, at most `max`.
pub open spec fn parse_unsigned(s: Seq<char>, max: int) -> Option<int> {
    let digits = unsigned_digits(s);
    if digits.len() > 0 && all_digits(digits) && decimal_value(digits) <= max {
        Some(decimal_value(digits))
    } else {
        None
    }
}

/// Reads an unsigned number no larger than `max`, as `from_str` does for the
/// integer type whose largest value is `max`.
pub fn parse_unsigned_text(value: &str, max: u64) -> (r: Option<u64>)
    ensures
        match parse_unsigned(value@, max as int) {
            Some(n) => 0 <= n <= max && r == Some(n as u64),
            None => r is None,
        },
{
    let v = chars_of(value);
    let start: usize = if v.len() > 0 && v[0] == '+' {
        1
    } else {
        0
    };
    let ghost digits = unsigned_digits(value@);
    assert(digits =~= v@.skip(start as int));
    if start == v.len() {
        return None;
    }
    let mut total: u128 = 0;
    let mut i: usize = start;
    while i < v.len()
        invariant
            start <= i <= v.len(),
            v@ == value@,
            digits == unsigned_digits(value@),
            digits == v@.skip(start as int),
            total == decimal_value(digits.take(i - start)),
            total <= max,
            all_digits(digits.take(i - start)),
        decreases v.len() - i,
    {
        let c = v[i];
        if !('0' <= c && c <= '9') {
            assert(!is_digit(digits[i - start]));
            assert(!all_digits(digits));
            return None;
        }
        let d = (c as u32 - '0' as u32) as u128;
        assert(digits.take(i + 1 - start).drop_last() =~= digits.take(i - start));
        assert(digits.take(i + 1 - start).last() == c);
        let next = total * 10 + d;
        assert(decimal_value(digits.take(i + 1 - start)) == next);
        assert(all_digits(digits.take(i + 1 - start)));
        if next > max as u128 {
            proof {
                if all_digits(digits) {
                    lemma_decimal_value_grows(digits, i + 1 - start);
                }
            }
            return None;
        }
        total = next;
        i = i + 1;
    }
    assert(digits.take(v.len() - start) =~= digits);
    proof {
        lemma_decimal_value_nonnegative(digits);
    }
    Some(total as u64)
}

/// Reads a number of at most `max` that is more than zero.
pub fn parse_positive(value: &str, max: u64) -> (r: Result<u64, Message>)
    ensures
        match parse_unsigned(value@, max as int) {
            Some(n) => 0 <= n <= max && if n > 0 {
                r == Ok::<u64, Message>(n as u64)
            } else {
                r == Err::<u64, Message>(Message::InvalidNumber)
            },
            None => r == Err::<u64, Message>(Message::InvalidNumber),
        },
{
    match parse_unsigned_text(value, max) {
        Some(n) => {
            if n == 0 {
                Err(Message::InvalidNumber)
            } else {
                Ok(n)
            }
        },
        None => Err(Message::InvalidNumber),
    }
}

/// Reads a number of at most `max`.
pub fn parse_number(value: &str, max: u64) -> (r: Result<u64, Message>)
    ensures
        match parse_unsigned(value@, max as int) {
            Some(n) => 0 <= n <= max && r == Ok::<u64, Message>(n as u64),
            None => r == Err::<u64, Message>(Message::InvalidNumber),
        },
{
    match parse_unsigned_text(value, max) {
        Some(n) => Ok(n),
        None => Err(Message::InvalidNumber),
    }
}

/// A replacement token: the trimmed text, or none when it is blank, so that
/// a blank field keeps the current credential.
pub fn replacement_token(value: &str) -> (r: Option<String>)
    ensures
        match r {
            Some(token) => trim(value@).len() > 0 && token@ == trim(value@),
            None => trim(value@).len() == 0,
        },
{
    let trimmed = str_trim(value);
    if trimmed.is_empty() {
        None
    } else {
        Some(trimmed.to_owned())
    }
}

/// The Jira fields of the preferences form.
#[derive(Clone, Debug, PartialEq, Eq)]
pub struct JiraDraft {
    pub board_id: String,
    pub request_timeout_seconds: String,
    pub page_size: String,
    pub maximum_collection_items: String,
    pub maximum_issue_search_results: String,
    pub maximum_concurrent_worklog_requests: String,
}

/// The hours fields of the preferences form.
#[derive(Clone, Debug, PartialEq, Eq)]
pub struct HoursDraft {
    pub weekly_target_hours: String,
    pub utc_offset_minutes: String,
    pub maximum_daily_hours: String,
    pub default_worklog_start_hour: String,
    pub default_worklog_start_minute: String,
}

/// The preferences form.
#[derive(Clone, Debug, PartialEq, Eq)]
pub struct ConfigurationDraft {
    pub replacement_token: String,
    pub jira: JiraDraft,
    pub hours: HoursDraft,
    pub enable_team_reports: bool,
}

/// The positive number that a field holds, or `None`.
pub open spec fn positive_field(value: Seq<char>, max: int) -> Option<int> {
    match parse_unsigned(value, max) {
        Some(n) => if n > 0 {
            Some(n)
        } else {
            None
        },
        None => None,
    }
}

/// The Jira values fit the organization's safe maxima.
pub open spec fn jira_update_within(update: JiraConfigurationUpdate, limits: JiraModuleProfile) -> bool {
    &&& update.request_timeout_seconds <= limits.maximum_allowed_request_timeout_seconds
    &&& update.page_size <= limits.maximum_allowed_page_size
    &&& update.maximum_collection_items <= limits.maximum_allowed_collection_items
    &&& update.maximum_issue_search_results <= limits.maximum_allowed_issue_search_results
    &&& update.maximum_concurrent_worklog_requests
        <= limits.maximum_allowed_concurrent_worklog_requests
}

/// What the Jira fields give: every field a positive number of its type, and
/// the values within the safe maxima.
pub open spec fn jira_draft_outcome(draft: JiraDraft, limits: JiraModuleProfile) -> Result<
    JiraConfigurationUpdate,
    Message,
> {
    match (
        positive_field(draft.board_id@, u64::MAX as int),
        positive_field(draft.request_timeout_seconds@, u64::MAX as int),
        positive_field(draft.page_size@, u16::MAX as int),
        positive_field(draft.maximum_collection_items@, usize::MAX as int),
        positive_field(draft.maximum_issue_search_results@, usize::MAX as int),
        positive_field(draft.maximum_concurrent_worklog_requests@, usize::MAX as int),
    ) {
        (Some(board), Some(timeout), Some(page), Some(collection), Some(search), Some(concurrent)) => {
            let update = JiraConfigurationUpdate {
                board_id: board as u64,
                request_timeout_seconds: timeout as u64,
                page_size: page as u16,
                maximum_collection_items: collection as usize,
                maximum_issue_search_results: search as usize,
                maximum_concurrent_worklog_requests: concurrent as usize,
            };
            if jira_update_within(update, limits) {
                Ok(update)
            } else {
                Err(Message::InvalidNumber)
            }
        },
        _ => Err(Message::InvalidNumber),
    }
}

/// Checks the Jira values against the organization's safe maxima.
pub fn validate_jira_update(update: &JiraConfigurationUpdate, limits: &JiraModuleProfile) -> (r: Result<
    (),
    Message,
>)
    ensures
        r == (if jira_update_within(*update, *limits) {
            Ok(())
        } else {
            Err(Message::InvalidNumber)
        }),
{
    if update.request_timeout_seconds <= limits.maximum_allowed_request_timeout_seconds
        && update.page_size <= limits.maximum_allowed_page_size && update.maximum_collection_items
        <= limits.maximum_allowed_collection_items && update.maximum_issue_search_results
        <= limits.maximum_allowed_issue_search_results
        && update.maximum_concurrent_worklog_requests
        <= limits.maximum_allowed_concurrent_worklog_requests {
        Ok(())
    } else {
        Err(Message::InvalidNumber)
    }
}

/// Reads the Jira fields of the preferences form.
pub fn parse_jira(draft: &JiraDraft, limits: &JiraModuleProfile) -> (r: Result<JiraConfigurationUpdate, Message>)
    ensures
        r == jira_draft_outcome(*draft, *limits),
{
    let board_id = parse_positive(draft.board_id.as_str(), u64::MAX)?;
    let request_timeout_seconds = parse_positive(draft.request_timeout_seconds.as_str(), u64::MAX)?;
    let page_size = parse_positive(draft.page_size.as_str(), 65535)?;
    let maximum_collection_items = parse_positive(
        draft.maximum_collection_items.as_str(),
        usize::MAX as u64,
    )?;
    let maximum_issue_search_results = parse_positive(
        draft.maximum_issue_search_results.as_str(),
        usize::MAX as u64,
    )?;
    let maximum_concurrent_worklog_requests = parse_positive(
        draft.maximum_concurrent_worklog_requests.as_str(),
        usize::MAX as u64,
    )?;
    let update = JiraConfigurationUpdate {
        board_id,
        request_timeout_seconds,
        page_size: page_size as u16,
        maximum_collection_items: maximum_collection_items as usize,
        maximum_issue_search_results: maximum_issue_search_results as usize,
        maximum_concurrent_worklog_requests: maximum_concurrent_worklog_requests as usize,
    };
    validate_jira_update(&update, limits)?;
    Ok(update)
}

/// The offset a field holds when it is a number and one of the organization's options.
pub open spec fn offset_outcome(value: Seq<char>, hours: HoursProfile) -> Result<i16, Message> {
    match parse_i16(value) {
        Some(offset) => if hours.spec_allows_utc_offset(offset) {
            Ok(offset)
        } else {
            Err(Message::SetupTimeZone)
        },
        None => Err(Message::InvalidNumber),
    }
}

/// Reads the time zone field: a number of minutes that the organization offers.
pub fn parse_offset(value: &str, hours: &HoursProfile) -> (r: Result<i16, Message>)
    ensures
        r == offset_outcome(value@, *hours),
{
    let v = chars_of(value);
    let parsed = parse_i16_chars(&v, 0, v.len());
    assert(v@.subrange(0, v@.len() as int) =~= value@);
    match parsed {
        Some(offset) => {
            if hours.allows_utc_offset(offset) {
                Ok(offset)
            } else {
                Err(Message::SetupTimeZone)
            }
        },
        None => Err(Message::InvalidNumber),
    }
}

/// The hours fit the organization's profile and a clock.
pub open spec fn hours_update_within(update: HoursConfiguration, hours: HoursProfile) -> bool {
    &&& hours.spec_allows_weekly_target(update.weekly_target_hours as u32)
    &&& update.maximum_daily_hours <= hours.maximum_daily_hours
    &&& update.default_worklog_start_hour <= 23
    &&& update.default_worklog_start_minute <= 59
}

/// What the hours fields give.
pub open spec fn hours_draft_outcome(draft: HoursDraft, hours: HoursProfile) -> Result<
    HoursConfiguration,
    Message,
> {
    match positive_field(draft.weekly_target_hours@, u16::MAX as int) {
        None => Err(Message::InvalidNumber),
        Some(target) => match offset_outcome(draft.utc_offset_minutes@, hours) {
            Err(error) => Err(error),
            Ok(offset) => match (
                positive_field(draft.maximum_daily_hours@, u8::MAX as int),
                parse_unsigned(draft.default_worklog_start_hour@, u8::MAX as int),
                parse_unsigned(draft.default_worklog_start_minute@, u8::MAX as int),
            ) {
                (Some(daily), Some(hour), Some(minute)) => {
                    let update = HoursConfiguration {
                        weekly_target_hours: target as u16,
                        utc_offset_minutes: offset,
                        maximum_daily_hours: daily as u8,
                        default_worklog_start_hour: hour as u8,
                        default_worklog_start_minute: minute as u8,
                    };
                    if hours_update_within(update, hours) {
                        Ok(update)
                    } else {
                        Err(Message::InvalidNumber)
                    }
                },
                _ => Err(Message::InvalidNumber),
            },
        },
    }
}

/// Checks the hours against the organization's profile and a clock.
pub fn validate_hours_update(update: &HoursConfiguration, hours: &HoursProfile) -> (r: Result<(), Message>)
    ensures
        r == (if hours_update_within(*update, *hours) {
            Ok(())
        } else {
            Err(Message::InvalidNumber)
        }),
{
    if hours.allows_weekly_target(update.weekly_target_hours as u32) && update.maximum_daily_hours
        <= hours.maximum_daily_hours && update.default_worklog_start_hour <= 23
        && update.default_worklog_start_minute <= 59 {
        Ok(())
    } else {
        Err(Message::InvalidNumber)
    }
}

/// Reads the hours fields of the preferences form.
pub fn parse_hours(draft: &HoursDraft, hours: &HoursProfile) -> (r: Result<HoursConfiguration, Message>)
    ensures
        r == hours_draft_outcome(*draft, *hours),
{
    let weekly_target_hours = parse_positive(draft.weekly_target_hours.as_str(), 65535)?;
    let utc_offset_minutes = parse_offset(draft.utc_offset_minutes.as_str(), hours)?;
    let maximum_daily_hours = parse_positive(draft.maximum_daily_hours.as_str(), 255)?;
    let default_worklog_start_hour = parse_number(draft.default_worklog_start_hour.as_str(), 255)?;
    let default_worklog_start_minute = parse_number(draft.default_worklog_start_minute.as_str(), 255)?;
    let update = HoursConfiguration {
        weekly_target_hours: weekly_target_hours as u16,
        utc_offset_minutes,
        maximum_daily_hours: maximum_daily_hours as u8,
        default_worklog_start_hour: default_worklog_start_hour as u8,
        default_worklog_start_minute: default_worklog_start_minute as u8,
    };
    validate_hours_update(&update, hours)?;
    Ok(update)
}

/// Reads the preferences form: the token field only replaces the credential
/// when it is not blank; then the Jira fields, then the hours fields.
pub fn parse_configuration(draft: &ConfigurationDraft, limits: &JiraModuleProfile) -> (r: Result<
    ConfigurationUpdate,
    Message,
>)
    ensures
        match (jira_draft_outcome(draft.jira, *limits), hours_draft_outcome(draft.hours, limits.hours)) {
            (Ok(jira), Ok(hours)) => r matches Ok(update) && update.jira == jira && update.hours == hours
                && update.reports.enable_team_reports == draft.enable_team_reports && match update.replacement_token {
                Some(token) => trim(draft.replacement_token@).len() > 0 && token@ == trim(draft.replacement_token@),
                None => trim(draft.replacement_token@).len() == 0,
            },
            (Err(error), _) => r == Err::<ConfigurationUpdate, Message>(error),
            (Ok(_), Err(error)) => r == Err::<ConfigurationUpdate, Message>(error),
        },
{
    let token = replacement_token(draft.replacement_token.as_str());
    let jira = parse_jira(&draft.jira, limits)?;
    let hours = parse_hours(&draft.hours, &limits.hours)?;
    Ok(
        ConfigurationUpdate {
            replacement_token: token,
            jira,
            hours,
            reports: ReportsConfiguration { enable_team_reports: draft.enable_team_reports },
        },
    )
}

} // verus!
