//! The development toolkit configuration: its time zone notation and the
//! connection request built from it.

use vstd::prelude::*;

use crate::connection::ConnectionRequest;
use crate::messages::Message;
use crate::profile::JiraModuleProfile;
use crate::text::chars_of;

verus! {

/// The value of a decimal digit character.
pub open spec fn digit_value(c: char) -> int {
    c as int - '0' as int
}

/// A character `0` to `9`.
pub open spec fn is_digit(c: char) -> bool {
    '0' <= c && c <= '9'
}

/// The number that a non-empty run of decimal digits denotes.
pub open spec fn decimal_value(digits: Seq<char>) -> int
    decreases digits.len(),
{
    if digits.len() == 0 {
        0
    } else {
        decimal_value(digits.drop_last()) * 10 + digit_value(digits.last())
    }
}

/// Every character is a decimal digit.
pub open spec fn all_digits(digits: Seq<char>) -> bool {
    forall|i: int| 0 <= i < digits.len() ==> is_digit(#[trigger] digits[i])
}

/// The text without its leading `+` or `-`, if it has one.
pub open spec fn unsigned_part(s: Seq<char>) -> Seq<char> {
    if s.len() > 0 && (s[0] == '-' || s[0] == '+') {
        s.skip(1)
    } else {
        s
    }
}

/// The text starts with `-`.
pub open spec fn is_negative(s: Seq<char>) -> bool {
    s.len() > 0 && s[0] == '-'
}

/// The number the text denotes when it is read as a signed decimal.
pub open spec fn signed_value(s: Seq<char>) -> int {
    if is_negative(s) {
        -decimal_value(unsigned_part(s))
    } else {
        decimal_value(unsigned_part(s))
    }
}

/// Rust's `i16::from_str`: an optional `+` or `-`, then one or more decimal
/// digits, denoting a value within the range of `i16`.
pub open spec fn parse_i16(s: Seq<char>) -> Option<i16> {
    if unsigned_part(s).len() > 0 && all_digits(unsigned_part(s)) && i16::MIN <= signed_value(s)
        <= i16::MAX {
        Some(signed_value(s) as i16)
    } else {
        None
    }
}

/// A toolkit time zone such as `-0300`: a sign, two characters of hours and the
/// rest for minutes, each read as an `i16`, combined as `sign * (hours * 60 + minutes)`
/// when every step fits in `i16`. Only ASCII text can be split at those positions and read.
pub open spec fn toolkit_offset(s: Seq<char>) -> Option<i16> {
    if s.len() < 3 || !(forall|i: int| 0 <= i < s.len() ==> (#[trigger] s[i]) as u32 <= 127) {
        None
    } else if !(s[0] == '+' || s[0] == '-') {
        None
    } else {
        let sign: int = if s[0] == '-' {
            -1
        } else {
            1
        };
        match (parse_i16(s.subrange(1, 3)), parse_i16(s.skip(3))) {
            (Some(hours), Some(minutes)) => {
                let scaled = hours * 60;
                let total = scaled + minutes;
                if i16::MIN <= scaled <= i16::MAX && i16::MIN <= total <= i16::MAX && i16::MIN <= total
                    * sign <= i16::MAX {
                    Some((total * sign) as i16)
                } else {
                    None
                }
            },
            _ => None,
        }
    }
}

pub proof fn lemma_decimal_value_nonnegative(digits: Seq<char>)
    requires
        forall|i: int| 0 <= i < digits.len() ==> is_digit(#[trigger] digits[i]),
    ensures
        decimal_value(digits) >= 0,
    decreases digits.len(),
{
    if digits.len() > 0 {
        lemma_decimal_value_nonnegative(digits.drop_last());
    }
}

pub proof fn lemma_decimal_value_grows(digits: Seq<char>, n: int)
    requires
        0 <= n <= digits.len(),
        forall|i: int| 0 <= i < digits.len() ==> is_digit(#[trigger] digits[i]),
    ensures
        decimal_value(digits.take(n)) <= decimal_value(digits),
    decreases digits.len() - n,
{
    if n < digits.len() {
        lemma_decimal_value_grows(digits, n + 1);
        assert(digits.take(n + 1).drop_last() =~= digits.take(n));
        lemma_decimal_value_nonnegative(digits.take(n));
    } else {
        assert(digits.take(n) =~= digits);
    }
}

/// Reads the characters `v[from..to]` as an `i16`, as `i16::from_str` does.
pub(crate) fn parse_i16_chars(v: &Vec<char>, from: usize, to: usize) -> (r: Option<i16>)
    requires
        from <= to <= v.len(),
    ensures
        r == parse_i16(v@.subrange(from as int, to as int)),
{
    let ghost s = v@.subrange(from as int, to as int);
    let mut start = from;
    let mut negative = false;
    if from < to && (v[from] == '-' || v[from] == '+') {
        negative = v[from] == '-';
        start = from + 1;
    }
    let ghost digits = v@.subrange(start as int, to as int);
    assert(digits =~= unsigned_part(s));
    if start == to {
        return None;
    }
    let mut magnitude: u32 = 0;
    let mut i = start;
    while i < to
        invariant
            start <= i <= to <= v.len(),
            from <= start,
            s == v@.subrange(from as int, to as int),
            negative == is_negative(s),
            digits == unsigned_part(s),
            digits == v@.subrange(start as int, to as int),
            forall|k: int| start <= k < i ==> is_digit(#[trigger] v@[k]),
            magnitude == decimal_value(v@.subrange(start as int, i as int)),
            magnitude <= 32768,
        decreases to - i,
    {
        let c = v[i];
        if !('0' <= c && c <= '9') {
            assert(!is_digit(digits[i - start]));
            assert(!all_digits(digits));
            return None;
        }
        assert(v@.subrange(start as int, i + 1).drop_last() =~= v@.subrange(start as int, i as int));
        let next = magnitude * 10 + (c as u32 - '0' as u32);
        assert(decimal_value(v@.subrange(start as int, i + 1)) == next);
        if next > 32768 {
            proof {
                if all_digits(digits) {
                    assert(digits.take(i + 1 - start) =~= v@.subrange(start as int, i + 1));
                    lemma_decimal_value_grows(digits, i + 1 - start);
                    assert(decimal_value(digits) > 32768);
                }
            }
            return None;
        }
        magnitude = next;
        i = i + 1;
    }
    assert forall|k: int| 0 <= k < digits.len() implies is_digit(#[trigger] digits[k]) by {
        assert(digits[k] == v@[start + k]);
    }
    assert(digits =~= v@.subrange(start as int, i as int));
    if negative {
        Some(-(magnitude as i32) as i16)
    } else if magnitude <= 32767 {
        Some(magnitude as i16)
    } else {
        None
    }
}

/// Parses a toolkit time zone such as `-0300` or `+0530` into minutes east of UTC.
pub fn parse_utc_offset(value: &str) -> (r: Result<i16, Message>)
    ensures
        r == (match toolkit_offset(value@) {
            Some(minutes) => Ok(minutes),
            None => Err(Message::TimeZoneInvalid),
        }),
{
    let v = chars_of(value);
    if v.len() < 3 {
        return Err(Message::TimeZoneInvalid);
    }
    let mut i: usize = 0;
    while i < v.len()
        invariant
            i <= v.len(),
            v@ == value@,
            v.len() >= 3,
            forall|k: int| 0 <= k < i ==> (#[trigger] v@[k]) as u32 <= 127,
        decreases v.len() - i,
    {
        if (v[i] as u32) > 127 {
            assert(!((value@[i as int]) as u32 <= 127));
            return Err(Message::TimeZoneInvalid);
        }
        i = i + 1;
    }
    let multiplier: i16 = if v[0] == '+' {
        1
    } else if v[0] == '-' {
        -1
    } else {
        return Err(Message::TimeZoneInvalid);
    };
    let hours = match parse_i16_chars(&v, 1, 3) {
        Some(hours) => hours,
        None => return Err(Message::TimeZoneInvalid),
    };
    let minutes = match parse_i16_chars(&v, 3, v.len()) {
        Some(minutes) => minutes,
        None => return Err(Message::TimeZoneInvalid),
    };
    assert(v@.subrange(3, v@.len() as int) =~= v@.skip(3));
    combine_offset(hours, minutes, multiplier)
}

fn combine_offset(hours: i16, minutes: i16, multiplier: i16) -> (r: Result<i16, Message>)
    requires
        multiplier == 1 || multiplier == -1,
    ensures
        r == (if i16::MIN <= hours * 60 <= i16::MAX && i16::MIN <= hours * 60 + minutes <= i16::MAX
            && i16::MIN <= (hours * 60 + minutes) * multiplier <= i16::MAX {
            Ok(((hours * 60 + minutes) * multiplier) as i16)
        } else {
            Err(Message::TimeZoneInvalid)
        }),
{
    let scaled = match hours.checked_mul(60) {
        Some(scaled) => scaled,
        None => return Err(Message::TimeZoneInvalid),
    };
    let total = match scaled.checked_add(minutes) {
        Some(total) => total,
        None => return Err(Message::TimeZoneInvalid),
    };
    match total.checked_mul(multiplier) {
        Some(offset) => Ok(offset),
        None => Err(Message::TimeZoneInvalid),
    }
}

/// The Jira account of the development toolkit's credentials file.
#[derive(Clone, Debug, PartialEq, Eq)]
pub struct ToolkitCredentials {
    pub url: String,
    pub email: String,
    pub token: String,
}

/// The development toolkit's configuration file.
#[derive(Clone, Debug, PartialEq, Eq)]
pub struct ToolkitConfig {
    pub hours: ToolkitHours,
    pub reports: Option<ToolkitReports>,
    pub http: Option<ToolkitHttp>,
}

/// The hours section of the toolkit configuration; it once carried the team
/// reports flag, which a reports section now overrides.
#[derive(Clone, Debug, PartialEq, Eq)]
pub struct ToolkitHours {
    pub weekly_target_hours: u32,
    pub jira_board_id: u64,
    pub jira_time_zone_offset: String,
    pub legacy_enable_team_reports: Option<bool>,
}

/// The reports section of the toolkit configuration.
#[derive(Clone, Copy, Debug, PartialEq, Eq, Structural)]
pub struct ToolkitReports {
    pub enable_team_reports: bool,
}

/// The HTTP section of the toolkit configuration.
#[derive(Clone, Copy, Debug, PartialEq, Eq, Structural)]
pub struct ToolkitHttp {
    pub timeout_ms: u64,
}

/// Team reports are on as the reports section says, or else as the legacy
/// hours flag says, and off when neither is given.
pub open spec fn spec_team_reports_enabled(config: ToolkitConfig) -> bool {
    match config.reports {
        Some(reports) => reports.enable_team_reports,
        None => config.hours.legacy_enable_team_reports == Some(true),
    }
}

/// Whole seconds needed to cover `milliseconds`, rounded up.
pub open spec fn seconds_covering(milliseconds: u64) -> int {
    (milliseconds + 999) / 1000
}

/// The request timeout: the toolkit's, rounded up to seconds, or the organization default.
pub open spec fn spec_request_timeout(config: ToolkitConfig, jira: JiraModuleProfile) -> u64 {
    match config.http {
        Some(http) => seconds_covering(http.timeout_ms) as u64,
        None => jira.request_timeout_seconds,
    }
}

/// The request built from the toolkit files: the account and board from them,
/// the limits from the organization's Jira defaults.
pub open spec fn toolkit_request(
    credentials: ToolkitCredentials,
    config: ToolkitConfig,
    jira: JiraModuleProfile,
    utc_offset_minutes: i16,
) -> ConnectionRequest {
    ConnectionRequest {
        site: credentials.url,
        email: credentials.email,
        token: credentials.token,
        board_id: config.hours.jira_board_id,
        weekly_target_hours: config.hours.weekly_target_hours,
        utc_offset_minutes,
        request_timeout_seconds: spec_request_timeout(config, jira),
        page_size: jira.page_size,
        maximum_collection_items: jira.maximum_collection_items,
        maximum_issue_search_results: jira.maximum_issue_search_results,
        maximum_concurrent_worklog_requests: jira.maximum_concurrent_worklog_requests,
        maximum_daily_hours: jira.hours.maximum_daily_hours,
        default_worklog_start_hour: jira.hours.default_worklog_start_hour,
        default_worklog_start_minute: jira.hours.default_worklog_start_minute,
        enable_team_reports: spec_team_reports_enabled(config),
    }
}

/// Whether the toolkit configuration turns team reports on.
pub fn team_reports_enabled(config: &ToolkitConfig) -> (r: bool)
    ensures
        r == spec_team_reports_enabled(*config),
{
    match &config.reports {
        Some(reports) => reports.enable_team_reports,
        None => match config.hours.legacy_enable_team_reports {
            Some(enabled) => enabled,
            None => false,
        },
    }
}

/// The request timeout in seconds.
pub fn request_timeout(config: &ToolkitConfig, jira: &JiraModuleProfile) -> (r: u64)
    ensures
        r == spec_request_timeout(*config, *jira),
{
    match &config.http {
        Some(http) => {
            let whole = http.timeout_ms / 1000;
            if http.timeout_ms % 1000 == 0 {
                whole
            } else {
                whole + 1
            }
        },
        None => jira.request_timeout_seconds,
    }
}

/// The connection request of the development toolkit; its time zone must be valid.
pub fn build_request(
    credentials: ToolkitCredentials,
    config: &ToolkitConfig,
    jira: &JiraModuleProfile,
) -> (r: Result<ConnectionRequest, Message>)
    ensures
        r == (match toolkit_offset(config.hours.jira_time_zone_offset@) {
            Some(minutes) => Ok(toolkit_request(credentials, *config, *jira, minutes)),
            None => Err(Message::TimeZoneInvalid),
        }),
{
    let utc_offset_minutes = parse_utc_offset(config.hours.jira_time_zone_offset.as_str())?;
    Ok(
        ConnectionRequest {
            site: credentials.url,
            email: credentials.email,
            token: credentials.token,
            board_id: config.hours.jira_board_id,
            weekly_target_hours: config.hours.weekly_target_hours,
            utc_offset_minutes,
            request_timeout_seconds: request_timeout(config, jira),
            page_size: jira.page_size,
            maximum_collection_items: jira.maximum_collection_items,
            maximum_issue_search_results: jira.maximum_issue_search_results,
            maximum_concurrent_worklog_requests: jira.maximum_concurrent_worklog_requests,
            maximum_daily_hours: jira.hours.maximum_daily_hours,
            default_worklog_start_hour: jira.hours.default_worklog_start_hour,
            default_worklog_start_minute: jira.hours.default_worklog_start_minute,
            enable_team_reports: team_reports_enabled(config),
        },
    )
}

} // verus!
