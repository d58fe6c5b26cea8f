//! The worklog form: the duration typed as hours and minutes, and the
//! command a complete form becomes.

use vstd::prelude::*;

use crate::analytics::Worklog;
use crate::calendar::{iso_date, parse_date, DateError};
use crate::connection::{
    ensure_not_future, utc_offset_seconds, validate_daily_duration, worklog_seconds, ConnectionRequest,
    MAXIMUM_OFFSET_SECONDS,
};
use crate::messages::Message;
use crate::forms::{parse_unsigned, parse_unsigned_text};
use crate::report::{decimal, decimal_text};
use crate::text::{str_trim, trim};

verus! {

/// The largest number of minutes typed next to the hours.
pub const MAX_MINUTE_COMPONENT: u32 = 59;

/// What the worklog form holds, as typed.
#[derive(Clone, Debug, PartialEq, Eq)]
pub struct WorklogDraft {
    pub issue_key: String,
    pub date: String,
    pub hours: String,
    pub minutes: String,
    pub comment: String,
}

/// A worklog to create: the issue, the day as typed, the minutes and the comment.
#[derive(Clone, Debug, PartialEq, Eq)]
pub struct CreateWorklogCommand {
    pub issue_key: String,
    pub date: String,
    pub minutes: u32,
    pub comment: String,
}

/// Which part of the duration was wrong.
#[derive(Clone, Copy, Debug, PartialEq, Eq, Structural)]
pub enum DurationPart {
    Hours,
    Minutes,
}

/// Why a part of the duration is refused: it is not a number, or it is too large.
#[derive(Clone, Copy, Debug, PartialEq, Eq, Structural)]
pub enum DurationPartError {
    Invalid,
    TooLarge,
}

/// Why the form cannot become a command.
#[derive(Clone, Copy, Debug, PartialEq, Eq, Structural)]
pub enum DraftError {
    Part(DurationPart, DurationPartError),
    TooLarge,
    Required,
    IssueInvalid,
}

/// A part of the duration: a `u32` as `str::parse` reads it, at most `maximum`.
pub open spec fn spec_duration_part(value: Seq<char>, maximum: int) -> Result<u32, DurationPartError> {
    match parse_unsigned(value, u32::MAX as int) {
        None => Err(DurationPartError::Invalid),
        Some(n) => if n > maximum {
            Err(DurationPartError::TooLarge)
        } else {
            Ok(n as u32)
        },
    }
}

/// Reads a part of the duration.
pub fn parse_duration_part(value: &str, maximum: u32) -> (r: Result<u32, DurationPartError>)
    ensures
        r == spec_duration_part(value@, maximum as int),
{
    match parse_unsigned_text(value, 4294967295) {
        None => Err(DurationPartError::Invalid),
        Some(n) => if n > maximum as u64 {
            Err(DurationPartError::TooLarge)
        } else {
            Ok(n as u32)
        },
    }
}

/// The minutes a form logs, or why it cannot become a command. The hours may
/// be at most the daily maximum and the minutes at most 59; the duration must
/// not be zero, the issue and the day must not be blank, and the issue key
/// must be one that the worklog service accepts (`issue_key_accepted`).
pub open spec fn draft_minutes(draft: WorklogDraft, maximum_daily_hours: int, issue_key_accepted: bool) -> Result<
    u32,
    DraftError,
> {
    match spec_duration_part(draft.hours@, maximum_daily_hours) {
        Err(error) => Err(DraftError::Part(DurationPart::Hours, error)),
        Ok(hours) => match spec_duration_part(draft.minutes@, MAX_MINUTE_COMPONENT as int) {
            Err(error) => Err(DraftError::Part(DurationPart::Minutes, error)),
            Ok(minutes) => {
                let total = hours * 60 + minutes;
                if total > u32::MAX {
                    Err(DraftError::TooLarge)
                } else if total == 0 || trim(draft.issue_key@).len() == 0 || trim(draft.date@).len() == 0 {
                    Err(DraftError::Required)
                } else if !issue_key_accepted {
                    Err(DraftError::IssueInvalid)
                } else {
                    Ok(total as u32)
                }
            },
        },
    }
}

/// Turns a complete form into the command that logs the work.
pub fn build_command(draft: &WorklogDraft, maximum_daily_hours: u8, issue_key_accepted: bool) -> (r: Result<
    CreateWorklogCommand,
    DraftError,
>)
    ensures
        match draft_minutes(*draft, maximum_daily_hours as int, issue_key_accepted) {
            Err(error) => r == Err::<CreateWorklogCommand, DraftError>(error),
            Ok(minutes) => r matches Ok(command) && {
                &&& command.issue_key@ == trim(draft.issue_key@)
                &&& command.date@ == draft.date@
                &&& command.minutes == minutes
                &&& command.comment@ == trim(draft.comment@)
            },
        },
{
    let hours = match parse_duration_part(draft.hours.as_str(), maximum_daily_hours as u32) {
        Ok(hours) => hours,
        Err(error) => return Err(DraftError::Part(DurationPart::Hours, error)),
    };
    let minutes = match parse_duration_part(draft.minutes.as_str(), MAX_MINUTE_COMPONENT) {
        Ok(minutes) => minutes,
        Err(error) => return Err(DraftError::Part(DurationPart::Minutes, error)),
    };
    let total: u32 = match hours.checked_mul(60) {
        Some(value) => match value.checked_add(minutes) {
            Some(total) => total,
            None => return Err(DraftError::TooLarge),
        },
        None => return Err(DraftError::TooLarge),
    };
    let issue_key = str_trim(draft.issue_key.as_str());
    let date = str_trim(draft.date.as_str());
    if total == 0 || issue_key.is_empty() || date.is_empty() {
        return Err(DraftError::Required);
    }
    if !issue_key_accepted {
        return Err(DraftError::IssueInvalid);
    }
    Ok(
        CreateWorklogCommand {
            issue_key: issue_key.to_owned(),
            date: draft.date.clone(),
            minutes: total,
            comment: str_trim(draft.comment.as_str()).to_owned(),
        },
    )
}

/// The hours and minutes a worklog's duration is typed as: whole minutes,
/// split into hours and the minutes left over.
pub open spec fn duration_parts(seconds: int) -> (Seq<char>, Seq<char>) {
    let total_minutes = seconds / 60;
    (decimal((total_minutes / 60) as nat), decimal((total_minutes % 60) as nat))
}

impl WorklogDraft {
    /// The form for editing a worklog; `date` is its day as the form writes it.
    pub fn from_worklog(worklog: &Worklog, date: String) -> (draft: Self)
        ensures
            draft.issue_key@ == worklog.issue_key@,
            draft.date@ == date@,
            (draft.hours@, draft.minutes@) == duration_parts(worklog.duration_seconds as int),
            draft.comment@ == worklog.comment@,
    {
        let total_minutes = worklog.duration_seconds / 60;
        WorklogDraft {
            issue_key: worklog.issue_key.clone(),
            date,
            hours: decimal_text((total_minutes / 60) as u64),
            minutes: decimal_text((total_minutes % 60) as u64),
            comment: worklog.comment.clone(),
        }
    }
}

/// What a new worklog is made of: the day, the local time it starts at, the
/// offset of that local time from UTC, its length in seconds and its comment.
#[derive(Clone, Debug, PartialEq, Eq)]
pub struct WorklogStart {
    pub date: i32,
    pub hour: u8,
    pub minute: u8,
    pub utc_offset_seconds: i32,
    pub duration_seconds: u32,
    pub comment: String,
}

/// The offset of a connection's time zone, in seconds, when the zone is valid.
pub open spec fn offset_outcome(minutes: i16) -> Result<i32, Message> {
    if minutes * 60 > MAXIMUM_OFFSET_SECONDS || minutes * 60 < -MAXIMUM_OFFSET_SECONDS {
        Err(Message::InvalidTimeZone)
    } else {
        Ok((minutes * 60) as i32)
    }
}

/// The worklog a command logs for the connection, or why it is refused: the
/// day must read as a date, the time zone must be valid, the day must not be
/// after `today` (the connection's local date), the start time must be a
/// time of day, and the duration must fit the daily maximum and a `u32` of
/// seconds.
pub open spec fn worklog_outcome(command: CreateWorklogCommand, request: ConnectionRequest, today: i32) -> Result<
    WorklogStart,
    Message,
> {
    match iso_date(command.date@) {
        None => Err(Message::InvalidDate),
        Some(date) => match offset_outcome(request.utc_offset_minutes) {
            Err(error) => Err(error),
            Ok(offset) => if date > today {
                Err(Message::FutureDate)
            } else if request.default_worklog_start_hour > 23 || request.default_worklog_start_minute > 59 {
                Err(Message::InvalidInput)
            } else if command.minutes > request.maximum_daily_hours * 60 {
                Err(Message::ExceedsDailyMaximum)
            } else if command.minutes * 60 > u32::MAX {
                Err(Message::DurationTooLarge)
            } else {
                Ok(
                    WorklogStart {
                        date: date as i32,
                        hour: request.default_worklog_start_hour,
                        minute: request.default_worklog_start_minute,
                        utc_offset_seconds: offset,
                        duration_seconds: (command.minutes * 60) as u32,
                        comment: command.comment,
                    },
                )
            },
        },
    }
}

/// Checks a command against the connection and gives the worklog it logs.
pub fn worklog_input(command: &CreateWorklogCommand, request: &ConnectionRequest, today: i32) -> (r: Result<
    WorklogStart,
    Message,
>)
    ensures
        match worklog_outcome(*command, *request, today) {
            Err(error) => r == Err::<WorklogStart, Message>(error),
            Ok(start) => r matches Ok(built) && {
                &&& built.date == start.date
                &&& built.hour == start.hour
                &&& built.minute == start.minute
                &&& built.utc_offset_seconds == start.utc_offset_seconds
                &&& built.duration_seconds == start.duration_seconds
                &&& built.comment@ == command.comment@
            },
        },
{
    let date = match parse_date(command.date.as_str()) {
        Ok(date) => date,
        Err(DateError::InvalidDate) => return Err(Message::InvalidDate),
    };
    let offset = utc_offset_seconds(request.utc_offset_minutes)?;
    ensure_not_future(date, today)?;
    if request.default_worklog_start_hour > 23 || request.default_worklog_start_minute > 59 {
        return Err(Message::InvalidInput);
    }
    validate_daily_duration(command.minutes, request.maximum_daily_hours)?;
    let seconds = worklog_seconds(command.minutes)?;
    Ok(
        WorklogStart {
            date,
            hour: request.default_worklog_start_hour,
            minute: request.default_worklog_start_minute,
            utc_offset_seconds: offset,
            duration_seconds: seconds,
            comment: command.comment.clone(),
        },
    )
}

} // verus!
