//! The user-facing messages that decisions of the library end with; the
//! interface looks each one up by its key in the selected language.

use vstd::prelude::*;

use crate::report::{decimal, decimal_text};

verus! {

/// A message of the interface, named by its key in the copy resources.
#[derive(Clone, Copy, Debug, PartialEq, Eq, Structural)]
pub enum Message {
    BoardOutsideScope,
    HoursOutsideProfile,
    TimeZoneInvalid,
    InvalidDailyMaximum,
    ExceedsDailyMaximum,
    DurationTooLarge,
    FutureDate,
    TargetTooLarge,
    TargetDoesNotFit,
    InvalidTimeZone,
    McpNoToolsEnabled,
    McpCredentialMissing,
    McpCapabilityBlocked,
    McpScopeCredentialMissing,
    InvalidNumber,
    SetupSecureUrl,
    SetupEmail,
    SetupToken,
    SetupBoard,
    SetupBoardPositive,
    SetupTimeZone,
    SetupNoBoards,
    InvalidDate,
    InvalidInput,
}

/// The key of a message in the copy resources.
pub open spec fn message_key(value: Message) -> Seq<char> {
    match value {
        Message::BoardOutsideScope => "settings.error.boardOutsideScope"@,
        Message::HoursOutsideProfile => "settings.error.hoursOutsideProfile"@,
        Message::TimeZoneInvalid => "developmentConfig.timeZoneInvalid"@,
        Message::InvalidDailyMaximum => "connection.invalidDailyMaximum"@,
        Message::ExceedsDailyMaximum => "connection.exceedsDailyMaximum"@,
        Message::DurationTooLarge => "connection.durationTooLarge"@,
        Message::FutureDate => "connection.futureDate"@,
        Message::TargetTooLarge => "connection.targetTooLarge"@,
        Message::TargetDoesNotFit => "connection.targetDoesNotFit"@,
        Message::InvalidTimeZone => "connection.invalidTimeZone"@,
        Message::McpNoToolsEnabled => "preferences.mcpNoToolsEnabled"@,
        Message::McpCredentialMissing => "preferences.mcpCredentialMissing"@,
        Message::McpCapabilityBlocked => "preferences.mcpCapabilityBlocked"@,
        Message::McpScopeCredentialMissing => "preferences.mcpScopeCredentialMissing"@,
        Message::InvalidNumber => "preferences.invalidNumber"@,
        Message::SetupSecureUrl => "setup.error.secureUrl"@,
        Message::SetupEmail => "setup.error.email"@,
        Message::SetupToken => "setup.error.token"@,
        Message::SetupBoard => "setup.error.board"@,
        Message::SetupBoardPositive => "setup.error.boardPositive"@,
        Message::SetupTimeZone => "setup.error.timeZone"@,
        Message::SetupNoBoards => "setup.error.noBoards"@,
        Message::InvalidDate => "connection.invalidDate"@,
        Message::InvalidInput => "connection.invalidInput"@,
    }
}

impl Message {
    /// The key of the message in the copy resources.
    pub fn key(self) -> (r: &'static str)
        ensures
            r@ == message_key(self),
    {
        match self {
            Message::BoardOutsideScope => "settings.error.boardOutsideScope",
            Message::HoursOutsideProfile => "settings.error.hoursOutsideProfile",
            Message::TimeZoneInvalid => "developmentConfig.timeZoneInvalid",
            Message::InvalidDailyMaximum => "connection.invalidDailyMaximum",
            Message::ExceedsDailyMaximum => "connection.exceedsDailyMaximum",
            Message::DurationTooLarge => "connection.durationTooLarge",
            Message::FutureDate => "connection.futureDate",
            Message::TargetTooLarge => "connection.targetTooLarge",
            Message::TargetDoesNotFit => "connection.targetDoesNotFit",
            Message::InvalidTimeZone => "connection.invalidTimeZone",
            Message::McpNoToolsEnabled => "preferences.mcpNoToolsEnabled",
            Message::McpCredentialMissing => "preferences.mcpCredentialMissing",
            Message::McpCapabilityBlocked => "preferences.mcpCapabilityBlocked",
            Message::McpScopeCredentialMissing => "preferences.mcpScopeCredentialMissing",
            Message::InvalidNumber => "preferences.invalidNumber",
            Message::SetupSecureUrl => "setup.error.secureUrl",
            Message::SetupEmail => "setup.error.email",
            Message::SetupToken => "setup.error.token",
            Message::SetupBoard => "setup.error.board",
            Message::SetupBoardPositive => "setup.error.boardPositive",
            Message::SetupTimeZone => "setup.error.timeZone",
            Message::SetupNoBoards => "setup.error.noBoards",
            Message::InvalidDate => "connection.invalidDate",
            Message::InvalidInput => "connection.invalidInput",
        }
    }
}

/// The words of the rate-limit message: the message without a delay, and the
/// words around the number of seconds to wait.
#[derive(Clone, Debug, PartialEq, Eq)]
pub struct RateLimitWords {
    pub limited: String,
    pub prefix: String,
    pub suffix: String,
}

/// The message when the service asks to slow down: how long to wait, when it says.
pub open spec fn spec_rate_limit_message(retry_after_seconds: Option<u64>, words: RateLimitWords) -> Seq<char> {
    match retry_after_seconds {
        None => words.limited@,
        Some(seconds) => words.prefix@ + decimal(seconds as nat) + words.suffix@,
    }
}

/// Writes `spec_rate_limit_message`.
pub fn rate_limit_message(retry_after_seconds: Option<u64>, words: &RateLimitWords) -> (r: String)
    ensures
        r@ == spec_rate_limit_message(retry_after_seconds, *words),
{
    match retry_after_seconds {
        None => words.limited.clone(),
        Some(seconds) => {
            let mut message = words.prefix.clone();
            message.append(decimal_text(seconds).as_str());
            message.append(words.suffix.as_str());
            message
        },
    }
}

} // verus!
