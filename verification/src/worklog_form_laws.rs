//! What the edit form shows of a worklog's duration, and what saving it unchanged logs.

use vstd::prelude::*;

use crate::forms::{parse_unsigned, unsigned_digits};
use crate::report::decimal;
use crate::report_laws::lemma_decimal_reads_back;
use crate::text::trim;
use crate::worklog_form::{draft_minutes, duration_parts, DraftError, WorklogDraft};

verus! {

proof fn lemma_decimal_parses(n: nat)
    requires
        n <= u32::MAX,
    ensures
        parse_unsigned(decimal(n), u32::MAX as int) == Some(n as int),
{
    lemma_decimal_reads_back(n);
    assert(unsigned_digits(decimal(n)) == decimal(n));
}

/// The hours and minutes that the edit form shows for a worklog read back as
/// numbers `h` and `m`, with `m` below 60 and `h` hours and `m` minutes making
/// the worklog's duration in whole minutes.
pub proof fn lemma_edit_form_duration_reads_back(seconds: int)
    requires
        0 <= seconds <= u32::MAX,
    ensures
        parse_unsigned(duration_parts(seconds).0, u32::MAX as int) matches Some(h)
            && parse_unsigned(duration_parts(seconds).1, u32::MAX as int) matches Some(m) && {
            &&& 0 <= m < 60
            &&& (h * 60 + m) * 60 == seconds - seconds % 60
        },
{
    let total_minutes = seconds / 60;
    let h = total_minutes / 60;
    let m = total_minutes % 60;
    assert(0 <= h <= total_minutes <= seconds);
    lemma_decimal_parses(h as nat);
    lemma_decimal_parses(m as nat);
    assert((h * 60 + m) * 60 == seconds - seconds % 60) by (nonlinear_arith)
        requires
            0 <= seconds,
            total_minutes == seconds / 60,
            h == total_minutes / 60,
            m == total_minutes % 60,
    ;
}

/// Saving the edit form of a worklog unchanged logs the worklog's duration in
/// whole minutes, when its hours are within the daily maximum, it lasts at
/// least a minute, and its issue and day are filled in and accepted.
pub proof fn lemma_edit_form_saves_whole_minutes(
    draft: WorklogDraft,
    seconds: u32,
    maximum_daily_hours: int,
    issue_key_accepted: bool,
)
    requires
        (draft.hours@, draft.minutes@) == duration_parts(seconds as int),
        seconds / 3600 <= maximum_daily_hours,
        seconds >= 60,
        trim(draft.issue_key@).len() > 0,
        trim(draft.date@).len() > 0,
        issue_key_accepted,
    ensures
        draft_minutes(draft, maximum_daily_hours, issue_key_accepted) == Ok::<u32, DraftError>(
            (seconds / 60) as u32,
        ),
{
    let total_minutes = seconds / 60;
    let h = total_minutes / 60;
    let m = total_minutes % 60;
    assert(h == seconds / 3600) by (nonlinear_arith)
        requires
            total_minutes == seconds / 60,
            h == total_minutes / 60,
    ;
    lemma_decimal_parses(h as nat);
    lemma_decimal_parses(m as nat);
    assert(h * 60 + m == total_minutes);
}

} // verus!
