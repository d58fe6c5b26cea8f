//! What the weekly totals of a report count, stated over the worklogs' days and authors.

use vstd::prelude::*;

use crate::analytics::Worklog;
use crate::report::{decimal, digit_char, member_week_seconds, week_seconds, ReportWeek};
use crate::toolkit::{all_digits, decimal_value, is_digit};

verus! {

/// The worklog was written by the account.
pub open spec fn written_by(account_id: Seq<char>) -> spec_fn(Worklog) -> bool {
    |worklog: Worklog| worklog.author@ == account_id
}

/// A worklog started on a day from the week's first to its last, both included,
/// adds its seconds to the week's total (which stops at `u32::MAX`); a worklog
/// started on another day leaves that total as it was.
pub proof fn lemma_week_counts_each_day_of_the_week(
    worklogs: Seq<Worklog>,
    worklog: Worklog,
    week: ReportWeek,
)
    ensures
        week.start <= worklog.started_date && worklog.started_date <= week.end ==> week_seconds(
            worklogs.push(worklog),
            week,
        ) == if week_seconds(worklogs, week) + worklog.duration_seconds > u32::MAX {
            u32::MAX as int
        } else {
            week_seconds(worklogs, week) + worklog.duration_seconds
        },
        worklog.started_date < week.start || worklog.started_date > week.end ==> week_seconds(
            worklogs.push(worklog),
            week,
        ) == week_seconds(worklogs, week),
{
    assert(worklogs.push(worklog).drop_last() =~= worklogs);
}

/// A worklog of the account started on a day from the week's first to its last,
/// both included, adds its seconds to the account's total for the week (which
/// stops at `u32::MAX`); any other worklog leaves that total as it was.
pub proof fn lemma_member_week_counts_each_day_of_the_week(
    worklogs: Seq<Worklog>,
    worklog: Worklog,
    account_id: Seq<char>,
    week: ReportWeek,
)
    ensures
        worklog.author@ == account_id && week.start <= worklog.started_date
            && worklog.started_date <= week.end ==> member_week_seconds(
            worklogs.push(worklog),
            account_id,
            week,
        ) == if member_week_seconds(worklogs, account_id, week) + worklog.duration_seconds
            > u32::MAX {
            u32::MAX as int
        } else {
            member_week_seconds(worklogs, account_id, week) + worklog.duration_seconds
        },
        worklog.author@ != account_id || worklog.started_date < week.start || worklog.started_date
            > week.end ==> member_week_seconds(worklogs.push(worklog), account_id, week)
            == member_week_seconds(worklogs, account_id, week),
{
    assert(worklogs.push(worklog).drop_last() =~= worklogs);
}

/// A single worklog of the account counts in full for a week that starts and
/// ends on its day; the week of any other single worklog has no seconds.
pub proof fn lemma_member_week_of_one_worklog(worklog: Worklog, account_id: Seq<char>, week: ReportWeek)
    ensures
        member_week_seconds(seq![worklog], account_id, week) == if worklog.author@ == account_id
            && week.start <= worklog.started_date && worklog.started_date <= week.end {
            worklog.duration_seconds as int
        } else {
            0
        },
        week.start == worklog.started_date && week.end == worklog.started_date
            && worklog.author@ == account_id ==> member_week_seconds(seq![worklog], account_id, week)
            == worklog.duration_seconds,
{
    lemma_member_week_counts_each_day_of_the_week(Seq::empty(), worklog, account_id, week);
    assert(Seq::<Worklog>::empty().push(worklog) =~= seq![worklog]);
}

/// An account's seconds for a week are the week's seconds of that account's worklogs.
pub proof fn lemma_member_week_is_week_of_members_worklogs(
    worklogs: Seq<Worklog>,
    account_id: Seq<char>,
    week: ReportWeek,
)
    ensures
        member_week_seconds(worklogs, account_id, week) == week_seconds(
            worklogs.filter(written_by(account_id)),
            week,
        ),
    decreases worklogs.len(),
{
    if worklogs.len() > 0 {
        let rest = worklogs.drop_last();
        let last = worklogs.last();
        lemma_member_week_is_week_of_members_worklogs(rest, account_id, week);
        assert(rest.push(last) =~= worklogs);
        rest.lemma_filter_push(last, written_by(account_id));
        let kept = rest.filter(written_by(account_id));
        if last.author@ == account_id {
            assert(kept.push(last).drop_last() =~= kept);
        }
    } else {
        assert(worklogs.filter(written_by(account_id)) =~= Seq::<Worklog>::empty());
    }
}


/// The decimal digits written for `n` are a non-empty run of digits, without a
/// sign, that denotes `n` again.
pub proof fn lemma_decimal_reads_back(n: nat)
    ensures
        decimal(n).len() > 0,
        all_digits(decimal(n)),
        is_digit(decimal(n)[0]),
        decimal_value(decimal(n)) == n,
    decreases n,
{
    let d = digit_char((n % 10) as int);
    assert(d as int == '0' as int + n % 10);
    if n < 10 {
        assert(decimal(n) =~= seq![d]);
        assert(decimal(n).drop_last() =~= Seq::<char>::empty());
        assert(decimal_value(decimal(n)) == decimal_value(Seq::<char>::empty()) * 10 + (n % 10));
    } else {
        lemma_decimal_reads_back(n / 10);
        let head = decimal(n / 10);
        assert(decimal(n) =~= head.push(d));
        assert(head.push(d).drop_last() =~= head);
        assert(decimal(n)[0] == head[0]);
        assert(decimal_value(decimal(n)) == decimal_value(head) * 10 + (n % 10));
        assert((n / 10) * 10 + n % 10 == n);
        assert forall|i: int| 0 <= i < decimal(n).len() implies is_digit(#[trigger] decimal(n)[i]) by {
            if i < head.len() {
                assert(decimal(n)[i] == head[i]);
            }
        }
    }
}

} // verus!
