//! Where moving a period by whole weeks lands, stated over Julian day numbers
//! (a day `d` with `d % 7 == 0` is a Monday).

use vstd::prelude::*;

use crate::periods::{shifted_outcome, DateRange, PeriodError};
use crate::report::valid_day;

verus! {

/// Moving the period by `direction` weeks picks the week, Monday to Sunday,
/// that holds the period's first day moved by `7 * direction` days: when that
/// week's Monday `monday` is after today the move is refused, and otherwise the
/// result runs from that Monday to its Sunday, or to today if today comes first.
pub proof fn lemma_shift_lands_on_the_week_of_the_moved_day(
    period: DateRange,
    direction: i8,
    today: i32,
    monday: int,
)
    requires
        valid_day(period.start + 7 * direction),
        monday % 7 == 0,
        monday <= period.start + 7 * direction <= monday + 6,
    ensures
        shifted_outcome(period, direction, today) == if monday > today {
            Err::<DateRange, PeriodError>(PeriodError::FutureDate)
        } else {
            Ok(
                DateRange {
                    start: monday as i32,
                    end: if monday + 6 < today {
                        (monday + 6) as i32
                    } else {
                        today
                    },
                },
            )
        },
{
    let target = period.start + 7 * direction;
    assert(target - target % 7 == monday) by {
        assert(0 <= target % 7 < 7);
        assert((target - monday) % 7 == target % 7) by (nonlinear_arith)
            requires
                monday % 7 == 0,
        ;
    }
}

/// A moved period starts on a Monday no later than today, within the week that
/// holds the period's first day moved by `7 * direction` days, and ends on that
/// week's Sunday or on today, whichever comes first.
pub proof fn lemma_shifted_period_is_a_week_up_to_today(
    period: DateRange,
    direction: i8,
    today: i32,
)
    requires
        valid_day(period.start + 7 * direction),
    ensures
        shifted_outcome(period, direction, today) matches Ok(r) ==> {
            &&& r.start % 7 == 0
            &&& r.start <= period.start + 7 * direction <= r.start + 6
            &&& r.start <= today
            &&& r.end == if r.start + 6 < today {
                r.start + 6
            } else {
                today as int
            }
        },
        shifted_outcome(period, direction, today) is Err ==> shifted_outcome(
            period,
            direction,
            today,
        ) == Err::<DateRange, PeriodError>(PeriodError::FutureDate),
{
    let target = period.start + 7 * direction;
    let monday = target - target % 7;
    assert(monday % 7 == 0) by (nonlinear_arith)
        requires
            monday == target - target % 7,
    ;
    lemma_shift_lands_on_the_week_of_the_moved_day(period, direction, today, monday);
}

} // verus!
