use vstd::prelude::*;

use std::fmt::Write;

verus! {

/// The date of a day, counted from 0001-01-01 as day 1, written in a strftime pattern; nothing
/// where the day lies outside the calendar's range or the pattern cannot be written for a date.
pub uninterp spec fn day_text(day: int, format: Seq<char>) -> Option<Seq<char>>;

/// Relies on chrono: `NaiveDate::from_num_days_from_ce_opt` gives the date of a day counted
/// from 0001-01-01 as day 1 (`None` outside chrono's range of dates), and
/// `NaiveDate::format(..).write_to` writes it in the pattern, failing without a panic on a
/// malformed pattern or one that asks for a time of day or a time zone.
#[verifier::external_body]
fn format_day(day: i32, format: &str) -> (r: Option<String>)
    ensures
        match r {
            Some(s) => day_text(day as int, format@) == Some(s@),
            None => day_text(day as int, format@) is None,
        },
{
    let date = chrono::NaiveDate::from_num_days_from_ce_opt(day)?;
    let mut out = String::new();
    date.format(format).write_to(&mut out).ok()?;
    Some(out)
}

/// The day `offset` days after day `today`, where it is a day number that fits an `i32`.
pub open spec fn shifted(today: int, offset: int) -> Option<int> {
    if i32::MIN <= today + offset <= i32::MAX {
        Some(today + offset)
    } else {
        None
    }
}

/// The name of the day `offset` days after `today` (a day counted from 0001-01-01 as day 1),
/// written in the strftime pattern `format`. A day that no day number counts cannot be asked
/// for. `None` where the date cannot be written: it lies outside the calendar's range, or the
/// pattern is malformed or asks for a time of day or a time zone, which a date does not have.
pub fn date(today: i32, offset: i64, format: &str) -> (r: Option<String>)
    requires
        shifted(today as int, offset as int) is Some,
    ensures
        match r {
            Some(s) => day_text(today + offset, format@) == Some(s@),
            None => day_text(today + offset, format@) is None,
        },
{
    let day = today as i64 + offset;
    format_day(day as i32, format)
}

} // verus!
