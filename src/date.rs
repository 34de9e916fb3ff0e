use chrono::Datelike;
use vstd::prelude::*;

verus! {

/// A calendar date.
#[derive(Clone, Copy, Debug, PartialEq, Eq, Structural)]
pub struct Date {
    pub year: i32,
    pub month: u32,
    pub day: u32,
}

impl Date {
    pub open spec fn triple(self) -> (int, int, int) {
        (self.year as int, self.month as int, self.day as int)
    }
}

/// The calendar date (year, month, day) that lies `days` days after the
/// given date.
pub uninterp spec fn calendar_add_days(year: int, month: int, day: int, days: int) -> (int, int, int);

/// Relies on chrono's `NaiveDate::from_ymd_opt` and `NaiveDate::checked_add_days`,
/// read back through `Datelike`: the proleptic Gregorian date `days` days after
/// the given one. `None` comes only for an invalid start date or past chrono's
/// last representable date, 262142-12-31, which lies 95,145,776 days after
/// 1642-09-17.
#[verifier::external_body]
pub(crate) fn calendar_add_days_exec(year: i32, month: u32, day: u32, days: u64) -> (r: Option<(i32, u32, u32)>)
    ensures
        r matches Some(d) ==> (d.0 as int, d.1 as int, d.2 as int) == calendar_add_days(
            year as int,
            month as int,
            day as int,
            days as int,
        ) && 1 <= d.1 <= 12 && 1 <= d.2 <= 31,
        year == 1642 && month == 9 && day == 17 ==> (r is Some <==> days <= 95_145_776),
{
    match chrono::NaiveDate::from_ymd_opt(year, month, day) {
        Some(start) => match start.checked_add_days(chrono::Days::new(days)) {
            Some(d) => Some((d.year(), d.month(), d.day())),
            None => None,
        },
        None => None,
    }
}

} // verus!
