use vstd::prelude::*;

verus! {

/// A day of the proleptic Gregorian calendar.
#[derive(Clone, Copy, Debug, PartialEq, Eq, Structural)]
pub struct CalendarDate {
    pub year: i32,
    pub month: u32,
    pub day: u32,
}

pub open spec fn is_leap_year(y: int) -> bool {
    (y % 4 == 0 && y % 100 != 0) || y % 400 == 0
}

pub open spec fn days_in_month(y: int, m: int) -> int {
    if m == 2 {
        if is_leap_year(y) { 29 } else { 28 }
    } else if m == 4 || m == 6 || m == 9 || m == 11 {
        30
    } else {
        31
    }
}

/// The days that the date type of chrono can represent.
pub open spec fn valid_ymd(y: int, m: int, d: int) -> bool {
    &&& -262143 <= y <= 262142
    &&& 1 <= m <= 12
    &&& 1 <= d <= days_in_month(y, m)
}

pub open spec fn valid_date(d: CalendarDate) -> bool {
    valid_ymd(d.year as int, d.month as int, d.day as int)
}

/// Days from 1970-01-01 to the given day (negative before it).
pub open spec fn days_from_civil(y: int, m: int, d: int) -> int {
    let y0 = if m <= 2 { y - 1 } else { y };
    let era = y0 / 400;
    let yoe = y0 - era * 400;
    let mp = if m > 2 { m - 3 } else { m + 9 };
    let doy = (153 * mp + 2) / 5 + d - 1;
    let doe = yoe * 365 + yoe / 4 - yoe / 100 + doy;
    era * 146097 + doe - 719468
}

/// Seconds since the Unix epoch at 00:00:00 UTC of the given day.
pub open spec fn midnight_utc_of(y: int, m: int, d: int) -> int {
    days_from_civil(y, m, d) * 86400
}

/// Midnight UTC of a day that chrono can represent is a whole number of days
/// from the epoch, and fits in an `i64`.
pub proof fn lemma_midnight_in_range(y: int, m: int, d: int)
    requires
        valid_ymd(y, m, d),
    ensures
        i64::MIN <= midnight_utc_of(y, m, d) <= i64::MAX,
        midnight_utc_of(y, m, d) % 86400 == 0,
{
    let y0 = if m <= 2 { y - 1 } else { y };
    let era = y0 / 400;
    let yoe = y0 - era * 400;
    let mp = if m > 2 { m - 3 } else { m + 9 };
    let doy = (153 * mp + 2) / 5 + d - 1;
    let doe = yoe * 365 + yoe / 4 - yoe / 100 + doy;
    assert(-657 <= era <= 656);
    assert(0 <= yoe < 400);
    assert(0 <= doy <= 400);
    assert(0 <= doe <= 146500);
    let days = era * 146097 + doe - 719468;
    assert(days == days_from_civil(y, m, d));
    assert(-200000000 <= days <= 200000000);
    assert(days * 86400 % 86400 == 0) by (nonlinear_arith);
    assert(-200000000 * 86400 <= days * 86400 <= 200000000 * 86400) by (nonlinear_arith)
        requires
            -200000000 <= days <= 200000000,
    ;
}

pub open spec fn midnight_utc(d: CalendarDate) -> int {
    midnight_utc_of(d.year as int, d.month as int, d.day as int)
}

pub open spec fn date_fields(d: Option<CalendarDate>) -> Option<(int, int, int)> {
    match d {
        Some(c) => Some((c.year as int, c.month as int, c.day as int)),
        None => None,
    }
}

/// What `chrono::NaiveDate::parse_from_str(text, format)` yields, as year, month and day.
pub uninterp spec fn date_parsed(text: Seq<char>, format: Seq<char>) -> Option<(int, int, int)>;

/// Relies on `chrono::NaiveDate::parse_from_str`: the date that `text` spells in
/// `format`, if any. A `NaiveDate` always holds a day that chrono can represent.
#[verifier::external_body]
pub(crate) fn parse_date(text: &str, format: &str) -> (r: Option<CalendarDate>)
    ensures
        date_fields(r) == date_parsed(text@, format@),
        r matches Some(d) ==> valid_date(d),
{
    match chrono::NaiveDate::parse_from_str(text, format) {
        Ok(d) => Some(
            CalendarDate {
                year: chrono::Datelike::year(&d),
                month: chrono::Datelike::month(&d),
                day: chrono::Datelike::day(&d),
            },
        ),
        Err(_) => None,
    }
}

/// Relies on chrono's `NaiveDate::and_hms_opt(0, 0, 0)`, `and_utc` and `timestamp`:
/// the non-leap seconds from 1970-01-01T00:00:00Z to midnight UTC of `d`.
#[verifier::external_body]
pub(crate) fn midnight_timestamp(d: CalendarDate) -> (r: i64)
    requires
        valid_date(d),
    ensures
        r as int == midnight_utc(d),
{
    let date = chrono::NaiveDate::from_ymd_opt(d.year, d.month, d.day).unwrap();
    date.and_hms_opt(0, 0, 0).unwrap().and_utc().timestamp()
}

} // verus!
