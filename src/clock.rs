use vstd::prelude::*;

verus! {

pub open spec fn is_leap(y: int) -> bool {
    y % 4 == 0 && (y % 100 != 0 || y % 400 == 0)
}

pub open spec fn days_in_month(y: int, m: int) -> int {
    if m == 2 {
        if is_leap(y) {
            29
        } else {
            28
        }
    } else if m == 4 || m == 6 || m == 9 || m == 11 {
        30
    } else {
        31
    }
}

/// The decimal digit `d` (0 to 9).
pub open spec fn digit(d: int) -> char {
    if d == 0 {
        '0'
    } else if d == 1 {
        '1'
    } else if d == 2 {
        '2'
    } else if d == 3 {
        '3'
    } else if d == 4 {
        '4'
    } else if d == 5 {
        '5'
    } else if d == 6 {
        '6'
    } else if d == 7 {
        '7'
    } else if d == 8 {
        '8'
    } else {
        '9'
    }
}

/// `n` (0 to 99) as two digits, zero-padded.
pub open spec fn two_digits(n: int) -> Seq<char> {
    seq![digit(n / 10), digit(n % 10)]
}

/// A local date and time to the minute, in the Gregorian calendar.
#[derive(Clone, Copy, PartialEq, Eq, Debug, Structural)]
pub struct LocalTime {
    pub year: i32,
    pub month: u32,
    pub day: u32,
    pub hour: u32,
    pub minute: u32,
}

/// `hour:minute`, both zero-padded.
pub open spec fn clock_spec(t: LocalTime) -> Seq<char> {
    two_digits(t.hour as int) + seq![':'] + two_digits(t.minute as int)
}

/// `day/month/year`, each zero-padded to two digits, the year modulo 100.
pub open spec fn date_spec(t: LocalTime) -> Seq<char> {
    two_digits(t.day as int) + seq!['/'] + two_digits(t.month as int) + seq!['/'] + two_digits(
        t.year as int % 100,
    )
}

/// Relies on chrono's `NaiveTime::from_hms_opt` (which accepts any hour
/// below 24 and minute below 60) and its `format("%H:%M")`, which writes
/// each field as two zero-padded digits.
#[verifier::external_body]
fn format_clock(hour: u32, minute: u32) -> (r: String)
    requires
        hour < 24,
        minute < 60,
    ensures
        r@ == two_digits(hour as int) + seq![':'] + two_digits(minute as int),
{
    chrono::NaiveTime::from_hms_opt(hour, minute, 0).unwrap().format("%H:%M").to_string()
}

/// Relies on chrono's `NaiveDate::from_ymd_opt` (which accepts every valid
/// Gregorian date of years 1 to 9999) and its `format("%d/%m/%y")`, which
/// writes day, month and the year's Euclidean remainder by 100 as two
/// zero-padded digits each.
#[verifier::external_body]
fn format_date(year: i32, month: u32, day: u32) -> (r: String)
    requires
        1 <= year <= 9999,
        1 <= month <= 12,
        1 <= day <= days_in_month(year as int, month as int),
    ensures
        r@ == two_digits(day as int) + seq!['/'] + two_digits(month as int) + seq!['/'] + two_digits(
            year as int % 100,
        ),
{
    chrono::NaiveDate::from_ymd_opt(year, month, day).unwrap().format("%d/%m/%y").to_string()
}

fn month_length(year: i32, month: u32) -> (r: u32)
    requires
        1 <= year <= 9999,
    ensures
        r == days_in_month(year as int, month as int),
{
    if month == 2 {
        if year % 4 == 0 && (year % 100 != 0 || year % 400 == 0) {
            29
        } else {
            28
        }
    } else if month == 4 || month == 6 || month == 9 || month == 11 {
        30
    } else {
        31
    }
}

impl LocalTime {
    pub open spec fn wf(&self) -> bool {
        &&& 1 <= self.year <= 9999
        &&& 1 <= self.month <= 12
        &&& 1 <= self.day <= days_in_month(self.year as int, self.month as int)
        &&& self.hour < 24
        &&& self.minute < 60
    }

    /// The given moment, if it is a valid date of years 1 to 9999 and a
    /// valid time of day.
    pub fn new(year: i32, month: u32, day: u32, hour: u32, minute: u32) -> (r: Option<LocalTime>)
        ensures
            r is Some <==> (LocalTime { year, month, day, hour, minute }).wf(),
            r is Some ==> r->Some_0 == (LocalTime { year, month, day, hour, minute }),
    {
        if year < 1 || year > 9999 || month < 1 || month > 12 || hour >= 24 || minute >= 60 {
            return None;
        }
        if day < 1 || day > month_length(year, month) {
            return None;
        }
        Some(LocalTime { year, month, day, hour, minute })
    }

    /// The time as `HH:MM`.
    pub fn clock_text(&self) -> (r: String)
        requires
            self.wf(),
        ensures
            r@ == clock_spec(*self),
    {
        format_clock(self.hour, self.minute)
    }

    /// The date as `DD/MM/YY`.
    pub fn date_text(&self) -> (r: String)
        requires
            self.wf(),
        ensures
            r@ == date_spec(*self),
    {
        format_date(self.year, self.month, self.day)
    }
}

} // verus!
