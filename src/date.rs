//! Calendar dates and the names of record files.
use crate::category::{Category, category_name};
use crate::identifier::hex_digit;
use chrono::Datelike;
use vstd::prelude::*;

verus! {

/// A day of the proleptic Gregorian calendar, with a year of four digits.
#[derive(Clone, Copy, Debug, PartialEq, Eq, Structural)]
pub struct CalendarDate {
    pub year: u32,
    pub month: u32,
    pub day: u32,
}

pub open spec fn is_leap_year(y: int) -> bool {
    (y % 4 == 0 && y % 100 != 0) || y % 400 == 0
}

pub open spec fn days_in_month(y: int, m: int) -> int {
    if m == 2 {
        if is_leap_year(y) {
            29
        } else {
            28
        }
    } else if m == 4 || m == 6 || m == 9 || m == 11 {
        30
    } else {
        31
    }
}

/// Whether year, month and day form a date of years 0 to 9999.
pub open spec fn is_valid_date(y: int, m: int, d: int) -> bool {
    &&& 0 <= y <= 9999
    &&& 1 <= m <= 12
    &&& 1 <= d <= days_in_month(y, m)
}

impl CalendarDate {
    pub open spec fn wf(self) -> bool {
        is_valid_date(self.year as int, self.month as int, self.day as int)
    }

    /// The date with these parts, if they form a valid one.
    pub fn new(year: i32, month: u32, day: u32) -> (r: Option<CalendarDate>)
        ensures
            r is Some <==> is_valid_date(year as int, month as int, day as int),
            r is Some ==> r->0.wf() && r->0.year == year && r->0.month == month && r->0.day
                == day,
    {
        if year < 0 || year > 9999 || month < 1 || month > 12 || day < 1 {
            return None;
        }
        let y: u32 = year as u32;
        let leap: bool = (y % 4 == 0 && y % 100 != 0) || y % 400 == 0;
        let limit: u32 = if month == 2 {
            if leap {
                29
            } else {
                28
            }
        } else if month == 4 || month == 6 || month == 9 || month == 11 {
            30
        } else {
            31
        };
        if day > limit {
            None
        } else {
            Some(CalendarDate { year: y, month, day })
        }
    }

    /// Today's date on the local clock, if its year has four digits.
    pub fn today() -> (r: Option<CalendarDate>)
        ensures
            r is Some ==> r->0.wf(),
    {
        let (y, m, d) = local_today();
        CalendarDate::new(y, m, d)
    }
}

/// Relies on chrono's `Local::now` and `DateTime::date_naive`, read through
/// `Datelike::year`, `month` (1 to 12) and `day` (1 to 31). The value depends
/// on the clock and the time zone.
#[verifier::external_body]
fn local_today() -> (r: (i32, u32, u32))
    ensures
        1 <= r.1 <= 12,
        1 <= r.2 <= 31,
{
    let d = chrono::Local::now().date_naive();
    (d.year(), d.month(), d.day())
}

/// The decimal digits of `n`, `width` of them, zero-padded on the left.
pub open spec fn padded_digits(n: int, width: nat) -> Seq<char>
    decreases width,
{
    if width == 0 {
        seq![]
    } else {
        padded_digits(n / 10, (width - 1) as nat).push(hex_digit(n % 10))
    }
}

/// The date as `YYYY_MM_DD`.
pub open spec fn date_text(d: CalendarDate) -> Seq<char> {
    padded_digits(d.year as int, 4) + seq!['_'] + padded_digits(d.month as int, 2) + seq!['_']
        + padded_digits(d.day as int, 2)
}

/// The name of the record file for a category on a date:
/// `<category>_<YYYY>_<MM>_<DD>.txt`.
pub open spec fn record_file_name_text(c: Category, d: CalendarDate) -> Seq<char> {
    category_name(c) + seq!['_'] + date_text(d) + ".txt"@
}

/// The single decimal digit `n` as text.
fn digit_str(n: u32) -> (r: &'static str)
    requires
        n < 10,
    ensures
        r@ == seq![hex_digit(n as int)],
{
    proof {
        reveal_strlit("0");
        reveal_strlit("1");
        reveal_strlit("2");
        reveal_strlit("3");
        reveal_strlit("4");
        reveal_strlit("5");
        reveal_strlit("6");
        reveal_strlit("7");
        reveal_strlit("8");
        reveal_strlit("9");
    }
    match n {
        0 => "0",
        1 => "1",
        2 => "2",
        3 => "3",
        4 => "4",
        5 => "5",
        6 => "6",
        7 => "7",
        8 => "8",
        _ => "9",
    }
}

/// Appends the last `width` decimal digits of `n`, zero-padded.
fn push_padded(out: &mut String, n: u32, width: u32)
    requires
        width <= 4,
    ensures
        final(out)@ == old(out)@ + padded_digits(n as int, width as nat),
    decreases width,
{
    if width > 0 {
        push_padded(out, n / 10, width - 1);
        out.append(digit_str(n % 10));
    }
}

/// The name of the record file for `category` on `date`.
pub fn record_file_name(category: Category, date: CalendarDate) -> (r: String)
    ensures
        r@ == record_file_name_text(category, date),
{
    proof {
        reveal_strlit("_");
    }
    let mut name = String::from_str(category.name());
    name.append("_");
    push_padded(&mut name, date.year, 4);
    name.append("_");
    push_padded(&mut name, date.month, 2);
    name.append("_");
    push_padded(&mut name, date.day, 2);
    name.append(".txt");
    name
}

} // verus!
