//! Calendar dates and due timestamps, modelled as plain year/month/day (and
//! hour/minute) fields with a validity invariant, together with the fixed
//! `YYYY.MM.DD@hh:mm` textual form that due dates are typed and shown in, and
//! day-stepping for the timeline calendar cursor.

use vstd::prelude::*;
use crate::text::{digit_char, spec_trim, str_chars, trim_chars, chars_string};

verus! {

/// A calendar day.
#[derive(Clone, Copy, PartialEq, Eq, Structural, Debug)]
pub struct Date {
    pub year: u16,
    pub month: u8,
    pub day: u8,
}

/// A due timestamp: a calendar day plus a minute of that day.
#[derive(Clone, Copy, PartialEq, Eq, Structural, Debug)]
pub struct DateTime {
    pub year: u16,
    pub month: u8,
    pub day: u8,
    pub hour: u8,
    pub minute: u8,
}

pub open spec fn is_leap_year(y: int) -> bool {
    y % 4 == 0 && (y % 100 != 0 || y % 400 == 0)
}

/// Number of days in the given month of the given year.
pub open spec fn month_days(y: int, m: int) -> int {
    if m == 2 {
        if is_leap_year(y) {
            29
        } else {
            28
        }
    } else if m == 4 || m == 6 || m == 9 || m == 11 {
        30
    } else {
        31
    }
}

/// Executable twin of [`month_days`].
pub fn days_in_month(year: u16, month: u8) -> (r: u8)
    ensures
        r as int == month_days(year as int, month as int),
{
    if month == 2 {
        if year % 4 == 0 && (year % 100 != 0 || year % 400 == 0) {
            29
        } else {
            28
        }
    } else if month == 4 || month == 6 || month == 9 || month == 11 {
        30
    } else {
        31
    }
}

impl Date {
    /// A real calendar day with a four-digit year.
    pub open spec fn valid(self) -> bool {
        self.year <= 9999 && 1 <= self.month <= 12 && 1 <= self.day && self.day as int
            <= month_days(self.year as int, self.month as int)
    }

    /// Total order on days: later days have larger keys, equal keys mean equal
    /// days.
    pub open spec fn key_spec(self) -> int {
        (self.year as int * 256 + self.month as int) * 256 + self.day as int
    }

    /// Executable twin of [`Date::key_spec`].
    pub fn key(&self) -> (k: u64)
        ensures
            k as int == self.key_spec(),
    {
        (self.year as u64 * 256 + self.month as u64) * 256 + self.day as u64
    }

    /// Executable validity check.
    pub fn is_valid(&self) -> (r: bool)
        ensures
            r == self.valid(),
    {
        self.year <= 9999 && 1 <= self.month && self.month <= 12 && 1 <= self.day && self.day
            <= days_in_month(self.year, self.month)
    }
}

/// The day after `d`, staying put at the last representable day.
pub open spec fn spec_next_date(d: Date) -> Date {
    if (d.day as int) < month_days(d.year as int, d.month as int) {
        Date { year: d.year, month: d.month, day: (d.day + 1) as u8 }
    } else if d.month < 12 {
        Date { year: d.year, month: (d.month + 1) as u8, day: 1 }
    } else if d.year < 9999 {
        Date { year: (d.year + 1) as u16, month: 1, day: 1 }
    } else {
        d
    }
}

/// The day before `d`, staying put at the first representable day.
pub open spec fn spec_prev_date(d: Date) -> Date {
    if d.day > 1 {
        Date { year: d.year, month: d.month, day: (d.day - 1) as u8 }
    } else if d.month > 1 {
        Date {
            year: d.year,
            month: (d.month - 1) as u8,
            day: month_days(d.year as int, d.month as int - 1) as u8,
        }
    } else if d.year > 0 {
        Date { year: (d.year - 1) as u16, month: 12, day: 31 }
    } else {
        d
    }
}

/// `d` shifted by `delta` days, one day at a time.
pub open spec fn spec_shift_date(d: Date, delta: int) -> Date
    decreases
            (if delta >= 0 {
                delta
            } else {
                -delta
            }),
{
    if delta == 0 {
        d
    } else if delta > 0 {
        spec_shift_date(spec_next_date(d), delta - 1)
    } else {
        spec_shift_date(spec_prev_date(d), delta + 1)
    }
}

/// Executable twin of [`spec_next_date`]; a valid day steps to a valid day.
pub fn next_date(d: Date) -> (r: Date)
    requires
        d.valid(),
    ensures
        r == spec_next_date(d),
        r.valid(),
{
    let dim = days_in_month(d.year, d.month);
    if d.day < dim {
        Date { year: d.year, month: d.month, day: d.day + 1 }
    } else if d.month < 12 {
        Date { year: d.year, month: d.month + 1, day: 1 }
    } else if d.year < 9999 {
        Date { year: d.year + 1, month: 1, day: 1 }
    } else {
        d
    }
}

/// Executable twin of [`spec_prev_date`]; a valid day steps to a valid day.
pub fn prev_date(d: Date) -> (r: Date)
    requires
        d.valid(),
    ensures
        r == spec_prev_date(d),
        r.valid(),
{
    if d.day > 1 {
        Date { year: d.year, month: d.month, day: d.day - 1 }
    } else if d.month > 1 {
        Date { year: d.year, month: d.month - 1, day: days_in_month(d.year, d.month - 1) }
    } else if d.year > 0 {
        Date { year: d.year - 1, month: 12, day: 31 }
    } else {
        d
    }
}

/// `d` shifted by `delta` days (a week at most in this application, but any
/// count works), clamped at the calendar's ends.
pub fn shift_date(d: Date, delta: i32) -> (r: Date)
    requires
        d.valid(),
    ensures
        r == spec_shift_date(d, delta as int),
        r.valid(),
{
    let mut cur = d;
    if delta >= 0 {
        let mut i: i32 = 0;
        while i < delta
            invariant
                0 <= i <= delta,
                cur.valid(),
                spec_shift_date(cur, delta - i) == spec_shift_date(d, delta as int),
            decreases delta - i,
        {
            cur = next_date(cur);
            i += 1;
        }
    } else {
        let mut i: i32 = 0;
        while i > delta
            invariant
                delta <= i <= 0,
                cur.valid(),
                spec_shift_date(cur, delta - i) == spec_shift_date(d, delta as int),
            decreases i - delta,
        {
            cur = prev_date(cur);
            i -= 1;
        }
    }
    cur
}

impl DateTime {
    /// A real calendar day plus an in-range hour and minute.
    pub open spec fn valid(self) -> bool {
        self.year <= 9999 && 1 <= self.month <= 12 && 1 <= self.day && self.day as int
            <= month_days(self.year as int, self.month as int) && self.hour <= 23 && self.minute
            <= 59
    }

    /// Total order on timestamps: later instants have larger keys, equal keys
    /// mean equal timestamps.
    pub open spec fn key_spec(self) -> int {
        (((self.year as int * 256 + self.month as int) * 256 + self.day as int) * 256
            + self.hour as int) * 256 + self.minute as int
    }

    /// The calendar day this timestamp falls on.
    pub open spec fn date_spec(self) -> Date {
        Date { year: self.year, month: self.month, day: self.day }
    }

    /// Executable twin of [`DateTime::key_spec`].
    pub fn key(&self) -> (k: u64)
        ensures
            k as int == self.key_spec(),
    {
        (((self.year as u64 * 256 + self.month as u64) * 256 + self.day as u64) * 256
            + self.hour as u64) * 256 + self.minute as u64
    }

    /// Executable twin of [`DateTime::date_spec`].
    pub fn date(&self) -> (d: Date)
        ensures
            d == self.date_spec(),
            self.valid() ==> d.valid(),
    {
        Date { year: self.year, month: self.month, day: self.day }
    }

    /// Executable validity check.
    pub fn is_valid(&self) -> (r: bool)
        ensures
            r == self.valid(),
    {
        self.year <= 9999 && 1 <= self.month && self.month <= 12 && 1 <= self.day && self.day
            <= days_in_month(self.year, self.month) && self.hour <= 23 && self.minute <= 59
    }
}

/// Rejection of a due-date string that is neither empty nor of the fixed
/// `YYYY.MM.DD@hh:mm` form.
#[derive(Clone, Copy, PartialEq, Eq, Structural, Debug)]
pub struct ParseDueError;

pub open spec fn is_digit(c: char) -> bool {
    '0' <= c <= '9'
}

pub open spec fn digit_val(c: char) -> int {
    c as int - 48
}

pub open spec fn two_digits(n: int) -> Seq<char> {
    seq![digit_char(n / 10), digit_char(n % 10)]
}

pub open spec fn four_digits(n: int) -> Seq<char> {
    seq![
        digit_char(n / 1000),
        digit_char((n / 100) % 10),
        digit_char((n / 10) % 10),
        digit_char(n % 10),
    ]
}

/// The one textual form of a due timestamp: `YYYY.MM.DD@hh:mm`.
pub open spec fn due_text(dt: DateTime) -> Seq<char> {
    four_digits(dt.year as int) + seq!['.'] + two_digits(dt.month as int) + seq!['.'] + two_digits(
        dt.day as int,
    ) + seq!['@'] + two_digits(dt.hour as int) + seq![':'] + two_digits(dt.minute as int)
}

/// Whether `t` is shaped like `YYYY.MM.DD@hh:mm`: 16 characters, digits and
/// the three separators in their fixed places.
pub open spec fn due_text_shape(t: Seq<char>) -> bool {
    t.len() == 16 && is_digit(t[0]) && is_digit(t[1]) && is_digit(t[2]) && is_digit(t[3]) && t[4]
        == '.' && is_digit(t[5]) && is_digit(t[6]) && t[7] == '.' && is_digit(t[8]) && is_digit(
        t[9],
    ) && t[10] == '@' && is_digit(t[11]) && is_digit(t[12]) && t[13] == ':' && is_digit(t[14])
        && is_digit(t[15])
}

pub open spec fn text_num2(t: Seq<char>, i: int) -> int {
    digit_val(t[i]) * 10 + digit_val(t[i + 1])
}

pub open spec fn text_num4(t: Seq<char>, i: int) -> int {
    digit_val(t[i]) * 1000 + digit_val(t[i + 1]) * 100 + digit_val(t[i + 2]) * 10 + digit_val(
        t[i + 3],
    )
}

/// The timestamp spelled by a well-shaped due string.
pub open spec fn dt_of_text(t: Seq<char>) -> DateTime {
    DateTime {
        year: text_num4(t, 0) as u16,
        month: text_num2(t, 5) as u8,
        day: text_num2(t, 8) as u8,
        hour: text_num2(t, 11) as u8,
        minute: text_num2(t, 14) as u8,
    }
}

/// Whether `t` spells a due timestamp: right shape and a real calendar value.
pub open spec fn is_due_text(t: Seq<char>) -> bool {
    due_text_shape(t) && dt_of_text(t).valid()
}

/// A calendar day rendered as `YYYY-MM-DD`.
pub open spec fn date_text(d: Date) -> Seq<char> {
    four_digits(d.year as int) + seq!['-'] + two_digits(d.month as int) + seq!['-'] + two_digits(
        d.day as int,
    )
}

/// Renders a calendar day in its `YYYY-MM-DD` form.
pub fn format_date(d: &Date) -> (r: String)
    requires
        d.valid(),
    ensures
        r@ == date_text(*d),
{
    let mut out: Vec<char> = Vec::new();
    out.push((48 + (d.year / 1000) as u8) as char);
    out.push((48 + ((d.year / 100) % 10) as u8) as char);
    out.push((48 + ((d.year / 10) % 10) as u8) as char);
    out.push((48 + (d.year % 10) as u8) as char);
    out.push('-');
    out.push((48 + d.month / 10) as char);
    out.push((48 + d.month % 10) as char);
    out.push('-');
    out.push((48 + d.day / 10) as char);
    out.push((48 + d.day % 10) as char);
    proof {
        assert(out@ =~= date_text(*d));
    }
    chars_string(&out)
}

/// Renders a due timestamp in its `YYYY.MM.DD@hh:mm` form.
pub fn format_due(dt: &DateTime) -> (r: String)
    requires
        dt.valid(),
    ensures
        r@ == due_text(*dt),
{
    let mut out: Vec<char> = Vec::new();
    out.push((48 + (dt.year / 1000) as u8) as char);
    out.push((48 + ((dt.year / 100) % 10) as u8) as char);
    out.push((48 + ((dt.year / 10) % 10) as u8) as char);
    out.push((48 + (dt.year % 10) as u8) as char);
    out.push('.');
    out.push((48 + dt.month / 10) as char);
    out.push((48 + dt.month % 10) as char);
    out.push('.');
    out.push((48 + dt.day / 10) as char);
    out.push((48 + dt.day % 10) as char);
    out.push('@');
    out.push((48 + dt.hour / 10) as char);
    out.push((48 + dt.hour % 10) as char);
    out.push(':');
    out.push((48 + dt.minute / 10) as char);
    out.push((48 + dt.minute % 10) as char);
    proof {
        assert(out@ =~= due_text(*dt));
    }
    chars_string(&out)
}

/// Reads a digit character.
fn digit_value(c: char) -> (d: u8)
    requires
        is_digit(c),
    ensures
        d as int == digit_val(c),
        d <= 9,
{
    if c == '0' {
        0
    } else if c == '1' {
        1
    } else if c == '2' {
        2
    } else if c == '3' {
        3
    } else if c == '4' {
        4
    } else if c == '5' {
        5
    } else if c == '6' {
        6
    } else if c == '7' {
        7
    } else if c == '8' {
        8
    } else {
        9
    }
}

fn is_digit_char(c: char) -> (r: bool)
    ensures
        r == is_digit(c),
{
    '0' <= c && c <= '9'
}

/// Parses an optional due date. After trimming, an empty string means "no due
/// date"; anything else must be exactly of the `YYYY.MM.DD@hh:mm` form and a
/// real calendar value, else the whole input is rejected.
pub fn parse_due(input: &str) -> (r: Result<Option<DateTime>, ParseDueError>)
    ensures
        r == Ok::<Option<DateTime>, ParseDueError>(None) <==> spec_trim(input@).len() == 0,
        r matches Ok(Some(dt)) ==> is_due_text(spec_trim(input@)) && dt == dt_of_text(
            spec_trim(input@),
        ),
        is_due_text(spec_trim(input@)) ==> r == Ok::<Option<DateTime>, ParseDueError>(
            Some(dt_of_text(spec_trim(input@))),
        ),
        r == Err::<Option<DateTime>, ParseDueError>(ParseDueError) <==> spec_trim(input@).len() > 0
            && !is_due_text(spec_trim(input@)),
{
    let chars = str_chars(input);
    let t = trim_chars(&chars);
    if t.len() == 0 {
        return Ok(None);
    }
    if t.len() != 16 {
        return Err(ParseDueError);
    }
    if !(t[4] == '.' && t[7] == '.' && t[10] == '@' && t[13] == ':') {
        return Err(ParseDueError);
    }
    if !(is_digit_char(t[0]) && is_digit_char(t[1]) && is_digit_char(t[2]) && is_digit_char(t[3])
        && is_digit_char(t[5]) && is_digit_char(t[6]) && is_digit_char(t[8]) && is_digit_char(t[9])
        && is_digit_char(t[11]) && is_digit_char(t[12]) && is_digit_char(t[14]) && is_digit_char(
        t[15],
    )) {
        return Err(ParseDueError);
    }
    let year: u16 = digit_value(t[0]) as u16 * 1000 + digit_value(t[1]) as u16 * 100 + digit_value(
        t[2],
    ) as u16 * 10 + digit_value(t[3]) as u16;
    let month: u8 = digit_value(t[5]) * 10 + digit_value(t[6]);
    let day: u8 = digit_value(t[8]) * 10 + digit_value(t[9]);
    let hour: u8 = digit_value(t[11]) * 10 + digit_value(t[12]);
    let minute: u8 = digit_value(t[14]) * 10 + digit_value(t[15]);
    let dt = DateTime { year, month, day, hour, minute };
    if dt.is_valid() {
        Ok(Some(dt))
    } else {
        Err(ParseDueError)
    }
}

/// A well-formed due timestamp survives the round trip through its textual
/// form: rendering it with [`format_due`] yields a string that [`parse_due`]
/// accepts and reads back as the same timestamp.
pub proof fn lemma_due_text_round_trip(dt: DateTime)
    requires
        dt.valid(),
    ensures
        is_due_text(due_text(dt)),
        dt_of_text(due_text(dt)) == dt,
{
    let t = due_text(dt);
    assert(t.len() == 16);
    lemma_digits_read_back(dt.year as int, 10000);
    lemma_digits_read_back(dt.month as int, 100);
    lemma_digits_read_back(dt.day as int, 100);
    lemma_digits_read_back(dt.hour as int, 100);
    lemma_digits_read_back(dt.minute as int, 100);
    assert(text_num4(t, 0) == dt.year as int);
    assert(text_num2(t, 5) == dt.month as int);
    assert(text_num2(t, 8) == dt.day as int);
    assert(text_num2(t, 11) == dt.hour as int);
    assert(text_num2(t, 14) == dt.minute as int);
    assert(dt_of_text(t) == dt);
}

/// Digit characters read back as the digits they were made from.
proof fn lemma_digits_read_back(n: int, bound: int)
    requires
        0 <= n < bound,
        bound == 100 || bound == 10000,
    ensures
        is_digit(digit_char(n % 10)),
        digit_val(digit_char(n % 10)) == n % 10,
        is_digit(digit_char((n / 10) % 10)),
        digit_val(digit_char((n / 10) % 10)) == (n / 10) % 10,
        is_digit(digit_char((n / 100) % 10)),
        digit_val(digit_char((n / 100) % 10)) == (n / 100) % 10,
        is_digit(digit_char(n / 1000)),
        digit_val(digit_char(n / 1000)) == n / 1000,
        bound == 100 ==> n / 10 == (n / 10) % 10,
        (n / 10) % 10 * 10 + n % 10 == n % 100,
        n / 1000 * 1000 + (n / 100) % 10 * 100 + (n / 10) % 10 * 10 + n % 10 == n,
{
    assert(0 <= n % 10 < 10);
    assert(0 <= (n / 10) % 10 < 10);
    assert(0 <= (n / 100) % 10 < 10);
    assert(0 <= n / 1000 < 10);
    assert(forall|d: int|
        0 <= d < 10 ==> is_digit(#[trigger] digit_char(d)) && digit_val(digit_char(d)) == d) by {
        assert(forall|d: int| 0 <= d < 10 ==> (#[trigger] digit_char(d)) as int == 48 + d);
    };
    assert((n / 10) % 10 * 10 + n % 10 == n % 100) by (nonlinear_arith)
        requires
            0 <= n,
    ;
    assert(n / 1000 * 1000 + (n / 100) % 10 * 100 + (n / 10) % 10 * 10 + n % 10 == n) by (
    nonlinear_arith)
        requires
            0 <= n < 10000,
    ;
}

} // verus!
