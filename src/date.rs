//! Local calendar days, their canonical `YYYY-MM-DD` text, and the calendar
//! arithmetic that the streak rules need.
use vstd::prelude::*;
use chrono::Datelike;

verus! {

/// Gregorian leap-year rule, extended to every year (proleptic calendar).
pub open spec fn is_leap_year(y: int) -> bool {
    y % 4 == 0 && (y % 100 != 0 || y % 400 == 0)
}

pub open spec fn days_in_month(y: int, m: int) -> int {
    if m == 2 {
        if is_leap_year(y) { 29 } else { 28 }
    } else if m == 4 || m == 6 || m == 9 || m == 11 {
        30
    } else {
        31
    }
}

/// `(y, m, d)` names a day of the proleptic Gregorian calendar.
pub open spec fn is_calendar_day(y: int, m: int, d: int) -> bool {
    1 <= m <= 12 && 1 <= d <= days_in_month(y, m)
}

/// Weekday of a calendar day, counted from Monday (0) to Sunday (6), as the
/// calendar library reports it.
pub uninterp spec fn weekday_from_monday(y: int, m: int, d: int) -> int;

/// A day of the local calendar.
#[derive(Clone, Copy, Debug, PartialEq, Eq, Structural, PartialOrd, Ord, Hash)]
pub struct CalendarDate {
    pub year: i32,
    pub month: u32,
    pub day: u32,
}

/// Bounds on the year of a date that the canonical text can hold.
pub const FIRST_YEAR: i32 = 0;
pub const LAST_YEAR: i32 = 9999;

impl CalendarDate {
    pub open spec fn is_day(self) -> bool {
        is_calendar_day(self.year as int, self.month as int, self.day as int)
    }

    /// A calendar day whose year has four digits.
    pub open spec fn valid(self) -> bool {
        self.is_day() && FIRST_YEAR <= self.year <= LAST_YEAR
    }

    /// A calendar day whose year the calendar library handles (it goes much
    /// further; this range is all the streak rules reach).
    pub open spec fn in_range(self) -> bool {
        self.is_day() && -LAST_YEAR <= self.year <= LAST_YEAR
    }

    /// The calendar day before this one.
    pub open spec fn prev(self) -> CalendarDate {
        if self.day > 1 {
            CalendarDate { year: self.year, month: self.month, day: (self.day - 1) as u32 }
        } else if self.month > 1 {
            CalendarDate {
                year: self.year,
                month: (self.month - 1) as u32,
                day: days_in_month(self.year as int, self.month - 1) as u32,
            }
        } else {
            CalendarDate { year: (self.year - 1) as i32, month: 12, day: 31 }
        }
    }

    /// The day `n` days before this one.
    pub open spec fn back(self, n: nat) -> CalendarDate
        decreases n,
    {
        if n == 0 {
            self
        } else {
            self.back((n - 1) as nat).prev()
        }
    }

    /// Chronological order.
    pub open spec fn before(self, other: CalendarDate) -> bool {
        self.year < other.year || (self.year == other.year && (self.month < other.month || (
        self.month == other.month && self.day < other.day)))
    }

    /// The date with these fields, if they name a day with a four-digit year.
    pub fn from_ymd(year: i32, month: u32, day: u32) -> (r: Option<CalendarDate>)
        ensures
            r == (if (CalendarDate { year, month, day }).valid() {
                Some(CalendarDate { year, month, day })
            } else {
                None
            }),
    {
        if year < FIRST_YEAR || year > LAST_YEAR || month < 1 || month > 12 || day < 1 {
            return None;
        }
        if day > month_length(year, month) {
            None
        } else {
            Some(CalendarDate { year, month, day })
        }
    }

    /// The calendar day before this one, across month and year ends.
    pub fn previous_day(self) -> (r: CalendarDate)
        requires
            self.in_range(),
        ensures
            r == self.prev(),
            r.is_day(),
            r.year >= self.year - 1,
    {
        let (year, month, day) = chrono_pred(self.year, self.month, self.day);
        CalendarDate { year, month, day }
    }

    /// Weekday counted from Monday (0) to Sunday (6).
    pub fn weekday(self) -> (r: u32)
        requires
            self.in_range(),
        ensures
            r == weekday_from_monday(self.year as int, self.month as int, self.day as int),
            r < 7,
    {
        chrono_weekday(self.year, self.month, self.day)
    }

    /// Whether this is a calendar day with a four-digit year.
    pub fn is_valid(&self) -> (r: bool)
        ensures
            r == self.valid(),
    {
        CalendarDate::from_ymd(self.year, self.month, self.day).is_some()
    }

    /// Whether this date comes strictly before `other`.
    pub fn is_before(&self, other: &CalendarDate) -> (r: bool)
        ensures
            r == self.before(*other),
    {
        self.year < other.year || (self.year == other.year && (self.month < other.month || (
        self.month == other.month && self.day < other.day)))
    }

    /// The canonical text `YYYY-MM-DD`.
    pub fn to_iso_string(&self) -> (r: String)
        requires
            self.valid(),
        ensures
            r@ == iso_text(*self),
    {
        chrono_text(self.year, self.month, self.day)
    }
}

/// Number of days in a month of a year.
pub fn month_length(year: i32, month: u32) -> (r: u32)
    requires
        1 <= month <= 12,
    ensures
        r == days_in_month(year as int, month as int),
{
    if month == 2 {
        if year % 4 == 0 && (year % 100 != 0 || year % 400 == 0) {
            29
        } else {
            28
        }
    } else if month == 4 || month == 6 || month == 9 || month == 11 {
        30
    } else {
        31
    }
}

pub open spec fn digit(n: int) -> char {
    if n == 0 { '0' }
    else if n == 1 { '1' }
    else if n == 2 { '2' }
    else if n == 3 { '3' }
    else if n == 4 { '4' }
    else if n == 5 { '5' }
    else if n == 6 { '6' }
    else if n == 7 { '7' }
    else if n == 8 { '8' }
    else { '9' }
}

/// Value of a decimal digit, or -1 for any other character.
pub open spec fn digit_value(c: char) -> int {
    if c == '0' { 0 }
    else if c == '1' { 1 }
    else if c == '2' { 2 }
    else if c == '3' { 3 }
    else if c == '4' { 4 }
    else if c == '5' { 5 }
    else if c == '6' { 6 }
    else if c == '7' { 7 }
    else if c == '8' { 8 }
    else if c == '9' { 9 }
    else { -1 }
}

/// Two decimal digits of `n`, zero-padded.
pub open spec fn two_digits(n: int) -> Seq<char> {
    seq![digit(n / 10), digit(n % 10)]
}

/// The canonical text of a date with a four-digit year: `YYYY-MM-DD`.
pub open spec fn iso_text(d: CalendarDate) -> Seq<char> {
    two_digits(d.year as int / 100) + two_digits(d.year as int % 100) + seq!['-'] + two_digits(d.month as int)
        + seq!['-'] + two_digits(d.day as int)
}

pub open spec fn digits_at(t: Seq<char>, i: int, n: int) -> bool {
    forall|k: int| i <= k < i + n ==> 0 <= #[trigger] digit_value(t[k])
}

pub open spec fn number_at(t: Seq<char>, i: int, n: nat) -> int
    decreases n,
{
    if n == 0 {
        0
    } else {
        number_at(t, i, (n - 1) as nat) * 10 + digit_value(t[i + n - 1])
    }
}

/// The date that a text names in the canonical form, if it names one.
pub open spec fn iso_parse(t: Seq<char>) -> Option<CalendarDate> {
    if t.len() == 10 && t[4] == '-' && t[7] == '-' && digits_at(t, 0, 4) && digits_at(t, 5, 2)
        && digits_at(t, 8, 2) && is_calendar_day(
        number_at(t, 0, 4),
        number_at(t, 5, 2),
        number_at(t, 8, 2),
    ) {
        Some(
            CalendarDate {
                year: number_at(t, 0, 4) as i32,
                month: number_at(t, 5, 2) as u32,
                day: number_at(t, 8, 2) as u32,
            },
        )
    } else {
        None
    }
}

pub open spec fn pow10(k: nat) -> int
    decreases k,
{
    if k == 0 {
        1
    } else {
        10 * pow10((k - 1) as nat)
    }
}

/// Value of a decimal digit character, or -1.
fn char_digit(c: char) -> (r: i32)
    ensures
        r == digit_value(c),
{
    if c == '0' { 0 }
    else if c == '1' { 1 }
    else if c == '2' { 2 }
    else if c == '3' { 3 }
    else if c == '4' { 4 }
    else if c == '5' { 5 }
    else if c == '6' { 6 }
    else if c == '7' { 7 }
    else if c == '8' { 8 }
    else if c == '9' { 9 }
    else { -1 }
}

/// The number written by the `n` characters from `start`, or -1 where one of
/// them is not a decimal digit.
fn read_number(text: &str, start: usize, n: usize) -> (r: i32)
    requires
        start + n <= text@.len(),
        start + n <= 10,
        n <= 4,
    ensures
        r >= 0 <==> digits_at(text@, start as int, n as int),
        r >= 0 ==> r == number_at(text@, start as int, n as nat),
{
    let mut v: i32 = 0;
    let mut k: usize = 0;
    while k < n
        invariant
            k <= n <= 4,
            start + n <= text@.len(),
            start + n <= 10,
            digits_at(text@, start as int, k as int),
            v == number_at(text@, start as int, k as nat),
            0 <= v < pow10(k as nat),
        decreases n - k,
    {
        let c = char_digit(text.get_char(start + k));
        if c < 0 {
            assert(!digits_at(text@, start as int, n as int)) by {
                assert(digit_value(text@[start + k]) < 0);
            }
            return -1;
        }
        proof {
            reveal_with_fuel(pow10, 5);
            let p = pow10(k as nat);
            assert(p <= 1000);
            assert(v * 10 + c < p * 10) by (nonlinear_arith)
                requires
                    0 <= v < p,
                    0 <= c <= 9,
            ;
            assert(pow10((k + 1) as nat) == p * 10);
        }
        v = v * 10 + c;
        k = k + 1;
        assert(number_at(text@, start as int, k as nat) == number_at(
            text@,
            start as int,
            (k - 1) as nat,
        ) * 10 + digit_value(text@[start + k - 1]));
    }
    v
}

/// The date named by a text in the canonical form `YYYY-MM-DD`; any other
/// text, or one that names no calendar day, gives `None`.
pub fn parse_iso(text: &str) -> (r: Option<CalendarDate>)
    ensures
        r == iso_parse(text@),
{
    if text.unicode_len() != 10 {
        return None;
    }
    if text.get_char(4) != '-' || text.get_char(7) != '-' {
        return None;
    }
    let year = read_number(text, 0, 4);
    let month = read_number(text, 5, 2);
    let day = read_number(text, 8, 2);
    if year < 0 || month < 0 || day < 0 {
        return None;
    }
    proof {
        reveal_with_fuel(pow10, 5);
    }
    let month = month as u32;
    let day = day as u32;
    if month < 1 || month > 12 || day < 1 || day > month_length(year, month) {
        return None;
    }
    Some(CalendarDate { year, month, day })
}

proof fn lemma_digit_round_trip(n: int)
    requires
        0 <= n <= 9,
    ensures
        digit_value(digit(n)) == n,
{
}

/// Reading back the canonical text of a date gives the date.
pub proof fn lemma_iso_round_trip(d: CalendarDate)
    requires
        d.valid(),
    ensures
        iso_parse(iso_text(d)) == Some(d),
{
    let t = iso_text(d);
    let y = d.year as int;
    let (hi, lo) = (y / 100, y % 100);
    let (m, dd) = (d.month as int, d.day as int);
    assert(0 <= hi <= 99 && 0 <= lo <= 99);
    lemma_digit_round_trip(hi / 10);
    lemma_digit_round_trip(hi % 10);
    lemma_digit_round_trip(lo / 10);
    lemma_digit_round_trip(lo % 10);
    lemma_digit_round_trip(m / 10);
    lemma_digit_round_trip(m % 10);
    lemma_digit_round_trip(dd / 10);
    lemma_digit_round_trip(dd % 10);
    assert(t.len() == 10);
    assert(t[0] == digit(hi / 10) && t[1] == digit(hi % 10) && t[2] == digit(lo / 10) && t[3]
        == digit(lo % 10));
    assert(t[4] == '-' && t[7] == '-');
    assert(t[5] == digit(m / 10) && t[6] == digit(m % 10));
    assert(t[8] == digit(dd / 10) && t[9] == digit(dd % 10));
    assert(digits_at(t, 0, 4));
    assert(digits_at(t, 5, 2));
    assert(digits_at(t, 8, 2));
    reveal_with_fuel(number_at, 5);
    assert(number_at(t, 0, 4) == ((hi / 10 * 10 + hi % 10) * 10 + lo / 10) * 10 + lo % 10);
    assert(number_at(t, 0, 4) == y) by (nonlinear_arith)
        requires
            number_at(t, 0, 4) == ((hi / 10 * 10 + hi % 10) * 10 + lo / 10) * 10 + lo % 10,
            hi == y / 100,
            lo == y % 100,
            0 <= y <= 9999,
    ;
    assert(number_at(t, 5, 2) == m);
    assert(number_at(t, 8, 2) == dd);
}

/// Today's date in the host's local time zone; `None` in the (theoretical)
/// case that the clock shows a year without four digits.
pub fn today() -> (r: Option<CalendarDate>)
    ensures
        r matches Some(d) ==> d.valid(),
{
    let (year, month, day) = chrono_local_today();
    CalendarDate::from_ymd(year, month, day)
}

/// Relies on chrono's `Local::now` and `DateTime::date_naive`: the local
/// calendar day of the current instant. Nothing is known of which day it is.
#[verifier::external_body]
fn chrono_local_today() -> (r: (i32, u32, u32))
{
    let d = chrono::Local::now().date_naive();
    (d.year(), d.month(), d.day())
}

/// Relies on chrono's `NaiveDate::from_ymd_opt` and `NaiveDate::pred_opt`: the
/// calendar day before a given one.
#[verifier::external_body]
fn chrono_pred(year: i32, month: u32, day: u32) -> (r: (i32, u32, u32))
    requires
        (CalendarDate { year, month, day }).in_range(),
    ensures
        (CalendarDate { year: r.0, month: r.1, day: r.2 }) == (CalendarDate {
            year,
            month,
            day,
        }).prev(),
{
    let p = chrono::NaiveDate::from_ymd_opt(year, month, day).unwrap().pred_opt().unwrap();
    (p.year(), p.month(), p.day())
}

/// Relies on chrono's `Datelike::weekday` and `Weekday::num_days_from_monday`.
#[verifier::external_body]
fn chrono_weekday(year: i32, month: u32, day: u32) -> (r: u32)
    requires
        (CalendarDate { year, month, day }).in_range(),
    ensures
        r == weekday_from_monday(year as int, month as int, day as int),
        r < 7,
{
    chrono::NaiveDate::from_ymd_opt(year, month, day).unwrap().weekday().num_days_from_monday()
}

/// Relies on chrono's `Display` for `NaiveDate`: a year from 0 to 9999 is
/// written with four digits, month and day with two, joined by `-`.
#[verifier::external_body]
fn chrono_text(year: i32, month: u32, day: u32) -> (r: String)
    requires
        (CalendarDate { year, month, day }).valid(),
    ensures
        r@ == iso_text(CalendarDate { year, month, day }),
{
    chrono::NaiveDate::from_ymd_opt(year, month, day).unwrap().to_string()
}

} // verus!
