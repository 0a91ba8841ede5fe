//! Calendar days of the proleptic Gregorian calendar, counted from the common
//! era, and the Monday-to-Friday working-day rules of the scheduler.
//!
//! A [`Date`] holds the day number that `chrono` calls `num_days_from_ce`
//! (January 1 of year 1 is day 1). Day arithmetic, ordering and weekdays are
//! computed here on that number; the conversion to year, month and day and
//! the textual rendering are left to `chrono`.
use crate::text::{decimal, two_digits};
use chrono::Datelike;
use vstd::prelude::*;

verus! {

/// Day number of the earliest date `chrono` can represent (-262143-01-01).
pub const MIN_DAY: i32 = -95746129;

/// Day number of the latest date `chrono` can represent (262142-12-31).
pub const MAX_DAY: i32 = 95745399;

/// Earliest representable year.
pub const MIN_YEAR: i32 = -262143;

/// Latest representable year.
pub const MAX_YEAR: i32 = 262142;

/// Whether a day number denotes a representable date.
pub open spec fn day_in_range(n: int) -> bool {
    MIN_DAY <= n <= MAX_DAY
}

/// ISO weekday number of a day, Monday = 1 through Sunday = 7
/// (day 1, January 1 of year 1, is a Monday).
pub open spec fn weekday_of(n: int) -> int {
    (n - 1) % 7 + 1
}

/// Whether a day is a working day (Monday to Friday).
pub open spec fn is_working(n: int) -> bool {
    weekday_of(n) <= 5
}

/// The first working day on or after `n`.
pub open spec fn next_working(n: int) -> int {
    if is_working(n) {
        n
    } else if is_working(n + 1) {
        n + 1
    } else {
        n + 2
    }
}

/// Number of working days in the closed range `[a, b]` (zero when `a > b`).
pub open spec fn count_working(a: int, b: int) -> nat
    decreases b - a + 1,
{
    if a > b {
        0
    } else {
        count_working(a, b - 1) + if is_working(b) {
            1nat
        } else {
            0nat
        }
    }
}

/// The day reached by stepping `k` working days past `d` and then moving to
/// the next working day: the `k`-th working day strictly after `d` when
/// `k > 0`, and the first working day on or after `d` otherwise.
pub open spec fn add_working(d: int, k: int) -> int
    decreases k,
{
    if k <= 0 {
        next_working(d)
    } else {
        add_working(next_working(d + 1), k - 1)
    }
}





/// The day number of the date that `chrono` reads from a text in the format
/// `%Y-%m-%d`, or the message of the error it reports.
pub uninterp spec fn ymd_parse_result(text: Seq<char>) -> Result<int, Seq<char>>;

/// Whether `year` is a leap year of the Gregorian calendar.
pub open spec fn is_leap_year(year: int) -> bool {
    year % 4 == 0 && (year % 100 != 0 || year % 400 == 0)
}

/// Number of days in a month of a year.
pub open spec fn days_in_month(year: int, month: int) -> int {
    if month == 2 {
        if is_leap_year(year) {
            29
        } else {
            28
        }
    } else if month == 4 || month == 6 || month == 9 || month == 11 {
        30
    } else {
        31
    }
}

/// Days from January 1 of year 1 to January 1 of `year` (negative before
/// year 1): 365 a year plus a day for each leap year between.
pub open spec fn days_before_year(year: int) -> int {
    let y = year - 1;
    365 * y + y / 4 - y / 100 + y / 400
}

/// Days of `year` before the first of `month`.
pub open spec fn days_before_month(year: int, month: int) -> int {
    let leap_day: int = if is_leap_year(year) {
        1
    } else {
        0
    };
    if month <= 1 {
        0
    } else if month == 2 {
        31
    } else if month == 3 {
        59 + leap_day
    } else if month == 4 {
        90 + leap_day
    } else if month == 5 {
        120 + leap_day
    } else if month == 6 {
        151 + leap_day
    } else if month == 7 {
        181 + leap_day
    } else if month == 8 {
        212 + leap_day
    } else if month == 9 {
        243 + leap_day
    } else if month == 10 {
        273 + leap_day
    } else if month == 11 {
        304 + leap_day
    } else {
        334 + leap_day
    }
}

/// The day number of a year, month and day in the proleptic Gregorian
/// calendar, counting January 1 of year 1 as day 1 (`chrono`'s
/// `num_days_from_ce`).
#[verifier::opaque]
pub open spec fn days_from_civil(year: int, month: int, day: int) -> int {
    days_before_year(year) + days_before_month(year, month) + day
}

/// The year, month and day of a day number: the valid date whose day
/// number it is (by [`lemma_days_from_civil_ordered`] there is at most one).
pub open spec fn civil_date(days: int) -> (int, int, int) {
    choose|ymd: (int, int, int)| ymd_valid(ymd.0, ymd.1, ymd.2) && days_from_civil(ymd.0, ymd.1, ymd.2) == days
}

/// The year of a day number.
pub open spec fn civil_year(days: int) -> int {
    civil_date(days).0
}

/// The month (1..=12) of a day number.
pub open spec fn civil_month(days: int) -> int {
    civil_date(days).1
}

/// The day of the month of a day number.
pub open spec fn civil_day(days: int) -> int {
    civil_date(days).2
}

/// `s` padded on the left with zeros to at least `width` characters.
pub open spec fn zero_pad(s: Seq<char>, width: int) -> Seq<char>
    decreases width - s.len(),
{
    if s.len() >= width {
        s
    } else {
        zero_pad(seq!['0'] + s, width)
    }
}

/// A year as `chrono` renders `%Y`: zero-padded to four digits, with a
/// leading sign for years before 0 or after 9999.
pub open spec fn year_text(year: int) -> Seq<char> {
    if 0 <= year <= 9999 {
        zero_pad(decimal(year as nat), 4)
    } else if year > 9999 {
        seq!['+'] + zero_pad(decimal(year as nat), 4)
    } else {
        seq!['-'] + zero_pad(decimal((-year) as nat), 4)
    }
}

/// A day as year, month and day separated by `sep`: the year as in
/// [`year_text`], then month and day with two digits each.
pub open spec fn date_text(days: int, sep: char) -> Seq<char> {
    year_text(civil_year(days)) + seq![sep] + two_digits(civil_month(days) as nat) + seq![sep]
        + two_digits(civil_day(days) as nat)
}

/// The text `chrono` renders for a day under one of the supported formats
/// `%Y<s>%m<s>%d`, whose separator `<s>` is the third character of `fmt`.
pub open spec fn formatted_date(days: int, fmt: Seq<char>) -> Seq<char> {
    date_text(days, fmt[2])
}

/// The text `chrono` gives for a date at a time of day in the format
/// `%Y-%m-%dT%H:%M:%S`: the date, `T`, then hour, minute and second with two
/// digits each, separated by `:`.
pub open spec fn formatted_datetime(days: int, hour: int, minute: int, second: int) -> Seq<char> {
    date_text(days, '-') + seq!['T'] + two_digits(hour as nat) + seq![':'] + two_digits(
        minute as nat,
    ) + seq![':'] + two_digits(second as nat)
}

/// Number of days in a year.
pub open spec fn year_length(year: int) -> int {
    if is_leap_year(year) {
        366
    } else {
        365
    }
}

/// Consecutive years start `year_length` days apart.
proof fn lemma_next_year(year: int)
    ensures
        days_before_year(year + 1) == days_before_year(year) + year_length(year),
{
    let y = year - 1;
    assert(y + 1 == year);
    assert((y + 1) / 4 == y / 4 + (if year % 4 == 0 { 1int } else { 0 })) by (nonlinear_arith)
        requires
            y + 1 == year,
    {
        vstd::arithmetic::div_mod::lemma_fundamental_div_mod(y, 4);
        vstd::arithmetic::div_mod::lemma_fundamental_div_mod(y + 1, 4);
    }
    assert((y + 1) / 100 == y / 100 + (if year % 100 == 0 { 1int } else { 0 })) by (nonlinear_arith)
        requires
            y + 1 == year,
    {
        vstd::arithmetic::div_mod::lemma_fundamental_div_mod(y, 100);
        vstd::arithmetic::div_mod::lemma_fundamental_div_mod(y + 1, 100);
    }
    assert((y + 1) / 400 == y / 400 + (if year % 400 == 0 { 1int } else { 0 })) by (nonlinear_arith)
        requires
            y + 1 == year,
    {
        vstd::arithmetic::div_mod::lemma_fundamental_div_mod(y, 400);
        vstd::arithmetic::div_mod::lemma_fundamental_div_mod(y + 1, 400);
    }
    if year % 100 == 0 {
        assert(year % 4 == 0) by (nonlinear_arith)
            requires
                year % 100 == 0,
        ;
    }
    if year % 400 == 0 {
        assert(year % 100 == 0) by (nonlinear_arith)
            requires
                year % 400 == 0,
        ;
    }
}

/// A later year starts no earlier than the end of an earlier one.
proof fn lemma_years_ordered(a: int, b: int)
    requires
        a < b,
    ensures
        days_before_year(a) + year_length(a) <= days_before_year(b),
    decreases b - a,
{
    lemma_next_year(a);
    if a + 1 < b {
        lemma_years_ordered(a + 1, b);
        lemma_next_year(a + 1);
    }
}

/// Within a year, a valid date falls after the start of its month and
/// before the next month begins.
proof fn lemma_day_of_year(year: int, month: int, day: int)
    requires
        ymd_valid(year, month, day),
    ensures
        1 <= days_before_month(year, month) + day <= year_length(year),
        month < 12 ==> days_before_month(year, month) + day <= days_before_month(year, month + 1),
{
}

/// Later dates have larger day numbers: the day number orders dates as the
/// calendar does, year first, then month, then day.
pub proof fn lemma_days_from_civil_ordered(y1: int, m1: int, d1: int, y2: int, m2: int, d2: int)
    requires
        ymd_valid(y1, m1, d1),
        ymd_valid(y2, m2, d2),
        y1 < y2 || (y1 == y2 && m1 < m2) || (y1 == y2 && m1 == m2 && d1 < d2),
    ensures
        days_from_civil(y1, m1, d1) < days_from_civil(y2, m2, d2),
{
    reveal(days_from_civil);
    lemma_day_of_year(y1, m1, d1);
    lemma_day_of_year(y2, m2, d2);
    if y1 < y2 {
        lemma_years_ordered(y1, y2);
    } else if m1 < m2 {
        if m1 + 1 < m2 {
            assert(days_before_month(y1, m1 + 1) < days_before_month(y1, m2));
        }
    }
}

/// A valid date is the date of its own day number.
pub proof fn lemma_civil_date_of(year: int, month: int, day: int)
    requires
        ymd_valid(year, month, day),
    ensures
        civil_date(days_from_civil(year, month, day)) == (year, month, day),
{
    let n = days_from_civil(year, month, day);
    assert(ymd_valid((year, month, day).0, (year, month, day).1, (year, month, day).2)
        && days_from_civil((year, month, day).0, (year, month, day).1, (year, month, day).2) == n);
    let c = civil_date(n);
    if c != (year, month, day) {
        if c.0 < year || (c.0 == year && c.1 < month) || (c.0 == year && c.1 == month && c.2 < day) {
            lemma_days_from_civil_ordered(c.0, c.1, c.2, year, month, day);
        } else {
            lemma_days_from_civil_ordered(year, month, day, c.0, c.1, c.2);
        }
    }
}

/// Whether year, month and day name a date that `chrono` can represent.
pub open spec fn ymd_valid(year: int, month: int, day: int) -> bool {
    &&& MIN_YEAR <= year <= MAX_YEAR
    &&& 1 <= month <= 12
    &&& 1 <= day <= days_in_month(year, month)
}

/// The date formats this library renders.
pub open spec fn supported_format(fmt: Seq<char>) -> bool {
    fmt == "%Y/%m/%d"@ || fmt == "%Y-%m-%d"@
}

/// A calendar date.
#[derive(Clone, Copy, PartialEq, Eq, Debug, Hash)]
pub struct Date {
    days: i32,
}

impl View for Date {
    type V = int;

    closed spec fn view(&self) -> int {
        self.days as int
    }
}

impl Date {
    #[verifier::type_invariant]
    spec fn in_range(self) -> bool {
        day_in_range(self.days as int)
    }

    /// The day number (`num_days_from_ce`).
    pub fn days(&self) -> (r: i32)
        ensures
            r == self@,
            day_in_range(r as int),
    {
        proof {
            use_type_invariant(self);
        }
        self.days
    }

    /// The date with the given day number, if representable.
    pub fn from_days(n: i32) -> (r: Option<Date>)
        ensures
            r is Some <==> day_in_range(n as int),
            r matches Some(d) ==> d@ == n,
    {
        if MIN_DAY <= n && n <= MAX_DAY {
            Some(Date { days: n })
        } else {
            None
        }
    }

    /// The date with a day number known to be representable.
    pub fn from_days_in_range(n: i32) -> (r: Date)
        requires
            day_in_range(n as int),
        ensures
            r@ == n,
    {
        Date { days: n }
    }

    /// The date of a year, month and day (`NaiveDate::from_ymd_opt`).
    pub fn from_ymd(year: i32, month: u32, day: u32) -> (r: Option<Date>)
        ensures
            r is Some <==> ymd_valid(year as int, month as int, day as int),
            r matches Some(d) ==> d@ == days_from_civil(year as int, month as int, day as int),
    {
        match chrono_days_from_ymd(year, month, day) {
            Some(n) => Some(Date { days: n }),
            None => None,
        }
    }

    /// The date `chrono` reads from `text` in the format `%Y-%m-%d`, or the
    /// message of the error it reports.
    pub fn parse_ymd(text: &str) -> (r: Result<Date, String>)
        ensures
            match ymd_parse_result(text@) {
                Ok(n) => r matches Ok(d) && d@ == n,
                Err(m) => r matches Err(e) && e@ == m,
            },
    {
        match chrono_parse_ymd(text) {
            Ok(n) => Ok(Date { days: n }),
            Err(m) => Err(m),
        }
    }

    /// The date `n` days later (earlier when `n` is negative), which must be
    /// representable (`date + Duration::days(n)`).
    pub fn add_days(self, n: i64) -> (r: Date)
        requires
            day_in_range(self@ + n),
        ensures
            r@ == self@ + n,
    {
        Date { days: (self.days as i64 + n) as i32 }
    }

    /// The following day (`date + Duration::days(1)`).
    pub fn succ(self) -> (r: Date)
        requires
            self@ < MAX_DAY,
        ensures
            r@ == self@ + 1,
    {
        proof {
            use_type_invariant(&self);
        }
        Date { days: self.days + 1 }
    }

    /// Whether `self` falls on or before `other`.
    pub fn le(&self, other: &Date) -> (r: bool)
        ensures
            r == (self@ <= other@),
    {
        self.days <= other.days
    }

    /// Whether `self` falls before `other`.
    pub fn lt(&self, other: &Date) -> (r: bool)
        ensures
            r == (self@ < other@),
    {
        self.days < other.days
    }

    /// The earlier of two dates (`Ord::min`).
    pub fn min(self, other: Date) -> (r: Date)
        ensures
            r@ == if self@ <= other@ {
                self@
            } else {
                other@
            },
    {
        if self.days <= other.days {
            self
        } else {
            other
        }
    }

    /// The later of two dates (`Ord::max`).
    pub fn max(self, other: Date) -> (r: Date)
        ensures
            r@ == if self@ >= other@ {
                self@
            } else {
                other@
            },
    {
        if self.days >= other.days {
            self
        } else {
            other
        }
    }

    /// ISO weekday number, Monday = 1 through Sunday = 7
    /// (`weekday().number_from_monday()`).
    pub fn weekday_number(&self) -> (r: u32)
        ensures
            r == weekday_of(self@),
            1 <= r <= 7,
    {
        proof {
            use_type_invariant(self);
        }
        let shifted: u32 = (self.days as i64 - MIN_DAY as i64) as u32;
        // MIN_DAY is a Thursday: (MIN_DAY - 1) % 7 == 3.
        let r = (shifted % 7 + 3) % 7 + 1;
        proof {
            let n = self.days as int;
            assert((n - 1) % 7 == ((n - MIN_DAY) % 7 + 3) % 7) by (nonlinear_arith)
                requires
                    MIN_DAY == -95746129,
                    n >= MIN_DAY,
            {
                assert(n - 1 == (n - MIN_DAY) + (-95746130));
                assert(-95746130int == -13678019 * 7 + 3);
            }
        }
        r
    }

    /// The year (`Datelike::year`).
    pub fn year(&self) -> (r: i32)
        ensures
            r == civil_year(self@),
            MIN_YEAR <= r <= MAX_YEAR,
    {
        proof {
            use_type_invariant(self);
        }
        chrono_year(self.days)
    }

    /// The month, 1 through 12 (`Datelike::month`).
    pub fn month(&self) -> (r: u32)
        ensures
            r == civil_month(self@),
            1 <= r <= 12,
    {
        proof {
            use_type_invariant(self);
        }
        chrono_month(self.days)
    }

    /// The date rendered with `chrono`'s `format` in one of the supported formats.
    pub fn format(&self, fmt: &str) -> (r: String)
        requires
            supported_format(fmt@),
        ensures
            r@ == formatted_date(self@, fmt@),
    {
        proof {
            use_type_invariant(self);
        }
        chrono_format(self.days, fmt)
    }

    /// The date at a time of day, as `YYYY-MM-DDTHH:MM:SS`.
    pub fn datetime_text(&self, hour: u32, minute: u32, second: u32) -> (r: String)
        requires
            hour < 24,
            minute < 60,
            second < 60,
        ensures
            r@ == formatted_datetime(self@, hour as int, minute as int, second as int),
    {
        proof {
            use_type_invariant(self);
        }
        chrono_datetime(self.days, hour, minute, second)
    }
}

/// `chrono::NaiveDate::from_ymd_opt`, reported as a day number
/// (`num_days_from_ce`). The contract states when a date exists (chrono's
/// documented range and the Gregorian month lengths) and the day number it
/// yields (see [`days_from_civil`]).
#[verifier::external_body]
fn chrono_days_from_ymd(year: i32, month: u32, day: u32) -> (r: Option<i32>)
    ensures
        r is Some <==> ymd_valid(year as int, month as int, day as int),
        r matches Some(n) ==> n == days_from_civil(year as int, month as int, day as int)
            && day_in_range(n as int),
{
    match chrono::NaiveDate::from_ymd_opt(year, month, day) {
        Some(d) => Some(d.num_days_from_ce()),
        None => None,
    }
}

/// `chrono`'s `Datelike::year` of the date with the given day number: the
/// year of the valid date with that day number ([`civil_year`]), within
/// chrono's year range.
#[verifier::external_body]
fn chrono_year(days: i32) -> (r: i32)
    requires
        day_in_range(days as int),
    ensures
        r == civil_year(days as int),
        MIN_YEAR <= r <= MAX_YEAR,
{
    chrono::NaiveDate::from_num_days_from_ce_opt(days).unwrap().year()
}

/// `chrono`'s `Datelike::month` of the date with the given day number: the
/// month of the valid date with that day number ([`civil_month`]), in 1..=12.
#[verifier::external_body]
fn chrono_month(days: i32) -> (r: u32)
    requires
        day_in_range(days as int),
    ensures
        r == civil_month(days as int),
        1 <= r <= 12,
{
    chrono::NaiveDate::from_num_days_from_ce_opt(days).unwrap().month()
}

/// `chrono`'s `NaiveDate::format(fmt).to_string()` for the date with the given
/// day number, in one of the supported formats (`%Y/%m/%d`, `%Y-%m-%d`); the
/// contract states the text as chrono documents `%Y`, `%m` and `%d` (see
/// [`formatted_date`]).
#[verifier::external_body]
fn chrono_format(days: i32, fmt: &str) -> (r: String)
    requires
        day_in_range(days as int),
        supported_format(fmt@),
    ensures
        r@ == formatted_date(days as int, fmt@),
{
    chrono::NaiveDate::from_num_days_from_ce_opt(days).unwrap().format(fmt).to_string()
}

/// `chrono`'s `NaiveDateTime::new(date, time).format("%Y-%m-%dT%H:%M:%S")`
/// for the date with the given day number and the time built by
/// `NaiveTime::from_hms_opt`; the contract states the text as chrono
/// documents these specifiers (see [`formatted_datetime`]). Only valid times
/// of day are admitted, as `from_hms_opt` accepts no others.
#[verifier::external_body]
fn chrono_datetime(days: i32, hour: u32, minute: u32, second: u32) -> (r: String)
    requires
        day_in_range(days as int),
        hour < 24,
        minute < 60,
        second < 60,
    ensures
        r@ == formatted_datetime(days as int, hour as int, minute as int, second as int),
{
    let date = chrono::NaiveDate::from_num_days_from_ce_opt(days).unwrap();
    let time = chrono::NaiveTime::from_hms_opt(hour, minute, second).unwrap();
    chrono::NaiveDateTime::new(date, time).format("%Y-%m-%dT%H:%M:%S").to_string()
}

/// `chrono::NaiveDate::parse_from_str(text, "%Y-%m-%d")`, reported as a day
/// number or as the text of the parse error; the contract names the outcome
/// and states that a date read lies in chrono's range.
#[verifier::external_body]
fn chrono_parse_ymd(text: &str) -> (r: Result<i32, String>)
    ensures
        match r {
            Ok(n) => ymd_parse_result(text@) == Ok::<int, Seq<char>>(n as int) && day_in_range(
                n as int,
            ),
            Err(m) => ymd_parse_result(text@) == Err::<int, Seq<char>>(m@),
        },
{
    match chrono::NaiveDate::parse_from_str(text, "%Y-%m-%d") {
        Ok(d) => Ok(d.num_days_from_ce()),
        Err(e) => Err(e.to_string()),
    }
}

/// Dates with the same day number are the same date.
pub proof fn lemma_date_view_injective(a: Date, b: Date)
    requires
        a@ == b@,
    ensures
        a == b,
{
}

/// The latest representable date is a Monday.
pub proof fn lemma_max_day_is_working()
    ensures
        weekday_of(MAX_DAY as int) == 1,
        is_working(MAX_DAY as int),
{
    assert((95745399int - 1) % 7 == 0) by (nonlinear_arith);
}

/// Weekdays advance by one from day to day, wrapping from Sunday to Monday.
pub proof fn lemma_weekday_succ(n: int)
    ensures
        weekday_of(n + 1) == if weekday_of(n) == 7 {
            1
        } else {
            weekday_of(n) + 1
        },
        1 <= weekday_of(n) <= 7,
{
}

/// Of any three consecutive days at least one is a working day, so
/// `next_working` is the first working day on or after `n`.
pub proof fn lemma_next_working(n: int)
    ensures
        n <= next_working(n) <= n + 2,
        is_working(next_working(n)),
        forall|k: int| n <= k < next_working(n) ==> !is_working(k),
{
    lemma_weekday_succ(n);
    lemma_weekday_succ(n + 1);
}

/// A day that is not a working day has the same next working day as the day after it.
pub proof fn lemma_next_working_skip(n: int)
    requires
        !is_working(n),
    ensures
        next_working(n) == next_working(n + 1),
{
    lemma_weekday_succ(n);
    lemma_weekday_succ(n + 1);
    lemma_weekday_succ(n + 2);
}

/// Properties of `add_working`: it lands on a working day no earlier than
/// `d`, and when `k > 0` strictly later, with exactly `k` working days in
/// `(d, add_working(d, k)]`.
pub proof fn lemma_add_working(d: int, k: int)
    ensures
        is_working(add_working(d, k)),
        add_working(d, k) >= d,
        k > 0 ==> add_working(d, k) > d && count_working(d + 1, add_working(d, k)) == k,
    decreases k,
{
    lemma_next_working(d);
    if k > 0 {
        let x = next_working(d + 1);
        lemma_next_working(d + 1);
        lemma_add_working(x, k - 1);
        lemma_count_working_none(d + 1, x - 1);
        lemma_count_working_split(d + 1, x, x);
        assert(count_working(x, x) == 1) by {
            assert(count_working(x, x - 1) == 0);
        }
        if k - 1 > 0 {
            lemma_count_working_split(d + 1, x + 1, add_working(x, k - 1));
        } else {
            lemma_next_working(x);
            assert(add_working(x, 0) == x);
        }
    }
}

/// No working day lies in `[a, b]` when none of its days is a working day.
pub proof fn lemma_count_working_none(a: int, b: int)
    requires
        forall|k: int| a <= k <= b ==> !is_working(k),
    ensures
        count_working(a, b) == 0,
    decreases b - a + 1,
{
    if a <= b {
        lemma_count_working_none(a, b - 1);
    }
}

/// Splitting `[a, c]` at a working day `b`: the count of `[a, c]` is the count
/// of `[a, b - 1]` plus that of `[b, c]`.
pub proof fn lemma_count_working_split(a: int, b: int, c: int)
    requires
        a <= b <= c + 1,
    ensures
        count_working(a, c) == count_working(a, b - 1) + count_working(b, c),
    decreases c - b + 1,
{
    if c >= b {
        lemma_count_working_split(a, b, c - 1);
    }
}

/// The Monday-to-Friday days of the closed range `[a, b]`.
pub open spec fn weekdays_between(a: int, b: int) -> Set<int> {
    Set::new(|d: int| a <= d <= b && weekday_of(d) <= 5)
}

/// The working-day count of `[a, b]` is the number of its days that fall on
/// Monday to Friday; weekend days count for nothing.
pub proof fn lemma_count_working_counts_weekdays(a: int, b: int)
    ensures
        weekdays_between(a, b).finite(),
        count_working(a, b) == weekdays_between(a, b).len(),
    decreases b - a + 1,
{
    if a > b {
        assert(weekdays_between(a, b) =~= Set::<int>::empty());
    } else {
        lemma_count_working_counts_weekdays(a, b - 1);
        let prev = weekdays_between(a, b - 1);
        if is_working(b) {
            assert(weekdays_between(a, b) =~= prev.insert(b));
            assert(!prev.contains(b));
        } else {
            assert(weekdays_between(a, b) =~= prev);
        }
    }
}

/// Any seven consecutive days hold exactly five working days.
pub proof fn lemma_week_has_five_working_days(a: int)
    ensures
        count_working(a, a + 6) == 5,
{
    lemma_weekday_succ(a);
    lemma_weekday_succ(a + 1);
    lemma_weekday_succ(a + 2);
    lemma_weekday_succ(a + 3);
    lemma_weekday_succ(a + 4);
    lemma_weekday_succ(a + 5);
    assert(count_working(a, a - 1) == 0);
    assert(count_working(a, a) == if is_working(a) { 1nat } else { 0nat });
    assert(count_working(a, a + 1) == count_working(a, a) + if is_working(a + 1) { 1nat } else { 0nat });
    assert(count_working(a, a + 2) == count_working(a, a + 1) + if is_working(a + 2) { 1nat } else { 0nat });
    assert(count_working(a, a + 3) == count_working(a, a + 2) + if is_working(a + 3) { 1nat } else { 0nat });
    assert(count_working(a, a + 4) == count_working(a, a + 3) + if is_working(a + 4) { 1nat } else { 0nat });
    assert(count_working(a, a + 5) == count_working(a, a + 4) + if is_working(a + 5) { 1nat } else { 0nat });
    assert(count_working(a, a + 6) == count_working(a, a + 5) + if is_working(a + 6) { 1nat } else { 0nat });
}

/// Counting working days from a working day `s` through `add_working(s, k)`
/// gives `k + 1`.
pub proof fn lemma_count_to_add_working(s: int, k: int)
    requires
        is_working(s),
        k >= 0,
    ensures
        count_working(s, add_working(s, k)) == k + 1,
{
    lemma_add_working(s, k);
    assert(count_working(s, s) == 1) by {
        assert(count_working(s, s - 1) == 0);
    }
    if k > 0 {
        lemma_count_working_split(s, s + 1, add_working(s, k));
    } else {
        assert(add_working(s, 0) == s);
    }
}

/// `add_working` never lands before `next_working`.
pub proof fn lemma_add_working_mono(d: int, k: int)
    ensures
        add_working(d, k) >= next_working(d),
    decreases k,
{
    lemma_next_working(d);
    if k > 0 {
        lemma_next_working(d + 1);
        lemma_add_working_mono(next_working(d + 1), k - 1);
        lemma_next_working(next_working(d + 1));
        if !is_working(d) {
            lemma_next_working_skip(d);
        }
    }
}

/// Whether a date is a working day (Monday to Friday).
pub fn is_working_day(date: Date) -> (r: bool)
    ensures
        r == is_working(date@),
{
    date.weekday_number() <= 5
}

/// The first working day on or after `date`. No representable date lies
/// beyond the last working day, because the latest representable date is a
/// Monday.
pub fn next_working_day(date: Date) -> (r: Date)
    ensures
        r@ == next_working(date@),
        r@ >= date@,
        is_working(r@),
        forall|k: int| date@ <= k < r@ ==> !is_working(k),
{
    let _ = date.days();
    proof {
        lemma_next_working(date@);
        lemma_max_day_is_working();
        lemma_weekday_succ(MAX_DAY - 1);
        lemma_weekday_succ(MAX_DAY - 2);
    }
    let mut d = date;
    while !is_working_day(d)
        invariant
            date@ <= d@ <= next_working(date@),
            next_working(date@) <= MAX_DAY,
            forall|k: int| date@ <= k < d@ ==> !is_working(k),
            is_working(next_working(date@)),
            forall|k: int| date@ <= k < next_working(date@) ==> !is_working(k),
        decreases next_working(date@) - d@,
    {
        d = d.succ();
    }
    d
}

/// Steps `days` working days forward from `date` and returns the first
/// working day at or after the day reached (`add_working`).
pub fn add_working_days(date: Date, days: i64) -> (r: Date)
    requires
        add_working(date@, days as int) <= MAX_DAY,
    ensures
        r@ == add_working(date@, days as int),
{
    let ghost target = add_working(date@, days as int);
    proof {
        lemma_add_working(date@, days as int);
    }
    let mut d = date;
    let mut remaining = days;
    while remaining > 0
        invariant
            add_working(d@, remaining as int) == target,
            target <= MAX_DAY,
            remaining > 0 ==> d@ < target,
        decreases target - d@,
    {
        proof {
            lemma_add_working(d@, remaining as int);
        }
        let next = d.succ();
        proof {
            lemma_next_working(next@);
            if is_working(next@) {
                assert(next_working(d@ + 1) == next@);
                lemma_add_working(next@, remaining - 1);
                if remaining - 1 == 0 {
                    assert(add_working(next@, 0) == next@);
                }
            } else {
                lemma_next_working_skip(next@);
                lemma_add_working(next@, remaining as int);
            }
        }
        if is_working_day(next) {
            remaining = remaining - 1;
        }
        d = next;
        proof {
            if remaining > 0 {
                lemma_add_working(d@, remaining as int);
            }
        }
    }
    proof {
        lemma_next_working(d@);
    }
    next_working_day(d)
}

/// Number of working days in `[start, finish]`, zero when `start` is after
/// `finish`.
pub fn working_days_inclusive(start: Date, finish: Date) -> (r: i64)
    requires
        start@ > finish@ || finish@ < MAX_DAY,
    ensures
        r == count_working(start@, finish@),
        0 <= r <= MAX_DAY - MIN_DAY + 1,
{
    let _ = start.days();
    let _ = finish.days();
    let mut days: i64 = 0;
    let mut date = start;
    if finish.lt(&start) {
        return 0;
    }
    while date.le(&finish)
        invariant
            start@ <= date@ <= finish@ + 1,
            finish@ < MAX_DAY,
            days == count_working(start@, date@ - 1),
            days <= date@ - start@,
            day_in_range(start@),
            day_in_range(finish@),
        decreases finish@ + 1 - date@,
    {
        proof {
            assert(count_working(start@, date@) == count_working(start@, date@ - 1) + if is_working(
                date@,
            ) {
                1nat
            } else {
                0nat
            });
        }
        if is_working_day(date) {
            days = days + 1;
        }
        date = date.succ();
    }
    days
}

} // verus!
