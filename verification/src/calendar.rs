//! Calendar values as the scheduling rules read them: days of the week,
//! proleptic Gregorian dates, times of day and date-times, with their order
//! and their text forms. The calendar arithmetic itself is chrono's.

use chrono::Datelike;
use vstd::prelude::*;

verus! {

/// Smallest year a date can hold.
pub const MIN_YEAR: i32 = -262143;

/// Largest year a date can hold.
pub const MAX_YEAR: i32 = 262142;

/// A day of the week.
#[derive(Clone, Copy, PartialEq, Eq, Structural, Debug)]
pub enum Weekday {
    Mon,
    Tue,
    Wed,
    Thu,
    Fri,
    Sat,
    Sun,
}

/// The number of days from Monday: Monday is 0, Sunday is 6.
pub open spec fn weekday_index(w: Weekday) -> int {
    match w {
        Weekday::Mon => 0,
        Weekday::Tue => 1,
        Weekday::Wed => 2,
        Weekday::Thu => 3,
        Weekday::Fri => 4,
        Weekday::Sat => 5,
        Weekday::Sun => 6,
    }
}

/// The day of the week `i` days after Monday, for `0 <= i < 7`.
pub open spec fn weekday_from_index(i: int) -> Weekday {
    if i == 0 {
        Weekday::Mon
    } else if i == 1 {
        Weekday::Tue
    } else if i == 2 {
        Weekday::Wed
    } else if i == 3 {
        Weekday::Thu
    } else if i == 4 {
        Weekday::Fri
    } else if i == 5 {
        Weekday::Sat
    } else {
        Weekday::Sun
    }
}

/// The three-letter English name of a day of the week.
pub open spec fn weekday_abbrev_text(w: Weekday) -> Seq<char> {
    match w {
        Weekday::Mon => seq!['M', 'o', 'n'],
        Weekday::Tue => seq!['T', 'u', 'e'],
        Weekday::Wed => seq!['W', 'e', 'd'],
        Weekday::Thu => seq!['T', 'h', 'u'],
        Weekday::Fri => seq!['F', 'r', 'i'],
        Weekday::Sat => seq!['S', 'a', 't'],
        Weekday::Sun => seq!['S', 'u', 'n'],
    }
}

/// Numbering the days from Monday and back is the identity.
pub proof fn lemma_weekday_from_index(w: Weekday)
    ensures
        weekday_from_index(weekday_index(w)) == w,
        0 <= weekday_index(w) < 7,
{
}

/// A calendar date: year, month (1 to 12) and day of the month (from 1).
#[derive(Clone, Copy, PartialEq, Eq, Structural, Debug)]
pub struct Date {
    pub year: i32,
    pub month: u32,
    pub day: u32,
}

/// Whether `year` is a leap year of the proleptic Gregorian calendar.
pub open spec fn is_leap_year(year: int) -> bool {
    year % 4 == 0 && (year % 100 != 0 || year % 400 == 0)
}

/// The number of days in a month of a year.
pub open spec fn days_in_month(year: int, month: int) -> int {
    if month == 2 {
        if is_leap_year(year) {
            29
        } else {
            28
        }
    } else if month == 4 || month == 6 || month == 9 || month == 11 {
        30
    } else {
        31
    }
}

/// Every month has 28 to 31 days; April, June, September and November
/// have 30, February has 29 in leap years and 28 otherwise, the other
/// months 31; a year is a leap year when divisible by 4, except that of the
/// years divisible by 100 only those divisible by 400 are.
pub proof fn law_month_lengths(year: int, month: int)
    requires
        1 <= month <= 12,
    ensures
        28 <= days_in_month(year, month) <= 31,
        (month == 4 || month == 6 || month == 9 || month == 11) ==> days_in_month(year, month) == 30,
        month == 2 ==> (days_in_month(year, month) == 29 <==> is_leap_year(year)),
        month == 2 && !is_leap_year(year) ==> days_in_month(year, month) == 28,
        (month == 1 || month == 3 || month == 5 || month == 7 || month == 8 || month == 10 || month
            == 12) ==> days_in_month(year, month) == 31,
        year % 4 != 0 ==> !is_leap_year(year),
        year % 400 == 0 ==> is_leap_year(year),
        year % 4 == 0 && year % 100 != 0 ==> is_leap_year(year),
        year % 100 == 0 && year % 400 != 0 ==> !is_leap_year(year),
{
}

impl Date {
    /// The date exists in the calendar and lies in the range that dates can hold.
    pub open spec fn wf(self) -> bool {
        &&& MIN_YEAR <= self.year <= MAX_YEAR
        &&& 1 <= self.month <= 12
        &&& 1 <= self.day <= days_in_month(self.year as int, self.month as int)
    }
}

/// `a` is an earlier date than `b`.
pub open spec fn date_before(a: Date, b: Date) -> bool {
    ||| a.year < b.year
    ||| a.year == b.year && a.month < b.month
    ||| a.year == b.year && a.month == b.month && a.day < b.day
}

/// A time of day. A leap second shows as second 59 with `nano` of a second or more.
#[derive(Clone, Copy, PartialEq, Eq, Structural, Debug)]
pub struct TimeOfDay {
    pub hour: u32,
    pub minute: u32,
    pub second: u32,
    pub nano: u32,
}

impl TimeOfDay {
    /// Every field is in its range; only second 59 carries a leap second.
    pub open spec fn wf(self) -> bool {
        &&& self.hour < 24
        &&& self.minute < 60
        &&& self.second < 60
        &&& self.nano < 2_000_000_000
        &&& self.nano >= 1_000_000_000 ==> self.second == 59
    }
}

/// `a` is an earlier time of day than `b`.
pub open spec fn time_before(a: TimeOfDay, b: TimeOfDay) -> bool {
    ||| a.hour < b.hour
    ||| a.hour == b.hour && a.minute < b.minute
    ||| a.hour == b.hour && a.minute == b.minute && a.second < b.second
    ||| a.hour == b.hour && a.minute == b.minute && a.second == b.second && a.nano < b.nano
}

/// A date and a time of day, read on one clock.
#[derive(Clone, Copy, PartialEq, Eq, Structural, Debug)]
pub struct DateTime {
    pub date: Date,
    pub time: TimeOfDay,
}

impl DateTime {
    pub open spec fn wf(self) -> bool {
        self.date.wf() && self.time.wf()
    }
}

/// A date is valid exactly when its year is in range, its month is one of
/// the twelve, and its day is within that month; a time of day is valid
/// exactly when hour, minute and second are in range and only second 59
/// carries a leap second.
pub proof fn law_validity(d: Date, t: TimeOfDay)
    ensures
        d.wf() <==> (-262143 <= d.year <= 262142 && 1 <= d.month <= 12 && 1 <= d.day && d.day
            <= days_in_month(d.year as int, d.month as int)),
        t.wf() <==> (t.hour <= 23 && t.minute <= 59 && t.second <= 59 && t.nano <= 1_999_999_999
            && (t.second != 59 ==> t.nano <= 999_999_999)),
{
}

impl Date {
    /// Whether the date exists and lies in the range that dates can hold.
    pub fn is_valid(&self) -> (r: bool)
        ensures
            r == self.wf(),
    {
        if self.year < MIN_YEAR || self.year > MAX_YEAR || self.month < 1 || self.month > 12
            || self.day < 1 {
            return false;
        }
        let leap = self.year % 4 == 0 && (self.year % 100 != 0 || self.year % 400 == 0);
        let last: u32 = if self.month == 2 {
            if leap {
                29
            } else {
                28
            }
        } else if self.month == 4 || self.month == 6 || self.month == 9 || self.month == 11 {
            30
        } else {
            31
        };
        proof {
            assert(leap == is_leap_year(self.year as int)) by (nonlinear_arith)
                requires
                    MIN_YEAR <= self.year <= MAX_YEAR,
                    leap == (self.year % 4 == 0 && (self.year % 100 != 0 || self.year % 400 == 0)),
            ;
        }
        self.day <= last
    }
}

impl TimeOfDay {
    /// Whether every field is in its range.
    pub fn is_valid(&self) -> (r: bool)
        ensures
            r == self.wf(),
    {
        self.hour < 24 && self.minute < 60 && self.second < 60 && self.nano < 2_000_000_000 && (
        self.nano < 1_000_000_000 || self.second == 59)
    }
}

impl DateTime {
    /// Whether the date and the time of day are valid.
    pub fn is_valid(&self) -> (r: bool)
        ensures
            r == self.wf(),
    {
        self.date.is_valid() && self.time.is_valid()
    }
}

/// `a` is an earlier instant than `b`.
pub open spec fn datetime_before(a: DateTime, b: DateTime) -> bool {
    ||| date_before(a.date, b.date)
    ||| a.date == b.date && time_before(a.time, b.time)
}

/// The order of dates is a strict total order in which an earlier year,
/// then an earlier month of the same year, then an earlier day of the same
/// month comes first.
pub proof fn law_date_order(a: Date, b: Date, c: Date)
    ensures
        !date_before(a, a),
        date_before(a, b) ==> !date_before(b, a),
        date_before(a, b) && date_before(b, c) ==> date_before(a, c),
        a != b ==> date_before(a, b) || date_before(b, a),
        a.year < b.year ==> date_before(a, b),
        a.year == b.year && a.month < b.month ==> date_before(a, b),
        a.year == b.year && a.month == b.month && a.day < b.day ==> date_before(a, b),
{
}

/// The order of times of day is a strict total order by hour, then minute,
/// then second, then fraction.
pub proof fn law_time_order(a: TimeOfDay, b: TimeOfDay, c: TimeOfDay)
    ensures
        !time_before(a, a),
        time_before(a, b) ==> !time_before(b, a),
        time_before(a, b) && time_before(b, c) ==> time_before(a, c),
        a != b ==> time_before(a, b) || time_before(b, a),
        a.hour < b.hour ==> time_before(a, b),
        a.hour == b.hour && a.minute < b.minute ==> time_before(a, b),
        a.hour == b.hour && a.minute == b.minute && a.second < b.second ==> time_before(a, b),
        a.hour == b.hour && a.minute == b.minute && a.second == b.second && a.nano < b.nano
            ==> time_before(a, b),
{
}

/// The order of instants is a strict total order by date, then time of day.
pub proof fn law_datetime_order(a: DateTime, b: DateTime, c: DateTime)
    ensures
        !datetime_before(a, a),
        datetime_before(a, b) ==> !datetime_before(b, a),
        datetime_before(a, b) && datetime_before(b, c) ==> datetime_before(a, c),
        a != b ==> datetime_before(a, b) || datetime_before(b, a),
        date_before(a.date, b.date) ==> datetime_before(a, b),
        a.date == b.date ==> (datetime_before(a, b) <==> time_before(a.time, b.time)),
{
    law_date_order(a.date, b.date, c.date);
    law_time_order(a.time, b.time, c.time);
}

/// Whether `a` is an earlier date than `b`.
pub fn date_is_before(a: &Date, b: &Date) -> (r: bool)
    ensures
        r == date_before(*a, *b),
{
    if a.year != b.year {
        a.year < b.year
    } else if a.month != b.month {
        a.month < b.month
    } else {
        a.day < b.day
    }
}

/// Whether `a` is an earlier time of day than `b`.
pub fn time_is_before(a: &TimeOfDay, b: &TimeOfDay) -> (r: bool)
    ensures
        r == time_before(*a, *b),
{
    if a.hour != b.hour {
        a.hour < b.hour
    } else if a.minute != b.minute {
        a.minute < b.minute
    } else if a.second != b.second {
        a.second < b.second
    } else {
        a.nano < b.nano
    }
}

/// Whether `a` is an earlier instant than `b`.
pub fn datetime_is_before(a: &DateTime, b: &DateTime) -> (r: bool)
    ensures
        r == datetime_before(*a, *b),
{
    if a.date == b.date {
        time_is_before(&a.time, &b.time)
    } else {
        date_is_before(&a.date, &b.date)
    }
}

/// The decimal digit `n`, for `0 <= n < 10`.
pub open spec fn digit_char(n: int) -> char {
    (48 + n) as char
}

/// The decimal digits of `n`, with no leading zero.
pub open spec fn decimal_text(n: nat) -> Seq<char>
    decreases n,
{
    if n < 10 {
        seq![digit_char(n as int)]
    } else {
        decimal_text(n / 10).push(digit_char((n % 10) as int))
    }
}

/// The decimal digits of `n`, with zeros in front up to `width` characters.
pub open spec fn zero_padded_text(n: nat, width: nat) -> Seq<char> {
    let d = decimal_text(n);
    if d.len() >= width {
        d
    } else {
        Seq::new((width - d.len()) as nat, |i: int| '0') + d
    }
}

/// Two decimal digits of `n`, for `0 <= n < 100`.
pub open spec fn two_digit_text(n: int) -> Seq<char> {
    seq![digit_char(n / 10), digit_char(n % 10)]
}

/// A year as four digits from year 0 to 9999, and otherwise as a sign
/// followed by at least four digits.
pub open spec fn year_text(year: int) -> Seq<char> {
    if 0 <= year <= 9999 {
        zero_padded_text(year as nat, 4)
    } else if year < 0 {
        seq!['-'] + zero_padded_text((-year) as nat, 4)
    } else {
        seq!['+'] + zero_padded_text(year as nat, 4)
    }
}

/// A date written year-month-day, as in `2024-03-09`.
pub open spec fn date_text(d: Date) -> Seq<char> {
    year_text(d.year as int) + seq!['-'] + two_digit_text(d.month as int) + seq!['-']
        + two_digit_text(d.day as int)
}

/// A time of day written hour:minute, as in `07:05`.
pub open spec fn hour_minute_text(t: TimeOfDay) -> Seq<char> {
    two_digit_text(t.hour as int) + seq![':'] + two_digit_text(t.minute as int)
}

/// The number a decimal digit character stands for.
pub open spec fn digit_value(c: char) -> int {
    c as int - 48
}

proof fn lemma_two_digit_text(n: int)
    requires
        0 <= n < 100,
    ensures
        two_digit_text(n).len() == 2,
        digit_value(two_digit_text(n)[0]) == n / 10,
        digit_value(two_digit_text(n)[1]) == n % 10,
        10 * digit_value(two_digit_text(n)[0]) + digit_value(two_digit_text(n)[1]) == n,
{
    assert(digit_char(n / 10) as int == 48 + n / 10);
    assert(digit_char(n % 10) as int == 48 + n % 10);
}

proof fn lemma_year_text_four_digits(y: int)
    requires
        0 <= y <= 9999,
    ensures
        year_text(y) == seq![digit_char(y / 1000), digit_char((y / 100) % 10), digit_char((y / 10) % 10), digit_char(y % 10)],
{
    reveal_with_fuel(decimal_text, 4);
    let n = y as nat;
    if y < 10 {
        assert(decimal_text(n) == seq![digit_char(y)]);
    } else if y < 100 {
        assert(decimal_text(n / 10) == seq![digit_char(y / 10)]);
    } else if y < 1000 {
        assert(decimal_text(n / 100) == seq![digit_char(y / 100)]);
        assert(decimal_text(n / 10) =~= seq![digit_char(y / 100), digit_char((y / 10) % 10)]);
    } else {
        assert(decimal_text(n / 1000) == seq![digit_char(y / 1000)]);
        assert(decimal_text(n / 100) =~= seq![digit_char(y / 1000), digit_char((y / 100) % 10)]);
        assert(decimal_text(n / 10) =~= seq![digit_char(y / 1000), digit_char((y / 100) % 10), digit_char((y / 10) % 10)]);
    }
    assert(year_text(y) =~= seq![digit_char(y / 1000), digit_char((y / 100) % 10), digit_char((y / 10) % 10), digit_char(y % 10)]);
}

/// The hour-minute text of a time of day reads back as its hour and minute:
/// two digits of the hour, a colon, two digits of the minute.
pub proof fn law_hour_minute_text_reads_back(t: TimeOfDay)
    requires
        t.wf(),
    ensures
        hour_minute_text(t).len() == 5,
        hour_minute_text(t)[2] == ':',
        10 * digit_value(hour_minute_text(t)[0]) + digit_value(hour_minute_text(t)[1]) == t.hour,
        10 * digit_value(hour_minute_text(t)[3]) + digit_value(hour_minute_text(t)[4]) == t.minute,
{
    lemma_two_digit_text(t.hour as int);
    lemma_two_digit_text(t.minute as int);
    let h = two_digit_text(t.hour as int);
    let m = two_digit_text(t.minute as int);
    assert(hour_minute_text(t)[0] == h[0]);
    assert(hour_minute_text(t)[1] == h[1]);
    assert(hour_minute_text(t)[3] == m[0]);
    assert(hour_minute_text(t)[4] == m[1]);
}

proof fn lemma_year_text_value(y: int)
    requires
        0 <= y <= 9999,
    ensures
        year_text(y).len() == 4,
        1000 * digit_value(year_text(y)[0]) + 100 * digit_value(year_text(y)[1]) + 10 * digit_value(
            year_text(y)[2],
        ) + digit_value(year_text(y)[3]) == y,
{
    lemma_year_text_four_digits(y);
    let a = y / 1000;
    let b = (y / 100) % 10;
    let c = (y / 10) % 10;
    let e = y % 10;
    assert(1000 * a + 100 * b + 10 * c + e == y) by (nonlinear_arith)
        requires
            0 <= y <= 9999,
            a == y / 1000,
            b == (y / 100) % 10,
            c == (y / 10) % 10,
            e == y % 10,
    ;
    assert(0 <= a < 10 && 0 <= b < 10 && 0 <= c < 10 && 0 <= e < 10);
    assert(digit_char(a) as int == 48 + a);
    assert(digit_char(b) as int == 48 + b);
    assert(digit_char(c) as int == 48 + c);
    assert(digit_char(e) as int == 48 + e);
    let t = year_text(y);
    assert(t[0] == digit_char(a) && t[1] == digit_char(b) && t[2] == digit_char(c) && t[3] == digit_char(e));
}

/// The text of a date with a four-digit year reads back as the date: four
/// digits of the year, a hyphen, two of the month, a hyphen, two of the day.
pub proof fn law_date_text_reads_back(d: Date)
    requires
        d.wf(),
        0 <= d.year <= 9999,
    ensures
        date_text(d).len() == 10,
        date_text(d)[4] == '-',
        date_text(d)[7] == '-',
        1000 * digit_value(date_text(d)[0]) + 100 * digit_value(date_text(d)[1]) + 10 * digit_value(
            date_text(d)[2],
        ) + digit_value(date_text(d)[3]) == d.year,
        10 * digit_value(date_text(d)[5]) + digit_value(date_text(d)[6]) == d.month,
        10 * digit_value(date_text(d)[8]) + digit_value(date_text(d)[9]) == d.day,
{
    let y = d.year as int;
    lemma_year_text_value(y);
    lemma_two_digit_text(d.month as int);
    lemma_two_digit_text(d.day as int);
    let t = date_text(d);
    let yt = year_text(y);
    let mt = two_digit_text(d.month as int);
    let dt = two_digit_text(d.day as int);
    assert(t =~= seq![yt[0], yt[1], yt[2], yt[3], '-', mt[0], mt[1], '-', dt[0], dt[1]]);
}

/// The three-letter names of the days of the week are all different.
pub proof fn law_weekday_abbrevs_differ(a: Weekday, b: Weekday)
    ensures
        weekday_abbrev_text(a) == weekday_abbrev_text(b) ==> a == b,
        weekday_abbrev_text(a).len() == 3,
{
    if weekday_abbrev_text(a) == weekday_abbrev_text(b) && a != b {
        assert(weekday_abbrev_text(a)[0] == weekday_abbrev_text(b)[0]);
        assert(weekday_abbrev_text(a)[1] == weekday_abbrev_text(b)[1]);
        assert(weekday_abbrev_text(a)[2] == weekday_abbrev_text(b)[2]);
    }
}

/// The fraction of a second, written as chrono writes it: nothing for
/// zero, else a point and three, six or nine digits, the fewest that are exact.
pub open spec fn fraction_text(nano: int) -> Seq<char> {
    if nano == 0 {
        Seq::empty()
    } else if nano % 1_000_000 == 0 {
        seq!['.'] + zero_padded_text((nano / 1_000_000) as nat, 3)
    } else if nano % 1_000 == 0 {
        seq!['.'] + zero_padded_text((nano / 1_000) as nat, 6)
    } else {
        seq!['.'] + zero_padded_text(nano as nat, 9)
    }
}

/// A time of day written hour:minute:second with its fraction; a leap
/// second shows as second 60.
pub open spec fn clock_time_text(t: TimeOfDay) -> Seq<char> {
    let (second, nano) = if t.nano >= 1_000_000_000 {
        (t.second + 1, t.nano - 1_000_000_000)
    } else {
        (t.second as int, t.nano as int)
    };
    two_digit_text(t.hour as int) + seq![':'] + two_digit_text(t.minute as int) + seq![':']
        + two_digit_text(second) + fraction_text(nano)
}

/// A UTC instant written as chrono displays it, as in `2024-03-09 08:00:00 UTC`.
pub open spec fn utc_text(dt: DateTime) -> Seq<char> {
    date_text(dt.date) + seq![' '] + clock_time_text(dt.time) + seq![' ', 'U', 'T', 'C']
}

/// An offset from UTC in seconds, written as a sign, hours and minutes
/// (rounded to the nearest minute), as in `+09:00`.
pub open spec fn offset_text(offset_seconds: int) -> Seq<char> {
    let (sign, off) = if offset_seconds < 0 {
        ('-', -offset_seconds)
    } else {
        ('+', offset_seconds)
    };
    let minutes = (off + 30) / 60;
    seq![sign] + two_digit_text(minutes / 60) + seq![':'] + two_digit_text(minutes % 60)
}

/// A local date and time with its offset from UTC, written in RFC 3339 as
/// chrono writes it, as in `2024-03-09T08:00:00+09:00`.
pub open spec fn rfc3339_text(local: DateTime, offset_seconds: int) -> Seq<char> {
    date_text(local.date) + seq!['T'] + clock_time_text(local.time) + offset_text(offset_seconds)
}

/// The day of the week of a calendar date, counted in days from Monday, as
/// chrono's `NaiveDate::weekday` computes it.
pub uninterp spec fn chrono_weekday_index(year: int, month: int, day: int) -> int;

/// Calls chrono's `NaiveDate::from_ymd_opt` and `NaiveDate::weekday`: the
/// contract claims that the date exists for chrono whenever `wf` holds, and
/// that the day of the week is the one chrono computes, from Monday (0) to
/// Sunday (6).
#[verifier::external_body]
pub(crate) fn chrono_weekday(date: &Date) -> (w: Weekday)
    requires
        date.wf(),
    ensures
        weekday_index(w) == chrono_weekday_index(date.year as int, date.month as int, date.day as int),
{
    let d = chrono::NaiveDate::from_ymd_opt(date.year, date.month, date.day).unwrap();
    match d.weekday() {
        chrono::Weekday::Mon => Weekday::Mon,
        chrono::Weekday::Tue => Weekday::Tue,
        chrono::Weekday::Wed => Weekday::Wed,
        chrono::Weekday::Thu => Weekday::Thu,
        chrono::Weekday::Fri => Weekday::Fri,
        chrono::Weekday::Sat => Weekday::Sat,
        chrono::Weekday::Sun => Weekday::Sun,
    }
}

/// Calls chrono's `NaiveDate::format` with `%Y-%m-%d`: the contract claims
/// the text that chrono's formatting code writes for a year, a zero-padded
/// month and a zero-padded day.
#[verifier::external_body]
pub(crate) fn chrono_date_text(date: &Date) -> (s: String)
    requires
        date.wf(),
    ensures
        s@ == date_text(*date),
{
    chrono::NaiveDate::from_ymd_opt(date.year, date.month, date.day).unwrap().format("%Y-%m-%d").to_string()
}

/// Calls chrono's `NaiveTime::format` with `%H:%M`: the contract claims two
/// zero-padded digits of the hour, a colon and two of the minute.
#[verifier::external_body]
pub(crate) fn chrono_hour_minute_text(time: &TimeOfDay) -> (s: String)
    requires
        time.wf(),
    ensures
        s@ == hour_minute_text(*time),
{
    chrono::NaiveTime::from_hms_nano_opt(time.hour, time.minute, time.second, time.nano).unwrap().format("%H:%M").to_string()
}

/// Calls chrono's `Display` for `chrono::Weekday`: the contract claims the
/// English three-letter name that chrono writes.
#[verifier::external_body]
pub(crate) fn chrono_weekday_abbrev(w: Weekday) -> (s: String)
    ensures
        s@ == weekday_abbrev_text(w),
{
    let cw = match w {
        Weekday::Mon => chrono::Weekday::Mon,
        Weekday::Tue => chrono::Weekday::Tue,
        Weekday::Wed => chrono::Weekday::Wed,
        Weekday::Thu => chrono::Weekday::Thu,
        Weekday::Fri => chrono::Weekday::Fri,
        Weekday::Sat => chrono::Weekday::Sat,
        Weekday::Sun => chrono::Weekday::Sun,
    };
    cw.to_string()
}


/// Calls chrono's `Display` for `DateTime<Utc>`: the contract claims the
/// date, a space, the time of day with its fraction, and ` UTC`.
#[verifier::external_body]
pub(crate) fn chrono_utc_text(dt: &DateTime) -> (s: String)
    requires
        dt.wf(),
    ensures
        s@ == utc_text(*dt),
{
    let date = chrono::NaiveDate::from_ymd_opt(dt.date.year, dt.date.month, dt.date.day).unwrap();
    let t = dt.time;
    date.and_hms_nano_opt(t.hour, t.minute, t.second, t.nano).unwrap().and_utc().to_string()
}

/// Calls chrono's `DateTime::<FixedOffset>::to_rfc3339` on the local date
/// and time `local` at `offset_seconds` east of UTC: the contract claims the
/// date, `T`, the time of day with its fraction, and the offset rounded to
/// minutes.
#[verifier::external_body]
pub(crate) fn chrono_rfc3339_text(local: &DateTime, offset_seconds: i32) -> (s: String)
    requires
        local.wf(),
        MIN_YEAR < local.date.year < MAX_YEAR,
        -86400 < offset_seconds < 86400,
    ensures
        s@ == rfc3339_text(*local, offset_seconds as int),
{
    let date = chrono::NaiveDate::from_ymd_opt(local.date.year, local.date.month, local.date.day).unwrap();
    let t = local.time;
    let naive = date.and_hms_nano_opt(t.hour, t.minute, t.second, t.nano).unwrap();
    let offset = chrono::FixedOffset::east_opt(offset_seconds).unwrap();
    naive.and_local_timezone(offset).unwrap().to_rfc3339()
}

} // verus!
