//! Calendar dates and times of day as plain numbers, with the text forms
//! that `chrono` gives them.
use vstd::prelude::*;
use crate::text::decimal;

verus! {

/// Day number (counted from January 1 of year 1, which is day 1) of the
/// earliest date that `chrono::NaiveDate` can hold.
pub const MIN_DAYS: i32 = -95746129;

/// Day number of the latest date that `chrono::NaiveDate` can hold.
pub const MAX_DAYS: i32 = 95745399;

pub const SECONDS_PER_DAY: u32 = 86400;

/// Day of the week of a day number: 0 is Monday, 6 is Sunday
/// (January 1 of year 1 was a Monday in the proleptic Gregorian calendar).
pub open spec fn weekday_index(days: int) -> int {
    (days - 1) % 7
}

/// English name of a day of the week, Monday being 0.
pub open spec fn weekday_name(w: int) -> Seq<char> {
    if w == 0 {
        "Monday"@
    } else if w == 1 {
        "Tuesday"@
    } else if w == 2 {
        "Wednesday"@
    } else if w == 3 {
        "Thursday"@
    } else if w == 4 {
        "Friday"@
    } else if w == 5 {
        "Saturday"@
    } else {
        "Sunday"@
    }
}

/// The decimal digit `d` as a character.
pub open spec fn digit_char(d: int) -> char {
    (d + 48) as char
}

/// `n` (below 100) written with two digits.
pub open spec fn two_digits(n: int) -> Seq<char> {
    seq![digit_char(n / 10), digit_char(n % 10)]
}

/// A time of day written `HH:MM`.
pub open spec fn hm_text(secs: int) -> Seq<char> {
    two_digits(secs / 3600) + ":"@ + two_digits((secs % 3600) / 60)
}

/// A time of day written `HH:MM:SS`.
pub open spec fn hms_text(secs: int) -> Seq<char> {
    hm_text(secs) + ":"@ + two_digits(secs % 60)
}

/// English abbreviation of a day of the week, Monday being 0.
pub open spec fn short_weekday_name(w: int) -> Seq<char> {
    weekday_name(w).take(3)
}

/// Whether `y` is a leap year of the proleptic Gregorian calendar.
pub open spec fn is_leap_year(y: int) -> bool {
    y % 4 == 0 && (y % 100 != 0 || y % 400 == 0)
}

/// Number of days of month `m` (1 to 12) in year `y`.
pub open spec fn month_length(y: int, m: int) -> int {
    if m == 2 {
        if is_leap_year(y) {
            29
        } else {
            28
        }
    } else if m == 4 || m == 6 || m == 9 || m == 11 {
        30
    } else {
        31
    }
}

/// Days of year `y` before the first of month `m`.
pub open spec fn days_before_month(y: int, m: int) -> int
    decreases m,
{
    if m <= 1 {
        0
    } else {
        days_before_month(y, m - 1) + month_length(y, m - 1)
    }
}

/// Day number of a date of the proleptic Gregorian calendar, January 1 of
/// year 1 being day 1.
pub open spec fn civil_day_number(y: int, m: int, d: int) -> int {
    365 * (y - 1) + (y - 1) / 4 - (y - 1) / 100 + (y - 1) / 400 + days_before_month(y, m) + d
}

/// Whether a year, month and day name a date that `chrono::NaiveDate` can hold.
pub open spec fn is_chrono_date(y: int, m: int, d: int) -> bool {
    -262143 <= y <= 262142 && 1 <= m <= 12 && 1 <= d <= month_length(y, m)
}

/// Year, month and day of a day number.
pub open spec fn civil_date(days: int) -> (int, int, int) {
    choose|y: int, m: int, d: int| is_chrono_date(y, m, d) && civil_day_number(y, m, d) == days
}

/// `s` with zeros in front of it up to length `w`.
pub open spec fn zero_padded(s: Seq<char>, w: nat) -> Seq<char> {
    if s.len() >= w {
        s
    } else {
        Seq::new((w - s.len()) as nat, |i: int| '0') + s
    }
}

/// A year as dates write it: four digits from 0 to 9999, otherwise a sign
/// and at least four digits.
pub open spec fn year_text(y: int) -> Seq<char> {
    if 0 <= y <= 9999 {
        zero_padded(decimal(y as nat), 4)
    } else if y < 0 {
        seq!['-'] + zero_padded(decimal((-y) as nat), 4)
    } else {
        seq!['+'] + zero_padded(decimal(y as nat), 4)
    }
}

/// A date written `YYYY-MM-DD`.
pub open spec fn iso_date(days: int) -> Seq<char> {
    year_text(civil_date(days).0) + "-"@ + two_digits(civil_date(days).1) + "-"@ + two_digits(
        civil_date(days).2,
    )
}

/// The format strings that the library hands to `chrono`.
pub open spec fn is_supported_date_format(fmt: Seq<char>) -> bool {
    fmt == "%A"@ || fmt == "%a %d/%m/%y"@
}

/// A date written with one of the supported format strings: `%A` is the
/// name of the day of the week; `%a %d/%m/%y` its abbreviation, then day,
/// month and the last two digits of the year.
pub open spec fn formatted_date(days: int, fmt: Seq<char>) -> Seq<char> {
    if fmt == "%A"@ {
        weekday_name(weekday_index(days))
    } else {
        short_weekday_name(weekday_index(days)) + " "@ + two_digits(civil_date(days).2) + "/"@
            + two_digits(civil_date(days).1) + "/"@ + two_digits(civil_date(days).0 % 100)
    }
}

/// `chrono::NaiveDate::from_ymd_opt`, then `num_days_from_ce`: the day number
/// of a calendar date, or `None` for a date that does not exist or whose year
/// lies outside `chrono`'s range.
#[verifier::external_body]
fn days_from_ymd(year: i32, month: u32, day: u32) -> (r: Option<i32>)
    ensures
        r is Some <==> is_chrono_date(year as int, month as int, day as int),
        r matches Some(d) ==> d == civil_day_number(year as int, month as int, day as int),
        r matches Some(d) ==> MIN_DAYS <= d <= MAX_DAYS,
{
    match chrono::NaiveDate::from_ymd_opt(year, month, day) {
        Some(d) => Some(chrono::Datelike::num_days_from_ce(&d)),
        None => None,
    }
}

/// `chrono::Datelike::weekday`, then `num_days_from_monday`, on the date with
/// the given day number: Monday is 0.
#[verifier::external_body]
fn weekday_from_monday(days: i32) -> (r: u32)
    requires
        MIN_DAYS <= days <= MAX_DAYS,
    ensures
        r == weekday_index(days as int),
{
    let date = chrono::NaiveDate::from_num_days_from_ce_opt(days).unwrap();
    chrono::Datelike::weekday(&date).num_days_from_monday()
}

/// `chrono::NaiveDate`'s `Display` on the date with the given day number:
/// `YYYY-MM-DD`, the year with a sign when it lies outside 0 to 9999.
#[verifier::external_body]
fn iso_date_text(days: i32) -> (r: String)
    requires
        MIN_DAYS <= days <= MAX_DAYS,
    ensures
        r@ == iso_date(days as int),
{
    chrono::NaiveDate::from_num_days_from_ce_opt(days).unwrap().to_string()
}

/// `chrono::NaiveDate::format` on the date with the given day number, for
/// the two supported format strings: `%A` gives the English name of the day
/// of the week, `%a %d/%m/%y` its English abbreviation, then the day and the
/// month with two digits each and the year modulo 100 with two digits.
#[verifier::external_body]
fn date_format_text(days: i32, fmt: &str) -> (r: String)
    requires
        MIN_DAYS <= days <= MAX_DAYS,
        is_supported_date_format(fmt@),
    ensures
        r@ == formatted_date(days as int, fmt@),
{
    chrono::NaiveDate::from_num_days_from_ce_opt(days).unwrap().format(fmt).to_string()
}

/// `chrono::NaiveTime`'s `Display` on a whole-second time of day: `HH:MM:SS`.
#[verifier::external_body]
fn time_hms_text(secs: u32) -> (r: String)
    requires
        secs < 86400,
    ensures
        r@ == hms_text(secs as int),
{
    chrono::NaiveTime::from_num_seconds_from_midnight_opt(secs, 0).unwrap().to_string()
}

/// `chrono::NaiveTime::format` with `%H:%M` on a whole-second time of day.
#[verifier::external_body]
fn time_hm_text(secs: u32) -> (r: String)
    requires
        secs < 86400,
    ensures
        r@ == hm_text(secs as int),
{
    chrono::NaiveTime::from_num_seconds_from_midnight_opt(secs, 0).unwrap().format("%H:%M").to_string()
}

/// A calendar date, held as its day number.
#[derive(Clone, Copy, Debug, PartialEq, Eq, Structural)]
pub struct Date {
    days: i32,
}

impl Date {
    #[verifier::type_invariant]
    spec fn in_range(self) -> bool {
        MIN_DAYS <= self.days <= MAX_DAYS
    }

    /// The day number of this date; January 1 of year 1 is day 1.
    pub closed spec fn days(self) -> int {
        self.days as int
    }

    /// The date with the given day number, if `chrono` can represent it.
    pub fn from_days(days: i32) -> (r: Option<Date>)
        ensures
            r is Some <==> MIN_DAYS <= days <= MAX_DAYS,
            r matches Some(d) ==> d.days() == days,
    {
        if MIN_DAYS <= days && days <= MAX_DAYS {
            Some(Date { days })
        } else {
            None
        }
    }

    /// The date with the given year, month and day, if it exists.
    pub fn from_ymd(year: i32, month: u32, day: u32) -> (r: Option<Date>)
        ensures
            r is Some <==> is_chrono_date(year as int, month as int, day as int),
            r matches Some(d) ==> d.days() == civil_day_number(year as int, month as int, day as int),
    {
        match days_from_ymd(year, month, day) {
            Some(days) => Some(Date { days }),
            None => None,
        }
    }

    pub fn days_from_ce(&self) -> (r: i32)
        ensures
            r == self.days(),
            MIN_DAYS <= r <= MAX_DAYS,
    {
        proof {
            use_type_invariant(self);
        }
        self.days
    }

    /// Day of the week: 0 is Monday, 6 is Sunday.
    pub fn weekday_from_monday(&self) -> (r: u32)
        ensures
            r == weekday_index(self.days()),
    {
        proof {
            use_type_invariant(self);
        }
        weekday_from_monday(self.days)
    }

    /// The date `n` days later.
    pub fn add_days(&self, n: u32) -> (r: Date)
        requires
            self.days() + n <= MAX_DAYS,
        ensures
            r.days() == self.days() + n,
    {
        proof {
            use_type_invariant(self);
        }
        Date { days: self.days + n as i32 }
    }

    /// The date as `YYYY-MM-DD`.
    pub fn to_iso_string(&self) -> (r: String)
        ensures
            r@ == iso_date(self.days()),
    {
        proof {
            use_type_invariant(self);
        }
        iso_date_text(self.days)
    }

    /// The date written by one of the supported `chrono` format strings.
    pub fn format(&self, fmt: &str) -> (r: String)
        requires
            is_supported_date_format(fmt@),
        ensures
            r@ == formatted_date(self.days(), fmt@),
            fmt@ == "%A"@ ==> r@ == weekday_name(weekday_index(self.days())),
    {
        proof {
            use_type_invariant(self);
        }
        date_format_text(self.days, fmt)
    }
}

/// A time of day, held as seconds after midnight.
#[derive(Clone, Copy, Debug, PartialEq, Eq, Structural)]
pub struct Time {
    secs: u32,
}

impl Time {
    #[verifier::type_invariant]
    spec fn in_day(self) -> bool {
        self.secs < 86400
    }

    /// Seconds after midnight.
    pub closed spec fn secs(self) -> int {
        self.secs as int
    }

    /// The time `hour:minute:second`, if those name a time of day.
    pub fn from_hms(hour: u32, minute: u32, second: u32) -> (r: Option<Time>)
        ensures
            r is Some <==> (hour < 24 && minute < 60 && second < 60),
            r matches Some(t) ==> t.secs() == hour * 3600 + minute * 60 + second,
    {
        if hour < 24 && minute < 60 && second < 60 {
            Some(Time { secs: hour * 3600 + minute * 60 + second })
        } else {
            None
        }
    }

    pub fn seconds_from_midnight(&self) -> (r: u32)
        ensures
            r == self.secs(),
            r < 86400,
    {
        proof {
            use_type_invariant(self);
        }
        self.secs
    }

    /// The time written `HH:MM:SS`.
    pub fn to_hms_string(&self) -> (r: String)
        ensures
            r@ == hms_text(self.secs()),
    {
        proof {
            use_type_invariant(self);
        }
        time_hms_text(self.secs)
    }

    /// The time written `HH:MM`.
    pub fn to_hm_string(&self) -> (r: String)
        ensures
            r@ == hm_text(self.secs()),
    {
        proof {
            use_type_invariant(self);
        }
        time_hm_text(self.secs)
    }
}

} // verus!
