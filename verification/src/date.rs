//! Calendar dates and instants, and their rendering through chrono.
use vstd::prelude::*;
use crate::text::{decimal, digit_char};

verus! {

/// The smallest year that chrono's `NaiveDate` holds.
pub const MIN_YEAR: i32 = -262143;

/// The largest year that chrono's `NaiveDate` holds.
pub const MAX_YEAR: i32 = 262142;

/// Proleptic Gregorian leap years.
pub open spec fn is_leap_year(year: int) -> bool {
    year % 4 == 0 && (year % 100 != 0 || year % 400 == 0)
}

/// Number of days of a month (1 to 12) of a year.
pub open spec fn days_in_month(year: int, month: int) -> int {
    if month == 2 {
        if is_leap_year(year) { 29 } else { 28 }
    } else if month == 4 || month == 6 || month == 9 || month == 11 {
        30
    } else {
        31
    }
}

/// A day that exists in the calendar and that chrono can hold.
pub open spec fn valid_date(year: int, month: int, day: int) -> bool {
    &&& MIN_YEAR <= year <= MAX_YEAR
    &&& 1 <= month <= 12
    &&& 1 <= day <= days_in_month(year, month)
}

/// A calendar day (proleptic Gregorian).
#[derive(Clone, Copy, Debug, PartialEq, Eq, Structural)]
pub struct Date {
    pub(crate) year: i32,
    pub(crate) month: u32,
    pub(crate) day: u32,
}

impl Date {
    #[verifier::type_invariant]
    spec fn exists_in_calendar(self) -> bool {
        valid_date(self.year as int, self.month as int, self.day as int)
    }

    pub closed spec fn spec_year(self) -> int {
        self.year as int
    }

    pub closed spec fn spec_month(self) -> int {
        self.month as int
    }

    pub closed spec fn spec_day(self) -> int {
        self.day as int
    }

    /// The date of `year`-`month`-`day`, or `None` where no such day exists
    /// or chrono cannot hold it.
    pub fn new(year: i32, month: u32, day: u32) -> (r: Option<Date>)
        ensures
            r is Some <==> valid_date(year as int, month as int, day as int),
            r matches Some(d) ==> d.spec_year() == year && d.spec_month() == month
                && d.spec_day() == day,
    {
        if date_exists(year, month, day) {
            Some(Date { year, month, day })
        } else {
            None
        }
    }

    pub fn year(&self) -> (y: i32)
        ensures
            y == self.spec_year(),
    {
        self.year
    }

    pub fn month(&self) -> (m: u32)
        ensures
            m == self.spec_month(),
    {
        self.month
    }

    pub fn day(&self) -> (d: u32)
        ensures
            d == self.spec_day(),
    {
        self.day
    }
}

/// Whether `year` is a leap year.
fn leap_year(year: i32) -> (b: bool)
    requires
        MIN_YEAR <= year <= MAX_YEAR,
    ensures
        b == is_leap_year(year as int),
{
    // Shifted by a multiple of 400 years, which keeps every divisibility.
    let y: u64 = (year as i64 + 400000) as u64;
    assert(y as int % 4 == year as int % 4 && y as int % 100 == year as int % 100 && y as int
        % 400 == year as int % 400);
    y % 4 == 0 && (y % 100 != 0 || y % 400 == 0)
}

/// Whether `year`-`month`-`day` is a day of the calendar that chrono holds.
pub fn date_exists(year: i32, month: u32, day: u32) -> (b: bool)
    ensures
        b == valid_date(year as int, month as int, day as int),
{
    if year < MIN_YEAR || year > MAX_YEAR || month < 1 || month > 12 || day < 1 {
        return false;
    }
    let last: u32 = if month == 2 {
        if leap_year(year) { 29 } else { 28 }
    } else if month == 4 || month == 6 || month == 9 || month == 11 {
        30
    } else {
        31
    };
    day <= last
}

/// Two digits, zero-padded, of a number below one hundred.
pub open spec fn two_digits(n: int) -> Seq<char> {
    seq![digit_char((n / 10) as nat), digit_char((n % 10) as nat)]
}

/// Four digits, zero-padded, of a number below ten thousand.
pub open spec fn four_digits(n: int) -> Seq<char> {
    seq![
        digit_char((n / 1000) as nat),
        digit_char((n / 100 % 10) as nat),
        digit_char((n / 10 % 10) as nat),
        digit_char((n % 10) as nat),
    ]
}

/// chrono's `%Y`: four digits, zero-padded, for years 0 to 9999; a sign and
/// at least four digits otherwise.
pub open spec fn year_text(year: int) -> Seq<char> {
    if 0 <= year <= 9999 {
        four_digits(year)
    } else if year > 9999 {
        seq!['+'] + decimal(year as nat)
    } else if -year <= 9999 {
        seq!['-'] + four_digits(-year)
    } else {
        seq!['-'] + decimal((-year) as nat)
    }
}

/// chrono's `%b`: the English three-letter name of a month (1 to 12).
pub open spec fn month_abbreviation(month: int) -> Seq<char> {
    if month == 1 {
        seq!['J', 'a', 'n']
    } else if month == 2 {
        seq!['F', 'e', 'b']
    } else if month == 3 {
        seq!['M', 'a', 'r']
    } else if month == 4 {
        seq!['A', 'p', 'r']
    } else if month == 5 {
        seq!['M', 'a', 'y']
    } else if month == 6 {
        seq!['J', 'u', 'n']
    } else if month == 7 {
        seq!['J', 'u', 'l']
    } else if month == 8 {
        seq!['A', 'u', 'g']
    } else if month == 9 {
        seq!['S', 'e', 'p']
    } else if month == 10 {
        seq!['O', 'c', 't']
    } else if month == 11 {
        seq!['N', 'o', 'v']
    } else {
        seq!['D', 'e', 'c']
    }
}

/// A pattern made of literal characters and the specifiers `%d`, `%m`,
/// `%b` and `%Y`.
pub open spec fn supported_pattern(pattern: Seq<char>) -> bool
    decreases pattern.len(),
{
    if pattern.len() == 0 {
        true
    } else if pattern[0] == '%' {
        &&& pattern.len() >= 2
        &&& (pattern[1] == 'd' || pattern[1] == 'm' || pattern[1] == 'b' || pattern[1] == 'Y')
        &&& supported_pattern(pattern.skip(2))
    } else {
        supported_pattern(pattern.skip(1))
    }
}

/// What chrono's `format` writes for a supported pattern: literal characters
/// as they are, `%d` and `%m` as two zero-padded digits, `%b` as the month's
/// abbreviation and `%Y` as the year.
pub open spec fn date_text(pattern: Seq<char>, year: int, month: int, day: int) -> Seq<char>
    decreases pattern.len(),
{
    if pattern.len() == 0 {
        seq![]
    } else if pattern[0] == '%' && pattern.len() >= 2 {
        let field = if pattern[1] == 'd' {
            two_digits(day)
        } else if pattern[1] == 'm' {
            two_digits(month)
        } else if pattern[1] == 'b' {
            month_abbreviation(month)
        } else {
            year_text(year)
        };
        field + date_text(pattern.skip(2), year, month, day)
    } else {
        seq![pattern[0]] + date_text(pattern.skip(1), year, month, day)
    }
}

/// Renders a day with chrono: `NaiveDate::from_ymd_opt(..)` then
/// `format(pattern)`. The contract restates chrono's formatting code for the
/// specifiers `%d`, `%m`, `%b` (default locale) and `%Y`.
#[verifier::external_body]
fn chrono_format(year: i32, month: u32, day: u32, pattern: &str) -> (s: String)
    requires
        valid_date(year as int, month as int, day as int),
        supported_pattern(pattern@),
    ensures
        s@ == date_text(pattern@, year as int, month as int, day as int),
{
    match chrono::NaiveDate::from_ymd_opt(year, month, day) {
        Some(date) => date.format(pattern).to_string(),
        None => String::new(),
    }
}

/// `DD-Mon-YYYY`, the date form of IMAP's SEARCH (chrono's `%d-%b-%Y`).
pub open spec fn imap_date(date: Date) -> Seq<char> {
    two_digits(date.spec_day()) + seq!['-'] + month_abbreviation(date.spec_month()) + seq!['-']
        + year_text(date.spec_year())
}

/// `YYYY-MM-DD` (chrono's `%Y-%m-%d`).
pub open spec fn iso_date(date: Date) -> Seq<char> {
    year_text(date.spec_year()) + seq!['-'] + two_digits(date.spec_month()) + seq!['-']
        + two_digits(date.spec_day())
}

impl Date {
    /// The day as IMAP's SEARCH writes it, for example `07-Mar-2023`.
    pub fn imap_text(&self) -> (s: String)
        ensures
            s@ == imap_date(*self),
    {
        proof {
            use_type_invariant(self);
        }
        let pattern = "%d-%b-%Y";
        proof {
            reveal_strlit("%d-%b-%Y");
            reveal_with_fuel(supported_pattern, 10);
            reveal_with_fuel(date_text, 10);
        }
        let s = chrono_format(self.year, self.month, self.day, pattern);
        proof {
            assert(s@ =~= imap_date(*self));
        }
        s
    }

    /// The day as `YYYY-MM-DD`, for example `2023-03-07`.
    pub fn iso_text(&self) -> (s: String)
        ensures
            s@ == iso_date(*self),
    {
        proof {
            use_type_invariant(self);
        }
        let pattern = "%Y-%m-%d";
        proof {
            reveal_strlit("%Y-%m-%d");
            reveal_with_fuel(supported_pattern, 10);
            reveal_with_fuel(date_text, 10);
        }
        let s = chrono_format(self.year, self.month, self.day, pattern);
        proof {
            assert(s@ =~= iso_date(*self));
        }
        s
    }
}

/// An instant with the UTC offset it was recorded in: seconds and
/// nanoseconds since the Unix epoch (UTC), the offset in seconds east of UTC,
/// and the calendar day that the instant falls on at that offset.
#[derive(Clone, Copy, Debug, PartialEq, Eq, Structural)]
pub struct FeedTime {
    pub timestamp: i64,
    pub nanos: u32,
    pub offset_seconds: i32,
    pub local_date: Date,
}

/// Instants are ordered by the moment they name, whatever their offset
/// (as chrono orders `DateTime` values).
pub open spec fn earlier(a: FeedTime, b: FeedTime) -> bool {
    a.timestamp < b.timestamp || (a.timestamp == b.timestamp && a.nanos < b.nanos)
}

impl FeedTime {
    /// Whether `self` names an earlier moment than `other`.
    pub fn is_earlier_than(&self, other: &FeedTime) -> (b: bool)
        ensures
            b == earlier(*self, *other),
    {
        self.timestamp < other.timestamp || (self.timestamp == other.timestamp && self.nanos
            < other.nanos)
    }
}

/// 1970-01-01T00:00:00+00:00, the update time of a default entry.
pub closed spec fn unix_epoch() -> FeedTime {
    FeedTime {
        timestamp: 0,
        nanos: 0,
        offset_seconds: 0,
        local_date: Date { year: 1970, month: 1, day: 1 },
    }
}

impl FeedTime {
    /// The Unix epoch, at offset zero.
    pub fn epoch() -> (t: FeedTime)
        ensures
            t == unix_epoch(),
            t.timestamp == 0 && t.nanos == 0 && t.offset_seconds == 0,
            t.local_date.spec_year() == 1970 && t.local_date.spec_month() == 1
                && t.local_date.spec_day() == 1,
            feed_time_valid(t),
    {
        FeedTime { timestamp: 0, nanos: 0, offset_seconds: 0, local_date: Date { year: 1970, month: 1, day: 1 } }
    }
}

/// The number of days from 1970-01-01 to a day of the proleptic Gregorian
/// calendar (negative before it).
pub open spec fn days_from_civil(year: int, month: int, day: int) -> int {
    let y = if month <= 2 { year - 1 } else { year };
    let mp = if month > 2 { month - 3 } else { month + 9 };
    365 * y + y / 4 - y / 100 + y / 400 + (153 * mp + 2) / 5 + day - 1 - 719468
}

/// An instant that chrono can hold with its offset: the offset lies strictly
/// within one day, the nanoseconds are below a second (or below two within
/// a leap second, the last second of a minute), the day of the instant in
/// UTC is one that chrono holds, and `local_date` is the calendar day that
/// the instant falls on at its offset.
pub open spec fn feed_time_valid(t: FeedTime) -> bool {
    let d = t.local_date;
    &&& -86400 < t.offset_seconds < 86400
    &&& (t.nanos < 1_000_000_000 || (t.nanos < 2_000_000_000 && t.timestamp % 60 == 59))
    &&& days_from_civil(MIN_YEAR as int, 1, 1) <= t.timestamp / 86400 <= days_from_civil(
        MAX_YEAR as int,
        12,
        31,
    )
    &&& valid_date(d.spec_year(), d.spec_month(), d.spec_day())
    &&& days_from_civil(d.spec_year(), d.spec_month(), d.spec_day()) == (t.timestamp
        + t.offset_seconds) / 86400
}

/// The days from 1970-01-01 to a valid date.
fn day_number(date: &Date) -> (n: i64)
    ensures
        n == days_from_civil(date.spec_year(), date.spec_month(), date.spec_day()),
{
    proof {
        use_type_invariant(date);
    }
    let year = date.year as i64;
    let month = date.month as i64;
    let y: i64 = if month <= 2 { year - 1 } else { year };
    let mp: i64 = if month > 2 { month - 3 } else { month + 9 };
    // Shifted by 1000 cycles of 400 years so that the divisions see a
    // positive year.
    let shifted: i64 = y + 400000;
    let whole: i64 = 365 * shifted + shifted / 4 - shifted / 100 + shifted / 400 - 146097000;
    assert(shifted / 4 == y / 4 + 100000);
    assert(shifted / 100 == y / 100 + 4000);
    assert(shifted / 400 == y / 400 + 1000);
    whole + (153 * mp + 2) / 5 + date.day as i64 - 1 - 719468
}

impl FeedTime {
    /// Whether chrono can hold this instant with its offset and `local_date`
    /// is its calendar day there.
    pub fn is_valid(&self) -> (b: bool)
        ensures
            b == feed_time_valid(*self),
    {
        let ts = self.timestamp;
        let off = self.offset_seconds;
        if off <= -86400 || off >= 86400 {
            return false;
        }
        if ts < -8334601228800 || ts > 8210266876799 {
            return false;
        }
        // Shifted by 10^8 days so that the division and the remainder see a
        // positive number of seconds.
        let shifted: u64 = (ts + 8640000000000) as u64;
        let leap_second = shifted % 60 == 59;
        assert(leap_second == (ts % 60 == 59));
        if !(self.nanos < 1_000_000_000 || (self.nanos < 2_000_000_000 && leap_second)) {
            return false;
        }
        proof {
            use_type_invariant(&self.local_date);
        }
        let local_day: i64 = ((ts + off as i64 + 8640000000000) as u64 / 86400) as i64 - 100000000;
        assert(local_day == (ts + off) / 86400);
        day_number(&self.local_date) == local_day
    }
}

/// Day numbers count days: 1970-01-01 is day zero.
pub proof fn lemma_day_zero()
    ensures
        days_from_civil(1970, 1, 1) == 0,
{
}

/// Day numbers count days: the day after a valid date, within its month,
/// at the turn of a month or at the turn of a year, has the next number.
pub proof fn lemma_next_day(year: int, month: int, day: int)
    requires
        1 <= month <= 12,
        1 <= day <= days_in_month(year, month),
    ensures
        day < days_in_month(year, month) ==> days_from_civil(year, month, day + 1)
            == days_from_civil(year, month, day) + 1,
        day == days_in_month(year, month) && month < 12 ==> days_from_civil(year, month + 1, 1)
            == days_from_civil(year, month, day) + 1,
        day == days_in_month(year, month) && month == 12 ==> days_from_civil(year + 1, 1, 1)
            == days_from_civil(year, month, day) + 1,
{
    if month == 2 {
        let y = year;
        assert(y / 4 - (y - 1) / 4 == if y % 4 == 0 { 1int } else { 0int });
        assert(y / 100 - (y - 1) / 100 == if y % 100 == 0 { 1int } else { 0int });
        assert(y / 400 - (y - 1) / 400 == if y % 400 == 0 { 1int } else { 0int });
        assert((y % 4 == 0 && y % 100 == 0) ==> y % 400 == 0 || y % 400 != 0);
    }
}

} // verus!
