//! Real-world (proleptic Gregorian) calendar used for the game clock.

use vstd::prelude::*;

use crate::text::{decimal_chars, u32_to_decimal};

verus! {

/// Whether `year` is a leap year in the Gregorian calendar.
pub open spec fn spec_is_leap_year(year: int) -> bool {
    (year % 4 == 0 && year % 100 != 0) || year % 400 == 0
}

/// Number of days in `month` (1-12) of `year`.
pub open spec fn spec_days_in_month(year: int, month: int) -> int {
    if month == 2 {
        if spec_is_leap_year(year) { 29 } else { 28 }
    } else if month == 4 || month == 6 || month == 9 || month == 11 {
        30
    } else {
        31
    }
}

/// Length of `year` in days.
pub open spec fn year_length(year: int) -> int {
    if spec_is_leap_year(year) { 366 } else { 365 }
}

/// Days in the months of `year` that come before `month` (all twelve from month 13 on).
pub open spec fn days_before_month(year: int, month: int) -> int {
    let leap_day: int = if month > 2 && spec_is_leap_year(year) { 1 } else { 0 };
    let common: int = if month <= 1 {
        0
    } else if month == 2 {
        31
    } else if month == 3 {
        59
    } else if month == 4 {
        90
    } else if month == 5 {
        120
    } else if month == 6 {
        151
    } else if month == 7 {
        181
    } else if month == 8 {
        212
    } else if month == 9 {
        243
    } else if month == 10 {
        273
    } else if month == 11 {
        304
    } else if month == 12 {
        334
    } else {
        365
    };
    common + leap_day
}

/// Days in all years before `year`, counted from 1 January of year 1.
pub open spec fn days_before_year(year: int) -> int {
    let x = year - 1;
    365 * x + x / 4 - x / 100 + x / 400
}

/// A date as a plain triple, valid when the month is 1-12 and the day lies in that month.
pub open spec fn date_is_valid(year: int, month: int, day: int) -> bool {
    &&& 1 <= month <= 12
    &&& 1 <= day <= spec_days_in_month(year, month)
}

/// A game date with a real-world calendar (year/month/day).
#[derive(Debug, Clone, Copy, PartialEq, Eq, Structural, PartialOrd, Ord, Hash)]
pub struct GameDate {
    pub year: u32,
    /// 1-12
    pub month: u32,
    /// 1-31
    pub day: u32,
}

impl GameDate {
    /// A real calendar date.
    pub open spec fn is_valid(self) -> bool {
        date_is_valid(self.year as int, self.month as int, self.day as int)
    }

    /// Position of the date on the day line: 1 January of year 1 is day 1.
    pub open spec fn ordinal(self) -> int {
        days_before_year(self.year as int) + days_before_month(self.year as int, self.month as int)
            + self.day
    }

    /// Lexicographic order on (year, month, day), the order of the derived `Ord`.
    pub open spec fn spec_before(self, other: GameDate) -> bool {
        ||| self.year < other.year
        ||| self.year == other.year && self.month < other.month
        ||| self.year == other.year && self.month == other.month && self.day < other.day
    }

    /// The date that `next_day` returns.
    pub open spec fn spec_next_day(self) -> GameDate {
        if self.day < spec_days_in_month(self.year as int, self.month as int) {
            GameDate { day: (self.day + 1) as u32, ..self }
        } else if self.month < 12 {
            GameDate { month: (self.month + 1) as u32, day: 1, ..self }
        } else {
            GameDate { year: (self.year + 1) as u32, month: 1, day: 1 }
        }
    }

    /// Where a day-by-day count from this date starts on the day line: its ordinal, with
    /// a day past the end of its month counted as the month's last day and day 0 as the
    /// day before the 1st.
    pub open spec fn start_position(self) -> int {
        let dim = spec_days_in_month(self.year as int, self.month as int);
        days_before_year(self.year as int) + days_before_month(self.year as int, self.month as int)
            + if self.day > dim { dim } else { self.day as int }
    }

    /// The ordinal of the first calendar date that is not before this one: the date itself
    /// when valid, the 1st for day 0, and the next month's 1st past the month's end.
    pub open spec fn first_date_from(self) -> int {
        let dim = spec_days_in_month(self.year as int, self.month as int);
        days_before_year(self.year as int) + days_before_month(self.year as int, self.month as int)
            + if self.day == 0 {
            1
        } else if self.day > dim {
            dim + 1
        } else {
            self.day as int
        }
    }

    /// Builds a date from its parts, which must form a calendar date.
    pub fn new(year: u32, month: u32, day: u32) -> (d: Self)
        requires
            date_is_valid(year as int, month as int, day as int),
        ensures
            d == (GameDate { year, month, day }),
            d.is_valid(),
    {
        GameDate { year, month, day }
    }

    /// Default game start date: 1 January 2001.
    pub fn default_start() -> (d: Self)
        ensures
            d == (GameDate { year: 2001, month: 1, day: 1 }),
            d.is_valid(),
    {
        GameDate::new(2001, 1, 1)
    }

    /// Advance to the next day.
    pub fn next_day(self) -> (n: Self)
        requires
            1 <= self.month <= 12,
            !(self.year == u32::MAX && self.month == 12 && self.day >= 31),
        ensures
            n == self.spec_next_day(),
            self.is_valid() ==> n.is_valid() && n.ordinal() == self.ordinal() + 1,
    {
        proof {
            if self.is_valid() {
                lemma_next_day_ordinal(self);
            }
        }
        let dim = days_in_month(self.year, self.month);
        if self.day < dim {
            GameDate { day: self.day + 1, ..self }
        } else if self.month < 12 {
            GameDate { month: self.month + 1, day: 1, ..self }
        } else {
            GameDate { year: self.year + 1, month: 1, day: 1 }
        }
    }

    /// True on the first day of any month.
    pub fn is_first_of_month(&self) -> (b: bool)
        ensures
            b == (self.day == 1),
    {
        self.day == 1
    }

    /// Days in the current month.
    pub fn days_in_month(&self) -> (n: u32)
        requires
            1 <= self.month <= 12,
        ensures
            n == spec_days_in_month(self.year as int, self.month as int),
    {
        days_in_month(self.year, self.month)
    }

    /// Day of year (1 January = 1): the days of the months before this one plus the day.
    /// Month 0 counts no earlier month, month 13 the whole year.
    pub fn day_of_year(&self) -> (n: u32)
        requires
            self.month <= 13,
            self.day <= u32::MAX - 366,
        ensures
            n == days_before_month(self.year as int, self.month as int) + self.day,
    {
        let mut total: u32 = 0;
        let mut m: u32 = 1;
        while m < self.month
            invariant
                1 <= m <= 13,
                m <= self.month || m == 1,
                self.month <= 13,
                total == days_before_month(self.year as int, m as int),
                total <= 366,
            decreases self.month - m,
        {
            total = total + days_in_month(self.year, m);
            m = m + 1;
        }
        total + self.day
    }

    /// Whether `self` comes strictly before `other` in calendar order.
    pub fn is_before(&self, other: &GameDate) -> (b: bool)
        ensures
            b == self.spec_before(*other),
    {
        self.year < other.year || (self.year == other.year && self.month < other.month) || (
        self.year == other.year && self.month == other.month && self.day < other.day)
    }

    /// Count of days from `self` to `other`, stepping one day at a time while the date
    /// lies before `other` in calendar order; zero when `other` is not later. Dates whose
    /// day lies outside their month are stepped through too: the first step lands on a
    /// calendar date.
    pub fn days_until(&self, other: &GameDate) -> (n: u32)
        requires
            self.spec_before(*other) ==> {
                &&& 1 <= self.month <= 12
                &&& 1 <= other.month <= 12
                &&& !(other.year == u32::MAX && other.month == 12 && other.day > 31)
                &&& other.first_date_from() - self.start_position() <= u32::MAX
            },
        ensures
            n == if self.spec_before(*other) {
                other.first_date_from() - self.start_position()
            } else {
                0
            },
            self.is_valid() && other.is_valid() ==> n == if other.ordinal() > self.ordinal() {
                other.ordinal() - self.ordinal()
            } else {
                0
            },
    {
        if !self.is_before(other) {
            proof {
                if self.is_valid() && other.is_valid() {
                    lemma_before_iff_ordinal(*self, *other);
                }
            }
            return 0;
        }
        let mut count: u32 = 0;
        let mut d = *self;
        while d.is_before(other)
            invariant
                1 <= d.month <= 12,
                1 <= self.month <= 12,
                1 <= other.month <= 12,
                !(other.year == u32::MAX && other.month == 12 && other.day > 31),
                other.first_date_from() - self.start_position() <= u32::MAX,
                self.spec_before(*other),
                count == 0 ==> d == *self,
                count > 0 ==> d.is_valid(),
                d.start_position() == self.start_position() + count,
                count > 0 ==> d.start_position() <= other.first_date_from(),
            decreases other.first_date_from() - d.start_position(),
        {
            proof {
                lemma_start_before_first(d, *other);
                lemma_not_last_before(d, *other);
                lemma_step_from_start(d);
            }
            d = d.next_day();
            count = count + 1;
        }
        proof {
            if count > 0 {
                lemma_valid_before_iff_first(d, *other);
            }
            if self.is_valid() && other.is_valid() {
                lemma_before_iff_ordinal(*self, *other);
            }
        }
        count
    }

    /// The date `days` days later, stepping one day at a time.
    pub fn add_days(self, days: u32) -> (d: Self)
        requires
            self.is_valid(),
            self.year + days < u32::MAX,
        ensures
            d.is_valid(),
            d.ordinal() == self.ordinal() + days,
    {
        let mut d = self;
        let mut i: u32 = 0;
        while i < days
            invariant
                i <= days,
                d.is_valid(),
                d.ordinal() == self.ordinal() + i,
                d.year <= self.year + i,
                self.year + days < u32::MAX,
            decreases days - i,
        {
            d = d.next_day();
            i = i + 1;
        }
        d
    }

    /// Short English month name.
    pub fn month_name(&self) -> (s: &'static str)
        requires
            1 <= self.month <= 12,
        ensures
            s@ == month_abbreviation(self.month as int),
    {
        month_name_of(self.month)
    }

    /// The date written as "Mon D, YYYY", e.g. "Jan 1, 2001".
    pub fn display_string(&self) -> (s: String)
        requires
            1 <= self.month <= 12,
        ensures
            s@ == month_abbreviation(self.month as int) + " "@ + decimal_chars(self.day as nat) + ", "@
                + decimal_chars(self.year as nat),
    {
        let mut s = String::from_str(self.month_name());
        s.append(" ");
        let day = u32_to_decimal(self.day);
        s.append(day.as_str());
        s.append(", ");
        let year = u32_to_decimal(self.year);
        s.append(year.as_str());
        s
    }
}

/// Three-letter English name of `month` (1-12).
pub open spec fn month_abbreviation(month: int) -> Seq<char> {
    if month == 1 {
        "Jan"@
    } else if month == 2 {
        "Feb"@
    } else if month == 3 {
        "Mar"@
    } else if month == 4 {
        "Apr"@
    } else if month == 5 {
        "May"@
    } else if month == 6 {
        "Jun"@
    } else if month == 7 {
        "Jul"@
    } else if month == 8 {
        "Aug"@
    } else if month == 9 {
        "Sep"@
    } else if month == 10 {
        "Oct"@
    } else if month == 11 {
        "Nov"@
    } else {
        "Dec"@
    }
}

fn month_name_of(month: u32) -> (s: &'static str)
    requires
        1 <= month <= 12,
    ensures
        s@ == month_abbreviation(month as int),
{
    if month == 1 {
        "Jan"
    } else if month == 2 {
        "Feb"
    } else if month == 3 {
        "Mar"
    } else if month == 4 {
        "Apr"
    } else if month == 5 {
        "May"
    } else if month == 6 {
        "Jun"
    } else if month == 7 {
        "Jul"
    } else if month == 8 {
        "Aug"
    } else if month == 9 {
        "Sep"
    } else if month == 10 {
        "Oct"
    } else if month == 11 {
        "Nov"
    } else {
        "Dec"
    }
}

/// Whether a year is a leap year.
pub fn is_leap_year(year: u32) -> (b: bool)
    ensures
        b == spec_is_leap_year(year as int),
{
    (year % 4 == 0 && year % 100 != 0) || (year % 400 == 0)
}

/// Days in a given month of a given year.
pub fn days_in_month(year: u32, month: u32) -> (n: u32)
    requires
        1 <= month <= 12,
    ensures
        n == spec_days_in_month(year as int, month as int),
{
    match month {
        1 => 31,
        2 => if is_leap_year(year) {
            29
        } else {
            28
        },
        3 => 31,
        4 => 30,
        5 => 31,
        6 => 30,
        7 => 31,
        8 => 31,
        9 => 30,
        10 => 31,
        11 => 30,
        _ => 31,
    }
}

/// The days of one year follow those of the year before.
pub proof fn lemma_year_step(year: int)
    ensures
        days_before_year(year + 1) == days_before_year(year) + year_length(year),
{
    let x = year - 1;
    assert(x + 1 == year);
    assert((x + 1) / 4 == x / 4 + (if year % 4 == 0 { 1int } else { 0 })) by {
        vstd::arithmetic::div_mod::lemma_fundamental_div_mod(x, 4);
        vstd::arithmetic::div_mod::lemma_fundamental_div_mod(x + 1, 4);
    }
    assert((x + 1) / 100 == x / 100 + (if year % 100 == 0 { 1int } else { 0 })) by {
        vstd::arithmetic::div_mod::lemma_fundamental_div_mod(x, 100);
        vstd::arithmetic::div_mod::lemma_fundamental_div_mod(x + 1, 100);
    }
    assert((x + 1) / 400 == x / 400 + (if year % 400 == 0 { 1int } else { 0 })) by {
        vstd::arithmetic::div_mod::lemma_fundamental_div_mod(x, 400);
        vstd::arithmetic::div_mod::lemma_fundamental_div_mod(x + 1, 400);
    }
}

/// Earlier years start earlier.
pub proof fn lemma_year_monotone(y1: int, y2: int)
    requires
        y1 <= y2,
    ensures
        days_before_year(y1) <= days_before_year(y2),
        y1 < y2 ==> days_before_year(y1) + year_length(y1) <= days_before_year(y2),
    decreases y2 - y1,
{
    if y1 < y2 {
        lemma_year_step(y1);
        lemma_year_monotone(y1 + 1, y2);
    }
}

/// The months of a year fill it: each month starts where the previous one ends.
pub proof fn lemma_month_layout(year: int, m1: int, m2: int)
    requires
        1 <= m1 < m2 <= 12,
    ensures
        days_before_month(year, m1) + spec_days_in_month(year, m1) <= days_before_month(year, m2),
        m2 == m1 + 1 ==> days_before_month(year, m1) + spec_days_in_month(year, m1)
            == days_before_month(year, m2),
{
}

/// December ends the year.
pub proof fn lemma_december_ends_year(year: int)
    ensures
        days_before_month(year, 12) + 31 == year_length(year),
        forall|m: int|
            1 <= m <= 12 ==> days_before_month(year, m) + spec_days_in_month(year, m) <= year_length(
                year,
            ),
{
}

/// For a valid date, stepping one day moves its ordinal by one.
pub proof fn lemma_next_day_ordinal(d: GameDate)
    requires
        d.is_valid(),
        !(d.year == u32::MAX && d.month == 12 && d.day >= 31),
    ensures
        d.spec_next_day().is_valid(),
        d.spec_next_day().ordinal() == d.ordinal() + 1,
{
    let y = d.year as int;
    let m = d.month as int;
    if d.day < spec_days_in_month(y, m) {
    } else if d.month < 12 {
        lemma_month_layout(y, m, m + 1);
    } else {
        lemma_year_step(y);
        lemma_december_ends_year(y);
    }
}

/// On valid dates the calendar order is the order of ordinals.
pub proof fn lemma_before_iff_ordinal(a: GameDate, b: GameDate)
    requires
        a.is_valid(),
        b.is_valid(),
    ensures
        a.spec_before(b) <==> a.ordinal() < b.ordinal(),
        a == b <==> a.ordinal() == b.ordinal(),
{
    let ya = a.year as int;
    let yb = b.year as int;
    lemma_december_ends_year(ya);
    lemma_december_ends_year(yb);
    if ya < yb {
        lemma_year_monotone(ya, yb);
    } else if yb < ya {
        lemma_year_monotone(yb, ya);
    } else {
        if a.month < b.month {
            lemma_month_layout(ya, a.month as int, b.month as int);
        } else if b.month < a.month {
            lemma_month_layout(ya, b.month as int, a.month as int);
        }
    }
}

/// A date that lies before a date no later than 31 December of the last representable
/// year is not that last day (or past it).
proof fn lemma_not_last_before(d: GameDate, other: GameDate)
    requires
        d.spec_before(other),
        other.month <= 12,
        !(other.year == u32::MAX && other.month == 12 && other.day > 31),
    ensures
        !(d.year == u32::MAX && d.month == 12 && d.day >= 31),
{
}

/// On a calendar date the count starts and lands at its ordinal.
pub proof fn lemma_positions_of_valid(d: GameDate)
    requires
        d.is_valid(),
    ensures
        d.start_position() == d.ordinal(),
        d.first_date_from() == d.ordinal(),
{
}

/// One step from a date with a month 1-12 lands on a calendar date, one past where the
/// count from it starts.
pub proof fn lemma_step_from_start(d: GameDate)
    requires
        1 <= d.month <= 12,
        !(d.year == u32::MAX && d.month == 12 && d.day >= 31),
    ensures
        d.spec_next_day().is_valid(),
        d.spec_next_day().ordinal() == d.start_position() + 1,
        d.spec_next_day().start_position() == d.start_position() + 1,
{
    let y = d.year as int;
    let m = d.month as int;
    let dim = spec_days_in_month(y, m);
    if 1 <= d.day <= dim {
        lemma_next_day_ordinal(d);
    } else if d.day == 0 {
    } else {
        let a = GameDate { day: dim as u32, ..d };
        assert(a.is_valid());
        assert(d.spec_next_day() == a.spec_next_day());
        lemma_next_day_ordinal(a);
    }
    lemma_positions_of_valid(d.spec_next_day());
}

/// A calendar date lies before `o` exactly when its ordinal is below that of the first
/// calendar date not before `o`.
pub proof fn lemma_valid_before_iff_first(d: GameDate, o: GameDate)
    requires
        d.is_valid(),
        1 <= o.month <= 12,
    ensures
        d.spec_before(o) <==> d.ordinal() < o.first_date_from(),
{
    let dim = spec_days_in_month(o.year as int, o.month as int);
    if 1 <= o.day <= dim {
        lemma_before_iff_ordinal(d, o);
    } else if o.day == 0 {
        let o1 = GameDate { day: 1, ..o };
        assert(o1.is_valid());
        lemma_before_iff_ordinal(d, o1);
        assert(d.spec_before(o) <==> d.spec_before(o1));
    } else {
        let o2 = GameDate { day: dim as u32, ..o };
        assert(o2.is_valid());
        lemma_before_iff_ordinal(d, o2);
        assert(d.spec_before(o) <==> (d.spec_before(o2) || d == o2));
    }
}

/// A date with a month 1-12 that lies before `o` starts its count below the first
/// calendar date not before `o`.
pub proof fn lemma_start_before_first(s: GameDate, o: GameDate)
    requires
        1 <= s.month <= 12,
        1 <= o.month <= 12,
        s.spec_before(o),
    ensures
        s.start_position() < o.first_date_from(),
{
    let dim = spec_days_in_month(s.year as int, s.month as int);
    if 1 <= s.day <= dim {
        lemma_valid_before_iff_first(s, o);
    } else if s.day == 0 {
        let s1 = GameDate { day: 1, ..s };
        assert(s1.is_valid());
        lemma_valid_before_iff_first(s1, o);
        if !s1.spec_before(o) {
            assert(o == s1);
        }
    } else {
        let s2 = GameDate { day: dim as u32, ..s };
        assert(s2.is_valid());
        lemma_valid_before_iff_first(s2, o);
    }
}

} // verus!
