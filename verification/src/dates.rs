//! Calendar dates as plain year/month/day values, with the proleptic
//! Gregorian rules written out: leap years, month lengths, day numbering
//! and the derived ordering that the rest of the engine compares dates by.

use vstd::prelude::*;

verus! {

/// A calendar date held as plain fields.  Dates are ordered by their day
/// number (`day_index`); two well-formed dates are equal exactly when the
/// fields are equal.
#[derive(Clone, Copy, PartialEq, Eq, Structural, Debug, Hash)]
pub struct Date {
    pub year: u32,
    pub month: u32,
    pub day: u32,
}

/// Gregorian leap-year rule.
pub open spec fn spec_is_leap_year(y: int) -> bool {
    (y % 4 == 0 && y % 100 != 0) || y % 400 == 0
}

/// Number of days in month `m` of year `y`.
pub open spec fn spec_days_in_month(y: int, m: int) -> int {
    if m == 2 {
        if spec_is_leap_year(y) {
            29
        } else {
            28
        }
    } else if m == 4 || m == 6 || m == 9 || m == 11 {
        30
    } else {
        31
    }
}

/// Number of days in year `y`.
pub open spec fn spec_year_length(y: int) -> int {
    if spec_is_leap_year(y) {
        366
    } else {
        365
    }
}

/// Days in all years strictly before year `y`, counting from year 1.
pub open spec fn days_before_year(y: int) -> int
    decreases y,
{
    if y <= 1 {
        0
    } else {
        days_before_year(y - 1) + spec_year_length(y - 1)
    }
}

/// Days in the months of year `y` strictly before month `m`.
pub open spec fn days_before_month(y: int, m: int) -> int
    decreases m,
{
    if m <= 1 {
        0
    } else {
        days_before_month(y, m - 1) + spec_days_in_month(y, m - 1)
    }
}

impl Date {
    /// A date is well formed when its fields name a real calendar day
    /// within the supported year range.
    pub open spec fn wf(self) -> bool {
        1 <= self.year <= 9999 && 1 <= self.month <= 12 && 1 <= self.day
            <= spec_days_in_month(self.year as int, self.month as int)
    }

    /// Day number of this date, with 0001-01-01 as day zero.
    pub open spec fn day_index(self) -> int {
        days_before_year(self.year as int) + days_before_month(self.year as int, self.month as int)
            + self.day - 1
    }

    /// Date order: by day number.
    pub open spec fn spec_le(self, other: Date) -> bool {
        self.day_index() <= other.day_index()
    }

    /// Strict date order.
    pub open spec fn spec_lt(self, other: Date) -> bool {
        self.day_index() < other.day_index()
    }

    /// Month counter: months since January of year 1.
    pub open spec fn month_index(self) -> int {
        self.year * 12 + self.month - 13
    }
}

/// True exactly when `y` is a Gregorian leap year.
pub fn is_leap_year(y: u32) -> (r: bool)
    ensures
        r == spec_is_leap_year(y as int),
{
    (y % 4 == 0 && y % 100 != 0) || y % 400 == 0
}

/// Number of days in month `m` of year `y`.
pub fn days_in_month(y: u32, m: u32) -> (r: u32)
    requires
        1 <= m <= 12,
    ensures
        r == spec_days_in_month(y as int, m as int),
{
    if m == 2 {
        if is_leap_year(y) {
            29
        } else {
            28
        }
    } else if m == 4 || m == 6 || m == 9 || m == 11 {
        30
    } else {
        31
    }
}

proof fn lemma_days_before_year_bound(y: int)
    requires
        1 <= y,
    ensures
        0 <= days_before_year(y) <= 366 * (y - 1),
    decreases y,
{
    if y > 1 {
        lemma_days_before_year_bound(y - 1);
    }
}

proof fn lemma_days_before_month_bound(y: int, m: int)
    requires
        1 <= m <= 13,
    ensures
        0 <= days_before_month(y, m) <= 31 * (m - 1),
    decreases m,
{
    if m > 1 {
        lemma_days_before_month_bound(y, m - 1);
    }
}

impl Date {
    /// Whether the date names a real calendar day in the supported range.
    pub fn is_well_formed(&self) -> (r: bool)
        ensures
            r == self.wf(),
    {
        1 <= self.year && self.year <= 9999 && 1 <= self.month && self.month <= 12 && 1 <= self.day
            && self.day <= days_in_month(self.year, self.month)
    }

    /// Day number of this date, with 0001-01-01 as day zero.
    pub fn day_number(&self) -> (r: u32)
        requires
            self.wf(),
        ensures
            r == self.day_index(),
            r <= 3_660_000,
    {
        let mut acc: u32 = 0;
        let mut y: u32 = 1;
        while y < self.year
            invariant
                1 <= y <= self.year <= 9999,
                acc == days_before_year(y as int),
                acc <= 366 * (y - 1),
            decreases self.year - y,
        {
            if is_leap_year(y) {
                acc = acc + 366;
            } else {
                acc = acc + 365;
            }
            y = y + 1;
        }
        let mut m: u32 = 1;
        let mut macc: u32 = 0;
        while m < self.month
            invariant
                1 <= m <= self.month <= 12,
                macc == days_before_month(self.year as int, m as int),
                macc <= 31 * (m - 1),
            decreases self.month - m,
        {
            macc = macc + days_in_month(self.year, m);
            m = m + 1;
        }
        proof {
            lemma_days_before_year_bound(self.year as int);
            lemma_days_before_month_bound(self.year as int, self.month as int);
        }
        acc + macc + (self.day - 1)
    }

    /// `self` is on or before `other` in calendar order.
    pub fn le(&self, other: &Date) -> (r: bool)
        requires
            self.wf(),
            other.wf(),
        ensures
            r == self.spec_le(*other),
    {
        self.day_number() <= other.day_number()
    }

    /// `self` is strictly before `other` in calendar order.
    pub fn lt(&self, other: &Date) -> (r: bool)
        requires
            self.wf(),
            other.wf(),
        ensures
            r == self.spec_lt(*other),
    {
        self.day_number() < other.day_number()
    }

    /// First day of this date's month.
    pub fn first_of_month(&self) -> (r: Date)
        requires
            self.wf(),
        ensures
            r.wf(),
            r.year == self.year,
            r.month == self.month,
            r.day == 1,
    {
        Date { year: self.year, month: self.month, day: 1 }
    }
}

/// Signed number of days from `a` to `b`: positive when `b` is later.
pub fn days_between(a: &Date, b: &Date) -> (r: i64)
    requires
        a.wf(),
        b.wf(),
    ensures
        r == b.day_index() - a.day_index(),
        -3_660_000 <= r <= 3_660_000,
{
    b.day_number() as i64 - a.day_number() as i64
}

proof fn lemma_days_before_year_mono(y1: int, y2: int)
    requires
        1 <= y1 <= y2,
    ensures
        days_before_year(y1) <= days_before_year(y2),
        y1 < y2 ==> days_before_year(y1) + spec_year_length(y1) <= days_before_year(y2),
    decreases y2,
{
    if y1 < y2 {
        lemma_days_before_year_mono(y1, y2 - 1);
    }
}

proof fn lemma_days_before_month_mono(y: int, m1: int, m2: int)
    requires
        1 <= m1 <= m2,
    ensures
        days_before_month(y, m1) <= days_before_month(y, m2),
        m1 < m2 ==> days_before_month(y, m1) + spec_days_in_month(y, m1) <= days_before_month(
            y,
            m2,
        ),
    decreases m2,
{
    if m1 < m2 {
        lemma_days_before_month_mono(y, m1, m2 - 1);
    }
}

proof fn lemma_year_holds_months(y: int, m: int)
    requires
        1 <= m <= 12,
    ensures
        days_before_month(y, m) + spec_days_in_month(y, m) <= spec_year_length(y),
{
    lemma_days_before_month_mono(y, m, 13);
    reveal_with_fuel(days_before_month, 14);
    assert(days_before_month(y, 13) == spec_year_length(y));
}

/// Calendar order refines month order: an earlier day never sits in a
/// later month.
pub proof fn lemma_day_order_gives_month_order(a: Date, b: Date)
    requires
        a.wf(),
        b.wf(),
        a.spec_le(b),
    ensures
        a.month_index() <= b.month_index(),
{
    if a.month_index() > b.month_index() {
        let (ya, ma) = (a.year as int, a.month as int);
        let (yb, mb) = (b.year as int, b.month as int);
        lemma_days_before_month_bound(ya, ma);
        lemma_days_before_month_bound(yb, mb);
        if ya == yb {
            lemma_days_before_month_mono(ya, mb, ma);
            assert(false);
        } else if ya > yb {
            lemma_days_before_year_mono(yb, ya);
            lemma_year_holds_months(yb, mb);
            lemma_days_before_month_mono(yb, 1, mb);
            assert(false);
        } else {
            lemma_days_before_year_mono(ya, yb);
            lemma_year_holds_months(ya, ma);
            assert(false);
        }
    }
}

} // verus!
