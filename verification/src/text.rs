//! Plain-text rendering helpers: decimal numbers, zero-padded fields,
//! month names, date stamps and cent prices, each with an exact
//! character-sequence specification.

use vstd::prelude::*;

use crate::dates::Date;

verus! {

/// The decimal digit character for `d` (0 through 9).
pub open spec fn spec_digit(d: int) -> char {
    if d == 0 {
        '0'
    } else if d == 1 {
        '1'
    } else if d == 2 {
        '2'
    } else if d == 3 {
        '3'
    } else if d == 4 {
        '4'
    } else if d == 5 {
        '5'
    } else if d == 6 {
        '6'
    } else if d == 7 {
        '7'
    } else if d == 8 {
        '8'
    } else {
        '9'
    }
}

/// Decimal rendering of a non-negative number, no leading zeroes.
pub open spec fn spec_decimal(n: int) -> Seq<char>
    decreases n,
{
    if n < 10 {
        seq![spec_digit(n)]
    } else {
        spec_decimal(n / 10).push(spec_digit(n % 10))
    }
}

/// Two-digit zero-padded rendering of `n` (0 through 99).
pub open spec fn spec_two_digits(n: int) -> Seq<char> {
    seq![spec_digit(n / 10), spec_digit(n % 10)]
}

/// Four-digit zero-padded rendering of `n` (0 through 9999).
pub open spec fn spec_four_digits(n: int) -> Seq<char> {
    seq![
        spec_digit(n / 1000),
        spec_digit((n / 100) % 10),
        spec_digit((n / 10) % 10),
        spec_digit(n % 10),
    ]
}

/// A digit as a one-character string slice.
fn digit_str(d: u8) -> (r: &'static str)
    requires
        d <= 9,
    ensures
        r@ =~= seq![spec_digit(d as int)],
{
    proof {
        reveal_strlit("0");
        reveal_strlit("1");
        reveal_strlit("2");
        reveal_strlit("3");
        reveal_strlit("4");
        reveal_strlit("5");
        reveal_strlit("6");
        reveal_strlit("7");
        reveal_strlit("8");
        reveal_strlit("9");
    }
    if d == 0 {
        "0"
    } else if d == 1 {
        "1"
    } else if d == 2 {
        "2"
    } else if d == 3 {
        "3"
    } else if d == 4 {
        "4"
    } else if d == 5 {
        "5"
    } else if d == 6 {
        "6"
    } else if d == 7 {
        "7"
    } else if d == 8 {
        "8"
    } else {
        "9"
    }
}

/// Render `n` in decimal.
pub fn decimal_string(n: u64) -> (r: String)
    ensures
        r@ == spec_decimal(n as int),
    decreases n,
{
    if n < 10 {
        String::from_str(digit_str(n as u8))
    } else {
        let mut s = decimal_string(n / 10);
        s.append(digit_str((n % 10) as u8));
        proof {
            assert(s@ =~= spec_decimal(n as int));
        }
        s
    }
}

/// Render `n` as exactly two digits, zero padded.
pub fn two_digit_string(n: u64) -> (r: String)
    requires
        n < 100,
    ensures
        r@ == spec_two_digits(n as int),
{
    let mut s = String::from_str(digit_str((n / 10) as u8));
    s.append(digit_str((n % 10) as u8));
    proof {
        assert(s@ =~= spec_two_digits(n as int));
    }
    s
}

/// Render `n` as exactly four digits, zero padded.
pub fn four_digit_string(n: u64) -> (r: String)
    requires
        n < 10000,
    ensures
        r@ == spec_four_digits(n as int),
{
    let mut s = String::from_str(digit_str((n / 1000) as u8));
    s.append(digit_str(((n / 100) % 10) as u8));
    s.append(digit_str(((n / 10) % 10) as u8));
    s.append(digit_str((n % 10) as u8));
    proof {
        assert(s@ =~= spec_four_digits(n as int));
    }
    s
}

/// `MM/DD` stamp of a date.
pub open spec fn spec_mm_dd(d: Date) -> Seq<char> {
    spec_two_digits(d.month as int) + "/"@ + spec_two_digits(d.day as int)
}

/// `MM/DD/YYYY` stamp of a date.
pub open spec fn spec_mm_dd_yyyy(d: Date) -> Seq<char> {
    spec_mm_dd(d) + "/"@ + spec_four_digits(d.year as int)
}

/// `YYYY-MM-DD` stamp of a date.
pub open spec fn spec_iso_date(d: Date) -> Seq<char> {
    spec_four_digits(d.year as int) + "-"@ + spec_two_digits(d.month as int) + "-"@
        + spec_two_digits(d.day as int)
}

/// Render a date as `MM/DD`.
pub fn mm_dd_string(d: &Date) -> (r: String)
    requires
        d.wf(),
    ensures
        r@ == spec_mm_dd(*d),
{
    let mut s = two_digit_string(d.month as u64);
    s.append("/");
    let dd = two_digit_string(d.day as u64);
    s.append(dd.as_str());
    s
}

/// Render a date as `MM/DD/YYYY`.
pub fn mm_dd_yyyy_string(d: &Date) -> (r: String)
    requires
        d.wf(),
    ensures
        r@ == spec_mm_dd_yyyy(*d),
{
    let mut s = mm_dd_string(d);
    s.append("/");
    let y = four_digit_string(d.year as u64);
    s.append(y.as_str());
    s
}

/// Render a date as `YYYY-MM-DD`.
pub fn iso_date_string(d: &Date) -> (r: String)
    requires
        d.wf(),
    ensures
        r@ == spec_iso_date(*d),
{
    let mut s = four_digit_string(d.year as u64);
    s.append("-");
    let m = two_digit_string(d.month as u64);
    s.append(m.as_str());
    s.append("-");
    let dd = two_digit_string(d.day as u64);
    s.append(dd.as_str());
    s
}

/// English month name (1 through 12).
pub open spec fn spec_month_name(m: int) -> Seq<char> {
    if m == 1 {
        "January"@
    } else if m == 2 {
        "February"@
    } else if m == 3 {
        "March"@
    } else if m == 4 {
        "April"@
    } else if m == 5 {
        "May"@
    } else if m == 6 {
        "June"@
    } else if m == 7 {
        "July"@
    } else if m == 8 {
        "August"@
    } else if m == 9 {
        "September"@
    } else if m == 10 {
        "October"@
    } else if m == 11 {
        "November"@
    } else {
        "December"@
    }
}

/// English month name of month `m`.
pub fn month_name(m: u32) -> (r: &'static str)
    requires
        1 <= m <= 12,
    ensures
        r@ == spec_month_name(m as int),
{
    if m == 1 {
        "January"
    } else if m == 2 {
        "February"
    } else if m == 3 {
        "March"
    } else if m == 4 {
        "April"
    } else if m == 5 {
        "May"
    } else if m == 6 {
        "June"
    } else if m == 7 {
        "July"
    } else if m == 8 {
        "August"
    } else if m == 9 {
        "September"
    } else if m == 10 {
        "October"
    } else if m == 11 {
        "November"
    } else {
        "December"
    }
}

/// `Month DD, YYYY` stamp of a date.
pub open spec fn spec_long_date(d: Date) -> Seq<char> {
    spec_month_name(d.month as int) + " "@ + spec_two_digits(d.day as int) + ", "@
        + spec_four_digits(d.year as int)
}

/// Render a date as `Month DD, YYYY`.
pub fn long_date_string(d: &Date) -> (r: String)
    requires
        d.wf(),
    ensures
        r@ == spec_long_date(*d),
{
    let mut s = String::from_str(month_name(d.month));
    s.append(" ");
    let dd = two_digit_string(d.day as u64);
    s.append(dd.as_str());
    s.append(", ");
    let y = four_digit_string(d.year as u64);
    s.append(y.as_str());
    s
}

/// Price in dollars and cents, `D.CC`, from a cent count.
pub open spec fn spec_price(cents: int) -> Seq<char> {
    spec_decimal(cents / 100) + "."@ + spec_two_digits(cents % 100)
}

/// Render a cent count as `D.CC`.
pub fn price_string(cents: u64) -> (r: String)
    ensures
        r@ == spec_price(cents as int),
{
    let mut s = decimal_string(cents / 100);
    s.append(".");
    let c = two_digit_string(cents % 100);
    s.append(c.as_str());
    s
}

/// Decide whether two string slices hold the same characters.
pub fn str_eq(a: &str, b: &str) -> (r: bool)
    ensures
        r == (a@ == b@),
{
    let sa = String::from_str(a);
    let sb = String::from_str(b);
    sa == sb
}

} // verus!
