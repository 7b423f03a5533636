//! Decoding of upstream payload fragments: the availability status table,
//! price strings, date stamps inside date-time keys, and HTTP status
//! classes.  Every decoder is total: each input yields a defined value.

use vstd::prelude::*;

use crate::dates::{spec_days_in_month, Date};
use crate::text::str_eq;

verus! {

/// Largest dollar amount a price string may carry.
pub const MAX_PRICE_DOLLARS: u64 = 999_999_999_999;

/// `c` is a decimal digit.
pub open spec fn is_digit_char(c: char) -> bool {
    48 <= c as u32 <= 57
}

/// Numeric value of a digit character.
pub open spec fn char_val(c: char) -> int {
    c as u32 - 48
}

/// Every character of `s` is a decimal digit.
pub open spec fn all_digits(s: Seq<char>) -> bool {
    forall|i: int| 0 <= i < s.len() ==> is_digit_char(#[trigger] s[i])
}

/// Value of a digit string read in base ten.
pub open spec fn digits_value(s: Seq<char>) -> int
    decreases s.len(),
{
    if s.len() == 0 {
        0
    } else {
        digits_value(s.drop_last()) * 10 + char_val(s.last())
    }
}

/// Index of the first `.` in `s`, or `s.len()` when there is none.
pub open spec fn first_dot(s: Seq<char>) -> int
    decreases s.len(),
{
    if s.len() == 0 {
        0
    } else if s[0] == '.' {
        0
    } else {
        1 + first_dot(s.drop_first())
    }
}

proof fn lemma_first_dot(s: Seq<char>)
    ensures
        0 <= first_dot(s) <= s.len(),
        forall|j: int| 0 <= j < first_dot(s) ==> s[j] != '.',
        first_dot(s) < s.len() ==> s[first_dot(s)] == '.',
    decreases s.len(),
{
    if s.len() > 0 && s[0] != '.' {
        lemma_first_dot(s.drop_first());
        assert forall|j: int| 0 <= j < first_dot(s) implies s[j] != '.' by {
            if j > 0 {
                assert(s.drop_first()[j - 1] != '.');
            }
        }
    }
}

proof fn lemma_digits_value_nonneg(s: Seq<char>)
    requires
        all_digits(s),
    ensures
        digits_value(s) >= 0,
    decreases s.len(),
{
    if s.len() > 0 {
        assert(all_digits(s.drop_last()));
        lemma_digits_value_nonneg(s.drop_last());
    }
}

proof fn lemma_digits_value_mono(s: Seq<char>, j: int)
    requires
        all_digits(s),
        0 <= j <= s.len(),
    ensures
        digits_value(s.subrange(0, j)) <= digits_value(s),
    decreases s.len() - j,
{
    if j < s.len() {
        lemma_digits_value_mono(s, j + 1);
        let a = s.subrange(0, j);
        let b = s.subrange(0, j + 1);
        assert(b.drop_last() =~= a);
        assert(all_digits(a));
        lemma_digits_value_nonneg(a);
    } else {
        assert(s.subrange(0, j) =~= s);
    }
}

/// Cents carried by the fraction part of a price: the first two fraction
/// digits, padded with zeroes.
pub open spec fn fraction_cents(frac: Seq<char>) -> int {
    if frac.len() == 0 {
        0
    } else if frac.len() == 1 {
        10 * char_val(frac[0])
    } else {
        10 * char_val(frac[0]) + char_val(frac[1])
    }
}

/// Parse a decimal price string (digits, optionally a dot and fraction
/// digits, at least one digit in all) into cents, truncating the fraction
/// past two digits.  Amounts over `MAX_PRICE_DOLLARS` dollars and any other
/// shape give `None`.
pub open spec fn spec_price_cents(s: Seq<char>) -> Option<u64> {
    let i = first_dot(s);
    let intpart = s.subrange(0, i);
    let frac = if i < s.len() {
        s.subrange(i + 1, s.len() as int)
    } else {
        Seq::<char>::empty()
    };
    if all_digits(intpart) && all_digits(frac) && intpart.len() + frac.len() >= 1 && digits_value(
        intpart,
    ) <= MAX_PRICE_DOLLARS {
        Some((digits_value(intpart) * 100 + fraction_cents(frac)) as u64)
    } else {
        None
    }
}

/// Parse the characters of `s` from position `from` on as a decimal price,
/// yielding cents.
#[verifier::loop_isolation(false)]
pub fn parse_price_cents(s: &str, from: usize) -> (r: Option<u64>)
    requires
        from <= s@.len(),
    ensures
        r == spec_price_cents(s@.subrange(from as int, s@.len() as int)),
{
    let n = s.unicode_len();
    let ghost sub = s@.subrange(from as int, n as int);
    proof {
        lemma_first_dot(sub);
    }
    // find the first dot
    let mut di: usize = from;
    while di < n && s.get_char(di) != '.'
        invariant
            from <= di <= n,
            n == s@.len(),
            from <= s@.len(),
            sub == s@.subrange(from as int, n as int),
            forall|j: int| from <= j < di ==> s@[j] != '.',
        decreases n - di,
    {
        di = di + 1;
    }
    proof {
        assert forall|j: int| 0 <= j < di - from implies sub[j] != '.' by {
            assert(sub[j] == s@[from + j]);
        }
        if first_dot(sub) < di - from {
            assert(sub[first_dot(sub)] == '.');
            assert(s@[from + first_dot(sub)] == '.');
            assert(false);
        }
        if first_dot(sub) > di - from {
            assert(di < n);
            assert(sub[di - from] == s@[di as int]);
            assert(sub[di - from] != '.');
            assert(false);
        }
        assert(first_dot(sub) == di - from);
    }
    let ghost intpart = sub.subrange(0, di - from);
    let ghost frac = if di < n {
        sub.subrange(di - from + 1, sub.len() as int)
    } else {
        Seq::<char>::empty()
    };

    // integer part
    let mut value: u64 = 0;
    let mut j: usize = from;
    while j < di
        invariant
            from <= j <= di <= n,
            n == s@.len(),
            sub == s@.subrange(from as int, n as int),
            intpart == sub.subrange(0, di - from),
            all_digits(sub.subrange(0, j - from)),
            value == digits_value(sub.subrange(0, j - from)),
            value <= MAX_PRICE_DOLLARS,
        decreases di - j,
    {
        let c = s.get_char(j);
        proof {
            assert(sub[j - from] == s@[j as int]);
        }
        let cv = c as u32;
        if cv < 48 || cv > 57 {
            proof {
                assert(!is_digit_char(intpart[j - from]));
            }
            return None;
        }
        let d = (cv - 48) as u64;
        proof {
            let pre = sub.subrange(0, j - from);
            let post = sub.subrange(0, j - from + 1);
            assert(post.drop_last() =~= pre);
            assert(post.last() == sub[j - from]);
            assert forall|i: int| 0 <= i < post.len() implies is_digit_char(#[trigger] post[i]) by {
                if i < j - from {
                    assert(post[i] == pre[i]);
                } else {
                    assert(post[i] == sub[j - from]);
                }
            }
            assert(digits_value(post) == digits_value(pre) * 10 + char_val(sub[j - from]));
        }
        let next = value * 10 + d;
        if next > MAX_PRICE_DOLLARS {
            proof {
                assert(all_digits(sub.subrange(0, j - from + 1)));
                assert(digits_value(sub.subrange(0, j - from + 1)) == next);
                assert(intpart.subrange(0, j - from + 1) =~= sub.subrange(0, j - from + 1));
                if all_digits(intpart) {
                    lemma_digits_value_mono(intpart, j - from + 1);
                }
            }
            return None;
        }
        value = next;
        j = j + 1;
    }
    proof {
        assert(sub.subrange(0, di - from) =~= intpart);
    }

    // fraction part
    let mut cents_frac: u64 = 0;
    if di < n {
        let mut k: usize = di + 1;
        while k < n
            invariant
                di + 1 <= k <= n,
                n == s@.len(),
                di < n,
                sub == s@.subrange(from as int, n as int),
                from <= di,
                frac == sub.subrange(di - from + 1, sub.len() as int),
                all_digits(frac.subrange(0, k - di - 1)),
                cents_frac == fraction_cents(frac.subrange(0, k - di - 1)),
                cents_frac <= 99,
            decreases n - k,
        {
            let c = s.get_char(k);
            proof {
                assert(frac[k - di - 1] == s@[k as int]);
            }
            let cv = c as u32;
            if cv < 48 || cv > 57 {
                proof {
                    assert(!is_digit_char(frac[k - di - 1]));
                }
                return None;
            }
            let d = (cv - 48) as u64;
            if k == di + 1 {
                cents_frac = 10 * d;
            } else if k == di + 2 {
                cents_frac = cents_frac + d;
            }
            proof {
                let pre = frac.subrange(0, k - di - 1);
                let post = frac.subrange(0, k - di);
                assert(post.drop_last() =~= pre);
                assert(post.last() == frac[k - di - 1]);
                assert forall|i: int| 0 <= i < post.len() implies is_digit_char(
                    #[trigger] post[i],
                ) by {
                    if i < k - di - 1 {
                        assert(post[i] == pre[i]);
                    } else {
                        assert(post[i] == frac[k - di - 1]);
                    }
                }
            }
            k = k + 1;
        }
        proof {
            assert(frac.subrange(0, k - di - 1) =~= frac);
        }
    }

    if di == n && from == di {
        // empty string: no digits at all
        return None;
    }
    if di < n && di == from && n == di + 1 {
        // a lone dot
        return None;
    }
    proof {
        assert(intpart.len() + frac.len() >= 1);
    }
    Some(value * 100 + cents_frac)
}

/// The decoded meaning of an upstream availability status string: the
/// documented table maps `Available`, legacy `A`, and price strings
/// (`$` followed by a decimal amount) to available; every other string,
/// including `Reserved`, `Not Available`, `Not Reservable`, `Walk-up` and
/// the legacy `R`, `X`, `W`, `N`, decodes to unavailable.  The decode is
/// total: every input yields a defined (available, price) pair.
pub open spec fn spec_decode_status(s: Seq<char>) -> (bool, Option<u64>) {
    if s == "Available"@ || s == "A"@ {
        (true, None)
    } else if s.len() >= 1 && s[0] == '$' {
        (true, spec_price_cents(s.subrange(1, s.len() as int)))
    } else {
        (false, None)
    }
}

/// Decode an availability status string into (available, price in cents).
pub fn decode_status(status: &str) -> (r: (bool, Option<u64>))
    ensures
        r == spec_decode_status(status@),
{
    if str_eq(status, "Available") || str_eq(status, "A") {
        return (true, None);
    }
    let n = status.unicode_len();
    if n >= 1 && status.get_char(0) == '$' {
        let price = parse_price_cents(status, 1);
        proof {
            assert(status@.subrange(1, status@.len() as int) == status@.subrange(
                1 as int,
                status@.len() as int,
            ));
        }
        (true, price)
    } else {
        (false, None)
    }
}

/// Class of an upstream HTTP response status.
#[derive(Clone, Copy, PartialEq, Eq, Structural, Debug)]
pub enum HttpStatusClass {
    /// 2xx.
    Success,
    /// 429.
    RateLimited,
    /// 401 or 403.
    AuthenticationFailed,
    /// 404.
    NotFound,
    /// Any other status.
    Other,
}

/// The documented mapping of HTTP statuses to error classes.
pub open spec fn spec_classify_http_status(code: u16) -> HttpStatusClass {
    if 200 <= code < 300 {
        HttpStatusClass::Success
    } else if code == 429 {
        HttpStatusClass::RateLimited
    } else if code == 401 || code == 403 {
        HttpStatusClass::AuthenticationFailed
    } else if code == 404 {
        HttpStatusClass::NotFound
    } else {
        HttpStatusClass::Other
    }
}

/// Classify an upstream HTTP status code.
pub fn classify_http_status(code: u16) -> (r: HttpStatusClass)
    ensures
        r == spec_classify_http_status(code),
{
    if 200 <= code && code < 300 {
        HttpStatusClass::Success
    } else if code == 429 {
        HttpStatusClass::RateLimited
    } else if code == 401 || code == 403 {
        HttpStatusClass::AuthenticationFailed
    } else if code == 404 {
        HttpStatusClass::NotFound
    } else {
        HttpStatusClass::Other
    }
}

/// Reading of the `YYYY-MM-DD` prefix of an upstream date-time key: the
/// first ten characters must be four digits, a dash, two digits, a dash
/// and two digits, naming a well-formed calendar date.
pub open spec fn spec_parse_date_prefix(s: Seq<char>) -> Option<Date> {
    if s.len() >= 10 && all_digits(s.subrange(0, 4)) && s[4] == '-' && all_digits(
        s.subrange(5, 7),
    ) && s[7] == '-' && all_digits(s.subrange(8, 10)) {
        let d = Date {
            year: digits_value(s.subrange(0, 4)) as u32,
            month: digits_value(s.subrange(5, 7)) as u32,
            day: digits_value(s.subrange(8, 10)) as u32,
        };
        if d.wf() {
            Some(d)
        } else {
            None
        }
    } else {
        None
    }
}

proof fn lemma_digits_value2(s: Seq<char>)
    requires
        s.len() == 2,
    ensures
        digits_value(s) == char_val(s[0]) * 10 + char_val(s[1]),
{
    assert(s.drop_last() =~= s.subrange(0, 1));
    assert(s.subrange(0, 1).drop_last() =~= s.subrange(0, 0));
    assert(digits_value(s.subrange(0, 0)) == 0);
    assert(digits_value(s.subrange(0, 1)) == char_val(s[0]));
}

proof fn lemma_digits_value4(s: Seq<char>)
    requires
        s.len() == 4,
    ensures
        digits_value(s) == ((char_val(s[0]) * 10 + char_val(s[1])) * 10 + char_val(s[2])) * 10
            + char_val(s[3]),
{
    assert(s.drop_last() =~= s.subrange(0, 3));
    assert(s.subrange(0, 3).drop_last() =~= s.subrange(0, 2));
    assert(s.subrange(0, 2).drop_last() =~= s.subrange(0, 1));
    assert(s.subrange(0, 1).drop_last() =~= s.subrange(0, 0));
    assert(digits_value(s.subrange(0, 0)) == 0);
    assert(digits_value(s.subrange(0, 1)) == char_val(s[0]));
    assert(digits_value(s.subrange(0, 2)) == char_val(s[0]) * 10 + char_val(s[1]));
    assert(digits_value(s.subrange(0, 3)) == (char_val(s[0]) * 10 + char_val(s[1])) * 10
        + char_val(s[2]));
}

fn read_digit(s: &str, i: usize) -> (r: Option<u32>)
    requires
        i < s@.len(),
    ensures
        match r {
            Some(v) => is_digit_char(s@[i as int]) && v == char_val(s@[i as int]),
            None => !is_digit_char(s@[i as int]),
        },
{
    let cv = s.get_char(i) as u32;
    if 48 <= cv && cv <= 57 {
        Some(cv - 48)
    } else {
        None
    }
}

/// Parse the `YYYY-MM-DD` prefix of an upstream date-time key.
pub fn parse_date_prefix(s: &str) -> (r: Option<Date>)
    ensures
        r == spec_parse_date_prefix(s@),
{
    let n = s.unicode_len();
    if n < 10 {
        return None;
    }
    let d0 = read_digit(s, 0);
    let d1 = read_digit(s, 1);
    let d2 = read_digit(s, 2);
    let d3 = read_digit(s, 3);
    let m0 = read_digit(s, 5);
    let m1 = read_digit(s, 6);
    let a0 = read_digit(s, 8);
    let a1 = read_digit(s, 9);
    let dash1 = s.get_char(4) == '-';
    let dash2 = s.get_char(7) == '-';
    match (d0, d1, d2, d3, m0, m1, a0, a1) {
        (Some(y0), Some(y1), Some(y2), Some(y3), Some(mo0), Some(mo1), Some(da0), Some(da1)) => {
            if !(dash1 && dash2) {
                return None;
            }
            let ghost ys = s@.subrange(0, 4);
            let ghost ms = s@.subrange(5, 7);
            let ghost ds = s@.subrange(8, 10);
            proof {
                assert(all_digits(ys)) by {
                    assert(ys[0] == s@[0] && ys[1] == s@[1] && ys[2] == s@[2] && ys[3] == s@[3]);
                    assert(forall|i: int| 0 <= i < 4 ==> ys[i] == s@[i]);
                }
                assert(all_digits(ms)) by {
                    assert(forall|i: int| 0 <= i < 2 ==> ms[i] == s@[i + 5]);
                }
                assert(all_digits(ds)) by {
                    assert(forall|i: int| 0 <= i < 2 ==> ds[i] == s@[i + 8]);
                }
                lemma_digits_value4(ys);
                lemma_digits_value2(ms);
                lemma_digits_value2(ds);
            }
            let year: u32 = ((y0 * 10 + y1) * 10 + y2) * 10 + y3;
            let month: u32 = mo0 * 10 + mo1;
            let day: u32 = da0 * 10 + da1;
            let date = Date { year, month, day };
            if date.is_well_formed() {
                Some(date)
            } else {
                None
            }
        },
        _ => {
            proof {
                let ys = s@.subrange(0, 4);
                let ms = s@.subrange(5, 7);
                let ds = s@.subrange(8, 10);
                assert(ys[0] == s@[0] && ys[1] == s@[1] && ys[2] == s@[2] && ys[3] == s@[3]);
                assert(ms[0] == s@[5] && ms[1] == s@[6]);
                assert(ds[0] == s@[8] && ds[1] == s@[9]);
            }
            None
        },
    }
}

} // verus!
