//! Verification codes for contact confirmation: generation of random
//! codes and tokens, the in-memory store keyed by user, and the checking
//! rules (expiry, a three-attempt budget, one-shot consumption).

use vstd::prelude::*;

use crate::codec::{all_digits, is_digit_char};
use crate::text::{decimal_string, spec_decimal, str_eq};
use crate::types::MAX_TIMESTAMP;

verus! {

/// Relies on rand::rng and Rng::random_range: an integer drawn from the
/// inclusive range.  Nothing more is promised of a random value.
#[verifier::external_body]
fn random_in_range(lo: u32, hi: u32) -> (r: u32)
    requires
        lo <= hi,
    ensures
        lo <= r <= hi,
{
    rand::Rng::random_range(&mut rand::rng(), lo..=hi)
}

proof fn lemma_decimal_digits(n: int)
    requires
        n >= 0,
    ensures
        forall|i: int|
            0 <= i < spec_decimal(n).len() ==> is_digit_char(#[trigger] spec_decimal(n)[i]),
    decreases n,
{
    if n >= 10 {
        lemma_decimal_digits(n / 10);
        assert(forall|i: int|
            0 <= i < spec_decimal(n / 10).len() ==> #[trigger] spec_decimal(n)[i] == spec_decimal(
                n / 10,
            )[i]);
    }
}

proof fn lemma_decimal_len6(n: int)
    requires
        100_000 <= n <= 999_999,
    ensures
        spec_decimal(n).len() == 6,
{
    reveal_with_fuel(spec_decimal, 7);
}

/// A random six-digit verification code.
pub fn generate_verification_code() -> (r: String)
    ensures
        r@.len() == 6,
        all_digits(r@),
{
    let n = random_in_range(100_000, 999_999);
    proof {
        lemma_decimal_len6(n as int);
        lemma_decimal_digits(n as int);
    }
    decimal_string(n as u64)
}

/// A random 32-character token for emailed verification links, drawn from
/// letters and digits.
#[verifier::loop_isolation(false)]
pub fn generate_verification_token() -> (r: String)
    ensures
        r@.len() == 32,
{
    let charset = "abcdefghijklmnopqrstuvwxyzABCDEFGHIJKLMNOPQRSTUVWXYZ0123456789";
    proof {
        reveal_strlit("abcdefghijklmnopqrstuvwxyzABCDEFGHIJKLMNOPQRSTUVWXYZ0123456789");
    }
    let n = charset.unicode_len();
    let mut token = String::new();
    let mut i: usize = 0;
    while i < 32
        invariant
            0 <= i <= 32,
            token@.len() == i,
            n == charset@.len(),
            n == 62,
        decreases 32 - i,
    {
        let idx = random_in_range(0, 61) as usize;
        let c = charset.substring_char(idx, idx + 1);
        token.append(c);
        i = i + 1;
    }
    token
}

/// Put a phone number into E.164 shape: numbers already starting with `+`
/// pass through; otherwise the usual separators are stripped and a `+` is
/// put in front.
pub open spec fn spec_phone_separator(c: char) -> bool {
    c == '(' || c == ')' || c == '-' || c == ' ' || c == '.'
}

/// Format a phone number for the SMS gateway.
#[verifier::loop_isolation(false)]
pub fn format_phone_e164(phone: &str) -> (r: String)
    ensures
        phone@.len() > 0 && phone@[0] == '+' ==> r@ == phone@,
        !(phone@.len() > 0 && phone@[0] == '+') ==> r@ == seq!['+'] + phone@.filter(
            |c: char| !spec_phone_separator(c),
        ),
{
    let n = phone.unicode_len();
    if n > 0 && phone.get_char(0) == '+' {
        return String::from_str(phone.to_owned().as_str());
    }
    let ghost pred = |c: char| !spec_phone_separator(c);
    let mut r = String::from_str("+");
    proof {
        reveal_strlit("+");
        assert(r@ =~= seq!['+'] + phone@.subrange(0, 0).filter(pred));
    }
    let mut i: usize = 0;
    while i < n
        invariant
            0 <= i <= n,
            n == phone@.len(),
            r@ == seq!['+'] + phone@.subrange(0, i as int).filter(pred),
        decreases n - i,
    {
        let c = phone.get_char(i);
        proof {
            let pre = phone@.subrange(0, i as int);
            assert(phone@.subrange(0, i + 1 as int) =~= pre.push(phone@[i as int]));
            crate::snapshot::lemma_filter_push(pre, phone@[i as int], pred);
        }
        let keep = !(c == '(' || c == ')' || c == '-' || c == ' ' || c == '.');
        if keep {
            let piece = phone.substring_char(i, i + 1);
            r.append(piece);
            proof {
                assert(piece@ =~= seq![phone@[i as int]]);
                assert(r@ =~= seq!['+'] + phone@.subrange(0, i + 1 as int).filter(pred));
            }
        } else {
            proof {
                assert(r@ =~= seq!['+'] + phone@.subrange(0, i + 1 as int).filter(pred));
            }
        }
        i = i + 1;
    }
    proof {
        assert(phone@.subrange(0, i as int) =~= phone@);
    }
    r
}

/// A stored verification code: its digits, when it lapses, and how many
/// checks it has survived.
pub struct VerificationCode {
    pub code: String,
    pub expires_at: u64,
    pub attempts: u32,
}

/// The in-memory verification-code store, keyed by account identifier;
/// each key holds at most one live code.
pub struct VerificationStore {
    pub entries: Vec<(String, VerificationCode)>,
}

/// First stored code under a key, if any.
pub open spec fn spec_code_at(
    entries: Seq<(String, VerificationCode)>,
    key: Seq<char>,
) -> Option<VerificationCode>
    decreases entries.len(),
{
    if entries.len() == 0 {
        None
    } else if entries[0].0@ == key {
        Some(entries[0].1)
    } else {
        spec_code_at(entries.drop_first(), key)
    }
}

impl VerificationStore {
    /// Keys are unique.
    pub open spec fn wf(self) -> bool {
        forall|i: int, j: int|
            0 <= i < j < self.entries@.len() ==> (#[trigger] self.entries@[i]).0@ != (
            #[trigger] self.entries@[j]).0@
    }

    /// The live code under a key.
    pub open spec fn spec_get(self, key: Seq<char>) -> Option<VerificationCode> {
        spec_code_at(self.entries@, key)
    }

    /// An empty store.
    pub fn new() -> (r: Self)
        ensures
            r.wf(),
            forall|key: Seq<char>| #[trigger] r.spec_get(key) is None,
            r.entries@.len() == 0,
    {
        VerificationStore { entries: Vec::new() }
    }

    #[verifier::loop_isolation(false)]
    fn find_index(&self, key: &String) -> (r: Option<usize>)
        ensures
            match r {
                Some(i) => i < self.entries@.len() && self.entries@[i as int].0@ == key@
                    && forall|k: int| 0 <= k < i ==> (#[trigger] self.entries@[k]).0@ != key@,
                None => forall|k: int|
                    0 <= k < self.entries@.len() ==> (#[trigger] self.entries@[k]).0@ != key@,
            },
    {
        let mut i: usize = 0;
        while i < self.entries.len()
            invariant
                0 <= i <= self.entries@.len(),
                forall|k: int| 0 <= k < i ==> (#[trigger] self.entries@[k]).0@ != key@,
            decreases self.entries@.len() - i,
        {
            if self.entries[i].0 == *key {
                return Some(i);
            }
            i = i + 1;
        }
        None
    }
}

proof fn lemma_code_at(entries: Seq<(String, VerificationCode)>, i: int, key: Seq<char>)
    requires
        0 <= i < entries.len(),
        entries[i].0@ == key,
        forall|k: int| 0 <= k < i ==> (#[trigger] entries[k]).0@ != key,
    ensures
        spec_code_at(entries, key) == Some(entries[i].1),
    decreases entries.len(),
{
    if i > 0 {
        assert(entries.drop_first()[i - 1] == entries[i]);
        assert(forall|k: int|
            0 <= k < i - 1 ==> #[trigger] entries.drop_first()[k] == entries[k + 1]);
        lemma_code_at(entries.drop_first(), i - 1, key);
    }
}

proof fn lemma_code_at_none(entries: Seq<(String, VerificationCode)>, key: Seq<char>)
    requires
        forall|k: int| 0 <= k < entries.len() ==> (#[trigger] entries[k]).0@ != key,
    ensures
        spec_code_at(entries, key) is None,
    decreases entries.len(),
{
    if entries.len() > 0 {
        assert(forall|k: int|
            0 <= k < entries.drop_first().len() ==> #[trigger] entries.drop_first()[k] == entries[k
                + 1]);
        lemma_code_at_none(entries.drop_first(), key);
    }
}

proof fn lemma_code_at_update(
    entries: Seq<(String, VerificationCode)>,
    j: int,
    e: (String, VerificationCode),
    key: Seq<char>,
)
    requires
        0 <= j < entries.len(),
        entries[j].0@ == e.0@,
        forall|k: int| 0 <= k < j ==> (#[trigger] entries[k]).0@ != e.0@,
    ensures
        spec_code_at(entries.update(j, e), key) == if key == e.0@ {
            Some(e.1)
        } else {
            spec_code_at(entries, key)
        },
    decreases entries.len(),
{
    let upd = entries.update(j, e);
    if j == 0 {
        assert(upd[0] == e);
        assert(upd.drop_first() =~= entries.drop_first());
    } else {
        assert(upd[0] == entries[0]);
        assert(upd.drop_first() =~= entries.drop_first().update(j - 1, e));
        assert(forall|k: int|
            0 <= k < j - 1 ==> #[trigger] entries.drop_first()[k] == entries[k + 1]);
        lemma_code_at_update(entries.drop_first(), j - 1, e, key);
    }
}

proof fn lemma_code_at_push(
    entries: Seq<(String, VerificationCode)>,
    e: (String, VerificationCode),
    key: Seq<char>,
)
    ensures
        spec_code_at(entries.push(e), key) == if spec_code_at(entries, key) is Some {
            spec_code_at(entries, key)
        } else if e.0@ == key {
            Some(e.1)
        } else {
            None
        },
    decreases entries.len(),
{
    if entries.len() == 0 {
        assert(entries.push(e)[0] == e);
        assert(entries.push(e).drop_first() =~= Seq::<(String, VerificationCode)>::empty());
        assert(spec_code_at(entries.push(e).drop_first(), key) is None);
        assert(spec_code_at(entries, key) is None);
    } else {
        assert(entries.push(e)[0] == entries[0]);
        assert(entries.push(e).drop_first() =~= entries.drop_first().push(e));
        lemma_code_at_push(entries.drop_first(), e, key);
        if entries[0].0@ == key {
        } else {
            assert(spec_code_at(entries.push(e), key) == spec_code_at(
                entries.drop_first().push(e),
                key,
            ));
            assert(spec_code_at(entries, key) == spec_code_at(entries.drop_first(), key));
        }
    }
}

proof fn lemma_code_at_remove(
    entries: Seq<(String, VerificationCode)>,
    j: int,
    key: Seq<char>,
)
    requires
        0 <= j < entries.len(),
        forall|k: int| 0 <= k < j ==> (#[trigger] entries[k]).0@ != entries[j].0@,
        forall|k: int|
            j < k < entries.len() ==> (#[trigger] entries[k]).0@ != entries[j].0@,
    ensures
        spec_code_at(entries.remove(j), key) == if key == entries[j].0@ {
            None
        } else {
            spec_code_at(entries, key)
        },
    decreases entries.len(),
{
    let rem = entries.remove(j);
    if j == 0 {
        assert(rem =~= entries.drop_first());
        if key == entries[0].0@ {
            assert(forall|k: int|
                0 <= k < rem.len() ==> (#[trigger] rem[k]).0@ != key);
            lemma_code_at_none(rem, key);
        }
    } else {
        assert(rem[0] == entries[0]);
        assert(rem.drop_first() =~= entries.drop_first().remove(j - 1));
        assert(forall|k: int|
            0 <= k < entries.drop_first().len() ==> #[trigger] entries.drop_first()[k] == entries[k
                + 1]);
        lemma_code_at_remove(entries.drop_first(), j - 1, key);
    }
}

/// Store a verification code under a key, replacing any code the key
/// already held; the code lapses `expires_in_minutes` from `now`.
impl VerificationStore {
    pub fn store_verification_code(
        &mut self,
        key: &String,
        code: &String,
        expires_in_minutes: u64,
        now: u64,
    )
        requires
            old(self).wf(),
            now <= MAX_TIMESTAMP,
            expires_in_minutes <= 527_040,
        ensures
            final (self).wf(),
            final (self).spec_get(key@) is Some,
            ({
                let v = final (self).spec_get(key@).unwrap();
                &&& v.code@ == code@
                &&& v.expires_at == now + expires_in_minutes * 60
                &&& v.attempts == 0
            }),
            forall|other: Seq<char>|
                other != key@ ==> #[trigger] final (self).spec_get(other) == old(self).spec_get(
                    other,
                ),
    {
        let entry = (
            key.clone(),
            VerificationCode {
                code: code.clone(),
                expires_at: now + expires_in_minutes * 60,
                attempts: 0,
            },
        );
        let ghost pre = self.entries@;
        match self.find_index(key) {
            Some(i) => {
                self.entries.remove(i);
                self.entries.insert(i, entry);
                proof {
                    assert(self.entries@ =~= pre.update(i as int, entry));
                    lemma_code_at(self.entries@, i as int, key@);
                    assert forall|other: Seq<char>|
                        other != key@ implies #[trigger] spec_code_at(self.entries@, other)
                        == spec_code_at(pre, other) by {
                        lemma_code_at_update(pre, i as int, entry, other);
                    }
                    assert forall|a: int, b: int|
                        0 <= a < b < self.entries@.len() implies (#[trigger] self.entries@[a]).0@
                        != (#[trigger] self.entries@[b]).0@ by {
                        if a != i && b != i {
                            assert(self.entries@[a] == pre[a]);
                            assert(self.entries@[b] == pre[b]);
                        } else if a == i {
                            assert(self.entries@[b] == pre[b]);
                            assert(pre[a].0@ != pre[b].0@);
                        } else {
                            assert(self.entries@[a] == pre[a]);
                            assert(pre[a].0@ != pre[b].0@);
                        }
                    }
                }
            },
            None => {
                self.entries.push(entry);
                proof {
                    lemma_code_at_none(pre, key@);
                    lemma_code_at(self.entries@, pre.len() as int, key@);
                    assert forall|other: Seq<char>|
                        other != key@ implies #[trigger] spec_code_at(self.entries@, other)
                        == spec_code_at(pre, other) by {
                        lemma_code_at_push(pre, entry, other);
                    }
                    assert forall|a: int, b: int|
                        0 <= a < b < self.entries@.len() implies (#[trigger] self.entries@[a]).0@
                        != (#[trigger] self.entries@[b]).0@ by {
                        if b == self.entries@.len() - 1 {
                            assert(self.entries@[a] == pre[a]);
                        } else {
                            assert(self.entries@[a] == pre[a]);
                            assert(self.entries@[b] == pre[b]);
                        }
                    }
                }
            },
        }
    }

    /// Check a code: unknown keys are refused; a lapsed code is dropped
    /// and refused; each check spends one of three attempts, the fourth
    /// drops the code; a matching code is consumed and answers true; a
    /// mismatch leaves the code (one attempt poorer) and answers false.
    pub fn verify_code(&mut self, key: &String, provided_code: &String, now: u64) -> (r: Result<
        bool,
        String,
    >)
        requires
            old(self).wf(),
        ensures
            final (self).wf(),
            ({
                match old(self).spec_get(key@) {
                    None => r is Err && r.unwrap_err()@ == "Verification code not found"@ && final (
                    self).spec_get(key@) == old(self).spec_get(key@),
                    Some(v) => {
                        if v.expires_at < now {
                            &&& r is Err
                            &&& r.unwrap_err()@ == "Verification code has expired"@
                            &&& final (self).spec_get(key@) is None
                        } else if v.attempts + 1 > 3 {
                            &&& r is Err
                            &&& r.unwrap_err()@ == "Too many verification attempts"@
                            &&& final (self).spec_get(key@) is None
                        } else if v.code@ == provided_code@ {
                            &&& r == Result::<bool, String>::Ok(true)
                            &&& final (self).spec_get(key@) is None
                        } else {
                            &&& r == Result::<bool, String>::Ok(false)
                            &&& final (self).spec_get(key@) is Some
                            &&& final (self).spec_get(key@).unwrap().attempts == v.attempts + 1
                            &&& final (self).spec_get(key@).unwrap().code@ == v.code@
                            &&& final (self).spec_get(key@).unwrap().expires_at == v.expires_at
                        }
                    },
                }
            }),
            forall|other: Seq<char>|
                other != key@ ==> #[trigger] final (self).spec_get(other) == old(self).spec_get(
                    other,
                ),
    {
        let ghost pre = self.entries@;
        let idx = match self.find_index(key) {
            Some(i) => i,
            None => {
                proof {
                    lemma_code_at_none(pre, key@);
                }
                return Err(String::from_str("Verification code not found"));
            },
        };
        proof {
            lemma_code_at(pre, idx as int, key@);
        }
        let expired = self.entries[idx].1.expires_at < now;
        let attempts = self.entries[idx].1.attempts;
        if expired {
            self.entries.remove(idx);
            proof {
                assert(self.entries@ =~= pre.remove(idx as int));
                lemma_remove_all_keys(pre, idx as int);
            }
            return Err(String::from_str("Verification code has expired"));
        }
        if attempts >= u32::MAX {
            // the attempt budget is three; this bound is unreachable but
            // keeps the increment total
            self.entries.remove(idx);
            proof {
                assert(self.entries@ =~= pre.remove(idx as int));
                lemma_remove_all_keys(pre, idx as int);
            }
            return Err(String::from_str("Too many verification attempts"));
        }
        let new_attempts = attempts + 1;
        if new_attempts > 3 {
            self.entries.remove(idx);
            proof {
                assert(self.entries@ =~= pre.remove(idx as int));
                lemma_remove_all_keys(pre, idx as int);
            }
            return Err(String::from_str("Too many verification attempts"));
        }
        let matches_code = str_eq(self.entries[idx].1.code.as_str(), provided_code.as_str());
        if matches_code {
            self.entries.remove(idx);
            proof {
                assert(self.entries@ =~= pre.remove(idx as int));
                lemma_remove_all_keys(pre, idx as int);
            }
            Ok(true)
        } else {
            let old_entry = self.entries.remove(idx);
            let updated = (
                old_entry.0,
                VerificationCode {
                    code: old_entry.1.code,
                    expires_at: old_entry.1.expires_at,
                    attempts: new_attempts,
                },
            );
            self.entries.insert(idx, updated);
            proof {
                assert(self.entries@ =~= pre.update(idx as int, updated));
                lemma_code_at(self.entries@, idx as int, key@);
                assert forall|other: Seq<char>|
                    other != key@ implies #[trigger] spec_code_at(self.entries@, other)
                    == spec_code_at(pre, other) by {
                    lemma_code_at_update(pre, idx as int, updated, other);
                }
                assert forall|a: int, b: int|
                    0 <= a < b < self.entries@.len() implies (#[trigger] self.entries@[a]).0@ != (
                #[trigger] self.entries@[b]).0@ by {
                    if a != idx && b != idx {
                        assert(self.entries@[a] == pre[a]);
                        assert(self.entries@[b] == pre[b]);
                    } else if a == idx {
                        assert(self.entries@[b] == pre[b]);
                        assert(pre[a].0@ != pre[b].0@);
                    } else {
                        assert(self.entries@[a] == pre[a]);
                        assert(pre[a].0@ != pre[b].0@);
                    }
                }
            }
            Ok(false)
        }
    }
}

proof fn lemma_remove_all_keys(entries: Seq<(String, VerificationCode)>, j: int)
    requires
        0 <= j < entries.len(),
        forall|a: int, b: int|
            0 <= a < b < entries.len() ==> (#[trigger] entries[a]).0@ != (
            #[trigger] entries[b]).0@,
    ensures
        forall|key: Seq<char>| #[trigger]
            spec_code_at(entries.remove(j), key) == if key == entries[j].0@ {
                None::<VerificationCode>
            } else {
                spec_code_at(entries, key)
            },
        forall|a: int, b: int|
            0 <= a < b < entries.remove(j).len() ==> (#[trigger] entries.remove(j)[a]).0@ != (
            #[trigger] entries.remove(j)[b]).0@,
{
    assert forall|key: Seq<char>| #[trigger]
        spec_code_at(entries.remove(j), key) == (if key == entries[j].0@ {
        None::<VerificationCode>
    } else {
        spec_code_at(entries, key)
    }) by {
        lemma_code_at_remove(entries, j, key);
    }
    assert forall|a: int, b: int|
        0 <= a < b < entries.remove(j).len() implies (#[trigger] entries.remove(j)[a]).0@ != (
    #[trigger] entries.remove(j)[b]).0@ by {
        let ra = if a < j {
            a
        } else {
            a + 1
        };
        let rb = if b < j {
            b
        } else {
            b + 1
        };
        assert(entries.remove(j)[a] == entries[ra]);
        assert(entries.remove(j)[b] == entries[rb]);
    }
}

} // verus!
