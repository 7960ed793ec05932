//! Human-friendly durations such as `10m`, `2h` or `1d`.

use vstd::prelude::*;
use crate::text::{chars_of, trim, trimmed};

verus! {

/// A span of time, in whole seconds.
#[derive(Debug, Clone, Copy, PartialEq, Eq, Structural)]
pub struct Duration {
    secs: u64,
}

impl Duration {
    /// The span of `secs` seconds.
    pub fn from_secs(secs: u64) -> (r: Duration)
        ensures
            r.secs() == secs,
    {
        Duration { secs }
    }

    /// The number of seconds in the span.
    pub closed spec fn secs(&self) -> u64 {
        self.secs
    }

    /// The number of seconds in the span.
    #[verifier::when_used_as_spec(secs)]
    pub fn as_secs(&self) -> (r: u64)
        ensures
            r == self.secs(),
    {
        self.secs
    }
}

/// `c` is an ASCII decimal digit.
pub open spec fn is_digit(c: char) -> bool {
    '0' <= c <= '9'
}

/// The number that the decimal digits `s` spell.
pub open spec fn digits_value(s: Seq<char>) -> nat
    decreases s.len(),
{
    if s.len() == 0 {
        0
    } else {
        digits_value(s.drop_last()) * 10 + (s.last() as nat - '0' as nat) as nat
    }
}

/// The number of leading digits of `s`.
pub open spec fn digit_run(s: Seq<char>) -> nat
    decreases s.len(),
{
    if s.len() > 0 && is_digit(s[0]) {
        1 + digit_run(s.drop_first())
    } else {
        0
    }
}

/// The seconds in one of `unit`; no unit means seconds.
pub open spec fn unit_seconds(unit: Seq<char>) -> Option<nat> {
    if unit == Seq::<char>::empty() || unit == seq!['s'] {
        Some(1)
    } else if unit == seq!['m'] {
        Some(60)
    } else if unit == seq!['h'] {
        Some(3600)
    } else if unit == seq!['d'] {
        Some(86400)
    } else {
        None
    }
}

/// The seconds that `input` denotes: after trimming, a non-empty run of digits
/// and then an optional unit among `s`, `m`, `h`, `d`, with no digit after the
/// unit began. The count and the product must fit in 64 bits.
pub open spec fn duration_seconds(input: Seq<char>) -> Option<nat> {
    let t = trimmed(input);
    let k = digit_run(t);
    let unit = t.subrange(k as int, t.len() as int);
    if k == 0 || exists|i: int| 0 <= i < unit.len() && is_digit(unit[i]) {
        None
    } else if digits_value(t.subrange(0, k as int)) > u64::MAX {
        None
    } else {
        match unit_seconds(unit) {
            Some(m) => if digits_value(t.subrange(0, k as int)) * m <= u64::MAX {
                Some(digits_value(t.subrange(0, k as int)) * m)
            } else {
                None
            },
            None => None,
        }
    }
}

proof fn lemma_digit_run(s: Seq<char>, k: nat)
    requires
        k <= s.len(),
        forall|i: int| 0 <= i < k ==> is_digit(s[i]),
    ensures
        digit_run(s) == k + digit_run(s.subrange(k as int, s.len() as int)),
    decreases k,
{
    if k > 0 {
        assert(s.drop_first().subrange((k - 1) as int, s.drop_first().len() as int) == s.subrange(
            k as int,
            s.len() as int,
        ));
        lemma_digit_run(s.drop_first(), (k - 1) as nat);
    } else {
        assert(s.subrange(0, s.len() as int) == s);
    }
}

proof fn lemma_digits_grow(s: Seq<char>, a: nat, b: nat)
    requires
        a <= b <= s.len(),
        forall|i: int| 0 <= i < s.len() ==> is_digit(s[i]),
    ensures
        digits_value(s.subrange(0, a as int)) <= digits_value(s.subrange(0, b as int)),
    decreases b - a,
{
    if a < b {
        lemma_digits_grow(s, a, (b - 1) as nat);
        assert(s.subrange(0, b as int).drop_last() == s.subrange(0, (b - 1) as int));
    }
}

/// Parses a duration such as `"10m"`; see [`duration_seconds`].
pub fn parse_duration(input: &str) -> (r: Option<Duration>)
    ensures
        match duration_seconds(input@) {
            Some(n) => r matches Some(d) && d.secs() == n,
            None => r is None,
        },
{
    let all = chars_of(input);
    let t = trim(all.as_slice());
    let ghost ts = t@;
    let n = t.len();
    let mut k: usize = 0;
    while k < n && '0' <= t[k] && t[k] <= '9'
        invariant
            k <= n == t@.len(),
            forall|i: int| 0 <= i < k ==> is_digit(t@[i]),
        decreases n - k,
    {
        k = k + 1;
    }
    proof {
        lemma_digit_run(ts, k as nat);
        let rest = ts.subrange(k as int, n as int);
        assert(digit_run(rest) == 0);
    }
    assert(digit_run(ts) == k);
    if k == 0 {
        return None;
    }
    let mut j: usize = k;
    while j < n
        invariant
            k <= j <= n == t@.len(),
            ts == t@,
            ts == trimmed(input@),
            digit_run(ts) == k,
            forall|i: int| k <= i < j ==> !is_digit(t@[i]),
        decreases n - j,
    {
        if '0' <= t[j] && t[j] <= '9' {
            assert(is_digit(ts.subrange(k as int, n as int)[j - k as int]));
            assert(exists|i: int|
                0 <= i < ts.subrange(k as int, n as int).len() && is_digit(
                    ts.subrange(k as int, n as int)[i],
                ));
            return None;
        }
        j = j + 1;
    }
    let ghost unit = ts.subrange(k as int, n as int);
    assert(!exists|i: int| 0 <= i < unit.len() && is_digit(unit[i])) by {
        assert forall|i: int| 0 <= i < unit.len() implies !is_digit(unit[i]) by {
            assert(unit[i] == ts[k + i]);
        }
    }
    let ghost digits = ts.subrange(0, k as int);
    let mut value: u64 = 0;
    let mut p: usize = 0;
    while p < k
        invariant
            p <= k <= n == t@.len(),
            ts == t@,
            ts == trimmed(input@),
            digit_run(ts) == k,
            !exists|i: int|
                0 <= i < ts.subrange(k as int, n as int).len() && is_digit(
                    ts.subrange(k as int, n as int)[i],
                ),
            digits == ts.subrange(0, k as int),
            digits.len() == k,
            forall|i: int| 0 <= i < k ==> is_digit(t@[i]),
            value == digits_value(digits.subrange(0, p as int)),
        decreases k - p,
    {
        let d: u64 = (t[p] as u32 - '0' as u32) as u64;
        assert(digits.subrange(0, p + 1 as int).drop_last() == digits.subrange(0, p as int));
        assert(forall|i: int| 0 <= i < digits.len() ==> is_digit(#[trigger] digits[i])) by {
            assert forall|i: int| 0 <= i < digits.len() implies is_digit(#[trigger] digits[i]) by {
                assert(digits[i] == t@[i]);
            }
        }
        if value > (u64::MAX - d) / 10 {
            proof {
                lemma_digits_grow(digits, (p + 1) as nat, k as nat);
                assert(digits.subrange(0, k as int) == digits);
                assert(digits_value(digits.subrange(0, p + 1 as int)) == value * 10 + d);
                assert(value * 10 + d > u64::MAX) by (nonlinear_arith)
                    requires
                        value > (u64::MAX - d) / 10,
                        d <= 9,
                ;
            }
            return None;
        }
        value = value * 10 + d;
        p = p + 1;
    }
    assert(digits.subrange(0, k as int) == digits);
    let unit_len = n - k;
    let factor: u64 = if unit_len == 0 {
        1
    } else if unit_len == 1 && t[k] == 's' {
        1
    } else if unit_len == 1 && t[k] == 'm' {
        60
    } else if unit_len == 1 && t[k] == 'h' {
        3600
    } else if unit_len == 1 && t[k] == 'd' {
        86400
    } else {
        proof {
            if unit.len() == 1 {
                assert(unit != seq!['s'] && unit != seq!['m'] && unit != seq!['h'] && unit != seq![
                    'd'
                ]) by {
                    assert(unit[0] == t@[k as int]);
                }
            }
        }
        return None;
    };
    proof {
        if unit_len == 0 {
            assert(unit == Seq::<char>::empty());
        } else {
            assert(unit == seq![t@[k as int]]);
        }
    }
    match value.checked_mul(factor) {
        Some(secs) => Some(Duration::from_secs(secs)),
        None => None,
    }
}

} // verus!
