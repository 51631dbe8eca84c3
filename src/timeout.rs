//! The timeout of the extraction call, from an optional override.
use vstd::prelude::*;
use crate::text::{all_digits, chars_of, is_digit, is_digit_char, trim, trim_str};

verus! {

pub const DEFAULT_TIMEOUT_SECS: u64 = 30;

pub const MIN_TIMEOUT_SECS: u64 = 5;

pub const MAX_TIMEOUT_SECS: u64 = 120;

pub open spec fn digit_value(c: char) -> nat {
    (c as u32 - '0' as u32) as nat
}

/// The number that a string of decimal digits writes.
pub open spec fn digits_value(s: Seq<char>) -> nat
    decreases s.len(),
{
    if s.len() == 0 {
        0
    } else {
        digits_value(s.drop_last()) * 10 + digit_value(s.last())
    }
}

/// The `u64` that `s` writes in decimal, with an optional leading `+`, as
/// `u64`'s `FromStr` reads it.
pub open spec fn decimal_u64(s: Seq<char>) -> Option<nat> {
    let d = if s.len() > 0 && s[0] == '+' {
        s.drop_first()
    } else {
        s
    };
    if d.len() > 0 && all_digits(d) && digits_value(d) <= u64::MAX {
        Some(digits_value(d))
    } else {
        None
    }
}

pub open spec fn clamp_timeout(v: nat) -> nat {
    if v < MIN_TIMEOUT_SECS {
        MIN_TIMEOUT_SECS as nat
    } else if v > MAX_TIMEOUT_SECS {
        MAX_TIMEOUT_SECS as nat
    } else {
        v
    }
}

/// The timeout for an override: the trimmed override read as a `u64`, or
/// the default where there is none or it does not read; then clamped.
pub open spec fn timeout_for(raw: Option<Seq<char>>) -> nat {
    let v = match raw {
        Some(s) => match decimal_u64(trim(s)) {
            Some(v) => v,
            None => DEFAULT_TIMEOUT_SECS as nat,
        },
        None => DEFAULT_TIMEOUT_SECS as nat,
    };
    clamp_timeout(v)
}

proof fn lemma_digits_value_step(s: Seq<char>, i: int)
    requires
        0 <= i < s.len(),
    ensures
        digits_value(s.subrange(0, i + 1)) == digits_value(s.subrange(0, i)) * 10 + digit_value(s[i]),
{
    assert(s.subrange(0, i + 1).drop_last() =~= s.subrange(0, i));
}

proof fn lemma_digits_value_grows(s: Seq<char>, j: int, m: int)
    requires
        0 <= j <= m <= s.len(),
    ensures
        digits_value(s.subrange(0, j)) <= digits_value(s.subrange(0, m)),
    decreases m - j,
{
    if j < m {
        lemma_digits_value_step(s, m - 1);
        lemma_digits_value_grows(s, j, m - 1);
    }
}

/// `s` read as a `u64` in decimal, with an optional leading `+`.
pub fn parse_decimal_u64(s: &str) -> (r: Option<u64>)
    ensures
        r matches Some(v) ==> decimal_u64(s@) == Some(v as nat),
        r is None ==> decimal_u64(s@) is None,
{
    let cs = chars_of(s);
    let n = cs.len();
    let start: usize = if n > 0 && cs[0] == '+' {
        1
    } else {
        0
    };
    let ghost d = if s@.len() > 0 && s@[0] == '+' {
        s@.drop_first()
    } else {
        s@
    };
    assert(d =~= cs@.subrange(start as int, n as int));
    assert(decimal_u64(s@) == if d.len() > 0 && all_digits(d) && digits_value(d) <= u64::MAX {
        Some(digits_value(d))
    } else {
        None::<nat>
    });
    if start == n {
        return None;
    }
    let mut v: u64 = 0;
    let mut i: usize = start;
    assert(d.subrange(0, 0) =~= Seq::<char>::empty());
    while i < n
        invariant
            start <= i <= n == cs@.len(),
            d == cs@.subrange(start as int, n as int),
            decimal_u64(s@) == if d.len() > 0 && all_digits(d) && digits_value(d) <= u64::MAX {
                Some(digits_value(d))
            } else {
                None::<nat>
            },
            v == digits_value(d.subrange(0, i - start)),
            forall|k: int| 0 <= k < i - start ==> is_digit(#[trigger] d[k]),
        decreases n - i,
    {
        let c = cs[i];
        if !is_digit_char(c) {
            assert(!is_digit(d[i - start]));
            assert(!all_digits(d));
            return None;
        }
        proof {
            lemma_digits_value_step(d, i - start);
        }
        let dv = (c as u32 - '0' as u32) as u64;
        assert(dv == digit_value(c));
        match v.checked_mul(10) {
            Some(m) => match m.checked_add(dv) {
                Some(w) => {
                    v = w;
                },
                None => {
                    proof {
                        lemma_digits_value_grows(d, i - start + 1, d.len() as int);
                        assert(d.subrange(0, d.len() as int) =~= d);
                    }
                    return None;
                },
            },
            None => {
                proof {
                    lemma_digits_value_grows(d, i - start + 1, d.len() as int);
                    assert(d.subrange(0, d.len() as int) =~= d);
                }
                return None;
            },
        }
        i = i + 1;
    }
    assert(d.subrange(0, d.len() as int) =~= d);
    Some(v)
}

/// The timeout in seconds of the extraction call for the override `raw`:
/// its trimmed value read as a whole number, or the default of thirty where
/// it is absent or does not read, clamped to five through one hundred twenty.
pub fn resolve_article_timeout_secs(raw: Option<&str>) -> (r: u64)
    ensures
        r == timeout_for(
            match raw {
                Some(s) => Some(s@),
                None => None,
            },
        ),
{
    let v = match raw {
        Some(s) => {
            let t = trim_str(s);
            match parse_decimal_u64(t.as_str()) {
                Some(v) => v,
                None => DEFAULT_TIMEOUT_SECS,
            }
        },
        None => DEFAULT_TIMEOUT_SECS,
    };
    if v < MIN_TIMEOUT_SECS {
        MIN_TIMEOUT_SECS
    } else if v > MAX_TIMEOUT_SECS {
        MAX_TIMEOUT_SECS
    } else {
        v
    }
}

} // verus!
