//! Recognition of post references: a bare numeric identifier, or a link
//! holding `/status/` followed by the identifier.
use vstd::prelude::*;
use crate::text::{
    all_digits, chars_of, is_digit, is_digit_char, occurs_at, opt_view, string_of, trim, trim_back,
    trim_front, trim_str,
};

verus! {

pub open spec fn status_marker() -> Seq<char> {
    seq!['/', 's', 't', 'a', 't', 'u', 's', '/']
}

/// `/status/` stands at `i` in `t` and a digit follows it.
pub open spec fn status_at(t: Seq<char>, i: int) -> bool {
    0 <= i && i + 9 <= t.len() && t.subrange(i, i + 8) == status_marker() && is_digit(t[i + 8])
}

/// The first position at or after `i` where `status_at` holds, or -1.
pub open spec fn first_status_from(t: Seq<char>, i: int) -> int
    decreases t.len() - i,
{
    if i < 0 || i + 9 > t.len() {
        -1
    } else if status_at(t, i) {
        i
    } else {
        first_status_from(t, i + 1)
    }
}

/// The number of digits in the run that starts at `j`.
pub open spec fn digit_run(t: Seq<char>, j: int) -> nat
    decreases t.len() - j,
{
    if 0 <= j < t.len() && is_digit(t[j]) {
        1 + digit_run(t, j + 1)
    } else {
        0
    }
}

/// The post identifier that `s` refers to, if any.
pub open spec fn post_id_of(s: Seq<char>) -> Option<Seq<char>> {
    let t = trim(s);
    if all_digits(t) {
        Some(t)
    } else {
        let i = first_status_from(t, 0);
        if i < 0 {
            None
        } else {
            Some(t.subrange(i + 8, i + 8 + digit_run(t, i + 8)))
        }
    }
}

/// The identifier of the post that `input` refers to: the whole trimmed input
/// when it is all ASCII digits, else the digits right after the first
/// `/status/` that a digit follows.
pub fn extract_tweet_id(input: &str) -> (r: Option<String>)
    ensures
        opt_view(r) == post_id_of(input@),
{
    let t = trim_str(input);
    let cs = chars_of(t.as_str());
    let n = cs.len();
    let mut k: usize = 0;
    while k < n && is_digit_char(cs[k])
        invariant
            k <= n == cs@.len(),
            forall|m: int| 0 <= m < k ==> is_digit(#[trigger] cs@[m]),
        decreases n - k,
    {
        k = k + 1;
    }
    if k == n {
        return Some(t);
    }
    assert(!all_digits(cs@) && !is_digit(cs@[k as int]));
    let marker = chars_of("/status/");
    proof {
        reveal_strlit("/status/");
        assert(marker@ =~= status_marker());
    }
    let mut i: usize = 0;
    while n >= 9 && i <= n - 9
        invariant
            !all_digits(cs@),
            cs@ == trim(input@),
            n == cs@.len(),
            first_status_from(cs@, 0) == first_status_from(cs@, i as int),
            marker@ == status_marker(),
        decreases n - i,
    {
        if occurs_at(cs.as_slice(), i, marker.as_slice()) && is_digit_char(cs[i + 8]) {
            let start = i + 8;
            let mut e: usize = start;
            while e < n && is_digit_char(cs[e])
                invariant
                    start <= e <= n == cs@.len(),
                    digit_run(cs@, start as int) == (e - start) + digit_run(cs@, e as int),
                decreases n - e,
            {
                e = e + 1;
            }
            let id = string_of(&cs.as_slice()[start..e]);
            assert(id@ =~= cs@.subrange(start as int, e as int));
            assert(status_at(cs@, i as int));
            return Some(id);
        }
        i = i + 1;
    }
    None
}

/// Whether `input` refers to a post.
pub fn is_x_tweet_like_url(input: &str) -> (r: bool)
    ensures
        r == post_id_of(input@) is Some,
{
    extract_tweet_id(input).is_some()
}

/// Every string of ASCII digits is its own post identifier.
pub proof fn lemma_digits_are_own_id(s: Seq<char>)
    requires
        all_digits(s),
    ensures
        post_id_of(s) == Some(s),
{
    assert(trim_front(s) == s);
    assert(trim_back(s) == s);
}

} // verus!
