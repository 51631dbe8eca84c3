//! The human-readable rendering of an article.
use vstd::prelude::*;
use crate::model::Article;
use crate::text::{chars_of, string_of};

verus! {

pub open spec fn digit_char(d: nat) -> char {
    if d == 0 {
        '0'
    } else if d == 1 {
        '1'
    } else if d == 2 {
        '2'
    } else if d == 3 {
        '3'
    } else if d == 4 {
        '4'
    } else if d == 5 {
        '5'
    } else if d == 6 {
        '6'
    } else if d == 7 {
        '7'
    } else if d == 8 {
        '8'
    } else {
        '9'
    }
}

/// The decimal digits of `n`.
pub open spec fn decimal(n: nat) -> Seq<char>
    decreases n,
{
    if n < 10 {
        seq![digit_char(n)]
    } else {
        decimal(n / 10).push(digit_char(n % 10))
    }
}

fn digit_char_exec(d: u64) -> (r: char)
    requires
        d < 10,
    ensures
        r == digit_char(d as nat),
{
    if d == 0 {
        '0'
    } else if d == 1 {
        '1'
    } else if d == 2 {
        '2'
    } else if d == 3 {
        '3'
    } else if d == 4 {
        '4'
    } else if d == 5 {
        '5'
    } else if d == 6 {
        '6'
    } else if d == 7 {
        '7'
    } else if d == 8 {
        '8'
    } else {
        '9'
    }
}

fn decimal_chars(n: u64) -> (r: Vec<char>)
    ensures
        r@ == decimal(n as nat),
    decreases n,
{
    if n < 10 {
        let mut v: Vec<char> = Vec::new();
        v.push(digit_char_exec(n));
        assert(v@ =~= seq![digit_char(n as nat)]);
        v
    } else {
        let mut v = decimal_chars(n / 10);
        v.push(digit_char_exec(n % 10));
        v
    }
}

/// `n` written in decimal.
pub fn decimal_string(n: u64) -> (r: String)
    ensures
        r@ == decimal(n as nat),
{
    let v = decimal_chars(n);
    string_of(v.as_slice())
}

/// The first `T` at or after `i`, or -1.
pub open spec fn first_t_from(s: Seq<char>, i: int) -> int
    decreases s.len() - i,
{
    if i < 0 || i >= s.len() {
        -1
    } else if s[i] == 'T' {
        i
    } else {
        first_t_from(s, i + 1)
    }
}

/// The date part of a timestamp: what stands before its first `T`.
pub open spec fn date_part(s: Seq<char>) -> Seq<char> {
    let t = first_t_from(s, 0);
    if t >= 0 {
        s.subrange(0, t)
    } else {
        s
    }
}

fn date_of(published: &str) -> (r: String)
    ensures
        r@ == date_part(published@),
{
    let cs = chars_of(published);
    let n = cs.len();
    let mut i: usize = 0;
    while i < n && cs[i] != 'T'
        invariant
            i <= n == cs@.len(),
            cs@ == published@,
            first_t_from(cs@, 0) == first_t_from(cs@, i as int),
        decreases n - i,
    {
        i = i + 1;
    }
    if i < n {
        string_of(&cs.as_slice()[0..i])
    } else {
        String::from_str(published)
    }
}

/// The rendering of `a`: a title line, a line of author and date where there
/// are any, a link line, a line of counts, the description where there is
/// one, a rule and the content.
pub open spec fn rendered(a: Article) -> Seq<char> {
    let head = "\u{1f4f0} "@ + a.title@ + "\n"@;
    let by = if a.author@.len() > 0 {
        "\u{270d}\u{fe0f}  "@ + a.author@
    } else {
        seq![]
    };
    let date = if a.published@.len() > 0 {
        (if a.author@.len() > 0 {
            " \u{b7} "@
        } else {
            seq![]
        }) + date_part(a.published@)
    } else {
        seq![]
    };
    let meta_end = if a.author@.len() > 0 || a.published@.len() > 0 {
        "\n"@
    } else {
        seq![]
    };
    let link = "\u{1f517} "@ + a.url@ + "\n"@;
    let stats = "\u{1f4ca} "@ + decimal(a.word_count as nat) + " words \u{b7} "@ + decimal(
        a.ttr as nat,
    ) + " min read\n"@;
    let desc = if a.description@.len() > 0 {
        "\n"@ + a.description@ + "\n"@
    } else {
        seq![]
    };
    head + by + date + meta_end + link + stats + desc + "\n---\n\n"@ + a.content@
}

/// The human-readable rendering of an article.
pub fn format_article(article: &Article) -> (r: String)
    ensures
        r@ == rendered(*article),
{
    let has_author = !article.author.as_str().is_empty();
    let has_date = !article.published.as_str().is_empty();
    let mut out = String::from_str("\u{1f4f0} ");
    out.append(article.title.as_str());
    out.append("\n");
    if has_author {
        out.append("\u{270d}\u{fe0f}  ");
        out.append(article.author.as_str());
    }
    if has_date {
        if has_author {
            out.append(" \u{b7} ");
        }
        let date = date_of(article.published.as_str());
        out.append(date.as_str());
    }
    if has_author || has_date {
        out.append("\n");
    }
    out.append("\u{1f517} ");
    out.append(article.url.as_str());
    out.append("\n");
    out.append("\u{1f4ca} ");
    let words = decimal_string(article.word_count);
    out.append(words.as_str());
    out.append(" words \u{b7} ");
    let minutes = decimal_string(article.ttr);
    out.append(minutes.as_str());
    out.append(" min read\n");
    if !article.description.as_str().is_empty() {
        out.append("\n");
        out.append(article.description.as_str());
        out.append("\n");
    }
    out.append("\n---\n\n");
    out.append(article.content.as_str());
    assert(out@ =~= rendered(*article));
    out
}

} // verus!
