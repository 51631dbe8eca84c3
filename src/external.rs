//! Articles from the extraction service: the payload is unwrapped from an
//! optional code fence, read as a JSON object where it is one and as plain
//! text otherwise, and its content is capped in length.
use vstd::prelude::*;
use crate::model::Article;
use crate::text::{
    chars_of, count_words, ends_with, is_space, is_space_char, occurs_at, opt_view,
    reading_minutes, starts_with, string_of, trim, trim_bounds, trim_str, ttr_of, word_count,
};

verus! {

/// The most bytes of content that a capped article keeps before its marker.
pub const CONTENT_LIMIT: u64 = 5000;

pub open spec fn fence() -> Seq<char> {
    seq!['`', '`', '`']
}

/// The first line break at or after `i`, or -1.
pub open spec fn first_newline_from(s: Seq<char>, i: int) -> int
    decreases s.len() - i,
{
    if i < 0 || i >= s.len() {
        -1
    } else if s[i] == '\n' {
        i
    } else {
        first_newline_from(s, i + 1)
    }
}

/// The payload once trimmed and, where it opens with a code fence, without
/// the fence's first line and without a closing fence.
pub open spec fn unfenced(raw: Seq<char>) -> Seq<char> {
    let t = trim(raw);
    if !starts_with(t, fence()) {
        t
    } else {
        let nl = first_newline_from(t, 0);
        let body = if nl >= 0 {
            t.subrange(nl + 1, t.len() as int)
        } else {
            t
        };
        if ends_with(body, fence()) {
            trim(body.subrange(0, body.len() - 3))
        } else {
            body
        }
    }
}

/// The payload `raw` unwrapped from an optional code fence and trimmed.
pub fn strip_fences(raw: &str) -> (r: String)
    ensures
        r@ == unfenced(raw@),
{
    let t = trim_str(raw);
    let cs = chars_of(t.as_str());
    let f = chars_of("```");
    proof {
        reveal_strlit("```");
        assert(f@ =~= fence());
    }
    if !occurs_at(cs.as_slice(), 0, f.as_slice()) {
        return t;
    }
    let n = cs.len();
    let mut i: usize = 0;
    while i < n && cs[i] != '\n'
        invariant
            i <= n == cs@.len(),
            first_newline_from(cs@, 0) == first_newline_from(cs@, i as int),
        decreases n - i,
    {
        i = i + 1;
    }
    let start: usize = if i < n {
        i + 1
    } else {
        0
    };
    let ghost body = cs@.subrange(start as int, n as int);
    assert(start == 0 ==> body =~= cs@);
    if n - start >= 3 && occurs_at(cs.as_slice(), n - 3, f.as_slice()) {
        assert(body.subrange(body.len() - 3, body.len() as int) =~= cs@.subrange(n - 3, n as int));
        let inner = &cs.as_slice()[start..n - 3];
        assert(inner@ =~= body.subrange(0, body.len() - 3));
        let (a, b) = trim_bounds(inner);
        string_of(&inner[a..b])
    } else {
        proof {
            if ends_with(body, fence()) {
                assert(body.subrange(body.len() - 3, body.len() as int) =~= cs@.subrange(
                    n - 3,
                    n as int,
                ));
            }
        }
        string_of(&cs.as_slice()[start..n])
    }
}

/// Whether `serde_json` reads `text` as one JSON object.
pub uninterp spec fn json_object_accepts(text: Seq<char>) -> bool;

/// The member `key` of the JSON object in `text`, where that member is a
/// JSON string.
pub uninterp spec fn json_string_member(text: Seq<char>, key: Seq<char>) -> Option<Seq<char>>;

/// Relies on `serde_json::from_str` into a `serde_json::Map`, then
/// `Map::get` and `Value::as_str`: `None` where `text` is not one JSON object,
/// else the member `key` where it is a JSON string.
#[verifier::external_body]
fn json_object_string_member(text: &str, key: &str) -> (r: Option<Option<String>>)
    ensures
        r is Some <==> json_object_accepts(text@),
        r matches Some(m) ==> opt_view(m) == json_string_member(text@, key@),
{
    match serde_json::from_str::<serde_json::Map<String, serde_json::Value>>(text) {
        Ok(obj) => Some(obj.get(key).and_then(|v| v.as_str()).map(|v| v.to_string())),
        Err(_) => None,
    }
}

/// A payload read either as a JSON object, with the string members that the
/// article reads, or as plain text.
pub enum Payload {
    Structured {
        title: Option<String>,
        description: Option<String>,
        content: Option<String>,
        author: Option<String>,
        published: Option<String>,
    },
    PlainText(String),
}

/// The payload that `text` reads as.
pub open spec fn payload_matches(p: Payload, text: Seq<char>) -> bool {
    if json_object_accepts(text) {
        p matches Payload::Structured { title, description, content, author, published } && opt_view(
            title,
        ) == json_string_member(text, "title"@) && opt_view(description) == json_string_member(
            text,
            "description"@,
        ) && opt_view(content) == json_string_member(text, "content"@) && opt_view(author)
            == json_string_member(text, "author"@) && opt_view(published) == json_string_member(
            text,
            "published"@,
        )
    } else {
        p matches Payload::PlainText(body) && body@ == text
    }
}

/// Reads `text` as a JSON object where it is one, else as plain text.
pub fn read_payload(text: &str) -> (r: Payload)
    ensures
        payload_matches(r, text@),
{
    match json_object_string_member(text, "title") {
        Some(title) => {
            let description = json_object_string_member(text, "description");
            let content = json_object_string_member(text, "content");
            let author = json_object_string_member(text, "author");
            let published = json_object_string_member(text, "published");
            Payload::Structured {
                title,
                description: description.unwrap_or(None),
                content: content.unwrap_or(None),
                author: author.unwrap_or(None),
                published: published.unwrap_or(None),
            }
        },
        None => Payload::PlainText(String::from_str(text)),
    }
}

pub open spec fn or_default(o: Option<String>, d: Seq<char>) -> Seq<char> {
    match o {
        Some(x) => x@,
        None => d,
    }
}

/// The title, description, content, author and date that a payload gives,
/// the title falling back to `domain` and the others to empty.
pub open spec fn payload_fields(p: Payload, domain: Seq<char>) -> (
    Seq<char>,
    Seq<char>,
    Seq<char>,
    Seq<char>,
    Seq<char>,
) {
    match p {
        Payload::Structured { title, description, content, author, published } => (
            or_default(title, domain),
            or_default(description, seq![]),
            or_default(content, seq![]),
            or_default(author, seq![]),
            or_default(published, seq![]),
        ),
        Payload::PlainText(body) => (domain, seq![], body@, seq![], seq![]),
    }
}

/// The number of bytes of the UTF-8 form of `c`.
pub open spec fn char_bytes(c: char) -> nat {
    if (c as u32) < 0x80 {
        1
    } else if (c as u32) < 0x800 {
        2
    } else if (c as u32) < 0x10000 {
        3
    } else {
        4
    }
}

/// The number of bytes of the UTF-8 form of `s`.
pub open spec fn byte_len(s: Seq<char>) -> nat
    decreases s.len(),
{
    if s.len() == 0 {
        0
    } else {
        byte_len(s.drop_last()) + char_bytes(s.last())
    }
}

/// The number of characters of the longest prefix of `s` that fits in
/// `limit` bytes.
pub open spec fn fit_chars(s: Seq<char>, limit: nat) -> nat
    decreases s.len(),
{
    if s.len() == 0 || byte_len(s) <= limit {
        s.len()
    } else {
        fit_chars(s.drop_last(), limit)
    }
}

/// The position of the last white space before `k`, or -1.
pub open spec fn last_space_before(s: Seq<char>, k: int) -> int
    decreases k,
{
    if k <= 0 {
        -1
    } else if is_space(s[k - 1]) {
        k - 1
    } else {
        last_space_before(s, k - 1)
    }
}

/// `s` capped: where it is over the limit in bytes, the longest prefix that
/// fits, cut back to its last white space where it has one, and a marker.
pub open spec fn capped(s: Seq<char>) -> Seq<char> {
    if byte_len(s) <= CONTENT_LIMIT {
        s
    } else {
        let k = fit_chars(s, CONTENT_LIMIT as nat);
        let w = last_space_before(s, k as int);
        let end = if w >= 0 {
            w
        } else {
            k as int
        };
        s.subrange(0, end) + "\n\n[... truncated]"@
    }
}

proof fn lemma_byte_len_prefix_step(s: Seq<char>, i: int)
    requires
        0 <= i < s.len(),
    ensures
        byte_len(s.subrange(0, i + 1)) == byte_len(s.subrange(0, i)) + char_bytes(s[i]),
{
    assert(s.subrange(0, i + 1).drop_last() =~= s.subrange(0, i));
}

proof fn lemma_byte_len_monotone(s: Seq<char>, j: int, m: int)
    requires
        0 <= j <= m <= s.len(),
    ensures
        byte_len(s.subrange(0, j)) <= byte_len(s.subrange(0, m)),
    decreases m - j,
{
    if j < m {
        lemma_byte_len_prefix_step(s, m - 1);
        lemma_byte_len_monotone(s, j, m - 1);
    }
}

proof fn lemma_fit_chars(s: Seq<char>, limit: nat, k: int)
    requires
        0 <= k <= s.len(),
        byte_len(s.subrange(0, k)) <= limit,
        k < s.len() ==> byte_len(s.subrange(0, k + 1)) > limit,
    ensures
        fit_chars(s, limit) == k,
    decreases s.len(),
{
    assert(s.subrange(0, s.len() as int) =~= s);
    if k < s.len() {
        lemma_byte_len_monotone(s, k + 1, s.len() as int);
        let d = s.drop_last();
        assert(d.subrange(0, k) =~= s.subrange(0, k));
        if k + 1 <= d.len() {
            assert(d.subrange(0, k + 1) =~= s.subrange(0, k + 1));
        }
        lemma_fit_chars(d, limit, k);
    }
}

fn char_width(c: char) -> (r: u64)
    ensures
        r == char_bytes(c),
{
    let u = c as u32;
    if u < 0x80 {
        1
    } else if u < 0x800 {
        2
    } else if u < 0x10000 {
        3
    } else {
        4
    }
}

/// `content` capped at the limit: unchanged where it fits, else cut at a
/// character boundary, back to white space where there is some, with a
/// marker after it.
pub fn cap_content(content: &str) -> (r: String)
    ensures
        r@ == capped(content@),
{
    let cs = chars_of(content);
    let n = cs.len();
    let mut used: u64 = 0;
    let mut i: usize = 0;
    assert(cs@.subrange(0, 0) =~= Seq::<char>::empty());
    while i < n && used + char_width(cs[i]) <= CONTENT_LIMIT
        invariant
            i <= n == cs@.len(),
            used <= CONTENT_LIMIT,
            used == byte_len(cs@.subrange(0, i as int)),
        decreases n - i,
    {
        proof {
            lemma_byte_len_prefix_step(cs@, i as int);
        }
        used = used + char_width(cs[i]);
        i = i + 1;
    }
    proof {
        if i < n {
            lemma_byte_len_prefix_step(cs@, i as int);
        }
        lemma_fit_chars(cs@, CONTENT_LIMIT as nat, i as int);
        assert(cs@.subrange(0, n as int) =~= cs@);
        if i < n {
            lemma_byte_len_monotone(cs@, i + 1, n as int);
        }
    }
    if i == n {
        return String::from_str(content);
    }
    let k = i;
    let mut j: usize = k;
    while j > 0 && !is_space_char(cs[j - 1])
        invariant
            j <= k < n == cs@.len(),
            last_space_before(cs@, k as int) == last_space_before(cs@, j as int),
        decreases j,
    {
        j = j - 1;
    }
    let end = if j > 0 {
        j - 1
    } else {
        k
    };
    let mut out = string_of(&cs.as_slice()[0..end]);
    out.append("\n\n[... truncated]");
    out
}

/// `r` is the article that payload `p` makes for `url` on `domain`; the
/// content is capped unless `full`, and the counts are those of the final
/// content, with no floor on the reading time.
pub open spec fn is_external_article(
    r: Article,
    p: Payload,
    url: Seq<char>,
    domain: Seq<char>,
    full: bool,
) -> bool {
    let f = payload_fields(p, domain);
    let content = if full {
        f.2
    } else {
        capped(f.2)
    };
    &&& r.url@ == url
    &&& r.domain@ == domain
    &&& r.title@ == f.0
    &&& r.description@ == f.1
    &&& r.content@ == content
    &&& r.author@ == f.3
    &&& r.published@ == f.4
    &&& r.word_count == word_count(content)
    &&& r.ttr == ttr_of(word_count(content))
}

fn field_or(o: Option<String>, d: &str) -> (r: String)
    ensures
        r@ == or_default(o, d@),
{
    match o {
        Some(x) => x,
        None => String::from_str(d),
    }
}

/// The article that a payload makes for `url` on `domain`.
pub fn article_from_payload(payload: Payload, url: &str, domain: &str, full: bool) -> (r: Article)
    ensures
        is_external_article(r, payload, url@, domain@, full),
{
    let ghost p = payload;
    let (title, description, body, author, published) = match payload {
        Payload::Structured { title, description, content, author, published } => (
            field_or(title, domain),
            field_or(description, ""),
            field_or(content, ""),
            field_or(author, ""),
            field_or(published, ""),
        ),
        Payload::PlainText(body) => (
            String::from_str(domain),
            String::new(),
            body,
            String::new(),
            String::new(),
        ),
    };
    proof {
        reveal_strlit("");
        assert(""@ =~= Seq::<char>::empty());
    }
    let ghost f = payload_fields(p, domain@);
    assert(title@ == f.0);
    assert(description@ == f.1);
    assert(body@ == f.2);
    assert(author@ == f.3);
    assert(published@ == f.4);
    let content = if full {
        body
    } else {
        cap_content(body.as_str())
    };
    let word_count = count_words(content.as_str());
    let ttr = reading_minutes(word_count);
    Article {
        url: String::from_str(url),
        title,
        description,
        content,
        author,
        published,
        domain: String::from_str(domain),
        ttr,
        word_count,
    }
}

/// The article that the extraction service's reply `raw` makes for `url` on
/// `domain`; the content is capped unless `full`.
pub fn parse_article_json(raw: &str, url: &str, domain: &str, full: bool) -> (r: Article)
    ensures
        exists|p: Payload|
            payload_matches(p, unfenced(raw@)) && is_external_article(r, p, url@, domain@, full),
{
    let cleaned = strip_fences(raw);
    let payload = read_payload(cleaned.as_str());
    let ghost p = payload;
    let r = article_from_payload(payload, url, domain, full);
    assert(payload_matches(p, unfenced(raw@)) && is_external_article(r, p, url@, domain@, full));
    r
}

/// An article read from the extraction service has no floor on its reading
/// time: with no words it reads in zero minutes.
pub proof fn lemma_external_reading_time_has_no_floor(
    r: Article,
    p: Payload,
    url: Seq<char>,
    domain: Seq<char>,
    full: bool,
)
    requires
        is_external_article(r, p, url, domain, full),
    ensures
        r.word_count == 0 <==> r.ttr == 0,
{
}

/// Reading a capped article's content again with `full` set gives it back
/// as it was: no second cut and no second marker, and the same word count.
pub proof fn lemma_reparse_keeps_capped_content(
    first: Article,
    first_payload: Payload,
    second: Article,
    second_payload: Payload,
    url: Seq<char>,
    domain: Seq<char>,
)
    requires
        is_external_article(first, first_payload, url, domain, false),
        second_payload matches Payload::PlainText(body) && body@ == first.content@,
        is_external_article(second, second_payload, url, domain, true),
    ensures
        second.content@ == first.content@,
        second.word_count == first.word_count,
        second.ttr == first.ttr,
{
}

} // verus!
