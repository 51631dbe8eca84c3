//! Classification of links and the choice of the article link of a post.
use vstd::prelude::*;
use crate::model::{ArticleError, Tweet, UrlEntity};
use crate::text::{chars_of, occurs_at, opt_view, starts_with};

verus! {

/// The parts of a parsed URL that the classification reads.
#[derive(Clone, Debug)]
pub struct UrlParts {
    /// The host, empty where the URL has none.
    pub host: String,
    pub path: String,
}

/// Whether the `url` crate accepts `raw` as an absolute URL.
pub uninterp spec fn url_accepts(raw: Seq<char>) -> bool;

/// The host that the `url` crate finds in `raw` (empty where there is none).
pub uninterp spec fn url_host(raw: Seq<char>) -> Seq<char>;

/// The path that the `url` crate finds in `raw`.
pub uninterp spec fn url_path(raw: Seq<char>) -> Seq<char>;

/// Relies on `url::Url::parse`, `Url::host_str` and `Url::path`: parsing
/// depends on the text alone, and the host and path are those of the parse.
#[verifier::external_body]
fn parse_url_parts(raw: &str) -> (r: Option<UrlParts>)
    ensures
        r is Some <==> url_accepts(raw@),
        r matches Some(p) ==> p.host@ == url_host(raw@) && p.path@ == url_path(raw@),
{
    url::Url::parse(raw).ok().map(
        |u| UrlParts { host: u.host_str().unwrap_or("").to_string(), path: u.path().to_string() },
    )
}

pub open spec fn is_ascii_upper(c: char) -> bool {
    65 <= c as u32 <= 90
}

/// `c` and `d` are the same character up to ASCII case.
pub open spec fn same_ignoring_case(c: char, d: char) -> bool {
    c as u32 == d as u32 || (is_ascii_upper(c) && c as u32 + 32 == d as u32) || (is_ascii_upper(d)
        && d as u32 + 32 == c as u32)
}

pub open spec fn eq_ignoring_case(a: Seq<char>, b: Seq<char>) -> bool {
    a.len() == b.len() && forall|i: int| 0 <= i < a.len() ==> same_ignoring_case(a[i], b[i])
}

pub open spec fn ends_with_ignoring_case(a: Seq<char>, p: Seq<char>) -> bool {
    p.len() <= a.len() && eq_ignoring_case(a.subrange(a.len() - p.len(), a.len() as int), p)
}

pub open spec fn primary_domain() -> Seq<char> {
    seq!['x', '.', 'c', 'o', 'm']
}

pub open spec fn legacy_domain() -> Seq<char> {
    seq!['t', 'w', 'i', 't', 't', 'e', 'r', '.', 'c', 'o', 'm']
}

pub open spec fn article_path_prefix() -> Seq<char> {
    seq!['/', 'i', '/', 'a', 'r', 't', 'i', 'c', 'l', 'e', '/']
}

/// The host is the platform's own or a subdomain of it.
pub open spec fn platform_host(h: Seq<char>) -> bool {
    eq_ignoring_case(h, primary_domain()) || eq_ignoring_case(h, legacy_domain())
        || ends_with_ignoring_case(h, seq!['.'] + primary_domain())
        || ends_with_ignoring_case(h, seq!['.'] + legacy_domain())
}

pub open spec fn article_parts(host: Seq<char>, path: Seq<char>) -> bool {
    eq_ignoring_case(host, primary_domain()) && starts_with(path, article_path_prefix())
}

/// `raw` is an article page of the platform.
pub open spec fn platform_article_link(raw: Seq<char>) -> bool {
    url_accepts(raw) && article_parts(url_host(raw), url_path(raw))
}

/// `raw` parses and its host is not the platform's.
pub open spec fn external_link(raw: Seq<char>) -> bool {
    url_accepts(raw) && !platform_host(url_host(raw))
}

fn eq_ignoring_case_at(a: &[char], start: usize, p: &[char]) -> (r: bool)
    requires
        start + p@.len() == a@.len(),
    ensures
        r == eq_ignoring_case(a@.subrange(start as int, a@.len() as int), p@),
{
    let n = a.len();
    let mut k: usize = 0;
    while k < p.len()
        invariant
            start + p@.len() == a@.len() == n,
            k <= p@.len(),
            forall|m: int|
                0 <= m < k ==> same_ignoring_case(
                    #[trigger] a@.subrange(start as int, a@.len() as int)[m],
                    p@[m],
                ),
        decreases p@.len() - k,
    {
        let c = a[start + k] as u32;
        let d = p[k] as u32;
        let same = c == d || (65 <= c && c <= 90 && c + 32 == d) || (65 <= d && d <= 90 && d + 32
            == c);
        if !same {
            assert(!same_ignoring_case(a@.subrange(start as int, a@.len() as int)[k as int], p@[k as int]));
            return false;
        }
        k = k + 1;
    }
    true
}

fn ends_with_ignoring_case_exec(a: &[char], p: &[char]) -> (r: bool)
    ensures
        r == ends_with_ignoring_case(a@, p@),
{
    if p.len() > a.len() {
        return false;
    }
    eq_ignoring_case_at(a, a.len() - p.len(), p)
}

fn eq_ignoring_case_exec(a: &[char], p: &[char]) -> (r: bool)
    ensures
        r == eq_ignoring_case(a@, p@),
{
    if a.len() != p.len() {
        return false;
    }
    assert(a@.subrange(0, a@.len() as int) =~= a@);
    eq_ignoring_case_at(a, 0, p)
}

/// Whether the parts name an article page of the platform.
pub fn is_article_parts(parts: &UrlParts) -> (r: bool)
    ensures
        r == article_parts(parts.host@, parts.path@),
{
    let host = chars_of(parts.host.as_str());
    let path = chars_of(parts.path.as_str());
    let primary = chars_of("x.com");
    let prefix = chars_of("/i/article/");
    proof {
        reveal_strlit("x.com");
        reveal_strlit("/i/article/");
        assert(primary@ =~= primary_domain());
        assert(prefix@ =~= article_path_prefix());
    }
    eq_ignoring_case_exec(host.as_slice(), primary.as_slice()) && occurs_at(
        path.as_slice(),
        0,
        prefix.as_slice(),
    )
}

/// Whether a host lies outside the platform's domains.
pub fn is_external_host(host: &str) -> (r: bool)
    ensures
        r == !platform_host(host@),
{
    let h = chars_of(host);
    let primary = chars_of("x.com");
    let legacy = chars_of("twitter.com");
    let sub_primary = chars_of(".x.com");
    let sub_legacy = chars_of(".twitter.com");
    proof {
        reveal_strlit("x.com");
        reveal_strlit("twitter.com");
        reveal_strlit(".x.com");
        reveal_strlit(".twitter.com");
        assert(primary@ =~= primary_domain());
        assert(legacy@ =~= legacy_domain());
        assert(sub_primary@ =~= seq!['.'] + primary_domain());
        assert(sub_legacy@ =~= seq!['.'] + legacy_domain());
    }
    !eq_ignoring_case_exec(h.as_slice(), primary.as_slice()) && !eq_ignoring_case_exec(
        h.as_slice(),
        legacy.as_slice(),
    ) && !ends_with_ignoring_case_exec(h.as_slice(), sub_primary.as_slice())
        && !ends_with_ignoring_case_exec(h.as_slice(), sub_legacy.as_slice())
}

/// Whether `raw` is a URL of an article page on the platform's primary domain.
pub fn is_x_article_url(raw: &str) -> (r: bool)
    ensures
        r == platform_article_link(raw@),
{
    match parse_url_parts(raw) {
        Some(parts) => is_article_parts(&parts),
        None => false,
    }
}

/// Whether `raw` is a URL whose host is neither the platform's domains nor a
/// subdomain of them. A link that does not parse is not external.
pub fn is_external_non_x_url(raw: &str) -> (r: bool)
    ensures
        r == external_link(raw@),
{
    match parse_url_parts(raw) {
        Some(parts) => is_external_host(parts.host.as_str()),
        None => false,
    }
}

/// The host of `url`, which must parse; empty where the URL has no host.
pub fn url_domain(url: &str) -> (r: Result<String, ArticleError>)
    ensures
        r is Ok <==> url_accepts(url@),
        r matches Ok(h) ==> h@ == url_host(url@),
        r matches Err(e) ==> (e matches ArticleError::InvalidUrl(u) && u@ == url@),
{
    match parse_url_parts(url) {
        Some(parts) => Ok(parts.host),
        None => Err(ArticleError::InvalidUrl(String::from_str(url))),
    }
}

/// How a candidate link ranks in the choice of the article link.
#[derive(Clone, Copy, Debug, PartialEq, Eq, Structural)]
pub enum LinkKind {
    External,
    PlatformArticle,
    Other,
}

pub open spec fn link_kind(raw: Seq<char>) -> LinkKind {
    if external_link(raw) {
        LinkKind::External
    } else if platform_article_link(raw) {
        LinkKind::PlatformArticle
    } else {
        LinkKind::Other
    }
}

/// The kind of the link `raw`.
pub fn classify_link(raw: &str) -> (r: LinkKind)
    ensures
        r == link_kind(raw@),
{
    if is_external_non_x_url(raw) {
        LinkKind::External
    } else if is_x_article_url(raw) {
        LinkKind::PlatformArticle
    } else {
        LinkKind::Other
    }
}

/// Lexicographic order by code point, the order of `str`'s `Ord`.
pub open spec fn str_lt(a: Seq<char>, b: Seq<char>) -> bool
    decreases a.len(),
{
    if a.len() == 0 {
        b.len() > 0
    } else if b.len() == 0 {
        false
    } else if a[0] != b[0] {
        (a[0] as u32) < (b[0] as u32)
    } else {
        str_lt(a.drop_first(), b.drop_first())
    }
}

proof fn lemma_str_lt_irreflexive(a: Seq<char>)
    ensures
        !str_lt(a, a),
    decreases a.len(),
{
    if a.len() > 0 {
        lemma_str_lt_irreflexive(a.drop_first());
    }
}

proof fn lemma_str_lt_transitive(a: Seq<char>, b: Seq<char>, c: Seq<char>)
    requires
        str_lt(a, b),
        str_lt(b, c),
    ensures
        str_lt(a, c),
    decreases a.len(),
{
    if a.len() > 0 && b.len() > 0 && c.len() > 0 && a[0] == b[0] && b[0] == c[0] {
        lemma_str_lt_transitive(a.drop_first(), b.drop_first(), c.drop_first());
    }
}

/// Whether `a` comes before `b` in lexicographic order.
pub fn str_less(a: &str, b: &str) -> (r: bool)
    ensures
        r == str_lt(a@, b@),
{
    let x = chars_of(a);
    let y = chars_of(b);
    let mut i: usize = 0;
    assert(x@.skip(0) =~= x@);
    assert(y@.skip(0) =~= y@);
    loop
        invariant
            i <= x@.len(),
            i <= y@.len(),
            str_lt(a@, b@) == str_lt(x@.skip(i as int), y@.skip(i as int)),
            x@ == a@,
            y@ == b@,
        decreases x@.len() - i,
    {
        if i == x.len() {
            return i < y.len();
        }
        if i == y.len() {
            return false;
        }
        if x[i] != y[i] {
            return (x[i] as u32) < (y[i] as u32);
        }
        assert(x@.skip(i as int).drop_first() =~= x@.skip(i + 1));
        assert(y@.skip(i as int).drop_first() =~= y@.skip(i + 1));
        i = i + 1;
    }
}

pub open spec fn has_kind(kinds: Seq<LinkKind>, k: LinkKind) -> bool {
    exists|i: int| 0 <= i < kinds.len() && kinds[i] == k
}

/// The kinds of link that the choice draws from: external links where there
/// are any, else the platform's article pages where there are any, else all.
pub open spec fn eligible(kinds: Seq<LinkKind>, k: LinkKind) -> bool {
    if has_kind(kinds, LinkKind::External) {
        k == LinkKind::External
    } else if has_kind(kinds, LinkKind::PlatformArticle) {
        k == LinkKind::PlatformArticle
    } else {
        true
    }
}

/// `r` is the choice among `cands`, whose kinds are `kinds`: none where there
/// is no candidate, else the least eligible candidate in lexicographic order.
pub open spec fn is_selection(
    cands: Seq<Seq<char>>,
    kinds: Seq<LinkKind>,
    r: Option<Seq<char>>,
) -> bool {
    match r {
        None => cands.len() == 0,
        Some(c) => exists|i: int|
            0 <= i < cands.len() && cands[i] == c && eligible(kinds, #[trigger] kinds[i]) && forall|
                j: int,
            |
                0 <= j < cands.len() && eligible(kinds, #[trigger] kinds[j]) ==> !str_lt(
                    cands[j],
                    c,
                ),
    }
}

pub open spec fn wanted(want: Option<LinkKind>, k: LinkKind) -> bool {
    match want {
        Some(w) => k == w,
        None => true,
    }
}

/// The index of the least candidate whose kind is wanted.
fn least_with(cands: &Vec<String>, kinds: &Vec<LinkKind>, want: Option<LinkKind>) -> (r: Option<
    usize,
>)
    requires
        cands@.len() == kinds@.len(),
    ensures
        r is None <==> forall|j: int| 0 <= j < kinds@.len() ==> !wanted(want, #[trigger] kinds@[j]),
        r matches Some(i) ==> i < cands@.len() && wanted(want, kinds@[i as int]) && forall|j: int|
            0 <= j < cands@.len() && wanted(want, #[trigger] kinds@[j]) ==> !str_lt(
                cands@[j]@,
                cands@[i as int]@,
            ),
{
    let mut best: Option<usize> = None;
    let mut i: usize = 0;
    while i < cands.len()
        invariant
            cands@.len() == kinds@.len(),
            i <= cands@.len(),
            best is None <==> forall|j: int| 0 <= j < i ==> !wanted(want, #[trigger] kinds@[j]),
            best matches Some(b) ==> b < i && wanted(want, kinds@[b as int]) && forall|j: int|
                0 <= j < i && wanted(want, #[trigger] kinds@[j]) ==> !str_lt(
                    cands@[j]@,
                    cands@[b as int]@,
                ),
        decreases cands@.len() - i,
    {
        let k = kinds[i];
        let is_wanted = match want {
            Some(w) => k == w,
            None => true,
        };
        if is_wanted {
            match best {
                None => {
                    proof {
                        lemma_str_lt_irreflexive(cands@[i as int]@);
                    }
                    best = Some(i);
                },
                Some(b) => {
                    if str_less(cands[i].as_str(), cands[b].as_str()) {
                        proof {
                            lemma_str_lt_irreflexive(cands@[i as int]@);
                            assert forall|j: int|
                                0 <= j < i + 1 && wanted(want, #[trigger] kinds@[j]) implies !str_lt(
                                cands@[j]@,
                                cands@[i as int]@,
                            ) by {
                                if j < i && str_lt(cands@[j]@, cands@[i as int]@) {
                                    lemma_str_lt_transitive(
                                        cands@[j]@,
                                        cands@[i as int]@,
                                        cands@[b as int]@,
                                    );
                                }
                            }
                        }
                        best = Some(i);
                    }
                },
            }
        }
        i = i + 1;
    }
    best
}

proof fn lemma_least_is_selection(
    cs: Seq<Seq<char>>,
    kinds: Seq<LinkKind>,
    want: Option<LinkKind>,
    i: int,
)
    requires
        cs.len() == kinds.len(),
        0 <= i < cs.len(),
        wanted(want, kinds[i]),
        forall|j: int| 0 <= j < cs.len() && wanted(want, #[trigger] kinds[j]) ==> !str_lt(cs[j], cs[i]),
        forall|k: LinkKind| eligible(kinds, k) == wanted(want, k),
    ensures
        is_selection(cs, kinds, Some(cs[i])),
{
    assert(eligible(kinds, kinds[i]));
}

/// The article link among `cands`, whose kinds are `kinds`: the least
/// external link, else the least article page of the platform, else the least
/// candidate, in lexicographic order.
pub fn select_candidate(cands: &Vec<String>, kinds: &Vec<LinkKind>) -> (r: Option<String>)
    requires
        cands@.len() == kinds@.len(),
    ensures
        is_selection(cands@.map_values(|c: String| c@), kinds@, opt_view(r)),
{
    let ghost cs = cands@.map_values(|c: String| c@);
    let ghost ext = Some(LinkKind::External);
    let ghost art = Some(LinkKind::PlatformArticle);
    if let Some(i) = least_with(cands, kinds, Some(LinkKind::External)) {
        proof {
            assert(has_kind(kinds@, LinkKind::External));
            lemma_least_is_selection(cs, kinds@, ext, i as int);
        }
        return Some(cands[i].clone());
    }
    assert(!has_kind(kinds@, LinkKind::External));
    if let Some(i) = least_with(cands, kinds, Some(LinkKind::PlatformArticle)) {
        proof {
            assert(has_kind(kinds@, LinkKind::PlatformArticle));
            lemma_least_is_selection(cs, kinds@, art, i as int);
        }
        return Some(cands[i].clone());
    }
    assert(!has_kind(kinds@, LinkKind::PlatformArticle));
    if let Some(i) = least_with(cands, kinds, None) {
        proof {
            lemma_least_is_selection(cs, kinds@, None, i as int);
        }
        return Some(cands[i].clone());
    }
    assert(kinds@.len() == 0 || !wanted(None, kinds@[0]));
    None
}

/// The links of one entity: its shown form and its resolved target, each
/// where it is not empty.
pub open spec fn entity_links(e: UrlEntity) -> Seq<Seq<char>> {
    let shown: Seq<Seq<char>> = if e.url@.len() > 0 {
        seq![e.url@]
    } else {
        seq![]
    };
    match e.unwound_url {
        Some(u) => if u@.len() > 0 {
            shown.push(u@)
        } else {
            shown
        },
        None => shown,
    }
}

/// The candidate links of a sequence of entities, in order.
pub open spec fn links_of(es: Seq<UrlEntity>) -> Seq<Seq<char>>
    decreases es.len(),
{
    if es.len() == 0 {
        seq![]
    } else {
        links_of(es.drop_last()) + entity_links(es.last())
    }
}

/// The article link of a post: among the shown and resolved forms of its
/// links, the choice of `select_candidate`.
pub fn pick_article_url_from_tweet(tweet: &Tweet) -> (r: Option<String>)
    ensures
        is_selection(
            links_of(tweet.urls@),
            links_of(tweet.urls@).map_values(|c: Seq<char>| link_kind(c)),
            opt_view(r),
        ),
{
    let mut cands: Vec<String> = Vec::new();
    let mut kinds: Vec<LinkKind> = Vec::new();
    let mut i: usize = 0;
    while i < tweet.urls.len()
        invariant
            i <= tweet.urls@.len(),
            cands@.map_values(|c: String| c@) == links_of(tweet.urls@.subrange(0, i as int)),
            kinds@ == cands@.map_values(|c: String| link_kind(c@)),
        decreases tweet.urls@.len() - i,
    {
        let item = &tweet.urls[i];
        let ghost before = cands@.map_values(|c: String| c@);
        if !item.url.as_str().is_empty() {
            let k = classify_link(item.url.as_str());
            cands.push(item.url.clone());
            kinds.push(k);
        }
        let ghost mid = cands@.map_values(|c: String| c@);
        match &item.unwound_url {
            Some(u) => {
                if !u.as_str().is_empty() {
                    let k = classify_link(u.as_str());
                    cands.push(u.clone());
                    kinds.push(k);
                }
            },
            None => {},
        }
        assert(tweet.urls@.subrange(0, i + 1).drop_last() =~= tweet.urls@.subrange(0, i as int));
        assert(cands@.map_values(|c: String| c@) =~= before + entity_links(tweet.urls@[i as int]));
        assert(kinds@ =~= cands@.map_values(|c: String| link_kind(c@)));
        i = i + 1;
    }
    assert(tweet.urls@.subrange(0, i as int) =~= tweet.urls@);
    let ghost cs = cands@.map_values(|c: String| c@);
    assert(kinds@ =~= cs.map_values(|c: Seq<char>| link_kind(c)));
    select_candidate(&cands, &kinds)
}

} // verus!
