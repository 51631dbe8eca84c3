//! Articles embedded in a post: their text, with code blocks appended, and
//! the record built from them.
use vstd::prelude::*;
use crate::links::{pick_article_url_from_tweet, is_selection, link_kind, links_of};
use crate::model::{Article, ArticleError, Tweet, TweetArticle, TweetArticleCodeBlock};
use crate::text::{count_words, reading_minutes, ttr_of, word_count};

verus! {

/// The code blocks of an embedded article, empty where it lists none.
pub open spec fn code_blocks_of(a: TweetArticle) -> Seq<TweetArticleCodeBlock> {
    match a.entities {
        Some(e) => match e.code {
            Some(v) => v@,
            None => seq![],
        },
        None => seq![],
    }
}

/// Each block's fenced form on its own line, in order.
pub open spec fn code_section(blocks: Seq<TweetArticleCodeBlock>) -> Seq<char>
    decreases blocks.len(),
{
    if blocks.len() == 0 {
        seq![]
    } else {
        code_section(blocks.drop_last()) + "\n"@ + blocks.last().content@ + "\n"@
    }
}

/// The full text of an embedded article: its plain text, then, where it has
/// code blocks, a separator and the blocks.
pub open spec fn article_text(a: TweetArticle) -> Seq<char> {
    let blocks = code_blocks_of(a);
    if blocks.len() == 0 {
        a.plain_text@
    } else {
        a.plain_text@ + "\n\n---\n\nCode examples from article:\n"@ + code_section(blocks)
    }
}

/// The text of an embedded article with its code blocks appended.
pub fn reconstruct_article_content(article: &TweetArticle) -> (r: String)
    ensures
        r@ == article_text(*article),
{
    let mut content = article.plain_text.clone();
    if let Some(entities) = &article.entities {
        if let Some(code_blocks) = &entities.code {
            if code_blocks.len() > 0 {
                content.append("\n\n---\n\nCode examples from article:\n");
                let ghost head = content@;
                let mut i: usize = 0;
                while i < code_blocks.len()
                    invariant
                        i <= code_blocks@.len(),
                        code_blocks@ == code_blocks_of(*article),
                        content@ == head + code_section(code_blocks@.subrange(0, i as int)),
                    decreases code_blocks@.len() - i,
                {
                    content.append("\n");
                    content.append(code_blocks[i].content.as_str());
                    content.append("\n");
                    assert(code_blocks@.subrange(0, i + 1).drop_last() =~= code_blocks@.subrange(
                        0,
                        i as int,
                    ));
                    assert(content@ =~= head + code_section(code_blocks@.subrange(0, i + 1)));
                    i = i + 1;
                }
                assert(code_blocks@.subrange(0, i as int) =~= code_blocks@);
                assert(content@ =~= article_text(*article));
            }
        }
    }
    content
}

/// An embedded article without code blocks reads as its plain text, unchanged.
pub proof fn lemma_text_without_code_is_plain(a: TweetArticle)
    requires
        code_blocks_of(a).len() == 0,
    ensures
        article_text(a) == a.plain_text@,
{
}

/// With one code block, the text is the plain text, then the separator with
/// its heading, then the block's fenced form on a line of its own.
pub proof fn lemma_single_block_follows_text(a: TweetArticle)
    requires
        code_blocks_of(a).len() == 1,
    ensures
        article_text(a) == a.plain_text@ + "\n\n---\n\nCode examples from article:\n"@ + "\n"@
            + code_blocks_of(a)[0].content@ + "\n"@,
{
    let blocks = code_blocks_of(a);
    assert(blocks.drop_last() =~= Seq::<TweetArticleCodeBlock>::empty());
    assert(code_section(blocks.drop_last()) =~= Seq::<char>::empty());
    assert(blocks.last() == blocks[0]);
    assert(code_section(blocks) =~= "\n"@ + blocks[0].content@ + "\n"@);
    assert(article_text(a) =~= a.plain_text@ + "\n\n---\n\nCode examples from article:\n"@ + "\n"@
        + blocks[0].content@ + "\n"@);
}

/// `r` is the article that the embedded article `a` of `tweet` makes, for the
/// reference `reference` that the caller gave.
pub open spec fn is_inline_article(r: Article, reference: Seq<char>, tweet: Tweet, a: TweetArticle) -> bool {
    let words = word_count(article_text(a));
    &&& r.url@ == reference
    &&& r.title@ == if a.title@.len() == 0 {
        "X Article"@
    } else {
        a.title@
    }
    &&& r.description@ == match a.preview_text {
        Some(p) => p@,
        None => seq![],
    }
    &&& r.content@ == article_text(a)
    &&& r.author@ == tweet.username@
    &&& r.published@ == tweet.created_at@
    &&& r.domain@ == "x.com"@
    &&& r.word_count == words
    &&& r.ttr == if ttr_of(words) == 0 {
        1
    } else {
        ttr_of(words)
    }
}

/// The article of an embedded article; its reading time is at least a minute.
pub fn build_inline_article(reference: &str, tweet: &Tweet, a: &TweetArticle) -> (r: Article)
    ensures
        is_inline_article(r, reference@, *tweet, *a),
{
    let content = reconstruct_article_content(a);
    let word_count = count_words(content.as_str());
    let minutes = reading_minutes(word_count);
    let title = if a.title.as_str().is_empty() {
        String::from_str("X Article")
    } else {
        a.title.clone()
    };
    let description = match &a.preview_text {
        Some(p) => p.clone(),
        None => String::new(),
    };
    Article {
        url: String::from_str(reference),
        title,
        description,
        content,
        author: tweet.username.clone(),
        published: tweet.created_at.clone(),
        domain: String::from_str("x.com"),
        ttr: if minutes == 0 {
            1
        } else {
            minutes
        },
        word_count,
    }
}

/// An article built from a post's embedded article reads in a minute or more,
/// even with no words at all.
pub proof fn lemma_inline_reading_time_at_least_one(
    r: Article,
    reference: Seq<char>,
    tweet: Tweet,
    a: TweetArticle,
)
    requires
        is_inline_article(r, reference, tweet, a),
    ensures
        r.ttr >= 1,
        r.word_count == 0 ==> r.ttr == 1,
{
}

/// What a fetched post leads to.
pub enum PostOutcome {
    /// The post embeds an article.
    Inline(Article),
    /// The post links to the article at this URL.
    Link(String),
    /// The post holds no article and no link.
    NoArticle,
}

/// The post embeds an article with text.
pub open spec fn has_inline_article(tweet: Tweet) -> bool {
    tweet.article matches Some(a) && a.plain_text@.len() > 0
}

pub open spec fn outcome_link(o: PostOutcome) -> Option<Seq<char>> {
    match o {
        PostOutcome::Link(u) => Some(u@),
        _ => None,
    }
}

/// The outcome of a post for the reference `reference`: its embedded article
/// where it has one with text, else its article link, else none.
pub fn article_from_tweet(reference: &str, tweet: &Tweet) -> (r: PostOutcome)
    ensures
        has_inline_article(*tweet) ==> (r matches PostOutcome::Inline(x) && is_inline_article(
            x,
            reference@,
            *tweet,
            tweet.article->Some_0,
        )),
        !has_inline_article(*tweet) ==> !(r is Inline) && is_selection(
            links_of(tweet.urls@),
            links_of(tweet.urls@).map_values(|c: Seq<char>| link_kind(c)),
            outcome_link(r),
        ),
{
    if let Some(a) = &tweet.article {
        if !a.plain_text.as_str().is_empty() {
            return PostOutcome::Inline(build_inline_article(reference, tweet, a));
        }
    }
    match pick_article_url_from_tweet(tweet) {
        Some(u) => PostOutcome::Link(u),
        None => PostOutcome::NoArticle,
    }
}

/// The identifier of the post that `reference` names, or the error that it
/// names none.
pub fn tweet_id_for(reference: &str) -> (r: Result<String, ArticleError>)
    ensures
        r matches Ok(id) ==> crate::reference::post_id_of(reference@) == Some(id@),
        r is Err <==> crate::reference::post_id_of(reference@) is None,
        r matches Err(e) ==> (e matches ArticleError::InvalidReference(x) && x@ == reference@),
{
    match crate::reference::extract_tweet_id(reference) {
        Some(id) => Ok(id),
        None => Err(ArticleError::InvalidReference(String::from_str(reference))),
    }
}

/// The outcome of the lookup of post `id` for `reference`: an error where the
/// lookup found no post.
pub fn resolve_fetched_tweet(reference: &str, id: &str, fetched: Option<Tweet>) -> (r: Result<
    PostOutcome,
    ArticleError,
>)
    ensures
        fetched is None <==> r is Err,
        r matches Err(e) ==> (e matches ArticleError::PostNotFound(x) && x@ == id@),
        fetched matches Some(t) ==> r matches Ok(o) && (has_inline_article(t) ==> (
        o matches PostOutcome::Inline(x) && is_inline_article(x, reference@, t, t.article->Some_0)))
            && (!has_inline_article(t) ==> !(o is Inline) && is_selection(
            links_of(t.urls@),
            links_of(t.urls@).map_values(|c: Seq<char>| link_kind(c)),
            outcome_link(o),
        )),
{
    match fetched {
        Some(t) => Ok(article_from_tweet(reference, &t)),
        None => Err(ArticleError::PostNotFound(String::from_str(id))),
    }
}

} // verus!
