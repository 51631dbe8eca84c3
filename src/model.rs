//! The records that the resolution works on: posts, their links and
//! embedded articles, and the resolved article.
use vstd::prelude::*;

verus! {

/// A resolved article.
#[derive(Clone, Debug)]
pub struct Article {
    pub url: String,
    pub title: String,
    pub description: String,
    pub content: String,
    pub author: String,
    pub published: String,
    pub domain: String,
    pub ttr: u64,
    pub word_count: u64,
}

/// Engagement counters of a post.
#[derive(Clone, Debug)]
pub struct TweetMetrics {
    pub likes: u64,
    pub retweets: u64,
    pub replies: u64,
    pub quotes: u64,
    pub impressions: u64,
    pub bookmarks: u64,
}

/// A link carried by a post: the shown form and the resolved target.
#[derive(Clone, Debug)]
pub struct UrlEntity {
    pub url: String,
    pub title: Option<String>,
    pub description: Option<String>,
    pub unwound_url: Option<String>,
    pub images: Option<Vec<String>>,
}

/// A code block of an embedded article; `content` is its fenced form.
#[derive(Clone, Debug)]
pub struct TweetArticleCodeBlock {
    pub language: String,
    pub code: String,
    pub content: String,
}

#[derive(Clone, Debug)]
pub struct TweetArticleEntities {
    pub code: Option<Vec<TweetArticleCodeBlock>>,
}

/// A long-form article embedded in a post.
#[derive(Clone, Debug)]
pub struct TweetArticle {
    pub title: String,
    pub plain_text: String,
    pub preview_text: Option<String>,
    pub cover_media: Option<String>,
    pub media_entities: Option<Vec<String>>,
    pub entities: Option<TweetArticleEntities>,
}

/// A post as the lookup service returns it.
#[derive(Clone, Debug)]
pub struct Tweet {
    pub id: String,
    pub text: String,
    pub author_id: String,
    pub username: String,
    pub name: String,
    pub created_at: String,
    pub conversation_id: String,
    pub metrics: TweetMetrics,
    pub urls: Vec<UrlEntity>,
    pub mentions: Vec<String>,
    pub hashtags: Vec<String>,
    pub tweet_url: String,
    pub article: Option<TweetArticle>,
}

/// Why a resolution stopped.
#[derive(Clone, Debug, PartialEq, Eq)]
pub enum ArticleError {
    /// The reference looked like a post but holds no identifier.
    InvalidReference(String),
    /// The lookup service knows no post of that identifier.
    PostNotFound(String),
    /// A link that does not parse as a URL.
    InvalidUrl(String),
}

} // verus!
