use xint_article::external::{cap_content, parse_article_json, read_payload, strip_fences, Payload};
use xint_article::format::{decimal_string, format_article};
use xint_article::inline::{
    article_from_tweet, build_inline_article, reconstruct_article_content, resolve_fetched_tweet,
    tweet_id_for, PostOutcome,
};
use xint_article::links::{
    classify_link, is_external_non_x_url, is_x_article_url, pick_article_url_from_tweet,
    select_candidate, str_less, url_domain, LinkKind,
};
use xint_article::model::{
    Article, ArticleError, Tweet, TweetArticle, TweetArticleCodeBlock, TweetArticleEntities,
    TweetMetrics, UrlEntity,
};
use xint_article::reference::{extract_tweet_id, is_x_tweet_like_url};
use xint_article::text::{count_words, reading_minutes, trim_str};
use xint_article::timeout::{parse_decimal_u64, resolve_article_timeout_secs};

fn fake_tweet(urls: Vec<UrlEntity>) -> Tweet {
    Tweet {
        id: "1900100012345678901".to_string(),
        text: "tweet".to_string(),
        author_id: "1".to_string(),
        username: "alice".to_string(),
        name: "Alice".to_string(),
        created_at: "2026-02-19T00:00:00Z".to_string(),
        conversation_id: "1900100012345678901".to_string(),
        metrics: TweetMetrics {
            likes: 0,
            retweets: 0,
            replies: 0,
            quotes: 0,
            impressions: 0,
            bookmarks: 0,
        },
        urls,
        mentions: vec![],
        hashtags: vec![],
        tweet_url: "https://x.com/alice/status/1900100012345678901".to_string(),
        article: None,
    }
}

fn entity(url: &str, unwound: Option<&str>) -> UrlEntity {
    UrlEntity {
        url: url.to_string(),
        title: None,
        description: None,
        unwound_url: unwound.map(|u| u.to_string()),
        images: None,
    }
}

fn plain_article(title: &str, text: &str) -> TweetArticle {
    TweetArticle {
        title: title.to_string(),
        plain_text: text.to_string(),
        preview_text: None,
        cover_media: None,
        media_entities: None,
        entities: None,
    }
}

fn words(n: usize) -> String {
    vec!["word"; n].join(" ")
}

#[test]
fn extract_tweet_id_supports_status_urls() {
    assert_eq!(
        extract_tweet_id("https://x.com/user/status/1900100012345678901"),
        Some("1900100012345678901".to_string())
    );
    assert_eq!(
        extract_tweet_id("https://twitter.com/i/web/status/1900100012345678901"),
        Some("1900100012345678901".to_string())
    );
}

#[test]
fn pick_article_url_prefers_external_link() {
    let tweet = fake_tweet(vec![
        UrlEntity {
            url: "https://x.com/i/article/abc".to_string(),
            title: None,
            description: None,
            unwound_url: None,
            images: None,
        },
        UrlEntity {
            url: "https://example.com/deep-dive".to_string(),
            title: None,
            description: None,
            unwound_url: None,
            images: None,
        },
    ]);
    assert_eq!(
        pick_article_url_from_tweet(&tweet),
        Some("https://example.com/deep-dive".to_string())
    );
}

#[test]
fn pick_article_url_falls_back_to_x_article() {
    let tweet = fake_tweet(vec![UrlEntity {
        url: "https://x.com/i/article/xyz".to_string(),
        title: None,
        description: None,
        unwound_url: None,
        images: None,
    }]);
    assert_eq!(
        pick_article_url_from_tweet(&tweet),
        Some("https://x.com/i/article/xyz".to_string())
    );
}

#[test]
fn reconstruct_article_content_plain_text_only() {
    let article = TweetArticle {
        title: "Test".to_string(),
        plain_text: "Hello world article.".to_string(),
        preview_text: None,
        cover_media: None,
        media_entities: None,
        entities: None,
    };
    assert_eq!(reconstruct_article_content(&article), "Hello world article.");
}

#[test]
fn reconstruct_article_content_with_code_blocks() {
    let article = TweetArticle {
        title: "Test".to_string(),
        plain_text: "Some text.".to_string(),
        preview_text: None,
        cover_media: None,
        media_entities: None,
        entities: Some(TweetArticleEntities {
            code: Some(vec![TweetArticleCodeBlock {
                language: "rust".to_string(),
                code: "let x = 1;".to_string(),
                content: "```rust\nlet x = 1;\n```".to_string(),
            }]),
        }),
    };
    let result = reconstruct_article_content(&article);
    assert!(result.contains("Some text."));
    assert!(result.contains("Code examples from article:"));
    assert!(result.contains("```rust"));
}

#[test]
fn article_timeout_defaults_and_clamps() {
    assert_eq!(resolve_article_timeout_secs(None), 30);
    assert_eq!(resolve_article_timeout_secs(Some("1")), 5);
    assert_eq!(resolve_article_timeout_secs(Some("999")), 120);
}

#[test]
fn digit_strings_are_their_own_id() {
    assert_eq!(extract_tweet_id("12345"), Some("12345".to_string()));
    assert_eq!(extract_tweet_id("0"), Some("0".to_string()));
    assert_eq!(extract_tweet_id("  42 \n"), Some("42".to_string()));
    assert!(is_x_tweet_like_url("1900100012345678901"));
}

#[test]
fn status_digits_stop_at_first_non_digit() {
    assert_eq!(
        extract_tweet_id("http://example.org/a/status/1900100012345678901?s=20"),
        Some("1900100012345678901".to_string())
    );
    assert_eq!(extract_tweet_id("https://x.com/u/status/123abc456"), Some("123".to_string()));
    assert_eq!(
        extract_tweet_id("https://x.com/u/status/photo/status/77"),
        Some("77".to_string())
    );
}

#[test]
fn references_without_identifier() {
    assert_eq!(extract_tweet_id("https://example.com/article"), None);
    assert_eq!(extract_tweet_id("https://x.com/u/status/"), None);
    assert!(!is_x_tweet_like_url("https://x.com/u/status/abc"));
    assert_eq!(
        tweet_id_for("https://example.com/a"),
        Err(ArticleError::InvalidReference("https://example.com/a".to_string()))
    );
    assert_eq!(tweet_id_for("https://x.com/u/status/9"), Ok("9".to_string()));
}

#[test]
fn link_classification() {
    assert!(is_x_article_url("https://x.com/i/article/abc"));
    assert!(is_x_article_url("https://X.COM/i/article/abc"));
    assert!(!is_x_article_url("https://twitter.com/i/article/abc"));
    assert!(!is_x_article_url("https://x.com/user/status/1"));
    assert!(!is_x_article_url("not a url"));
    assert!(is_external_non_x_url("https://example.com/post"));
    assert!(!is_external_non_x_url("https://x.com/post"));
    assert!(!is_external_non_x_url("https://mobile.twitter.com/post"));
    assert!(!is_external_non_x_url("https://Twitter.com/post"));
    assert!(is_external_non_x_url("https://notx.com/post"));
    assert!(!is_external_non_x_url("::not a url::"));
    assert_eq!(classify_link("https://t.co/abc"), LinkKind::External);
    assert_eq!(classify_link("https://x.com/i/article/1"), LinkKind::PlatformArticle);
    assert_eq!(classify_link("https://x.com/home"), LinkKind::Other);
}

#[test]
fn url_domain_gives_host() {
    assert_eq!(url_domain("https://Example.com/a/b?c=d"), Ok("example.com".to_string()));
    assert_eq!(
        url_domain("nonsense"),
        Err(ArticleError::InvalidUrl("nonsense".to_string()))
    );
}

#[test]
fn candidate_selection_priorities() {
    assert_eq!(pick_article_url_from_tweet(&fake_tweet(vec![])), None);
    assert_eq!(pick_article_url_from_tweet(&fake_tweet(vec![entity("", Some(""))])), None);
    let t = fake_tweet(vec![
        entity("https://x.com/home", None),
        entity("https://x.com/about", None),
    ]);
    assert_eq!(pick_article_url_from_tweet(&t), Some("https://x.com/about".to_string()));
    let t = fake_tweet(vec![entity("https://x.com/home", Some("https://zeta.org/b"))]);
    assert_eq!(pick_article_url_from_tweet(&t), Some("https://zeta.org/b".to_string()));
    let t = fake_tweet(vec![
        entity("https://zeta.org/b", None),
        entity("https://alpha.org/a", None),
        entity("https://x.com/i/article/1", None),
    ]);
    assert_eq!(pick_article_url_from_tweet(&t), Some("https://alpha.org/a".to_string()));
}

#[test]
fn select_candidate_by_kind() {
    let cands = vec!["b".to_string(), "a".to_string(), "c".to_string()];
    let kinds = vec![LinkKind::PlatformArticle, LinkKind::Other, LinkKind::PlatformArticle];
    assert_eq!(select_candidate(&cands, &kinds), Some("b".to_string()));
    let kinds = vec![LinkKind::Other, LinkKind::Other, LinkKind::Other];
    assert_eq!(select_candidate(&cands, &kinds), Some("a".to_string()));
    assert_eq!(select_candidate(&vec![], &vec![]), None);
    assert!(str_less("abc", "abd"));
    assert!(str_less("ab", "abc"));
    assert!(!str_less("abc", "abc"));
    assert!(str_less("Z", "a"));
}

#[test]
fn inline_article_from_post() {
    let mut t = fake_tweet(vec![entity("https://example.com/x", None)]);
    let mut a = plain_article("", &words(238));
    a.preview_text = Some("preview".to_string());
    t.article = Some(a);
    match article_from_tweet("https://x.com/alice/status/1", &t) {
        PostOutcome::Inline(art) => {
            assert_eq!(art.title, "X Article");
            assert_eq!(art.url, "https://x.com/alice/status/1");
            assert_eq!(art.description, "preview");
            assert_eq!(art.author, "alice");
            assert_eq!(art.published, "2026-02-19T00:00:00Z");
            assert_eq!(art.domain, "x.com");
            assert_eq!(art.word_count, 238);
            assert_eq!(art.ttr, 1);
        }
        _ => panic!("expected an inline article"),
    }
}

#[test]
fn inline_reading_time_rounds_up_and_floors() {
    let t = fake_tweet(vec![]);
    let art = build_inline_article("1", &t, &plain_article("T", &words(239)));
    assert_eq!(art.word_count, 239);
    assert_eq!(art.ttr, 2);
    let art = build_inline_article("1", &t, &plain_article("T", "   "));
    assert_eq!(art.word_count, 0);
    assert_eq!(art.ttr, 1);
    assert_eq!(art.title, "T");
}

#[test]
fn post_without_article_text_uses_links() {
    let mut t = fake_tweet(vec![entity("https://example.com/x", None)]);
    t.article = Some(plain_article("Title", ""));
    match article_from_tweet("1", &t) {
        PostOutcome::Link(u) => assert_eq!(u, "https://example.com/x"),
        _ => panic!("expected a link"),
    }
    let t = fake_tweet(vec![]);
    assert!(matches!(article_from_tweet("1", &t), PostOutcome::NoArticle));
}

#[test]
fn missing_post_is_an_error() {
    match resolve_fetched_tweet("https://x.com/u/status/5", "5", None) {
        Err(e) => assert_eq!(e, ArticleError::PostNotFound("5".to_string())),
        Ok(_) => panic!("expected an error"),
    }
    let fetched = Some(fake_tweet(vec![]));
    assert!(matches!(
        resolve_fetched_tweet("5", "5", fetched),
        Ok(PostOutcome::NoArticle)
    ));
}

#[test]
fn code_blocks_follow_text_in_order() {
    let block = |c: &str| TweetArticleCodeBlock {
        language: "rust".to_string(),
        code: String::new(),
        content: c.to_string(),
    };
    let mut a = plain_article("T", "Body.");
    a.entities = Some(TweetArticleEntities {
        code: Some(vec![block("```rust\nlet x = 1;\n```"), block("B2")]),
    });
    assert_eq!(
        reconstruct_article_content(&a),
        "Body.\n\n---\n\nCode examples from article:\n\n```rust\nlet x = 1;\n```\n\nB2\n"
    );
    a.entities = Some(TweetArticleEntities { code: Some(vec![]) });
    assert_eq!(reconstruct_article_content(&a), "Body.");
    a.entities = Some(TweetArticleEntities { code: None });
    assert_eq!(reconstruct_article_content(&a), "Body.");
}

#[test]
fn fences_are_stripped() {
    assert_eq!(strip_fences("  ```json\n{\"a\":1}\n```  "), "{\"a\":1}");
    assert_eq!(strip_fences("```\nplain\n"), "plain");
    assert_eq!(strip_fences("```"), "");
    assert_eq!(strip_fences("\t hello \n"), "hello");
}

#[test]
fn json_payload_fields() {
    let raw = "```json\n{\"title\":\"T\",\"description\":\"D\",\"content\":\"one two three\",\"author\":\"A\",\"published\":\"2024-01-02\"}\n```";
    let a = parse_article_json(raw, "https://example.com/p", "example.com", false);
    assert_eq!(a.title, "T");
    assert_eq!(a.description, "D");
    assert_eq!(a.content, "one two three");
    assert_eq!(a.author, "A");
    assert_eq!(a.published, "2024-01-02");
    assert_eq!(a.domain, "example.com");
    assert_eq!(a.url, "https://example.com/p");
    assert_eq!(a.word_count, 3);
    assert_eq!(a.ttr, 1);
}

#[test]
fn json_fields_that_are_not_strings_are_absent() {
    let a = parse_article_json("{\"title\": 5, \"content\": null}", "u", "example.com", false);
    assert_eq!(a.title, "example.com");
    assert_eq!(a.content, "");
    assert_eq!(a.word_count, 0);
    assert_eq!(a.ttr, 0);
    assert!(matches!(read_payload("{}"), Payload::Structured { .. }));
}

#[test]
fn plain_text_payload() {
    let a = parse_article_json("  just some words  ", "u", "example.com", false);
    assert_eq!(a.title, "example.com");
    assert_eq!(a.content, "just some words");
    assert_eq!(a.description, "");
    assert_eq!(a.author, "");
    assert_eq!(a.published, "");
    assert_eq!(a.word_count, 3);
    let a = parse_article_json("[1, 2]", "u", "d", false);
    assert_eq!(a.content, "[1, 2]");
    assert!(matches!(read_payload("not json"), Payload::PlainText(_)));
}

#[test]
fn long_content_is_capped_at_white_space() {
    let content = words(2000);
    let a = parse_article_json(&content, "u", "d", false);
    assert!(a.content.ends_with("word\n\n[... truncated]"));
    let kept = a.content.len() - "\n\n[... truncated]".len();
    assert!(kept <= 5000);
    assert_eq!(kept, 4999);
    assert_eq!(a.word_count, 1000 + 2);
    let full = parse_article_json(&content, "u", "d", true);
    assert_eq!(full.content, content);
    assert_eq!(full.word_count, 2000);
    assert_eq!(full.ttr, 9);
}

#[test]
fn cap_respects_character_boundaries() {
    let content = format!("{}\u{e9}\u{e9}", "a".repeat(4999));
    let capped = cap_content(&content);
    assert_eq!(capped, format!("{}\n\n[... truncated]", "a".repeat(4999)));
    let fits = "a".repeat(5000);
    assert_eq!(cap_content(&fits), fits);
}

#[test]
fn reparsing_capped_content_keeps_it() {
    let first = parse_article_json(&words(3000), "u", "d", false);
    let second = parse_article_json(&first.content, "u", "d", true);
    assert_eq!(second.content, first.content);
    assert_eq!(second.content.matches("[... truncated]").count(), 1);
}

#[test]
fn empty_external_article_reads_in_zero_minutes() {
    let a = parse_article_json("", "u", "d", false);
    assert_eq!(a.word_count, 0);
    assert_eq!(a.ttr, 0);
}

#[test]
fn timeout_override_values() {
    assert_eq!(resolve_article_timeout_secs(Some("abc")), 30);
    assert_eq!(resolve_article_timeout_secs(Some(" 60 ")), 60);
    assert_eq!(resolve_article_timeout_secs(Some("+15")), 15);
    assert_eq!(resolve_article_timeout_secs(Some("-15")), 30);
    assert_eq!(resolve_article_timeout_secs(Some("")), 30);
    assert_eq!(resolve_article_timeout_secs(Some("99999999999999999999999")), 30);
    assert_eq!(resolve_article_timeout_secs(Some("120")), 120);
    assert_eq!(resolve_article_timeout_secs(Some("5")), 5);
    assert_eq!(parse_decimal_u64("18446744073709551615"), Some(u64::MAX));
    assert_eq!(parse_decimal_u64("18446744073709551616"), None);
    assert_eq!(parse_decimal_u64("+"), None);
}

#[test]
fn counting_helpers() {
    assert_eq!(count_words(""), 0);
    assert_eq!(count_words("  a\tb\n\nc  "), 3);
    assert_eq!(count_words("one\u{3000}two"), 2);
    assert_eq!(reading_minutes(0), 0);
    assert_eq!(reading_minutes(238), 1);
    assert_eq!(reading_minutes(239), 2);
    assert_eq!(trim_str("\u{a0} x y \u{2003}"), "x y");
    assert_eq!(decimal_string(0), "0");
    assert_eq!(decimal_string(1234), "1234");
}

#[test]
fn article_rendering() {
    let a = Article {
        url: "https://example.com/p".to_string(),
        title: "Title".to_string(),
        description: "Desc".to_string(),
        content: "Body".to_string(),
        author: "Ann".to_string(),
        published: "2024-05-06T07:08:09Z".to_string(),
        domain: "example.com".to_string(),
        ttr: 2,
        word_count: 300,
    };
    assert_eq!(
        format_article(&a),
        "\u{1f4f0} Title\n\u{270d}\u{fe0f}  Ann \u{b7} 2024-05-06\n\u{1f517} https://example.com/p\n\u{1f4ca} 300 words \u{b7} 2 min read\n\nDesc\n\n---\n\nBody"
    );
    let b = Article {
        author: String::new(),
        published: String::new(),
        description: String::new(),
        ..a.clone()
    };
    assert_eq!(
        format_article(&b),
        "\u{1f4f0} Title\n\u{1f517} https://example.com/p\n\u{1f4ca} 300 words \u{b7} 2 min read\n\n---\n\nBody"
    );
    let c = Article { author: String::new(), ..a };
    assert!(format_article(&c).starts_with("\u{1f4f0} Title\n2024-05-06\n"));
}
