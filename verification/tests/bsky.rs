use unicode_segmentation::UnicodeSegmentation;
use italic::atproto::bsky::{frontmatter_text, post, preview, BskyTextError, MAX_GRAPHEMES, POST_NSID};
use italic::atproto::document::derived_blob_ref;
use italic::doc::{DateTime, Doc, Yaml};
use italic::publish::bsky::{
    external_embed, feed_post, opted_out, render_text, template_vars, text_from_rendered, truncate_graphemes, EXTERNAL_EMBED_NSID,
    FEED_POST_NSID,
};

fn blank() -> Doc {
    Doc {
        id_path: String::new(),
        output_path: String::new(),
        title: String::new(),
        summary: String::new(),
        content: String::new(),
        markdown: None,
        terms: Vec::new(),
        date: DateTime { secs: 0, nanos: 0 },
        updated: DateTime { secs: 0, nanos: 0 },
        data: Vec::new(),
        draft: false,
    }
}

fn doc_with_bsky(value: Yaml) -> Doc {
    let mut d = blank();
    d.id_path = "blog/hello.md".to_string();
    d.data.push(("bsky".to_string(), value));
    d
}

/// 2024-01-20T14:30:00Z.
fn publish_doc() -> Doc {
    let mut d = blank();
    d.id_path = "blog/hello.md".to_string();
    d.title = "Hello World".to_string();
    d.summary = "A short summary.".to_string();
    d.date = DateTime { secs: 1_705_761_000, nanos: 0 };
    d.updated = d.date;
    d
}

#[test]
fn post_serializes_to_lexicon_shape() {
    let rec = post("New post!", "https://example.com/blog/hello/", "Hello", "A greeting.", None, "2026-07-20T14:30:00.000Z");
    assert_eq!(rec.type_, POST_NSID);
    assert_eq!(rec.type_, "app.bsky.feed.post");
    assert_eq!(rec.text, "New post!");
    assert_eq!(rec.created_at, "2026-07-20T14:30:00.000Z");
    let embed = rec.embed.unwrap();
    assert_eq!(embed.type_, "app.bsky.embed.external");
    assert_eq!(embed.external.uri, "https://example.com/blog/hello/");
    assert_eq!(embed.external.title, "Hello");
    assert_eq!(embed.external.description, "A greeting.");
    assert!(embed.external.thumb.is_none());
}

#[test]
fn post_description_empty_string_is_present() {
    let rec = post("t", "https://e.com/", "T", "", None, "2026-01-01T00:00:00.000Z");
    assert_eq!(rec.embed.unwrap().external.description, "");
}

#[test]
fn post_thumb_serializes_as_blob() {
    let thumb = derived_blob_ref(b"png bytes").ok().unwrap();
    let link = thumb.link.clone();
    let rec = post("t", "https://e.com/", "T", "", Some(thumb), "2026-01-01T00:00:00.000Z");
    assert_eq!(rec.embed.unwrap().external.thumb.unwrap().link, link);
}

#[test]
fn frontmatter_absent_is_none() {
    let doc = blank();
    assert_eq!(frontmatter_text(&doc).ok().unwrap(), None);
}

#[test]
fn frontmatter_string_is_trimmed_and_returned() {
    let doc = doc_with_bsky(Yaml::Str("  New post!  ".into()));
    assert_eq!(frontmatter_text(&doc).ok().unwrap().as_deref(), Some("New post!"));
}

#[test]
fn frontmatter_non_string_errors_with_doc_path() {
    let doc = doc_with_bsky(Yaml::Bool(true));
    let err = frontmatter_text(&doc).err().unwrap().message();
    assert!(err.contains("blog/hello.md"), "{err}");
    assert!(err.contains("must be a string"), "{err}");
}

#[test]
fn frontmatter_empty_errors() {
    let doc = doc_with_bsky(Yaml::Str("   ".into()));
    let err = frontmatter_text(&doc).err().unwrap();
    assert!(matches!(err, BskyTextError::Empty(_)));
    assert!(err.message().contains("empty"), "{}", err.message());
}

#[test]
fn grapheme_cap_is_boundary_exact() {
    let family = "👨\u{200d}👩\u{200d}👧\u{200d}👦";
    assert_eq!(family.graphemes(true).count(), 1);
    let at_cap = format!("{}{}", family, "a".repeat(MAX_GRAPHEMES - 1));
    let doc = doc_with_bsky(Yaml::Str(at_cap.clone()));
    assert_eq!(frontmatter_text(&doc).ok().unwrap(), Some(at_cap));
    let over = "a".repeat(MAX_GRAPHEMES + 1);
    let doc = doc_with_bsky(Yaml::Str(over));
    let err = frontmatter_text(&doc).err().unwrap().message();
    assert!(err.contains("301 graphemes"), "{err}");
    assert!(err.ends_with("Bluesky caps posts at 300"), "{err}");
}

#[test]
fn preview_truncates_on_grapheme_boundary() {
    assert_eq!(preview("short", 60), "short");
    assert_eq!(preview("abcdef", 3), "abc…");
    assert_eq!(preview("abc", 3), "abc");
}

#[test]
fn truncate_under_limit_is_unchanged() {
    assert_eq!(truncate_graphemes("hello", 300), "hello");
    assert_eq!(truncate_graphemes("", 300), "");
}

#[test]
fn truncate_counts_graphemes_not_bytes() {
    let s = "👩‍👩‍👧‍👦 a";
    assert_eq!(truncate_graphemes(s, 300), s);
    assert_eq!(truncate_graphemes(s, 3), s);
}

#[test]
fn truncate_adds_ellipsis_when_over_limit() {
    let out = truncate_graphemes("abcdef", 4);
    assert_eq!(out, "abc…");
    assert_eq!(out.chars().count(), 4);
}

#[test]
fn truncate_trims_trailing_space_before_ellipsis() {
    assert_eq!(truncate_graphemes("ab cd", 4), "ab…");
}

#[test]
fn truncate_emoji_boundary_not_split() {
    let flags = "🇺🇸🇬🇧🇫🇷🇩🇪🇯🇵";
    let out = truncate_graphemes(flags, 3);
    assert_eq!(out, "🇺🇸🇬🇧…");
    assert!(out.ends_with('…'));
}

#[test]
fn truncate_to_zero_is_empty() {
    assert_eq!(truncate_graphemes("abc", 0), "");
}

#[test]
fn render_text_defaults_to_summary() {
    assert_eq!(render_text(&publish_doc(), None).ok().unwrap(), "A short summary.");
}

#[test]
fn render_text_uses_template() {
    let t = render_text(&publish_doc(), Some("{{ title }} — {{ summary }}")).ok().unwrap();
    assert_eq!(t, "Hello World — A short summary.");
}

#[test]
fn render_text_frontmatter_override_wins() {
    let mut d = publish_doc();
    d.data.push(("bsky_text".to_string(), Yaml::Str("Custom!".to_string())));
    assert_eq!(render_text(&d, Some("{{ title }}")).ok().unwrap(), "Custom!");
}

#[test]
fn render_text_reports_template_errors() {
    let err = render_text(&publish_doc(), Some("{{ title ")).err().unwrap();
    assert!(err.starts_with("rendering bsky post_template: "), "{err}");
}

#[test]
fn opted_out_detects_false_flag() {
    let d = publish_doc();
    assert!(!opted_out(&d));
    let mut d = publish_doc();
    d.data.push(("bsky".to_string(), Yaml::Bool(false)));
    assert!(opted_out(&d));
    let mut d2 = publish_doc();
    d2.data.push(("bsky".to_string(), Yaml::Bool(true)));
    assert!(!opted_out(&d2));
}

#[test]
fn feed_post_serializes_with_external_embed() {
    let d = publish_doc();
    let embed = external_embed("https://example.com/blog/hello/".into(), &d, None);
    let post = feed_post(&d, "Hello World — read more".into(), Some(embed));
    assert_eq!(post.type_, FEED_POST_NSID);
    assert_eq!(post.text, "Hello World — read more");
    assert_eq!(post.created_at, "2024-01-20T14:30:00.000Z");
    assert_eq!(post.langs, vec!["en".to_string()]);
    let e = post.embed.unwrap();
    assert_eq!(e.type_, EXTERNAL_EMBED_NSID);
    assert_eq!(e.external.uri, "https://example.com/blog/hello/");
    assert_eq!(e.external.title, "Hello World");
    assert_eq!(e.external.description, "A short summary.");
    assert!(e.external.thumb.is_none());
}

#[test]
fn feed_post_without_embed_omits_field() {
    let post = feed_post(&publish_doc(), "text".into(), None);
    assert!(post.embed.is_none());
}

#[test]
fn rendered_text_is_trimmed_and_truncated() {
    let long = format!("  {}  ", "x".repeat(400));
    let t = text_from_rendered(Ok(long)).ok().unwrap();
    assert_eq!(t.chars().count(), MAX_GRAPHEMES);
    assert!(t.ends_with('…'));
    assert_eq!(text_from_rendered(Ok("  hi  ".to_string())).ok().unwrap(), "hi");
}

#[test]
fn rendering_error_is_reported_with_prefix() {
    let e = text_from_rendered(Err("boom".to_string())).err().unwrap();
    assert_eq!(e, "rendering bsky post_template: boom");
}

#[test]
fn template_context_holds_title_and_summary() {
    let vars = template_vars(&publish_doc());
    assert_eq!(vars.len(), 2);
    assert_eq!(vars[0].0, "title");
    assert_eq!(vars[0].1, publish_doc().title);
    assert_eq!(vars[1].0, "summary");
    assert_eq!(vars[1].1, "A short summary.");
}
