use italic::atproto::config::{BasicTheme as ThemeConfig, Rgb};
use italic::atproto::document::{
    basic_theme, blob_cid, canonical_path, canonical_url, derived_blob_ref, document,
    document_rkey, document_uri, publication, publication_rkey, publication_uri, StrongRef,
    DOCUMENT_NSID, MARKDOWN_NSID, MARKDOWN_TEXT_NSID, PUBLICATION_NSID, THEME_BASIC_NSID,
    THEME_COLOR_RGB_NSID,
};
use italic::doc::{DateTime, Doc};

/// 2024-01-20T14:30:00Z.
fn jan20() -> DateTime {
    DateTime { secs: 1_705_761_000, nanos: 0 }
}

/// 2024-02-01T14:30:00Z.
fn feb01() -> DateTime {
    DateTime { secs: 1_706_797_800, nanos: 0 }
}

fn doc() -> Doc {
    Doc {
        id_path: "blog/getting-started.md".to_string(),
        output_path: "blog/getting-started/index.html".to_string(),
        title: "Getting Started".to_string(),
        summary: "Learn how to publish.".to_string(),
        content: "<p>Full <em>body</em> text.</p>".to_string(),
        markdown: Some("Full *body* text.".to_string()),
        terms: vec![(
            "tags".to_string(),
            vec![
                ("atproto".to_string(), "atproto".to_string()),
                ("tutorial".to_string(), "Tutorial".to_string()),
            ],
        )],
        date: jan20(),
        updated: jan20(),
        data: Vec::new(),
        draft: false,
    }
}

#[test]
fn blob_cid_matches_known_vector() {
    assert_eq!(
        blob_cid(b"hello world"),
        "bafkreifzjut3te2nhyekklss27nh3k72ysco7y32koao5eei66wof36n5e"
    );
}

#[test]
fn derived_blob_ref_serializes_to_blob_shape() {
    let blob = derived_blob_ref(b"hello world").ok().unwrap();
    assert_eq!(blob.link, "bafkreifzjut3te2nhyekklss27nh3k72ysco7y32koao5eei66wof36n5e");
    assert_eq!(blob.size, 11);
    assert_eq!(blob.mime_type, "*/*");
}

#[test]
fn document_rkey_hashes_canonical_url() {
    assert_eq!(
        document_rkey("https://example.com/blog/getting-started/"),
        "c5oqyxkz4pfia2zmhhye62t42vdzpiwjdmtphglnfxwpg2y5v4ba"
    );
    let rkey = document_rkey("https://example.com/blog/getting-started/");
    assert_eq!(rkey.len(), 52);
    assert!(rkey.chars().all(|c| matches!(c, 'a'..='z' | '2'..='7')));
    assert_ne!(document_rkey("https://a.com/p/"), document_rkey("https://b.com/p/"));
}

#[test]
fn uris_compose_did_nsid_and_derived_rkey() {
    assert_eq!(
        document_uri("did:plc:abc", "https://example.com/blog/getting-started/"),
        "at://did:plc:abc/site.standard.document/\
         c5oqyxkz4pfia2zmhhye62t42vdzpiwjdmtphglnfxwpg2y5v4ba"
    );
    assert_eq!(
        publication_uri("did:plc:abc", "https://example.com"),
        format!(
            "at://did:plc:abc/site.standard.publication/{}",
            publication_rkey("https://example.com")
        )
    );
}

#[test]
fn publication_rkey_hashes_origin() {
    assert_eq!(
        publication_rkey("https://example.com"),
        "cadiblkunttkk57uf5jn6m5uz7okovuftztexdl54mu3cugqttuq"
    );
    assert_ne!(publication_rkey("https://a.com"), publication_rkey("https://b.com"));
}

#[test]
fn canonical_path_joins_base_path_and_url() {
    let d = doc();
    assert_eq!(canonical_path(&d, ""), "/blog/getting-started/");
    assert_eq!(canonical_path(&d, "/garden"), "/garden/blog/getting-started/");
}

#[test]
fn canonical_url_prefixes_origin() {
    let d = doc();
    assert_eq!(
        canonical_url(&d, Some("https://example.com"), ""),
        "https://example.com/blog/getting-started/"
    );
    assert_eq!(canonical_url(&d, None, ""), "/blog/getting-started/");
}

#[test]
fn document_serializes_to_lexicon_shape() {
    let d = doc();
    let rec = document(&d, "at://did:plc:abc/site.standard.publication/self", "", None, None);
    assert_eq!(rec.type_, DOCUMENT_NSID);
    assert_eq!(rec.type_, "site.standard.document");
    assert_eq!(rec.site, "at://did:plc:abc/site.standard.publication/self");
    assert_eq!(rec.title, "Getting Started");
    assert_eq!(rec.published_at, "2024-01-20T14:30:00.000Z");
    assert_eq!(rec.path.as_deref(), Some("/blog/getting-started/"));
    assert_eq!(rec.description.as_deref(), Some("Learn how to publish."));
    assert_eq!(rec.text_content.as_deref(), Some("Full body text."));
    let content = rec.content.as_ref().unwrap();
    assert_eq!(content.type_, MARKDOWN_NSID);
    assert_eq!(content.type_, "at.markpub.markdown");
    assert_eq!(content.flavor, "gfm");
    assert_eq!(content.rendering_rules, "comrak");
    assert_eq!(content.text.type_, MARKDOWN_TEXT_NSID);
    assert_eq!(content.text.markdown, "Full *body* text.");
    assert_eq!(rec.tags, vec!["atproto".to_string(), "tutorial".to_string()]);
    assert!(rec.updated_at.is_none());
    assert!(rec.cover_image.is_none());
}

#[test]
fn document_bsky_post_ref_serializes_as_strong_ref() {
    let d = doc();
    let rec = document(
        &d,
        "at://did:plc:abc/site.standard.publication/self",
        "",
        None,
        Some(StrongRef {
            uri: "at://did:plc:abc/app.bsky.feed.post/3lwa".to_string(),
            cid: "bafyreib2".to_string(),
        }),
    );
    let r = rec.bsky_post_ref.unwrap();
    assert_eq!(r.uri, "at://did:plc:abc/app.bsky.feed.post/3lwa");
    assert_eq!(r.cid, "bafyreib2");
}

#[test]
fn document_omits_content_when_no_markdown() {
    let mut d = doc();
    d.markdown = None;
    let rec = document(&d, "at://did:plc:abc/site.standard.publication/self", "", None, None);
    assert!(rec.content.is_none());
}

#[test]
fn document_includes_updated_when_later_than_published() {
    let mut d = doc();
    d.updated = feb01();
    let rec = document(&d, "at://did:plc:abc/site.standard.publication/self", "", None, None);
    assert_eq!(rec.updated_at.as_deref(), Some("2024-02-01T14:30:00.000Z"));
}

#[test]
fn document_without_text_or_summary_omits_both() {
    let mut d = doc();
    d.summary = String::new();
    d.content = "<p>  </p>".to_string();
    let rec = document(&d, "at://x", "/b", None, None);
    assert!(rec.description.is_none());
    assert!(rec.text_content.is_none());
    assert_eq!(rec.path.as_deref(), Some("/b/blog/getting-started/"));
}

#[test]
fn publication_serializes_to_lexicon_shape() {
    let rec = publication("My Garden".into(), "https://example.com".into(), None, None, None);
    assert_eq!(rec.type_, PUBLICATION_NSID);
    assert_eq!(rec.name, "My Garden");
    assert_eq!(rec.url, "https://example.com");
    assert!(rec.description.is_none());
    assert!(rec.icon.is_none());
    assert!(rec.basic_theme.is_none());
}

#[test]
fn publication_theme_serializes_to_lexicon_shape() {
    let theme = ThemeConfig {
        background: Rgb { r: 0x1a, g: 0x1a, b: 0x2e },
        foreground: Rgb { r: 0xee, g: 0xee, b: 0xee },
        accent: Rgb { r: 0xe9, g: 0x45, b: 0x60 },
        accent_foreground: Rgb { r: 255, g: 255, b: 255 },
    };
    let rec = publication(
        "My Garden".into(),
        "https://example.com".into(),
        Some("A digital garden.".into()),
        None,
        Some(basic_theme(&theme)),
    );
    assert_eq!(rec.description.as_deref(), Some("A digital garden."));
    let t = rec.basic_theme.unwrap();
    assert_eq!(t.type_, THEME_BASIC_NSID);
    assert_eq!(t.accent_foreground.r, 255);
    assert_eq!(t.background.type_, THEME_COLOR_RGB_NSID);
    assert_eq!(t.background.type_, "site.standard.theme.color#rgb");
    assert_eq!(t.background.r, 0x1a);
    assert_eq!(t.background.g, 0x1a);
    assert_eq!(t.background.b, 0x2e);
    assert_eq!(t.accent.r, 0xe9);
}

#[test]
fn wf_wants_terms_in_key_order() {
    assert!(doc().is_wf());
    let mut d = doc();
    d.terms[0].1.reverse();
    assert!(!d.is_wf());
    let mut dup = doc();
    dup.terms.push(("tags".to_string(), Vec::new()));
    assert!(!dup.is_wf());
}
