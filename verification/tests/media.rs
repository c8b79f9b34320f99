use italic::build::markup::media::{
    asset_url, is_external, is_image, render_anchor, render_embed, render_embeds, resolve_by_name,
    resolve_relative, split_suffix, wikilink_anchor, AssetIndex,
};
use italic::doc::{DateTime, Doc};
use italic::paths::normalize;

fn source_doc(id_path: &str) -> Doc {
    Doc {
        id_path: id_path.to_string(),
        output_path: String::new(),
        title: String::new(),
        summary: String::new(),
        content: String::new(),
        markdown: None,
        terms: Vec::new(),
        date: DateTime { secs: 0, nanos: 0 },
        updated: DateTime { secs: 0, nanos: 0 },
        data: Vec::new(),
        draft: false,
    }
}

fn assets(paths: &[&str]) -> AssetIndex {
    AssetIndex::build(&paths.iter().map(|p| p.to_string()).collect())
}

#[test]
fn resolve_by_name_prefers_nearest_then_lexical() {
    let index = assets(&["reference/x.png", "blog/x.png"]);
    let hit = resolve_by_name("x.png", "blog/2025/post.md", &index).unwrap();
    assert_eq!(hit, "blog/x.png");
}

#[test]
fn resolve_by_name_honors_dir_prefix() {
    let index = assets(&["img/x.png", "other/x.png"]);
    let hit = resolve_by_name("img/x.png", "a.md", &index).unwrap();
    assert_eq!(hit, "img/x.png");
}

#[test]
fn resolve_by_name_breaks_ties_lexically() {
    let index = assets(&["b/x.png", "a/x.png"]);
    assert_eq!(resolve_by_name("x.png", "c/post.md", &index).unwrap(), "a/x.png");
    assert!(resolve_by_name("missing.png", "c/post.md", &index).is_none());
}

#[test]
fn is_external_classifies_schemes_and_protocol_relative() {
    assert!(is_external("https://x/y.png"));
    assert!(is_external("mailto:a@b.com"));
    assert!(is_external("//cdn/x.png"));
    assert!(!is_external("img/x.png"));
    assert!(!is_external("x.png"));
    assert!(!is_external("a/b:c"));
}

#[test]
fn split_suffix_keeps_fragment_and_query() {
    assert_eq!(split_suffix("report.pdf#page=2"), ("report.pdf".to_string(), "#page=2".to_string()));
    assert_eq!(split_suffix("a.png?v=1#x"), ("a.png".to_string(), "?v=1#x".to_string()));
    assert_eq!(split_suffix("a.png"), ("a.png".to_string(), String::new()));
}

#[test]
fn normalize_resolves_dots() {
    assert_eq!(normalize("blog/2025/../img/x.png"), Some("blog/img/x.png".to_string()));
    assert_eq!(normalize("./a//b"), Some("a/b".to_string()));
    assert_eq!(normalize("../x"), None);
    assert_eq!(normalize("/abs"), None);
}

#[test]
fn images_by_extension() {
    assert!(is_image("blog/diagram.PNG"));
    assert!(is_image("x.jpeg"));
    assert!(!is_image("report.pdf"));
    assert!(!is_image(".png"));
}

#[test]
fn asset_urls_are_root_relative() {
    assert_eq!(asset_url("blog/image.png", ""), "/blog/image.png");
    assert_eq!(asset_url("blog/image.png", "/garden/"), "/garden/blog/image.png");
}

#[test]
fn rewrites_co_located_markdown_image() {
    let index = assets(&["blog/image.png"]);
    let out = resolve_relative("image.png", &source_doc("blog/post.md"), &index, "");
    assert_eq!(out.as_deref(), Some("/blog/image.png"));
}

#[test]
fn normalizes_parent_dir_in_relative_ref() {
    let index = assets(&["blog/img/x.png"]);
    let out = resolve_relative("../img/x.png", &source_doc("blog/2025/post.md"), &index, "");
    assert_eq!(out.as_deref(), Some("/blog/img/x.png"));
}

#[test]
fn base_path_is_prepended() {
    let index = assets(&["blog/image.png"]);
    let out = resolve_relative("image.png", &source_doc("blog/post.md"), &index, "/garden");
    assert_eq!(out.as_deref(), Some("/garden/blog/image.png"));
}

#[test]
fn external_url_left_untouched() {
    let index = assets(&["x.png"]);
    assert!(resolve_relative("https://example.com/x.png", &source_doc("a.md"), &index, "").is_none());
}

#[test]
fn root_absolute_url_left_untouched() {
    let index = assets(&["blog/image.png"]);
    assert!(resolve_relative("/image.png", &source_doc("blog/post.md"), &index, "").is_none());
}

#[test]
fn unresolved_relative_ref_left_untouched() {
    let index = assets(&["other.png"]);
    assert!(resolve_relative("logo.png", &source_doc("a.md"), &index, "").is_none());
}

#[test]
fn fragment_suffix_preserved() {
    let index = assets(&["report.pdf"]);
    let out = resolve_relative("report.pdf#page=2", &source_doc("a.md"), &index, "");
    assert_eq!(out.as_deref(), Some("/report.pdf#page=2"));
}

#[test]
fn obsidian_embed_image_becomes_img() {
    let index = assets(&["blog/diagram.png"]);
    let out = render_embeds("![[diagram.png]]", &source_doc("blog/post.md"), &index, "").unwrap();
    assert_eq!(out, r#"<img class="embed" src="/blog/diagram.png" alt="diagram.png">"#);
}

#[test]
fn obsidian_embed_uses_alias_as_alt() {
    let index = assets(&["blog/diagram.png"]);
    let out = render_embeds("![[diagram.png|A diagram]]", &source_doc("blog/post.md"), &index, "").unwrap();
    assert!(out.contains(r#"alt="A diagram""#), "got: {out}");
}

#[test]
fn obsidian_embed_non_image_becomes_link() {
    let index = assets(&["notes/report.pdf"]);
    let out = render_embeds("![[report.pdf]]", &source_doc("notes/n.md"), &index, "").unwrap();
    assert_eq!(out, r#"<a class="embed" href="/notes/report.pdf">report.pdf</a>"#);
}

#[test]
fn embed_preserves_surrounding_text() {
    let index = assets(&["x.png"]);
    let out = render_embeds("before ![[x.png]] after <b>", &source_doc("a.md"), &index, "").unwrap();
    assert_eq!(out, r#"before <img class="embed" src="/x.png" alt="x.png"> after &lt;b&gt;"#);
}

#[test]
fn unresolved_embed_kept_literal() {
    let index = assets(&["other.png"]);
    assert!(render_embeds("![[missing.png]]", &source_doc("a.md"), &index, "").is_none());
    let out = render_embeds("![[missing.png]] ![[other.png]]", &source_doc("a.md"), &index, "").unwrap();
    assert!(out.starts_with("![[missing.png]] <img"), "got: {out}");
}

#[test]
fn attachment_wikilink_becomes_link() {
    let index = assets(&["notes/report.pdf"]);
    let id = resolve_by_name("report.pdf", "notes/n.md", &index).unwrap();
    let url = asset_url(&id, "");
    assert_eq!(render_anchor(&url, "report.pdf", "wikilink"), r#"<a class="wikilink" href="/notes/report.pdf">report.pdf</a>"#);
}

#[test]
fn render_embed_picks_img_or_link() {
    assert_eq!(render_embed("a/b.svg", "B", "/g"), r#"<img class="embed" src="/g/a/b.svg" alt="B">"#);
    assert_eq!(render_embed("a/b.zip", "B & C", ""), r#"<a class="embed" href="/a/b.zip">B &amp; C</a>"#);
}

#[test]
fn wikilink_label_falls_back_to_target() {
    assert_eq!(
        wikilink_anchor("notes/report.pdf", "report.pdf", "", "/g"),
        r#"<a class="wikilink" href="/g/notes/report.pdf">report.pdf</a>"#
    );
    assert_eq!(
        wikilink_anchor("notes/report.pdf", "report.pdf", "the report", ""),
        r#"<a class="wikilink" href="/notes/report.pdf">the report</a>"#
    );
}
