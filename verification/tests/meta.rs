use italic::doc::Yaml;
use italic::tera_env::meta::{
    join_lines, render_canonical, render_description, render_feed_links, render_json_ld,
    render_keywords, render_metadata, render_open_graph, render_standard_link, render_system_meta,
    render_twitter_card, MetaCfg, GENERATOR,
};

fn s(x: &str) -> Yaml {
    Yaml::Str(x.to_string())
}

fn map(pairs: Vec<(&str, Yaml)>) -> Yaml {
    Yaml::Mapping(pairs.into_iter().map(|(k, v)| (s(k), v)).collect())
}

fn cfg() -> MetaCfg {
    MetaCfg {
        site_url: Some("https://example.com".to_string()),
        base_path: String::new(),
        feed_names: vec!["all".to_string()],
    }
}

fn page_with(extra_data: Vec<(&str, Yaml)>) -> Yaml {
    let mut data = vec![("image", s("/img/cover.png")), ("image_alt", s("Cover")), ("author", s("Ada"))];
    data.extend(extra_data);
    map(vec![
        ("title", s("Hello & <World>")),
        ("summary", s("A \"short\" summary")),
        ("output_path", s("posts/hello/index.html")),
        ("draft", Yaml::Bool(false)),
        ("date", s("2026-06-29T00:00:00Z")),
        ("updated", s("2026-06-30T00:00:00Z")),
        ("terms", map(vec![("tags", map(vec![("rust", s("Rust")), ("ssg", s("SSG"))]))])),
        ("data", map(data)),
    ])
}

fn page() -> Yaml {
    page_with(Vec::new())
}

fn site() -> Yaml {
    map(vec![
        ("title", s("My Site")),
        ("description", s("Site desc")),
        ("author", s("Site Author")),
        ("twitter", s("@handle")),
        ("locale", s("en_GB")),
        ("image", s("/img/default.png")),
    ])
}

fn generator_tag() -> String {
    format!(r#"<meta name="generator" content="{}">"#, GENERATOR)
}

#[test]
fn description_falls_back_to_site() {
    assert_eq!(
        join_lines(&render_description(&page(), &site())),
        r#"<meta name="description" content="A &quot;short&quot; summary">"#
    );
    assert_eq!(
        join_lines(&render_description(&map(vec![]), &site())),
        r#"<meta name="description" content="Site desc">"#
    );
}

#[test]
fn keywords_from_tags() {
    assert_eq!(join_lines(&render_keywords(&page())), r#"<meta name="keywords" content="Rust, SSG">"#);
}

#[test]
fn keywords_from_data_list_when_no_tags() {
    let p = map(vec![("data", map(vec![("keywords", Yaml::List(vec![s("a"), Yaml::Number, s("b")]))]))]);
    assert_eq!(join_lines(&render_keywords(&p)), r#"<meta name="keywords" content="a, b">"#);
}

#[test]
fn canonical_is_absolute() {
    assert_eq!(
        join_lines(&render_canonical(&page(), &cfg())),
        r#"<link rel="canonical" href="https://example.com/posts/hello/">"#
    );
}

#[test]
fn open_graph_has_og_and_article_tags() {
    let out = join_lines(&render_open_graph(&page(), &site(), "article", &cfg()));
    assert!(out.contains(r#"<meta property="og:type" content="article">"#));
    assert!(out.contains(r#"<meta property="og:title" content="Hello &amp; &lt;World&gt;">"#));
    assert!(out.contains(r#"<meta property="og:url" content="https://example.com/posts/hello/">"#));
    assert!(out.contains(r#"<meta property="og:site_name" content="My Site">"#));
    assert!(out.contains(r#"<meta property="og:locale" content="en_GB">"#));
    assert!(out.contains(r#"<meta property="og:image" content="https://example.com/img/cover.png">"#));
    assert!(out.contains(r#"<meta property="og:image:alt" content="Cover">"#));
    assert!(out.contains(r#"<meta property="article:published_time" content="2026-06-29T00:00:00Z">"#));
    assert!(out.contains(r#"<meta property="article:modified_time" content="2026-06-30T00:00:00Z">"#));
    assert!(out.contains(r#"<meta property="article:author" content="Ada">"#));
    assert!(out.contains(r#"<meta property="article:tag" content="Rust">"#));
    assert!(out.contains(r#"<meta property="article:tag" content="SSG">"#));
}

#[test]
fn open_graph_website_type_omits_article_tags() {
    let out = join_lines(&render_open_graph(&page(), &site(), "website", &cfg()));
    assert!(out.contains(r#"<meta property="og:type" content="website">"#));
    assert!(!out.contains("article:"));
}

#[test]
fn twitter_card_large_with_image() {
    let out = join_lines(&render_twitter_card(&page(), &site(), &cfg()));
    assert!(out.contains(r#"<meta name="twitter:card" content="summary_large_image">"#));
    assert!(out.contains(r#"<meta name="twitter:site" content="@handle">"#));
    assert!(out.contains(r#"<meta name="twitter:creator" content="@handle">"#));
    assert!(out.contains(r#"<meta name="twitter:image" content="https://example.com/img/cover.png">"#));
}

#[test]
fn twitter_card_downgrades_without_image() {
    let no_image = map(vec![("title", s("T")), ("summary", s("S"))]);
    let out = join_lines(&render_twitter_card(&no_image, &map(vec![("title", s("Site"))]), &cfg()));
    assert!(out.contains(r#"<meta name="twitter:card" content="summary">"#));
    assert!(!out.contains("twitter:image"));
}

#[test]
fn root_relative_when_no_site_url() {
    let c = MetaCfg { site_url: None, base_path: String::new(), feed_names: vec![] };
    assert_eq!(join_lines(&render_canonical(&page(), &c)), r#"<link rel="canonical" href="/posts/hello/">"#);
}

#[test]
fn draft_emits_noindex() {
    let draft = map(vec![
        ("title", s("D")),
        ("summary", s("S")),
        ("output_path", s("d.html")),
        ("draft", Yaml::Bool(true)),
    ]);
    let out = render_metadata(&draft, &site(), "article", &cfg());
    assert!(out.contains(r#"<meta name="robots" content="noindex">"#));
    assert!(!render_metadata(&page(), &site(), "article", &cfg()).contains("noindex"));
}

fn page_with_atproto_uri() -> Yaml {
    page_with(vec![("atproto_uri", s("at://did:plc:abc/site.standard.document/xyz"))])
}

#[test]
fn standard_link_emits_proof_link() {
    assert_eq!(
        join_lines(&render_standard_link(&page_with_atproto_uri())),
        r#"<link rel="site.standard.document" href="at://did:plc:abc/site.standard.document/xyz">"#
    );
}

#[test]
fn standard_link_empty_when_absent() {
    assert_eq!(join_lines(&render_standard_link(&page())), "");
}

#[test]
fn metadata_umbrella_includes_standard_link_after_canonical() {
    let out = render_metadata(&page_with_atproto_uri(), &site(), "article", &cfg());
    let canonical = out.find(r#"rel="canonical""#).expect("canonical link");
    let standard = out.find(r#"rel="site.standard.document""#).expect("standard.site link");
    assert!(canonical < standard);
    assert!(!render_metadata(&page(), &site(), "article", &cfg()).contains("site.standard.document"));
}

#[test]
fn system_meta_has_generator_tag() {
    assert_eq!(join_lines(&render_system_meta()), generator_tag());
}

#[test]
fn metadata_umbrella_includes_generator() {
    assert!(render_metadata(&page(), &site(), "article", &cfg()).contains(&generator_tag()));
}

#[test]
fn metadata_umbrella_emits_no_title_tag() {
    assert!(!render_metadata(&page(), &site(), "article", &cfg()).contains("<title>"));
}

#[test]
fn json_ld_is_valid_json_and_script_safe() {
    let out = render_json_ld(&page(), &site(), "article", &cfg());
    let inner = out
        .strip_prefix(r#"<script type="application/ld+json">"#)
        .and_then(|s| s.strip_suffix("</script>"))
        .expect("script wrapper");
    assert!(!inner.contains("</script>"));
    let parsed: serde_json::Value = serde_json::from_str(inner).expect("valid JSON-LD");
    assert_eq!(parsed["@type"], serde_json::Value::from("BlogPosting"));
    assert_eq!(parsed["headline"], serde_json::Value::from("Hello & <World>"));
    assert_eq!(parsed["author"]["name"], serde_json::Value::from("Ada"));
}

#[test]
fn json_ld_matches_serde_json_object_text() {
    let out = render_json_ld(&page(), &site(), "website", &cfg());
    let mut obj = serde_json::Map::new();
    obj.insert("@context".into(), "https://schema.org".into());
    obj.insert("@type".into(), "WebSite".into());
    obj.insert("name".into(), "Hello & <World>".into());
    obj.insert("description".into(), "A \"short\" summary".into());
    obj.insert("url".into(), "https://example.com/".into());
    let expected = serde_json::Value::Object(obj).to_string().replace('<', "\\u003c");
    assert_eq!(out, format!("<script type=\"application/ld+json\">{}</script>", expected));
    assert_eq!(render_json_ld(&map(vec![]), &map(vec![]), "article", &cfg()), "");
}

#[test]
fn feed_links_one_per_configured_feed() {
    let c = MetaCfg {
        site_url: Some("https://example.com".to_string()),
        base_path: String::new(),
        feed_names: vec!["all".to_string(), "posts".to_string()],
    };
    let out = render_feed_links(&site(), &c);
    assert_eq!(out.matches("<link").count(), 2);
    assert!(out.contains(r#"title="My Site" href="https://example.com/feed/all.xml""#));
    assert!(out.contains(r#"title="My Site — posts" href="https://example.com/feed/posts.xml""#));
}

#[test]
fn feed_links_empty_when_no_feeds() {
    let c = MetaCfg { site_url: None, base_path: String::new(), feed_names: vec![] };
    assert_eq!(render_feed_links(&site(), &c), "");
}
