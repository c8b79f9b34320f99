use italic::doc::{DateTime, Doc};
use italic::index::Index;
use italic::tera_env::text::reading_time;
use italic::tera_env::url::{
    absolute_url, link_filter, lookup_doc_url, lookup_from_index, lookup_from_metas,
    permalink_filter, relative_url,
};

fn doc(id: &str, out: &str) -> Doc {
    Doc {
        id_path: id.to_string(),
        output_path: out.to_string(),
        title: String::new(),
        summary: String::new(),
        content: String::new(),
        markdown: None,
        terms: Vec::new(),
        date: DateTime { secs: 0, nanos: 0 },
        updated: DateTime { secs: 0, nanos: 0 },
        data: Vec::new(),
        draft: false,
    }
}

#[test]
fn reading_time_is_at_least_one_minute() {
    assert_eq!(reading_time(""), "1 min read");
    assert_eq!(reading_time("Short."), "1 min read");
}

#[test]
fn reading_time_strips_tags_before_counting() {
    let text = format!("{}{}{}", "<p>".repeat(300), "a".repeat(500), "</p>".repeat(300));
    assert!(text.len() > 1000);
    assert_eq!(reading_time(&text), "1 min read");
}

#[test]
fn reading_time_rounds_up() {
    assert_eq!(reading_time(&"a".repeat(1000)), "1 min read");
    assert_eq!(reading_time(&"a".repeat(1001)), "2 min read");
    assert_eq!(reading_time(&"a".repeat(3500)), "4 min read");
}

#[test]
fn lookups_find_the_first_doc_with_the_id() {
    let docs = vec![
        doc("blog/a.md", "blog/a/index.html"),
        doc("b.md", "b.html"),
        doc("blog/a.md", "other.html"),
    ];
    assert_eq!(lookup_from_metas(&docs, "blog/a.md").as_deref(), Some("/blog/a/"));
    assert_eq!(lookup_from_metas(&docs, "b.md").as_deref(), Some("/b.html"));
    assert_eq!(lookup_from_metas(&docs, "c.md"), None);
    let mut index = Index::new();
    index.insert(doc("index.md", "index.html"));
    assert_eq!(lookup_from_index(&index, "index.md").as_deref(), Some("/"));
    assert_eq!(lookup_from_index(&index, "nope.md"), None);
}

#[test]
fn missing_doc_names_the_filter_and_id() {
    assert_eq!(
        lookup_doc_url(None, "x.md", "link"),
        Err("link filter: no doc with id_path `x.md`".to_string())
    );
    assert_eq!(
        permalink_filter(None, Some("https://e.com"), "/b", "y.md"),
        Err("permalink filter: no doc with id_path `y.md`".to_string())
    );
}

#[test]
fn permalink_and_link_compose_site_base_and_url() {
    let u = Some("/posts/p/".to_string());
    assert_eq!(
        permalink_filter(u.clone(), Some("https://e.com"), "/base", "p.md"),
        Ok("https://e.com/base/posts/p/".to_string())
    );
    assert_eq!(permalink_filter(u.clone(), None, "/base", "p.md"), Ok("/base/posts/p/".to_string()));
    assert_eq!(link_filter(u, "", "p.md"), Ok("/posts/p/".to_string()));
}

#[test]
fn relative_and_absolute_urls_strip_leading_slashes() {
    assert_eq!(relative_url("/base", "//css/site.css"), "/base/css/site.css");
    assert_eq!(relative_url("", "feed.xml"), "/feed.xml");
    assert_eq!(absolute_url(Some("https://e.com"), "", "/a.png"), "https://e.com/a.png");
    assert_eq!(absolute_url(None, "/b", "a.png"), "/b/a.png");
}

#[test]
fn lookup_compares_paths_by_component() {
    let docs = vec![doc("blog/a.md", "blog/a/index.html")];
    assert_eq!(lookup_from_metas(&docs, "blog//a.md").as_deref(), Some("/blog/a/"));
    assert_eq!(lookup_from_metas(&docs, "blog/./a.md").as_deref(), Some("/blog/a/"));
    assert_eq!(lookup_from_metas(&docs, "./blog/a.md"), None);
    assert_eq!(lookup_from_metas(&docs, "/blog/a.md"), None);
}
