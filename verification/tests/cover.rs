use italic::atproto::cover::{candidate_paths, cover_candidates, resolve, Cover};
use italic::doc::{DateTime, Doc, Yaml};

fn doc_with(fields: &[(&str, &str)]) -> Doc {
    Doc {
        id_path: "a.md".to_string(),
        output_path: String::new(),
        title: String::new(),
        summary: String::new(),
        content: String::new(),
        markdown: None,
        terms: Vec::new(),
        date: DateTime { secs: 0, nanos: 0 },
        updated: DateTime { secs: 0, nanos: 0 },
        data: fields.iter().map(|(k, v)| (k.to_string(), Yaml::Str(v.to_string()))).collect(),
        draft: false,
    }
}

fn roots(r: &[&str]) -> Vec<String> {
    r.iter().map(|s| s.to_string()).collect()
}

#[test]
fn image_resolves_in_static_root() {
    let doc = doc_with(&[("image", "/img/i.png")]);
    let roots = roots(&["dir/static"]);
    assert_eq!(candidate_paths("/img/i.png", &roots), vec!["dir/static/img/i.png".to_string()]);
    assert_eq!(
        resolve(&doc, None, &roots, &vec![true]),
        Cover::Resolved("dir/static/img/i.png".to_string(), "image: frontmatter")
    );
}

#[test]
fn site_root_shadows_theme_root() {
    let doc = doc_with(&[("image", "/img/i.png")]);
    let roots = roots(&["dir/static", "dir/theme/static"]);
    assert_eq!(
        resolve(&doc, None, &roots, &vec![true, true]),
        Cover::Resolved("dir/static/img/i.png".to_string(), "image: frontmatter")
    );
}

#[test]
fn image_falls_through_to_theme_root() {
    let doc = doc_with(&[("image", "img/i.png")]);
    let roots = roots(&["dir/static", "dir/theme/static"]);
    assert_eq!(
        resolve(&doc, None, &roots, &vec![false, true]),
        Cover::Resolved("dir/theme/static/img/i.png".to_string(), "image: frontmatter")
    );
}

#[test]
fn missing_image_does_not_cascade_to_site_image() {
    let doc = doc_with(&[("image", "/img/nope.png")]);
    let roots = roots(&["dir/static"]);
    assert_eq!(
        resolve(&doc, Some("/img/default.png"), &roots, &vec![false]),
        Cover::Missing("/img/nope.png".into(), "image: frontmatter")
    );
}

#[test]
fn site_image_is_the_fallback() {
    let doc = doc_with(&[]);
    let roots = roots(&["dir/static"]);
    assert_eq!(candidate_paths("/img/default.png", &roots), vec!["dir/static/img/default.png".to_string()]);
    assert_eq!(
        resolve(&doc, Some("/img/default.png"), &roots, &vec![true]),
        Cover::Resolved("dir/static/img/default.png".to_string(), "site.image")
    );
}

#[test]
fn external_image_field_is_skipped() {
    let doc = doc_with(&[("image", "//cdn.example/i.png")]);
    assert_eq!(resolve(&doc, None, &Vec::new(), &Vec::new()), Cover::External("//cdn.example/i.png".into()));
}

#[test]
fn empty_fields_are_ignored() {
    let doc = doc_with(&[("image", "")]);
    assert_eq!(resolve(&doc, Some("   "), &Vec::new(), &Vec::new()), Cover::Absent);
    assert_eq!(resolve(&doc, None, &Vec::new(), &Vec::new()), Cover::Absent);
}

#[test]
fn cover_candidates_follow_the_selected_field() {
    let roots = vec!["static".to_string(), "themes/t/static".to_string()];
    let d = doc_with(&[("image", "/img/a.png")]);
    assert_eq!(cover_candidates(&d, Some("/img/site.png"), &roots), vec!["static/img/a.png", "themes/t/static/img/a.png"]);
    let plain = doc_with(&[]);
    assert_eq!(cover_candidates(&plain, Some(" /img/site.png "), &roots), vec!["static/img/site.png", "themes/t/static/img/site.png"]);
    assert!(cover_candidates(&plain, Some("   "), &roots).is_empty());
    assert!(cover_candidates(&plain, None, &roots).is_empty());
    let ext = doc_with(&[("image", "https://cdn.example/a.png")]);
    assert!(cover_candidates(&ext, None, &roots).is_empty());
}
