use italic::atproto::covers::Covers;
use italic::atproto::document::BlobRef;
use italic::doc::{DateTime, Doc, Yaml};

fn doc(image: Option<&str>) -> Doc {
    Doc {
        id_path: "posts/a.md".to_string(),
        output_path: String::new(),
        title: String::new(),
        summary: String::new(),
        content: String::new(),
        markdown: None,
        terms: Vec::new(),
        date: DateTime { secs: 0, nanos: 0 },
        updated: DateTime { secs: 0, nanos: 0 },
        data: image.map(|i| vec![("image".to_string(), Yaml::Str(i.to_string()))]).unwrap_or_default(),
        draft: false,
    }
}

fn covers(site_image: Option<&str>) -> Covers {
    Covers::new(site_image.map(|s| s.to_string()), vec!["static".to_string(), "themes/t/static".to_string()])
}

#[test]
fn external_urls_warn_once_per_value() {
    let mut c = covers(None);
    let (path, warning) = c.resolve(&doc(Some("https://cdn.example/a.png")), &vec![false, false]);
    assert_eq!(path, None);
    assert_eq!(
        warning.as_deref(),
        Some("warning: cannot upload external image URL as coverImage for posts/a.md: https://cdn.example/a.png — skipping")
    );
    let (_, again) = c.resolve(&doc(Some("https://cdn.example/a.png")), &vec![false, false]);
    assert_eq!(again, None);
}

#[test]
fn missing_files_warn_once_and_name_their_source() {
    let mut c = covers(Some("/img/default.png"));
    let (path, warning) = c.resolve(&doc(None), &vec![false, false]);
    assert_eq!(path, None);
    assert_eq!(
        warning.as_deref(),
        Some("warning: site.image image /img/default.png not found under any static root — skipping coverImage")
    );
    assert_eq!(c.resolve(&doc(None), &vec![false, false]).1, None);
    assert!(c.warn_once("another"));
    assert!(!c.warn_once("another"));
}

#[test]
fn resolved_cover_takes_the_first_root_holding_it() {
    let mut c = covers(None);
    let (path, warning) = c.resolve(&doc(Some("/img/a.png")), &vec![false, true]);
    assert_eq!(path.as_deref(), Some("themes/t/static/img/a.png"));
    assert_eq!(warning, None);
    let (path, _) = c.resolve(&doc(None), &vec![true, true]);
    assert_eq!(path, None);
}

#[test]
fn derived_blobs_are_cached_by_path() {
    let mut c = covers(None);
    assert!(c.derived_for("static/a.png").is_none());
    let b = match c.derive("static/a.png".to_string(), b"png bytes") {
        Ok(b) => b,
        Err(_) => panic!("derive"),
    };
    assert_eq!(b.size, 9);
    assert_eq!(b.mime_type, "*/*");
    let cached = c.derived_for("static/a.png").unwrap();
    assert_eq!((cached.link.as_str(), cached.size), (b.link.as_str(), b.size));
    assert!(c.derived_for("static/b.png").is_none());
}

#[test]
fn an_upload_naming_other_bytes_is_reported() {
    let mut c = covers(None);
    let b = match c.derive("p.png".to_string(), b"png bytes") {
        Ok(b) => b,
        Err(_) => panic!("derive"),
    };
    let same = BlobRef { link: b.link.clone(), mime_type: "image/png".to_string(), size: b.size };
    assert!(!c.record_upload("p.png".to_string(), same));
    assert_eq!(c.uploaded_for("p.png").unwrap().mime_type, "image/png");
    let other = BlobRef { link: "bafkother".to_string(), mime_type: "image/png".to_string(), size: b.size };
    assert!(c.record_upload("p.png".to_string(), other));
    assert_eq!(c.uploaded_for("p.png").unwrap().link, "bafkother");
    let never_derived = BlobRef { link: "x".to_string(), mime_type: "y".to_string(), size: 1 };
    assert!(!c.record_upload("q.png".to_string(), never_derived));
}
