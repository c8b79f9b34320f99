use italic::atproto::compare::{canonical, equal, json_eq, json_is_wf, Json};
use italic::atproto::document::{blob_cid, derived_blob_ref};
use italic::atproto::status::{classify, publication_state, status_output, Expected, PubState, RemoteDoc, Report};

fn to_json(v: &serde_json::Value) -> Json {
    match v {
        serde_json::Value::Null => Json::Null,
        serde_json::Value::Bool(b) => Json::Bool(*b),
        serde_json::Value::Number(n) => Json::Number(n.to_string()),
        serde_json::Value::String(s) => Json::Str(s.clone()),
        serde_json::Value::Array(a) => Json::Array(a.iter().map(to_json).collect()),
        serde_json::Value::Object(m) => Json::Object(m.iter().map(|(k, v)| (k.clone(), to_json(v))).collect()),
    }
}

fn j(text: &str) -> Json {
    to_json(&serde_json::from_str::<serde_json::Value>(text).unwrap())
}

#[test]
fn blob_mimetype_difference_is_ignored() {
    let local = j(r#"{"$type": "site.standard.document", "title": "Hi",
        "coverImage": {"$type": "blob", "ref": {"$link": "bafkabc"}, "mimeType": "*/*", "size": 11}}"#);
    let remote = j(r#"{"$type": "site.standard.document", "title": "Hi",
        "coverImage": {"$type": "blob", "ref": {"$link": "bafkabc"}, "mimeType": "image/png", "size": 11}}"#);
    assert!(equal(&local, &remote));
}

#[test]
fn blob_link_and_size_differences_are_detected() {
    let a = j(r#"{"coverImage": {"$type": "blob", "ref": {"$link": "bafkabc"}, "size": 11}}"#);
    let b = j(r#"{"coverImage": {"$type": "blob", "ref": {"$link": "bafkxyz"}, "size": 11}}"#);
    let c = j(r#"{"coverImage": {"$type": "blob", "ref": {"$link": "bafkabc"}, "size": 12}}"#);
    assert!(!equal(&a, &b));
    assert!(!equal(&a, &c));
    assert!(equal(&a, &a));
}

#[test]
fn mimetype_outside_blob_nodes_is_compared() {
    let a = j(r#"{"mimeType": "text/html"}"#);
    let b = j(r#"{"mimeType": "text/plain"}"#);
    assert!(!equal(&a, &b));
}

#[test]
fn absent_vs_present_field_is_unequal() {
    let without = j(r#"{"$type": "site.standard.document", "title": "Hi"}"#);
    let with = j(r#"{"$type": "site.standard.document", "title": "Hi",
        "coverImage": {"$type": "blob", "ref": {"$link": "bafkabc"}, "size": 11}}"#);
    assert!(!equal(&without, &with));
}

#[test]
fn canonical_drops_mimetype_only_from_blobs_at_any_depth() {
    let v = j(r#"[{"a": {"$type": "blob", "mimeType": "x", "size": 1}}, {"mimeType": "kept"}]"#);
    let expected = j(r#"[{"a": {"$type": "blob", "size": 1}}, {"mimeType": "kept"}]"#);
    assert!(json_eq(&canonical(&v), &expected));
    assert!(!json_eq(&v, &expected));
}

#[test]
fn numbers_compare_by_their_text() {
    assert!(equal(&j("[1, 2.5]"), &j("[1, 2.5]")));
    assert!(!equal(&j("[1]"), &j("[1.0]")));
    assert!(!equal(&j("null"), &j("false")));
}

const OURS: &str = "at://did:plc:abc/site.standard.publication/self";

fn expected(rkey: &str, title: &str) -> Expected {
    Expected { rkey: rkey.to_string(), record: matching_value(title) }
}

fn matching_raw(title: &str) -> serde_json::Value {
    let mut m = serde_json::Map::new();
    m.insert("$type".into(), serde_json::Value::String("site.standard.document".into()));
    m.insert("site".into(), serde_json::Value::String(OURS.into()));
    m.insert("title".into(), serde_json::Value::String(title.into()));
    m.insert("publishedAt".into(), serde_json::Value::String("2024-01-01T00:00:00.000Z".into()));
    serde_json::Value::Object(m)
}

fn matching_value(title: &str) -> Json {
    to_json(&matching_raw(title))
}

fn remote(rkey: &str, site: Option<&str>, value: Json) -> RemoteDoc {
    let value = match (site, value) {
        (Some(site), Json::Object(mut m)) => {
            m.retain(|(k, _)| k != "site");
            m.push(("site".to_string(), Json::Str(site.to_string())));
            Json::Object(m)
        }
        (_, v) => v,
    };
    RemoteDoc { rkey: rkey.to_string(), uri: format!("at://did:plc:abc/site.standard.document/{rkey}"), value }
}

#[test]
fn classify_partitions_published_changed_missing_orphaned() {
    let expected = vec![
        ("a.md".to_string(), expected("r1", "A")),
        ("b.md".to_string(), expected("r2", "B")),
        ("c.md".to_string(), expected("r3", "C")),
    ];
    let listed = vec![
        remote("r1", None, matching_value("A")),
        remote("r2", None, matching_value("B edited")),
        remote("r4", Some(OURS), j(r#"{"title": "old"}"#)),
        remote("r5", Some("at://did:plc:other/site.standard.publication/x"), j("{}")),
        remote("r6", None, j("{}")),
    ];
    let report = classify(&expected, &listed, OURS);
    assert_eq!(report.published, vec!["a.md"]);
    assert_eq!(report.changed, vec![("b.md".to_string(), "r2".to_string())]);
    assert_eq!(report.missing, vec![("c.md".to_string(), "r3".to_string())]);
    assert_eq!(report.orphaned, vec!["at://did:plc:abc/site.standard.document/r4"]);
}

#[test]
fn classify_ignores_blob_mimetype_drift() {
    let blob = match derived_blob_ref(b"png bytes") {
        Ok(b) => b,
        Err(_) => panic!("cid"),
    };
    let cover = |mime: &str, link: &str, size: usize| -> serde_json::Value {
        serde_json::from_str(&format!(
            r#"{{"$type": "blob", "ref": {{"$link": "{link}"}}, "mimeType": "{mime}", "size": {size}}}"#
        ))
        .unwrap()
    };
    let mut local_raw = matching_raw("A");
    local_raw.as_object_mut().unwrap().insert("coverImage".into(), cover(&blob.mime_type, &blob.link, blob.size));
    let mut remote_raw = matching_raw("A");
    remote_raw.as_object_mut().unwrap().insert("coverImage".into(), cover("image/png", &blob_cid(b"png bytes"), 9));
    let local = to_json(&local_raw);
    let remote_value = to_json(&remote_raw);
    let expected = vec![("a.md".to_string(), Expected { rkey: "r1".to_string(), record: local })];
    let listed = vec![remote("r1", None, remote_value)];
    let report = classify(&expected, &listed, "at://irrelevant");
    assert_eq!(report.published, vec!["a.md"]);
    assert!(report.changed.is_empty());
}

#[test]
fn remote_doc_site_accessor() {
    let with = remote("r1", Some("at://did:plc:abc/pub/x"), j("{}"));
    assert_eq!(with.site().as_deref(), Some("at://did:plc:abc/pub/x"));
    let without = remote("r1", None, j("{}"));
    assert_eq!(without.site(), None);
    let non_string = remote("r1", None, j(r#"{"site": 42}"#));
    assert_eq!(non_string.site(), None);
}

#[test]
fn publication_state_matches_by_rkey_then_content() {
    let expected = j(r#"{"name": "Garden"}"#);
    let listed = vec![remote("other", None, j(r#"{"name": "X"}"#)), remote("self", None, j(r#"{"name": "Garden"}"#))];
    assert_eq!(publication_state(&expected, &listed, "self"), PubState::Published);
    assert_eq!(publication_state(&j(r#"{"name": "New"}"#), &listed, "self"), PubState::Changed);
    assert_eq!(publication_state(&expected, &listed, "missing"), PubState::Missing);
}

#[test]
fn status_output_lists_every_record_and_fails_when_out_of_sync() {
    let report = Report {
        published: vec!["a.md".to_string()],
        changed: vec![("b.md".to_string(), "r2".to_string())],
        missing: vec![("c.md".to_string(), "r3".to_string())],
        orphaned: vec!["at://x/site.standard.document/r4".to_string()],
    };
    let o = status_output("at://p", PubState::Published, &report);
    assert_eq!(
        o.lines,
        vec![
            "  ok       publication at://p",
            "  ok       a.md",
            "  CHANGED  b.md (rkey=r2) — local content differs from the PDS",
            "  MISSING  c.md (rkey=r3)",
            "  ORPHANED at://x/site.standard.document/r4 (no matching local doc — deleted or renamed?)",
            "1 published, 1 changed, 1 missing, 1 orphaned",
        ]
    );
    assert!(o.note.unwrap().starts_with("note: orphaned records can be removed"));
    assert_eq!(o.error.as_deref(), Some("2 record(s) missing or changed — run `italic atproto publish`"));

    let clean = Report { published: vec!["a.md".to_string()], changed: vec![], missing: vec![], orphaned: vec![] };
    let o = status_output("at://p", PubState::Published, &clean);
    assert_eq!(o.note, None);
    assert_eq!(o.error, None);
    let o = status_output("at://p", PubState::Missing, &clean);
    assert_eq!(o.lines[0], "  MISSING  publication at://p");
    assert_eq!(o.error.as_deref(), Some("1 record(s) missing or changed — run `italic atproto publish`"));
}

#[test]
fn parsed_json_keeps_keys_in_order() {
    assert!(json_is_wf(&j(r#"{"b":1,"a":{"z":[{"y":1,"x":2}],"c":null}}"#)));
    let unordered = Json::Object(vec![("b".to_string(), Json::Null), ("a".to_string(), Json::Null)]);
    assert!(!json_is_wf(&unordered));
    let nested = Json::Array(vec![Json::Object(vec![
        ("k".to_string(), Json::Null),
        ("k".to_string(), Json::Null),
    ])]);
    assert!(!json_is_wf(&nested));
}
