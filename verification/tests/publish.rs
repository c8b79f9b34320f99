use italic::publish::atproto::{Credentials, LoadError};
use italic::atproto::document::document_rkey;
use italic::publish::pubstatus::{classify, plan_checks, publication_status, report, Options, Status, Tally};
use italic::publish::rkey_from_uri;
use italic::publish::state::{DocRecords, RecordRef, State};

#[test]
fn publish_rkey_from_uri_takes_last_segment() {
    assert_eq!(rkey_from_uri("at://did:plc:abc/site.standard.document/3lwa"), "3lwa");
}

#[test]
fn classify_distinguishes_ok_changed_missing() {
    assert_eq!(classify("bafy", None), Status::Missing);
    assert_eq!(classify("bafy", Some("bafy")), Status::Matches);
    assert_eq!(classify("bafy", Some("bafz")), Status::Changed);
}

#[test]
fn tally_counts_each_status() {
    let mut t = Tally::default();
    t.add(Status::Matches);
    t.add(Status::Matches);
    t.add(Status::Changed);
    t.add(Status::Missing);
    assert_eq!((t.ok, t.changed, t.missing), (2, 1, 1));
    assert_eq!(t.summary(), "2 ok, 1 missing, 1 changed");
    assert_eq!(t.verdict().err().unwrap(), "verification failed: 1 missing, 1 changed");
}

#[test]
fn clean_tally_passes() {
    let mut t = Tally::default();
    t.add(Status::Matches);
    assert!(t.verdict().is_ok());
}

#[test]
fn publication_without_recorded_cid_checks_existence() {
    assert_eq!(publication_status(None, Some("x")), Status::Matches);
    assert_eq!(publication_status(None, None), Status::Missing);
    assert_eq!(publication_status(Some("a"), Some("b")), Status::Changed);
}

fn rec(rkey: &str, cid: &str) -> RecordRef {
    RecordRef { rkey: rkey.into(), cid: cid.into(), uri: String::new() }
}

#[test]
fn checks_cover_publication_then_docs_in_order() {
    let mut s = State::default();
    s.publication_uri = Some("at://did:plc:abc/site.standard.publication/self".into());
    s.doc_mut("posts/a.md").document = Some(rec("a", "c1"));
    s.doc_mut("posts/a.md").bsky = Some(rec("3lwa", "c2"));
    s.doc_mut("posts/b.md").document = Some(rec("b", "c3"));
    let checks = plan_checks(&s, Options::default());
    assert_eq!(checks.len(), 4);
    assert_eq!(checks[0].kind, "publication");
    assert_eq!(checks[0].rkey, "self");
    assert!(checks[0].cid.is_none());
    assert_eq!(checks[1].id_path.as_deref(), Some("posts/a.md"));
    assert_eq!(checks[1].kind, "document");
    assert_eq!(checks[2].kind, "bsky");
    assert_eq!(checks[2].nsid, "app.bsky.feed.post");
    assert_eq!(checks[3].rkey, "b");
    let docs_only = plan_checks(&s, Options { documents: true, bluesky: false });
    assert_eq!(docs_only.len(), 3);
    assert_eq!(report(&checks[1], Status::Matches), "  ok      document posts/a.md");
    assert_eq!(report(&checks[2], Status::Missing), "  MISSING bsky     posts/a.md (rkey=3lwa)");
    assert_eq!(report(&checks[0], Status::Changed), "  CHANGED publication");
}

#[test]
fn doc_mut_inserts_then_reuses() {
    let mut s = State::default();
    s.doc_mut("a.md").document = Some(RecordRef::default());
    assert!(s.doc("a.md").unwrap().document.is_some());
    s.doc_mut("a.md").bsky = Some(RecordRef::default());
    let d = s.doc("a.md").unwrap();
    assert!(d.document.is_some() && d.bsky.is_some());
    assert_eq!(s.records.len(), 1);
}

#[test]
fn doc_lookup_uses_forward_slashes() {
    let mut s = State::default();
    s.doc_mut("posts\\hello.md").document = Some(rec("hello", "bafyrei"));
    let d: &DocRecords = s.doc("posts/hello.md").unwrap();
    assert_eq!(d.document.as_ref().map(|r| r.rkey.as_str()), Some("hello"));
}

fn plain_doc(id: &str, out: &str) -> italic::doc::Doc {
    italic::doc::Doc {
        id_path: id.to_string(),
        output_path: out.to_string(),
        title: String::new(),
        summary: String::new(),
        content: String::new(),
        markdown: None,
        terms: Vec::new(),
        date: italic::doc::DateTime { secs: 0, nanos: 0 },
        updated: italic::doc::DateTime { secs: 0, nanos: 0 },
        data: Vec::new(),
        draft: false,
    }
}

#[test]
fn dry_run_lists_create_and_update_with_rkeys() {
    let mut state = State::default();
    state.doc_mut("a.md").document = Some(rec("r", "c"));
    let docs = vec![plain_doc("a.md", "a/index.html"), plain_doc("b.md", "b.html")];
    let lines = italic::publish::dry_run(Some("https://e.com"), "", "all", &docs, &state);
    assert_eq!(lines[0], "publish --dry-run (no network calls)");
    assert_eq!(lines[1], "  publication: (not yet bootstrapped — would be created)");
    assert_eq!(lines[2], "  documents (all):");
    assert_eq!(lines[3], format!("    update a.md (rkey={})", document_rkey("https://e.com/a/")));
    assert_eq!(lines[4], format!("    create b.md (rkey={})", document_rkey("https://e.com/b.html")));
    assert_eq!(lines.len(), 5);
    state.publication_uri = Some("at://did:plc:x/site.standard.publication/p".into());
    let lines = italic::publish::dry_run(None, "/base", "posts", &Vec::new(), &state);
    assert_eq!(lines, vec![
        "publish --dry-run (no network calls)".to_string(),
        "  publication: at://did:plc:x/site.standard.publication/p".to_string(),
        "  documents (posts):".to_string(),
    ]);
}

fn publish_config() -> italic::publish::config::Publish {
    italic::publish::config::Publish {
        pds_host: "https://bsky.social".into(),
        handle: Some("config.handle".into()),
        collection: "all".into(),
        verification: true,
        publication: italic::publish::config::Publication::default(),
    }
}

#[test]
fn publish_credentials_resolve_from_env_then_config() {
    let err = Credentials::load(&publish_config(), None, None, None).err().unwrap();
    assert!(err.message().contains("app password"));
    let c = Credentials::load(&publish_config(), None, None, Some("pw".into())).ok().unwrap();
    assert_eq!(c.handle, "config.handle");
    assert_eq!(c.app_password, "pw");
    assert_eq!(c.pds_host, "https://bsky.social");
    let c = Credentials::load(&publish_config(), Some("https://pds.example".into()), Some("env.handle".into()), Some("pw".into()))
        .ok()
        .unwrap();
    assert_eq!(c.handle, "env.handle");
    assert_eq!(c.pds_host, "https://pds.example");
    let mut no_handle = publish_config();
    no_handle.handle = None;
    let err = Credentials::load(&no_handle, Some(String::new()), Some(String::new()), Some("pw".into())).err().unwrap();
    assert!(matches!(err, LoadError::NoHandle));
    assert_eq!(err.message(), "no handle configured — set ITALIC_ATPROTO_HANDLE or `publish.handle` in config.yaml");
}
