use italic::atproto::bsky::BskyTextError;
use italic::atproto::client::{env_did, CredentialError, Credentials};
use italic::atproto::config::{Atproto, BasicTheme, Bsky, Rgb};
use italic::atproto::cover::Cover;
use italic::atproto::document::{publication_rkey, publication_uri, THEME_BASIC_NSID};
use italic::atproto::state::{accept_loaded, PostRef, State};
use italic::atproto::{
    confirmed, dry_run, plan_bsky_posts, plan_bsky_posts_with_cutoff, publication_record,
    default_cutoff, publish_step, rkey_from_uri, sync_step, PendingPost, PublishError, PublishStep, SyncAction, SyncEvent, SyncTally,
};
use italic::doc::{DateTime, Doc, Yaml};

fn day_secs(day: i64) -> DateTime {
    DateTime { secs: day * 86_400 + 12 * 3_600, nanos: 0 }
}

fn blank(id_path: &str) -> Doc {
    Doc {
        id_path: id_path.to_string(),
        output_path: String::new(),
        title: String::new(),
        summary: String::new(),
        content: String::new(),
        markdown: None,
        terms: Vec::new(),
        date: DateTime { secs: 0, nanos: 0 },
        updated: DateTime { secs: 0, nanos: 0 },
        data: Vec::new(),
        draft: false,
    }
}

/// A doc with `bsky:` frontmatter text, dated at noon on `day`.
fn bsky_doc(id_path: &str, text: &str, day: i64) -> Doc {
    let mut d = blank(id_path);
    d.data.push(("bsky".to_string(), Yaml::Str(text.to_string())));
    d.date = day_secs(day);
    d
}

fn bsky(enabled: bool, since: Option<i64>) -> Bsky {
    Bsky { enabled, since }
}

fn site(pairs: &[(&str, &str)]) -> Vec<(String, Yaml)> {
    pairs.iter().map(|(k, v)| (k.to_string(), Yaml::Str(v.to_string()))).collect()
}

const JUL20_2026: i64 = 20654;
const JAN01_2025: i64 = 20089;
const JAN01_2026: i64 = 20454;
const JAN01_2020: i64 = 18262;

#[test]
fn atproto_rkey_from_uri_takes_last_segment() {
    assert_eq!(rkey_from_uri("at://did:plc:abc/site.standard.document/3lwa"), "3lwa");
}

#[test]
fn rkey_from_uri_without_slash_is_whole() {
    assert_eq!(rkey_from_uri("3lwa"), "3lwa");
    assert_eq!(rkey_from_uri("a/b/"), "");
}

#[test]
fn publication_record_derives_fields_from_site() {
    let site = site(&[("title", "My Garden"), ("description", "A blog")]);
    let record = publication_record(Some("https://example.com"), "/blog", &site, None, None).ok().unwrap();
    assert_eq!(record.name, "My Garden");
    assert_eq!(record.url, "https://example.com/blog");
    assert_eq!(record.description.as_deref(), Some("A blog"));
    assert!(record.basic_theme.is_none());
}

#[test]
fn publication_record_description_is_optional() {
    let site = site(&[("title", "My Garden")]);
    let record = publication_record(Some("https://example.com"), "", &site, None, None).ok().unwrap();
    assert_eq!(record.url, "https://example.com");
    assert!(record.description.is_none());
}

#[test]
fn publication_record_requires_site_title() {
    let err = publication_record(Some("https://example.com"), "", &site(&[]), None, None).err().unwrap();
    assert!(matches!(err, PublishError::MissingTitle));
    assert!(err.message().contains("site.title"), "{}", err.message());
}

#[test]
fn publication_record_requires_site_url() {
    let err = publication_record(None, "", &site(&[("title", "T")]), None, None).err().unwrap();
    assert!(matches!(err, PublishError::MissingSiteUrl));
    assert!(err.message().contains("site.url"));
}

#[test]
fn publication_record_maps_configured_theme() {
    let white = Rgb { r: 255, g: 255, b: 255 };
    let theme = BasicTheme {
        background: Rgb { r: 0x1a, g: 0x1a, b: 0x2e },
        foreground: white,
        accent: white,
        accent_foreground: white,
    };
    let site = site(&[("title", "My Garden")]);
    let record = publication_record(Some("https://example.com"), "", &site, Some(&theme), None).ok().unwrap();
    let theme = record.basic_theme.expect("theme mapped onto the record");
    assert_eq!(theme.type_, THEME_BASIC_NSID);
    assert_eq!(theme.background.r, 0x1a);
    assert_eq!(theme.background.b, 0x2e);
}

#[test]
fn plan_bsky_posts_disabled_is_empty() {
    let doc = bsky_doc("a.md", "hello", JUL20_2026);
    let plan = plan_bsky_posts(&bsky(false, None), &vec![doc], &State::new()).ok().unwrap();
    assert!(plan.pending.is_empty());
    assert_eq!(plan.inert_opt_ins, 1);
}

#[test]
fn plan_bsky_posts_skips_docs_without_frontmatter() {
    let mut plain = blank("plain.md");
    plain.date = day_secs(JUL20_2026);
    let plan = plan_bsky_posts(&bsky(true, Some(JAN01_2020)), &vec![plain], &State::new()).ok().unwrap();
    assert!(plan.pending.is_empty());
}

#[test]
fn plan_bsky_posts_respects_since_cutoff() {
    let old = bsky_doc("old.md", "old post", JAN01_2025);
    let new = bsky_doc("new.md", "new post", JUL20_2026);
    let docs = vec![old, new];
    let plan = plan_bsky_posts(&bsky(true, Some(JAN01_2026)), &docs, &State::new()).ok().unwrap();
    let ids: Vec<&str> = plan.pending.iter().map(|p| docs[p.doc].id_path.as_str()).collect();
    assert_eq!(ids, vec!["new.md"]);
    assert_eq!(plan.pending[0].text, "new post");
    assert_eq!(plan.skipped_old, 1);
}

#[test]
fn plan_bsky_posts_default_cutoff_skips_old_docs() {
    let old = bsky_doc("old.md", "old post", JAN01_2020);
    let plan = plan_bsky_posts(&bsky(true, None), &vec![old], &State::new()).ok().unwrap();
    assert!(plan.pending.is_empty());
}

#[test]
fn plan_bsky_posts_is_create_once() {
    let doc = bsky_doc("a.md", "hello", JUL20_2026);
    let mut state = State::new();
    state.insert(
        "a.md".to_string(),
        PostRef {
            uri: "at://did:plc:abc/app.bsky.feed.post/3lwa".into(),
            cid: "bafy".into(),
            created_at: "2026-07-19T00:00:00.000Z".into(),
        },
    );
    let plan = plan_bsky_posts(&bsky(true, Some(JAN01_2020)), &vec![doc], &state).ok().unwrap();
    assert!(plan.pending.is_empty());
}

#[test]
fn plan_bsky_posts_surfaces_invalid_frontmatter() {
    let mut doc = blank("bad.md");
    doc.data.push(("bsky".to_string(), Yaml::Number));
    let err = plan_bsky_posts(&bsky(true, Some(JAN01_2020)), &vec![doc], &State::new())
        .err()
        .expect("non-string bsky: should error");
    assert!(matches!(err, BskyTextError::NotAString(_)));
    assert!(err.message().contains("bad.md"), "{}", err.message());
}

#[test]
fn plan_with_cutoff_keeps_doc_order_and_text() {
    let docs = vec![
        bsky_doc("a.md", "  first  ", JUL20_2026),
        bsky_doc("b.md", "second", JUL20_2026),
    ];
    let plan = plan_bsky_posts_with_cutoff(&bsky(true, None), &docs, &State::new(), JAN01_2026).ok().unwrap();
    assert_eq!(plan.pending.len(), 2);
    assert_eq!(plan.pending[0].doc, 0);
    assert_eq!(plan.pending[0].text, "first");
    assert_eq!(plan.pending[1].doc, 1);
}

#[test]
fn sync_step_posts_then_compares_then_puts() {
    let t = SyncTally { put: 0, unchanged: 0, posts_created: 0 };
    let (t, a) = sync_step(t, SyncEvent::DocStarted(true));
    assert!(matches!(a, SyncAction::CreatePost));
    let (t, a) = sync_step(t, SyncEvent::PostCreated);
    assert!(matches!(a, SyncAction::CompareRecord));
    assert_eq!(t.posts_created, 1);
    let (t, a) = sync_step(t, SyncEvent::RecordCompared(false));
    assert!(matches!(a, SyncAction::PutRecord));
    let (t, a) = sync_step(t, SyncEvent::RecordPut);
    assert!(matches!(a, SyncAction::NextDoc));
    assert_eq!((t.put, t.unchanged, t.posts_created), (1, 0, 1));
    let (t, a) = sync_step(t, SyncEvent::DocStarted(false));
    assert!(matches!(a, SyncAction::CompareRecord));
    let (t, a) = sync_step(t, SyncEvent::RecordCompared(true));
    assert!(matches!(a, SyncAction::NextDoc));
    assert_eq!((t.put, t.unchanged, t.posts_created), (1, 1, 1));
}

#[test]
fn sync_summary_lines() {
    let t = SyncTally { put: 3, unchanged: 2, posts_created: 0 };
    assert_eq!(t.summary(), vec!["done: 3 put, 2 unchanged".to_string()]);
    let t = SyncTally { put: 3, unchanged: 12, posts_created: 1 };
    assert_eq!(
        t.summary(),
        vec![
            "done: 3 put, 12 unchanged, 1 post(s) created".to_string(),
            "note: commit .italic/bsky.yaml — it prevents duplicate posts".to_string(),
        ]
    );
}

#[test]
fn confirmation_accepts_y_and_yes() {
    assert!(confirmed("y\n"));
    assert!(confirmed("  YES "));
    assert!(!confirmed("no"));
    assert!(!confirmed(""));
}

#[test]
fn dry_run_lists_records_and_posts() {
    let mut d = bsky_doc("blog/hello.md", "Hello there", JUL20_2026);
    d.output_path = "blog/hello/index.html".to_string();
    let docs = vec![d];
    let covers = vec![Cover::External("https://cdn/x.png".to_string())];
    let pending = vec![PendingPost { doc: 0, text: "Hello there".to_string() }];
    let lines = dry_run(
        "https://example.com",
        "",
        None,
        &vec!["all".to_string()],
        &docs,
        &covers,
        true,
        &pending,
        2,
    );
    assert_eq!(lines[0], "atproto publish --dry-run (no network calls)");
    assert_eq!(
        lines[1],
        format!(
            "  put publication rkey={} (set ITALIC_ATPROTO_DID to preview the AT-URI)",
            publication_rkey("https://example.com")
        )
    );
    assert_eq!(lines[2], "  documents (all):");
    assert!(lines[3].starts_with("    put blog/hello.md (rkey="));
    assert!(lines[3].ends_with("), cover: skipped — external URL https://cdn/x.png"));
    assert_eq!(lines[4], "  bsky posts (1):");
    assert_eq!(lines[5], "    create post for blog/hello.md — \"Hello there\"");
    assert_eq!(lines[6], "    2 existing post(s) in .italic/bsky.yaml (never touched)");
    assert_eq!(lines.len(), 7);
    let with_did = dry_run("https://example.com", "", Some("did:plc:abc"), &vec![], &vec![], &vec![], false, &vec![], 0);
    assert_eq!(
        with_did,
        vec![
            "atproto publish --dry-run (no network calls)".to_string(),
            format!("  put publication {}", publication_uri("did:plc:abc", "https://example.com")),
            "  documents ():".to_string(),
        ]
    );
}

#[test]
fn env_did_validates_prefix() {
    assert!(matches!(env_did(None), Ok(None)));
    assert!(matches!(env_did(Some(String::new())), Ok(None)));
    assert_eq!(env_did(Some("did:plc:abc".into())).ok().unwrap(), Some("did:plc:abc".to_string()));
    let err = env_did(Some("alice.bsky.social".into())).err().unwrap();
    assert!(matches!(err, CredentialError::MalformedDid(_)));
    assert!(err.message().contains("alice.bsky.social"));
}

#[test]
fn credentials_resolve_host_did_and_password() {
    let cfg = Atproto::default();
    let c = Credentials::load(&cfg, None, Some("did:plc:abc".into()), Some("pw".into())).ok().unwrap();
    assert_eq!(c.pds_host, "https://bsky.social");
    assert_eq!(c.did, "did:plc:abc");
    assert_eq!(c.app_password, "pw");
    let c = Credentials::load(&cfg, Some("https://pds.example".into()), Some("did:plc:abc".into()), Some("pw".into()))
        .ok()
        .unwrap();
    assert_eq!(c.pds_host, "https://pds.example");
    assert!(matches!(Credentials::load(&cfg, None, None, Some("pw".into())), Err(CredentialError::NoDid)));
    assert!(matches!(
        Credentials::load(&cfg, None, Some("did:plc:abc".into()), None),
        Err(CredentialError::NoAppPassword)
    ));
}

#[test]
fn missing_file_is_empty_state() {
    let state = State::new();
    assert_eq!(state.version, 1);
    assert!(state.posts.is_empty());
}

#[test]
fn wrong_version_errors() {
    let err = accept_loaded("bsky.yaml", State { version: 2, posts: Vec::new() }).err().unwrap();
    assert!(err.contains("version 2"), "{err}");
    assert!(err.contains("bsky.yaml"), "{err}");
    assert!(accept_loaded("bsky.yaml", State::new()).is_ok());
}

#[test]
fn state_insert_then_get_reads_back() {
    let mut state = State::new();
    let p = |rkey: &str| PostRef { uri: format!("at://x/{rkey}"), cid: "c".into(), created_at: "t".into() };
    state.insert("a.md".into(), p("1"));
    state.insert("b.md".into(), p("2"));
    state.insert("a.md".into(), p("3"));
    assert_eq!(state.posts.len(), 2);
    assert_eq!(state.get("a.md").unwrap().uri, "at://x/3");
    assert_eq!(state.get("b.md").unwrap().uri, "at://x/2");
    assert!(state.get("c.md").is_none());
}

#[test]
fn publish_requires_site_url_before_anything() {
    let e = publish_step(None, true, true, 3).err().unwrap();
    assert!(matches!(e, PublishError::NoRecordOrigin));
    assert_eq!(
        e.message(),
        "site.url is required to publish documents — it disambiguates record keys so multiple sites can share one PDS"
    );
}

#[test]
fn publish_steps_follow_dry_run_then_confirmation() {
    let url = Some("https://example.com");
    assert!(matches!(publish_step(url, true, false, 2), Ok(PublishStep::DryRun)));
    assert!(matches!(publish_step(url, false, false, 2), Ok(PublishStep::Confirm)));
    assert!(matches!(publish_step(url, false, true, 2), Ok(PublishStep::Sync)));
    assert!(matches!(publish_step(url, false, false, 0), Ok(PublishStep::Sync)));
}

#[test]
fn default_cutoff_is_three_days_before_today() {
    // 2026-07-20T18:04:11Z is day 20654; the cutoff is day 20651.
    assert_eq!(default_cutoff(1_784_570_651), 20_651);
    assert_eq!(default_cutoff(0), -3);
    assert_eq!(default_cutoff(-1), -4);
}
