use italic::atproto::document::{document_uri, publication_rkey, publication_uri};
use italic::atproto::state::{PostRef, State};
use italic::build::atproto_site::{self, DID_KEY, PUBLICATION_KEY};
use italic::build::bsky_post;
use italic::build::content_assets::copy_plan;
use italic::build::markup::block_id::{block_edit, split_marker};
use italic::build::standard_link;
use italic::build::well_known::{self, proof_outputs};
use italic::doc::{DateTime, Doc, Yaml};
use italic::index::Index;

const DID: &str = "did:plc:testabc";
const SITE_URL: &str = "https://example.com";

fn doc(id: &str, output: &str) -> Doc {
    Doc {
        id_path: id.to_string(),
        output_path: output.to_string(),
        title: String::new(),
        summary: String::new(),
        content: String::new(),
        markdown: None,
        terms: Vec::new(),
        date: DateTime { secs: 0, nanos: 0 },
        updated: DateTime { secs: 0, nanos: 0 },
        data: Vec::new(),
        draft: false,
    }
}

fn index_with(docs: Vec<Doc>) -> Index {
    let mut index = Index::new();
    for d in docs {
        index.insert(d);
    }
    index
}

fn data_str<'a>(data: &'a [(String, Yaml)], key: &str) -> Option<&'a str> {
    data.iter().find(|(k, _)| k == key).and_then(|(_, v)| match v {
        Yaml::Str(s) => Some(s.as_str()),
        _ => None,
    })
}

fn uri_of<'a>(index: &'a Index, id: &str, key: &str) -> Option<&'a str> {
    let d = index.docs.iter().find(|d| d.id_path == id).unwrap();
    data_str(&d.data, key)
}

fn state_with(entries: &[(&str, &str)]) -> State {
    let mut state = State::new();
    for (id, rkey) in entries {
        state.insert(
            id.to_string(),
            PostRef {
                uri: format!("at://did:plc:abc/app.bsky.feed.post/{rkey}"),
                cid: "bafyreib2aaa".into(),
                created_at: "2026-07-20T18:04:11.000Z".into(),
            },
        );
    }
    state
}

#[test]
fn no_site_url_emits_nothing() {
    assert!(well_known::run(true, None, Some("did:plc:abc")).is_empty());
}

#[test]
fn verification_off_emits_no_proof() {
    assert!(well_known::run(false, Some(SITE_URL), Some("did:plc:abc")).is_empty());
    assert_eq!(well_known::run(true, Some(SITE_URL), Some("did:plc:abc")).len(), 1);
}

#[test]
fn proof_derives_publication_uri() {
    let outputs = proof_outputs("did:plc:abc", "https://example.com");
    assert_eq!(outputs.len(), 1);
    assert_eq!(outputs[0].output_path, ".well-known/site.standard.publication");
    assert_eq!(
        outputs[0].content,
        format!(
            "at://did:plc:abc/site.standard.publication/{}\n",
            publication_rkey("https://example.com")
        )
    );
}

#[test]
fn no_assets_is_a_noop() {
    assert!(copy_plan("base/content", "base/public", &Vec::new()).is_empty());
}

#[test]
fn mirrors_assets_preserving_subpath_plan() {
    let plan = copy_plan("base/content", "base/public", &vec!["blog/diagram.png".to_string(), "logo.svg".to_string()]);
    assert_eq!(
        plan,
        vec![
            ("base/content/blog/diagram.png".to_string(), "base/public/blog/diagram.png".to_string()),
            ("base/content/logo.svg".to_string(), "base/public/logo.svg".to_string()),
        ]
    );
}

#[test]
fn splits_marker() {
    let sm = |t: &str| split_marker(t);
    assert_eq!(sm("A claim. ^abc-1"), Some(("A claim.".to_string(), "abc-1".to_string())));
    assert_eq!(sm("trailing ws ^m  "), Some(("trailing ws".to_string(), "m".to_string())));
    assert_eq!(sm("^lone"), None);
    assert_eq!(sm("page^abc"), None);
    assert_eq!(sm("no marker"), None);
    assert_eq!(sm("bad ^ab_c"), None);
}

#[test]
fn block_edit_anchors_first_and_strips_duplicates() {
    let mut seen = Vec::new();
    let e = block_edit("Claim. ^Abc-1", &mut seen).unwrap();
    assert_eq!(e.rest, "Claim.");
    assert_eq!(e.anchor.as_deref(), Some("<span class=\"block-anchor\" id=\"abc-1\"></span>"));
    let again = block_edit("second. ^abc-1", &mut seen).unwrap();
    assert_eq!(again.rest, "second.");
    assert_eq!(again.id, "abc-1");
    assert!(again.anchor.is_none());
    assert!(block_edit("exponent 2^n", &mut seen).is_none());
    assert_eq!(seen, vec!["abc-1".to_string()]);
}

#[test]
fn injects_the_recorded_uri() {
    let mut index = index_with(vec![doc("posts/hello.md", "")]);
    bsky_post::inject(&mut index, &state_with(&[("posts/hello.md", "3lwa")]));
    assert_eq!(uri_of(&index, "posts/hello.md", "bsky_uri"), Some("at://did:plc:abc/app.bsky.feed.post/3lwa"));
}

#[test]
fn leaves_unannounced_docs_untouched() {
    let mut index = index_with(vec![doc("posts/hello.md", ""), doc("posts/quiet.md", "")]);
    bsky_post::inject(&mut index, &state_with(&[("posts/hello.md", "3lwa")]));
    assert!(uri_of(&index, "posts/quiet.md", "bsky_uri").is_none());
}

#[test]
fn entry_matching_no_doc_is_a_no_op() {
    let mut index = index_with(vec![doc("posts/hello.md", "")]);
    bsky_post::inject(&mut index, &state_with(&[("posts/renamed.md", "3lwa")]));
    assert!(uri_of(&index, "posts/hello.md", "bsky_uri").is_none());
}

#[test]
fn hand_set_frontmatter_survives_without_a_state_entry() {
    let mut announced = doc("posts/manual.md", "");
    announced.data.push(("bsky_uri".into(), Yaml::Str("at://did:plc:me/app.bsky.feed.post/byhand".into())));
    let mut index = index_with(vec![announced]);
    bsky_post::inject(&mut index, &state_with(&[]));
    assert_eq!(uri_of(&index, "posts/manual.md", "bsky_uri"), Some("at://did:plc:me/app.bsky.feed.post/byhand"));
}

#[test]
fn state_wins_over_frontmatter_for_announced_docs() {
    let mut announced = doc("posts/hello.md", "");
    announced.data.push(("bsky_uri".into(), Yaml::Str("at://did:plc:me/app.bsky.feed.post/stale".into())));
    let mut index = index_with(vec![announced]);
    bsky_post::inject(&mut index, &state_with(&[("posts/hello.md", "3lwa")]));
    assert_eq!(uri_of(&index, "posts/hello.md", "bsky_uri"), Some("at://did:plc:abc/app.bsky.feed.post/3lwa"));
    let d = &index.docs[0];
    assert_eq!(d.data.len(), 1);
}

#[test]
fn bsky_post_run_passes_load_errors_on() {
    let mut index = index_with(vec![doc("posts/hello.md", "")]);
    assert_eq!(bsky_post::run(&mut index, Err("bad file".to_string())), Err("bad file".to_string()));
    assert!(bsky_post::run(&mut index, Ok(state_with(&[("posts/hello.md", "x")]))).is_ok());
    assert!(uri_of(&index, "posts/hello.md", "bsky_uri").is_some());
}

fn members(ids: &[&str]) -> Vec<String> {
    ids.iter().map(|s| s.to_string()).collect()
}

#[test]
fn injects_derived_uri_for_collection_members() {
    let mut index = index_with(vec![doc("posts/hello.md", "posts/hello/index.html")]);
    standard_link::inject(&mut index, DID, SITE_URL, "", &members(&["posts/hello.md"]));
    let expected = document_uri(DID, "https://example.com/posts/hello/");
    assert_eq!(uri_of(&index, "posts/hello.md", "atproto_uri"), Some(expected.as_str()));
}

#[test]
fn skips_drafts() {
    let mut draft = doc("posts/wip.md", "posts/wip/index.html");
    draft.draft = true;
    let mut index = index_with(vec![draft]);
    standard_link::inject(&mut index, DID, SITE_URL, "", &members(&["posts/wip.md"]));
    assert!(uri_of(&index, "posts/wip.md", "atproto_uri").is_none());
}

#[test]
fn skips_docs_outside_the_collection() {
    let mut index = index_with(vec![doc("posts/hello.md", "posts/hello/index.html"), doc("about.md", "about/index.html")]);
    standard_link::inject(&mut index, DID, SITE_URL, "", &members(&["posts/hello.md"]));
    assert!(uri_of(&index, "posts/hello.md", "atproto_uri").is_some());
    assert!(uri_of(&index, "about.md", "atproto_uri").is_none());
}

#[test]
fn base_path_participates_in_the_derived_url() {
    let mut index = index_with(vec![doc("posts/hello.md", "posts/hello/index.html")]);
    standard_link::inject(&mut index, DID, SITE_URL, "/blog", &members(&["posts/hello.md"]));
    let expected = document_uri(DID, "https://example.com/blog/posts/hello/");
    assert_eq!(uri_of(&index, "posts/hello.md", "atproto_uri"), Some(expected.as_str()));
}

#[test]
fn standard_link_run_is_gated() {
    let mut index = index_with(vec![doc("posts/hello.md", "posts/hello/index.html")]);
    standard_link::run(false, Some(DID), Some(SITE_URL), "", &members(&["posts/hello.md"]), &mut index);
    assert!(uri_of(&index, "posts/hello.md", "atproto_uri").is_none());
    standard_link::run(true, None, Some(SITE_URL), "", &members(&["posts/hello.md"]), &mut index);
    assert!(uri_of(&index, "posts/hello.md", "atproto_uri").is_none());
}

#[test]
fn injects_did_and_derived_publication_uri() {
    let mut site = Vec::new();
    atproto_site::inject(&mut site, DID, SITE_URL);
    assert_eq!(data_str(&site, DID_KEY), Some(DID));
    let expected = publication_uri(DID, SITE_URL);
    assert_eq!(data_str(&site, PUBLICATION_KEY), Some(expected.as_str()));
}

#[test]
fn no_did_leaves_a_hand_set_value_alone() {
    let mut site = vec![(DID_KEY.to_string(), Yaml::Str("did:plc:handset".to_string()))];
    atproto_site::run(true, None, None, &mut site);
    assert_eq!(data_str(&site, DID_KEY), Some("did:plc:handset"));
    assert!(data_str(&site, PUBLICATION_KEY).is_none());
}

#[test]
fn no_site_url_injects_nothing() {
    let mut site = Vec::new();
    atproto_site::run(true, Some(DID), None, &mut site);
    assert!(site.is_empty());
}

#[test]
fn verification_off_injects_nothing() {
    let mut site = Vec::new();
    atproto_site::run(false, Some(DID), Some(SITE_URL), &mut site);
    assert!(site.is_empty());
}

#[test]
fn state_key_names_the_doc_as_a_path() {
    let mut index = index_with(vec![doc("blog/a.md", "blog/a/index.html")]);
    bsky_post::inject(&mut index, &state_with(&[("blog//a.md", "3kabc")]));
    assert_eq!(uri_of(&index, "blog/a.md", "bsky_uri"), Some("at://did:plc:abc/app.bsky.feed.post/3kabc"));
    assert_eq!(index.position("./blog/a.md"), None);
    assert_eq!(index.position("blog/./a.md"), Some(0));
}
