//! The `publish` layer: the sidecar state, Bluesky summary posts and
//! read-back classification that sync a built site to the user's PDS.
pub mod atproto;
pub mod bsky;
pub mod config;
pub mod pubstatus;
pub mod state;

use vstd::prelude::*;
use crate::atproto::document::{canonical_url, document_rkey, rkey_spec};
use crate::atproto::last_segment;
use crate::doc::{lookup, Doc};
use crate::permalink::to_url_spec;
use crate::publish::state::{key_spec, State};
use crate::text::views;

verus! {

/// How a publish run behaves.
#[derive(Clone, Copy)]
pub struct Options {
    /// Build records and diff against state, but make no network calls.
    pub dry_run: bool,
}

impl Default for Options {
    fn default() -> (o: Self)
        ensures
            !o.dry_run,
    {
        Options { dry_run: false }
    }
}

/// Extract the rkey (last path segment) from an `at://did/collection/rkey` URI.
pub fn rkey_from_uri(uri: &str) -> (r: String)
    ensures
        r@ == last_segment(uri@),
{
    crate::atproto::rkey_from_uri(uri)
}

/// The site URL, or nothing.
pub open spec fn origin_of(site_url: Option<&str>) -> Seq<char> {
    match site_url {
        Some(s) => s@,
        None => Seq::empty(),
    }
}

/// Whether the state already records a document for the doc at `id_path`.
pub open spec fn has_document(state: State, id_path: Seq<char>) -> bool {
    match lookup(state.records@, key_spec(id_path)) {
        Some(r) => r.document is Some,
        None => false,
    }
}

/// The dry-run line for one doc: `update` when its document record exists,
/// `create` otherwise, with the rkey it lives at.
pub open spec fn plan_line(doc: Doc, state: State, site_url: Option<&str>, base_path: Seq<char>) -> Seq<char> {
    "    "@ + (if has_document(state, doc.id_path@) { "update"@ } else { "create"@ }) + " "@ + doc.id_path@
        + " (rkey="@ + rkey_spec(origin_of(site_url) + base_path + to_url_spec(doc.output_path@)) + ")"@
}

/// The dry-run report: the publication (or that it would be created) and a
/// line per doc, in order.
pub open spec fn dry_run_report(
    site_url: Option<&str>,
    base_path: Seq<char>,
    collection: Seq<char>,
    docs: Seq<Doc>,
    state: State,
) -> Seq<Seq<char>> {
    seq![
        "publish --dry-run (no network calls)"@,
        "  publication: "@ + match state.publication_uri {
            Some(u) => u@,
            None => "(not yet bootstrapped — would be created)"@,
        },
        "  documents ("@ + collection + "):"@,
    ] + Seq::new(docs.len(), |i: int| plan_line(docs[i], state, site_url, base_path))
}

/// What a publish run would do, with no network calls: the lines to print.
pub fn dry_run(site_url: Option<&str>, base_path: &str, collection: &str, docs: &Vec<Doc>, state: &State) -> (lines: Vec<String>)
    ensures
        views(lines@) == dry_run_report(site_url, base_path@, collection@, docs@, *state),
{
    let mut lines: Vec<String> = Vec::new();
    lines.push(String::from_str("publish --dry-run (no network calls)"));
    let mut p = String::from_str("  publication: ");
    match &state.publication_uri {
        Some(u) => p.append(u.as_str()),
        None => p.append("(not yet bootstrapped — would be created)"),
    }
    lines.push(p);
    let mut d = String::from_str("  documents (");
    d.append(collection);
    d.append("):");
    lines.push(d);
    let ghost head = views(lines@);
    let mut i: usize = 0;
    while i < docs.len()
        invariant
            i <= docs@.len(),
            views(lines@) == head + Seq::new(i as nat, |k: int| plan_line(docs@[k], *state, site_url, base_path@)),
        decreases docs@.len() - i,
    {
        let doc = &docs[i];
        let exists = match state.doc(doc.id_path.as_str()) {
            Some(r) => r.document.is_some(),
            None => false,
        };
        let url = canonical_url(doc, site_url, base_path);
        let mut line = String::from_str("    ");
        if exists {
            line.append("update");
        } else {
            line.append("create");
        }
        line.append(" ");
        line.append(doc.id_path.as_str());
        line.append(" (rkey=");
        line.append(document_rkey(url.as_str()).as_str());
        line.append(")");
        let ghost before = views(lines@);
        lines.push(line);
        proof {
            assert(url@ == origin_of(site_url) + base_path@ + to_url_spec(doc.output_path@));
            assert(views(lines@) =~= before.push(line@));
            assert(views(lines@) =~= head + Seq::new((i + 1) as nat, |k: int| plan_line(docs@[k], *state, site_url, base_path@)));
        }
        i = i + 1;
    }
    proof {
        assert(Seq::new(docs@.len(), |k: int| plan_line(docs@[k], *state, site_url, base_path@)) =~= Seq::new(
            i as nat,
            |k: int| plan_line(docs@[k], *state, site_url, base_path@),
        ));
    }
    lines
}

} // verus!
