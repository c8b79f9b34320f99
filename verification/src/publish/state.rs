//! The publish sidecar state (`.italic/atproto.yaml`): which PDS records map
//! to which docs (keyed by forward-slash `id_path`), plus the publication
//! record's AT-URI, so re-running updates records instead of duplicating them.
use vstd::prelude::*;
use crate::doc::{find_key, lemma_lookup_none_all, lemma_lookup_push, lemma_lookup_replace, lookup};
use crate::text::{forward_slashes, forward_slashes_spec};

verus! {

/// Default location of the state file, relative to the working directory.
pub const STATE_PATH: &'static str = ".italic/atproto.yaml";

/// A written record's address: its rkey, content hash (CID) and AT-URI.
pub struct RecordRef {
    pub rkey: String,
    pub cid: String,
    pub uri: String,
}

impl Default for RecordRef {
    fn default() -> (r: Self)
        ensures
            r.rkey@.len() == 0 && r.cid@.len() == 0 && r.uri@.len() == 0,
    {
        RecordRef { rkey: String::new(), cid: String::new(), uri: String::new() }
    }
}

/// Per-doc record bookkeeping: the long-form document record and the optional
/// Bluesky announcement post.
pub struct DocRecords {
    pub document: Option<RecordRef>,
    pub bsky: Option<RecordRef>,
}

impl Default for DocRecords {
    fn default() -> (r: Self)
        ensures
            r.document is None && r.bsky is None,
    {
        DocRecords { document: None, bsky: None }
    }
}

/// The whole sidecar. `records` maps each doc key to its records.
pub struct State {
    /// The account DID this state was written against.
    pub did: Option<String>,
    /// AT-URI of the one `site.standard.publication` record, once bootstrapped.
    pub publication_uri: Option<String>,
    /// CID of the publication record as last written (absent in older files).
    pub publication_cid: Option<String>,
    pub records: Vec<(String, DocRecords)>,
}

impl Default for State {
    fn default() -> (s: Self)
        ensures
            s.did is None && s.publication_uri is None && s.publication_cid is None
                && s.records@.len() == 0,
    {
        State { did: None, publication_uri: None, publication_cid: None, records: Vec::new() }
    }
}

/// State map keys are `id_path` rendered with forward slashes, so the file is
/// stable across platforms.
pub open spec fn key_spec(id_path: Seq<char>) -> Seq<char> {
    forward_slashes_spec(id_path)
}

fn key(id_path: &str) -> (k: String)
    ensures
        k@ == key_spec(id_path@),
{
    forward_slashes(id_path)
}

impl State {
    /// The records for `id_path`, if any have been published.
    pub fn doc(&self, id_path: &str) -> (r: Option<&DocRecords>)
        ensures
            r matches Some(d) ==> lookup(self.records@, key_spec(id_path@)) == Some(*d),
            r is None ==> lookup(self.records@, key_spec(id_path@)) is None,
    {
        let k = key(id_path);
        match find_key(&self.records, k.as_str()) {
            Some(i) => Some(&self.records[i].1),
            None => None,
        }
    }

    /// Mutable per-doc records, inserting an empty entry on first access.
    /// Whatever is written through the returned reference is what the state
    /// then holds for `id_path`; every other key keeps its records.
    pub fn doc_mut(&mut self, id_path: &str) -> (r: &mut DocRecords)
        ensures
            lookup(old(self).records@, key_spec(id_path@)) matches Some(d) ==> *r == d,
            lookup(old(self).records@, key_spec(id_path@)) is None ==> (r.document is None
                && r.bsky is None),
            forall|k: Seq<char>| #[trigger] lookup(final(self).records@, k) == if k == key_spec(id_path@) {
                Some(*final(r))
            } else {
                lookup(old(self).records@, k)
            },
            final(self).records@.len() == old(self).records@.len() + if lookup(
                old(self).records@,
                key_spec(id_path@),
            ) is None {
                1int
            } else {
                0int
            },
            final(self).did == old(self).did,
            final(self).publication_uri == old(self).publication_uri,
            final(self).publication_cid == old(self).publication_cid,
    {
        let k = key(id_path);
        let i = match find_key(&self.records, k.as_str()) {
            Some(i) => i,
            None => {
                let ghost before = self.records@;
                proof {
                    lemma_lookup_none_all(before, k@);
                }
                self.records.push((k, DocRecords { document: None, bsky: None }));
                proof {
                    assert forall|q: Seq<char>| #[trigger] lookup(self.records@, q) == if q
                        == self.records@.last().0@ {
                        Some(self.records@.last().1)
                    } else {
                        lookup(before, q)
                    } by {
                        lemma_lookup_push(before, self.records@.last(), q);
                    }
                }
                self.records.len() - 1
            },
        };
        let ghost mid = self.records@;
        proof {
            assert(forall|j: int| 0 <= j < i ==> (#[trigger] mid[j]).0@ != key_spec(id_path@));
        }
        let entry = &mut self.records[i];
        let r = &mut entry.1;
        proof {
            assert forall|q: Seq<char>| #[trigger] lookup(mid.update(i as int, (mid[i as int].0, *final(r))), q)
                == if q == key_spec(id_path@) {
                Some(*final(r))
            } else {
                lookup(mid, q)
            } by {
                lemma_lookup_replace(mid, i as int, (mid[i as int].0, *final(r)), q);
            }
        }
        r
    }
}

} // verus!
