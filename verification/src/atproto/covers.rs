//! Cover blobs over one publish or status run: each doc's cover resolved to a
//! local file, its blob ref derived offline from the file's bytes or obtained
//! by a real upload, both cached by resolved path so a shared image is read
//! or uploaded at most once, and each skipped value warned about once.
use vstd::prelude::*;
use crate::atproto::cover::{cover_field, external_spec, opt_view, rel_path, resolve, Cover};
use crate::atproto::document::{blob_cid_spec, cid_parses, derived_blob_ref, BlobError, BlobRef};
use crate::doc::{find_key, insert_entry, lookup, Doc};
use crate::text::{join_path, opt_chars, str_eq, views};

verus! {

/// The per-run cover state.
pub struct Covers {
    /// The site-wide default image (`site.image`).
    pub site_image: Option<String>,
    /// The static roots in lookup order (site first, then theme).
    pub static_roots: Vec<String>,
    /// Resolved path → blob ref derived from the file's bytes.
    pub derived: Vec<(String, BlobRef)>,
    /// Resolved path → blob ref the PDS returned from the upload.
    pub uploaded: Vec<(String, BlobRef)>,
    /// The raw values already warned about.
    pub warned: Vec<String>,
}

/// A blob ref as (link, MIME type, size).
pub open spec fn blob_model(b: BlobRef) -> (Seq<char>, Seq<char>, usize) {
    (b.link@, b.mime_type@, b.size)
}

/// A cache's entry for `path`, as a blob model.
pub open spec fn cached(entries: Seq<(String, BlobRef)>, path: Seq<char>) -> Option<(Seq<char>, Seq<char>, usize)> {
    match lookup(entries, path) {
        Some(b) => Some(blob_model(b)),
        None => None,
    }
}

/// The warning for an external cover URL.
pub open spec fn external_msg(id_path: Seq<char>, url: Seq<char>) -> Seq<char> {
    "warning: cannot upload external image URL as coverImage for "@ + id_path + ": "@ + url + " — skipping"@
}

/// The warning for a cover file found under no static root.
pub open spec fn missing_msg(source: Seq<char>, raw: Seq<char>) -> Seq<char> {
    "warning: "@ + source + " image "@ + raw + " not found under any static root — skipping coverImage"@
}

/// Whether two blob refs name the same bytes (same link and size; the MIME
/// type is not part of a blob's identity).
pub open spec fn same_blob(a: (Seq<char>, Seq<char>, usize), b: (Seq<char>, Seq<char>, usize)) -> bool {
    a.0 == b.0 && a.2 == b.2
}

fn copy_blob(b: &BlobRef) -> (r: BlobRef)
    ensures
        blob_model(r) == blob_model(*b),
{
    BlobRef {
        link: String::from_str(b.link.as_str()),
        mime_type: String::from_str(b.mime_type.as_str()),
        size: b.size,
    }
}

fn cache_get(entries: &Vec<(String, BlobRef)>, path: &str) -> (r: Option<BlobRef>)
    ensures
        r matches Some(b) ==> cached(entries@, path@) == Some(blob_model(b)),
        r is None ==> cached(entries@, path@) is None,
{
    match find_key(entries, path) {
        Some(i) => Some(copy_blob(&entries[i].1)),
        None => None,
    }
}

impl Covers {
    /// A run's covers, nothing cached or warned yet.
    pub fn new(site_image: Option<String>, static_roots: Vec<String>) -> (c: Covers)
        ensures
            c.site_image == site_image,
            c.static_roots == static_roots,
            c.derived@.len() == 0,
            c.uploaded@.len() == 0,
            c.warned@.len() == 0,
    {
        Covers { site_image, static_roots, derived: Vec::new(), uploaded: Vec::new(), warned: Vec::new() }
    }

    /// Whether the warning about `key` is due: true the first time a key is
    /// seen this run, false ever after.
    pub fn warn_once(&mut self, key: &str) -> (r: bool)
        ensures
            r == !views(old(self).warned@).contains(key@),
            views(final(self).warned@) == if r {
                views(old(self).warned@).push(key@)
            } else {
                views(old(self).warned@)
            },
            final(self).site_image == old(self).site_image,
            final(self).static_roots == old(self).static_roots,
            final(self).derived == old(self).derived,
            final(self).uploaded == old(self).uploaded,
    {
        let mut i: usize = 0;
        while i < self.warned.len()
            invariant
                i <= self.warned@.len(),
                forall|k: int| 0 <= k < i ==> (#[trigger] self.warned@[k])@ != key@,
            decreases self.warned@.len() - i,
        {
            if str_eq(self.warned[i].as_str(), key) {
                proof {
                    assert(views(self.warned@)[i as int] == key@);
                }
                return false;
            }
            i = i + 1;
        }
        proof {
            if views(self.warned@).contains(key@) {
                let k = choose|k: int| 0 <= k < views(self.warned@).len() && views(self.warned@)[k] == key@;
                assert(self.warned@[k]@ == key@);
            }
        }
        let ghost before = views(self.warned@);
        self.warned.push(String::from_str(key));
        proof {
            assert(views(self.warned@) =~= before.push(key@));
        }
        true
    }

    /// Resolve `doc`'s cover to a local file (`present[i]` tells whether
    /// static root `i` holds it): the path, and the warning to print when an
    /// external URL or a missing file is met the first time.
    pub fn resolve(&mut self, doc: &Doc, present: &Vec<bool>) -> (r: (Option<String>, Option<String>))
        requires
            present@.len() == old(self).static_roots@.len(),
        ensures
            final(self).derived == old(self).derived,
            final(self).uploaded == old(self).uploaded,
            final(self).site_image == old(self).site_image,
            final(self).static_roots == old(self).static_roots,
            cover_field(*doc, opt_chars(old(self).site_image)) is None ==> r.0 is None && r.1 is None
                && final(self).warned == old(self).warned,
            cover_field(*doc, opt_chars(old(self).site_image)) matches Some((raw, source)) ==> {
                let found = exists|i: int| 0 <= i < present@.len() && present@[i];
                let first = !views(old(self).warned@).contains(raw);
                if external_spec(raw) || !found {
                    &&& r.0 is None
                    &&& views(final(self).warned@) == if first {
                        views(old(self).warned@).push(raw)
                    } else {
                        views(old(self).warned@)
                    }
                    &&& first ==> (r.1 matches Some(m) && m@ == if external_spec(raw) {
                        external_msg(doc.id_path@, raw)
                    } else {
                        missing_msg(source, raw)
                    })
                    &&& !first ==> r.1 is None
                } else {
                    &&& r.1 is None
                    &&& final(self).warned == old(self).warned
                    &&& r.0 matches Some(p) && exists|i: int|
                        0 <= i < present@.len() && present@[i] && (forall|k: int| 0 <= k < i ==> !present@[k])
                            && p@ == join_path(old(self).static_roots@[i]@, rel_path(raw))
                }
            },
    {
        let site_image: Option<&str> = match &self.site_image {
            Some(s) => Some(s.as_str()),
            None => None,
        };
        assert(opt_view(site_image) == opt_chars(self.site_image));
        let c = resolve(doc, site_image, &self.static_roots, present);
        match c {
            Cover::Resolved(p, _) => (Some(p), None),
            Cover::External(url) => {
                if self.warn_once(url.as_str()) {
                    let mut m = String::from_str("warning: cannot upload external image URL as coverImage for ");
                    m.append(doc.id_path.as_str());
                    m.append(": ");
                    m.append(url.as_str());
                    m.append(" — skipping");
                    (None, Some(m))
                } else {
                    (None, None)
                }
            },
            Cover::Missing(raw, source) => {
                if self.warn_once(raw.as_str()) {
                    let mut m = String::from_str("warning: ");
                    m.append(source);
                    m.append(" image ");
                    m.append(raw.as_str());
                    m.append(" not found under any static root — skipping coverImage");
                    (None, Some(m))
                } else {
                    (None, None)
                }
            },
            Cover::Absent => (None, None),
        }
    }

    /// The blob ref derived earlier this run for the file at `path`.
    pub fn derived_for(&self, path: &str) -> (r: Option<BlobRef>)
        ensures
            r matches Some(b) ==> cached(self.derived@, path@) == Some(blob_model(b)),
            r is None ==> cached(self.derived@, path@) is None,
    {
        cache_get(&self.derived, path)
    }

    /// The blob ref uploaded earlier this run for the file at `path`.
    pub fn uploaded_for(&self, path: &str) -> (r: Option<BlobRef>)
        ensures
            r matches Some(b) ==> cached(self.uploaded@, path@) == Some(blob_model(b)),
            r is None ==> cached(self.uploaded@, path@) is None,
    {
        cache_get(&self.uploaded, path)
    }

    /// Derive the blob ref of the file at `path` from its bytes (offline)
    /// and remember it for the rest of the run.
    pub fn derive(&mut self, path: String, bytes: &[u8]) -> (r: Result<BlobRef, BlobError>)
        ensures
            final(self).uploaded == old(self).uploaded,
            final(self).warned == old(self).warned,
            final(self).site_image == old(self).site_image,
            final(self).static_roots == old(self).static_roots,
            r matches Ok(b) ==> forall|k: Seq<char>| #[trigger] cached(final(self).derived@, k) == if k == path@ {
                Some(blob_model(b))
            } else {
                cached(old(self).derived@, k)
            },
            r is Err ==> final(self).derived == old(self).derived,
            cid_parses(blob_cid_spec(bytes@)) ==> (r matches Ok(b) && blob_model(b) == (
                blob_cid_spec(bytes@),
                "*/*"@,
                bytes@.len() as usize,
            )),
            !cid_parses(blob_cid_spec(bytes@)) ==> (r matches Err(BlobError::InvalidCid(c)) && c@
                == blob_cid_spec(bytes@)),
    {
        match derived_blob_ref(bytes) {
            Ok(b) => {
                let keep = copy_blob(&b);
                let ghost before = self.derived@;
                insert_entry(&mut self.derived, path, keep);
                proof {
                    assert forall|k: Seq<char>| #[trigger] cached(self.derived@, k) == if k == path@ {
                        Some(blob_model(b))
                    } else {
                        cached(before, k)
                    } by {
                        assert(lookup(self.derived@, k) == if k == path@ {
                            Some(keep)
                        } else {
                            lookup(before, k)
                        });
                    }
                }
                Ok(b)
            },
            Err(e) => Err(e),
        }
    }

    /// Remember the blob ref the PDS returned for the file at `path`; true
    /// when it names other bytes than the one derived locally for that file
    /// (then the skip-unchanged comparison can never match, worth a warning).
    pub fn record_upload(&mut self, path: String, blob: BlobRef) -> (differs: bool)
        ensures
            differs == (cached(old(self).derived@, path@) matches Some(d) && !same_blob(d, blob_model(blob))),
            final(self).derived == old(self).derived,
            final(self).warned == old(self).warned,
            final(self).site_image == old(self).site_image,
            final(self).static_roots == old(self).static_roots,
            forall|k: Seq<char>| #[trigger] cached(final(self).uploaded@, k) == if k == path@ {
                Some(blob_model(blob))
            } else {
                cached(old(self).uploaded@, k)
            },
    {
        let differs = match cache_get(&self.derived, path.as_str()) {
            Some(d) => !(str_eq(d.link.as_str(), blob.link.as_str()) && d.size == blob.size),
            None => false,
        };
        let ghost before = self.uploaded@;
        let ghost bm = blob_model(blob);
        insert_entry(&mut self.uploaded, path, blob);
        proof {
            assert forall|k: Seq<char>| #[trigger] cached(self.uploaded@, k) == if k == path@ {
                Some(bm)
            } else {
                cached(before, k)
            } by {
                assert(lookup(self.uploaded@, k) == if k == path@ {
                    Some(blob)
                } else {
                    lookup(before, k)
                });
            }
        }
        differs
    }
}

/// A warning is printed once per distinct value: whatever `warn_once(key)`
/// answered, `key` is recorded after it (`after` is the warned list the call
/// leaves), so every later `warn_once(key)` of the run answers false.
pub proof fn lemma_warn_once_once(before: Seq<Seq<char>>, after: Seq<Seq<char>>, key: Seq<char>)
    requires
        after == if !before.contains(key) {
            before.push(key)
        } else {
            before
        },
    ensures
        after.contains(key),
{
    if !before.contains(key) {
        assert(after[before.len() as int] == key);
    }
}

} // verus!
