//! Per-document standard.site ownership proof: each published doc's `data`
//! gets `atproto_uri`, the AT-URI of its `site.standard.document` record,
//! derived offline from the account DID and the doc's canonical URL (the
//! same functions the publisher uses, so page and record agree). Drafts are
//! skipped — they are never published.
use vstd::prelude::*;
use crate::atproto::document::{at_uri, canonical_url, document_uri, rkey_spec, DOCUMENT_NSID};
use crate::doc::Doc;
use crate::paths::same_path;
use crate::index::{first_with_id, injected, lemma_first_with_id_same, lemma_injected_compose, Index};
use crate::permalink::to_url_spec;

verus! {

/// Data key the AT-URI is exposed under (`page.data.atproto_uri`).
pub const DATA_KEY: &'static str = "atproto_uri";

/// The document AT-URI a doc's canonical URL derives.
pub open spec fn doc_uri(did: Seq<char>, site_url: Seq<char>, base_path: Seq<char>, doc: Doc) -> Seq<char> {
    at_uri(did, DOCUMENT_NSID@, rkey_spec(site_url + base_path + to_url_spec(doc.output_path@)))
}

/// The URI a doc gets: its derived document URI when it is the first doc
/// with its id, a member of the collection, and not a draft.
pub open spec fn link_for(
    docs: Seq<Doc>,
    members: Seq<String>,
    did: Seq<char>,
    site_url: Seq<char>,
    base_path: Seq<char>,
    j: int,
) -> Option<Seq<char>> {
    if first_with_id(docs, j) && (exists|m: int| 0 <= m < members.len() && same_path((#[trigger] members[m])@, docs[j].id_path@))
        && !docs[j].draft {
        Some(doc_uri(did, site_url, base_path, docs[j]))
    } else {
        None
    }
}

/// Derive and set `atproto_uri` on every non-draft doc of the publish
/// collection, whose members' `id_path`s are `members`.
pub fn inject(index: &mut Index, did: &str, site_url: &str, base_path: &str, members: &Vec<String>)
    ensures
        injected(
            old(index).docs@,
            final(index).docs@,
            DATA_KEY@,
            |j: int| link_for(old(index).docs@, members@, did@, site_url@, base_path@, j),
        ),
{
    let ghost old_docs = index.docs@;
    let mut i: usize = 0;
    while i < members.len()
        invariant
            i <= members@.len(),
            injected(
                old_docs,
                index.docs@,
                DATA_KEY@,
                |j: int| link_for(old_docs, members@.take(i as int), did@, site_url@, base_path@, j),
            ),
        decreases members@.len() - i,
    {
        let ghost mid = index.docs@;
        let ghost m = members@[i as int]@;
        let ghost take_i = members@.take(i as int);
        let ghost take_n = members@.take(i + 1);
        let ghost f = |j: int| link_for(old_docs, take_i, did@, site_url@, base_path@, j);
        let ghost h = |j: int| link_for(old_docs, take_n, did@, site_url@, base_path@, j);
        proof {
            assert forall|j: int| 0 <= j < old_docs.len() implies ((exists|q: int|
                0 <= q < take_n.len() && same_path((#[trigger] take_n[q])@, old_docs[j].id_path@)) <==> ((exists|q: int|
                0 <= q < take_i.len() && same_path((#[trigger] take_i[q])@, old_docs[j].id_path@)) || same_path(m, old_docs[j].id_path@))) by {
                if exists|q: int| 0 <= q < take_n.len() && same_path((#[trigger] take_n[q])@, old_docs[j].id_path@) {
                    let q = choose|q: int| 0 <= q < take_n.len() && same_path((#[trigger] take_n[q])@, old_docs[j].id_path@);
                    if q < i {
                        assert(take_i[q] == take_n[q]);
                    }
                }
                if exists|q: int| 0 <= q < take_i.len() && same_path((#[trigger] take_i[q])@, old_docs[j].id_path@) {
                    let q = choose|q: int| 0 <= q < take_i.len() && same_path((#[trigger] take_i[q])@, old_docs[j].id_path@);
                    assert(take_n[q] == take_i[q]);
                }
                if same_path(m, old_docs[j].id_path@) {
                    assert(take_n[i as int]@ == m);
                }
            }
        }
        match index.position(members[i].as_str()) {
            Some(p) => {
                if !index.docs[p].draft {
                    let url = canonical_url(&index.docs[p], Some(site_url), base_path);
                    let uri = document_uri(did, url.as_str());
                    let ghost pd = index.docs@[p as int];
                    index.set_data(members[i].as_str(), DATA_KEY, uri);
                    proof {
                        let g = |j: int| if same_path(mid[j].id_path@, m) && first_with_id(mid, j) {
                            Some(doc_uri(did@, site_url@, base_path@, pd))
                        } else {
                            None
                        };
                        assert forall|j: int| 0 <= j < old_docs.len() implies #[trigger] h(j) == if g(j) is Some {
                            g(j)
                        } else {
                            f(j)
                        } by {
                            lemma_first_with_id_same(old_docs, mid, j);
                            assert(mid[j].id_path@ == old_docs[j].id_path@);
                            if same_path(mid[j].id_path@, m) && first_with_id(mid, j) {
                                assert(j == p) by {
                                    if j < p {
                                        assert(!same_path(mid[j].id_path@, mid[p as int].id_path@));
                                    }
                                    if j > p {
                                        assert(!same_path(mid[p as int].id_path@, mid[j].id_path@));
                                    }
                                }
                                assert(mid[j].output_path == old_docs[j].output_path);
                                assert(mid[j].draft == old_docs[j].draft);
                            }
                        }
                        lemma_injected_compose(old_docs, mid, index.docs@, DATA_KEY@, f, g, h);
                    }
                } else {
                    proof {
                        assert forall|j: int| 0 <= j < old_docs.len() implies #[trigger] h(j) == f(j) by {
                            lemma_first_with_id_same(old_docs, mid, j);
                            assert(mid[j].id_path@ == old_docs[j].id_path@);
                            if same_path(old_docs[j].id_path@, m) && first_with_id(old_docs, j) {
                                assert(j == p) by {
                                    if j < p {
                                        assert(!same_path(mid[j].id_path@, mid[p as int].id_path@));
                                    }
                                    if j > p {
                                        assert(!same_path(mid[p as int].id_path@, mid[j].id_path@));
                                    }
                                }
                                assert(mid[j].draft == old_docs[j].draft);
                            }
                        }
                        assert(injected(old_docs, index.docs@, DATA_KEY@, h));
                    }
                }
            },
            None => {
                proof {
                    assert forall|j: int| 0 <= j < old_docs.len() implies #[trigger] h(j) == f(j) by {
                        assert(mid[j].id_path@ == old_docs[j].id_path@);
                    }
                    assert(injected(old_docs, index.docs@, DATA_KEY@, h));
                }
            },
        }
        i = i + 1;
    }
    proof {
        assert(members@.take(members@.len() as int) =~= members@);
    }
}

/// Inject the proofs when verification is on and the DID and `site.url` are
/// known; otherwise leave the index untouched.
pub fn run(
    verification: bool,
    did: Option<&str>,
    site_url: Option<&str>,
    base_path: &str,
    members: &Vec<String>,
    index: &mut Index,
)
    ensures
        verification && did is Some && site_url is Some ==> injected(
            old(index).docs@,
            final(index).docs@,
            DATA_KEY@,
            |j: int| link_for(old(index).docs@, members@, did->0@, site_url->0@, base_path@, j),
        ),
        !(verification && did is Some && site_url is Some) ==> final(index).docs@ == old(index).docs@,
{
    if !verification {
        return;
    }
    match (did, site_url) {
        (Some(d), Some(u)) => inject(index, d, u, base_path, members),
        _ => {},
    }
}

} // verus!
