//! The document index: every source doc the build read, in reading order,
//! and the data-injection passes that annotate docs by `id_path`.
use vstd::prelude::*;
use crate::doc::{insert_entry, lookup, Doc, Yaml};
use crate::paths::{paths_equal, same_path};

verus! {

pub struct Index {
    pub docs: Vec<Doc>,
}

/// `a` and `b` agree on everything but their frontmatter data.
pub open spec fn same_but_data(a: Doc, b: Doc) -> bool {
    &&& a.id_path == b.id_path
    &&& a.output_path == b.output_path
    &&& a.title == b.title
    &&& a.summary == b.summary
    &&& a.content == b.content
    &&& a.markdown == b.markdown
    &&& a.terms == b.terms
    &&& a.date == b.date
    &&& a.updated == b.updated
    &&& a.draft == b.draft
}

/// Doc `j` is the first doc with its `id_path`, compared as paths (the one
/// found by id).
pub open spec fn first_with_id(docs: Seq<Doc>, j: int) -> bool {
    forall|i: int| 0 <= i < j ==> !same_path((#[trigger] docs[i]).id_path@, docs[j].id_path@)
}

/// `new` is `old` with, for each doc `j`, the string `f(j)` set under `key`
/// in its data where `f(j)` is `Some`, and nothing else changed.
pub open spec fn injected(
    old: Seq<Doc>,
    new: Seq<Doc>,
    key: Seq<char>,
    f: spec_fn(int) -> Option<Seq<char>>,
) -> bool {
    &&& new.len() == old.len()
    &&& forall|j: int| 0 <= j < old.len() ==> same_but_data(#[trigger] new[j], old[j])
    &&& forall|j: int, k: Seq<char>|
        0 <= j < old.len() && k != key ==> #[trigger] lookup(new[j].data@, k) == lookup(
            old[j].data@,
            k,
        )
    &&& forall|j: int|
        0 <= j < old.len() ==> match f(j) {
            Some(u) => #[trigger] lookup(new[j].data@, key) matches Some(Yaml::Str(s)) && s@ == u,
            None => lookup(new[j].data@, key) == lookup(old[j].data@, key),
        }
}

/// Injecting `f` and then `g` is injecting `g` where it sets a value and `f`
/// elsewhere.
pub proof fn lemma_injected_compose(
    a: Seq<Doc>,
    b: Seq<Doc>,
    c: Seq<Doc>,
    key: Seq<char>,
    f: spec_fn(int) -> Option<Seq<char>>,
    g: spec_fn(int) -> Option<Seq<char>>,
    h: spec_fn(int) -> Option<Seq<char>>,
)
    requires
        injected(a, b, key, f),
        injected(b, c, key, g),
        forall|j: int| 0 <= j < a.len() ==> #[trigger] h(j) == if g(j) is Some { g(j) } else { f(j) },
    ensures
        injected(a, c, key, h),
{
    assert forall|j: int| 0 <= j < a.len() implies match h(j) {
        Some(u) => #[trigger] lookup(c[j].data@, key) matches Some(Yaml::Str(s)) && s@ == u,
        None => lookup(c[j].data@, key) == lookup(a[j].data@, key),
    } by {
        assert(h(j) == if g(j) is Some { g(j) } else { f(j) });
    }
    assert forall|j: int, k: Seq<char>| 0 <= j < a.len() && k != key implies #[trigger] lookup(c[j].data@, k) == lookup(a[j].data@, k) by {
        assert(lookup(c[j].data@, k) == lookup(b[j].data@, k));
        assert(lookup(b[j].data@, k) == lookup(a[j].data@, k));
    }
    assert forall|j: int| 0 <= j < a.len() implies same_but_data(#[trigger] c[j], a[j]) by {
        assert(same_but_data(c[j], b[j]));
        assert(same_but_data(b[j], a[j]));
    }
}

/// Docs that agree on everything but data agree on which is first with its id.
pub proof fn lemma_first_with_id_same(a: Seq<Doc>, b: Seq<Doc>, j: int)
    requires
        a.len() == b.len(),
        0 <= j < a.len(),
        forall|i: int| 0 <= i < a.len() ==> same_but_data(#[trigger] b[i], a[i]),
    ensures
        first_with_id(a, j) == first_with_id(b, j),
{
    assert(same_but_data(b[j], a[j]));
    if first_with_id(a, j) {
        assert forall|i: int| 0 <= i < j implies !same_path((#[trigger] b[i]).id_path@, b[j].id_path@) by {
            assert(same_but_data(b[i], a[i]));
            assert(!same_path(a[i].id_path@, a[j].id_path@));
        }
    }
    if first_with_id(b, j) {
        assert forall|i: int| 0 <= i < j implies !same_path((#[trigger] a[i]).id_path@, a[j].id_path@) by {
            assert(same_but_data(b[i], a[i]));
            assert(!same_path(b[i].id_path@, b[j].id_path@));
        }
    }
}

impl Index {
    pub fn new() -> (i: Index)
        ensures
            i.docs@.len() == 0,
    {
        Index { docs: Vec::new() }
    }

    pub fn insert(&mut self, doc: Doc)
        ensures
            final(self).docs@ == old(self).docs@.push(doc),
    {
        self.docs.push(doc);
    }

    /// Index of the first doc whose `id_path` is `id_path`.
    pub fn position(&self, id_path: &str) -> (r: Option<usize>)
        ensures
            r matches Some(j) ==> j < self.docs@.len() && same_path(self.docs@[j as int].id_path@, id_path@)
                && first_with_id(self.docs@, j as int),
            r is None ==> forall|j: int|
                0 <= j < self.docs@.len() ==> !same_path((#[trigger] self.docs@[j]).id_path@, id_path@),
    {
        let mut j: usize = 0;
        while j < self.docs.len()
            invariant
                j <= self.docs@.len(),
                forall|i: int| 0 <= i < j ==> !same_path((#[trigger] self.docs@[i]).id_path@, id_path@),
            decreases self.docs@.len() - j,
        {
            if paths_equal(self.docs[j].id_path.as_str(), id_path) {
                return Some(j);
            }
            j = j + 1;
        }
        None
    }

    /// Set the string `value` under `key` in the data of the first doc with
    /// `id_path` (no-op when there is none); every other key, field and doc
    /// stays as it was. Whether a doc was found is returned.
    pub fn set_data(&mut self, id_path: &str, key: &str, value: String) -> (found: bool)
        ensures
            found == exists|j: int| 0 <= j < old(self).docs@.len() && same_path((#[trigger] old(self).docs@[j]).id_path@, id_path@),
            injected(
                old(self).docs@,
                final(self).docs@,
                key@,
                |j: int| if same_path(old(self).docs@[j].id_path@, id_path@) && first_with_id(old(self).docs@, j) {
                    Some(value@)
                } else {
                    None
                },
            ),
    {
        let ghost before = self.docs@;
        match self.position(id_path) {
            None => {
                proof {
                    assert forall|j: int| 0 <= j < before.len() implies same_but_data(#[trigger] self.docs@[j], before[j]) by {}
                }
                false
            },
            Some(p) => {
                let ghost vv = value@;
                let doc = &mut self.docs[p];
                insert_entry(&mut doc.data, String::from_str(key), Yaml::Str(value));
                proof {
                    assert forall|j: int| 0 <= j < before.len() && j != p implies #[trigger] self.docs@[j] == before[j] by {}
                    assert(same_but_data(self.docs@[p as int], before[p as int]));
                    assert forall|j: int|
                        0 <= j < before.len() && same_path(before[j].id_path@, id_path@) && first_with_id(before, j)
                            implies j == p by {
                        if j < p {
                            assert(!same_path(before[j].id_path@, before[p as int].id_path@));
                        }
                        if j > p {
                            assert(!same_path(before[p as int].id_path@, before[j].id_path@));
                        }
                    }
                }
                true
            },
        }
    }
}

impl Default for Index {
    fn default() -> (i: Self)
        ensures
            i.docs@.len() == 0,
    {
        Index::new()
    }
}

} // verus!
