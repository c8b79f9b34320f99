//! Expose each doc's Bluesky announcement post to templates: every recorded
//! post's AT-URI is copied into the matching doc's `data` as `bsky_uri`.
//! State wins over frontmatter for announced docs; docs never announced are
//! untouched, so a hand-set `bsky_uri` survives.
use vstd::prelude::*;
use crate::atproto::state::State;
use crate::atproto::state::PostRef;
use crate::doc::Doc;
use crate::paths::same_path;
use crate::index::{first_with_id, injected, lemma_first_with_id_same, lemma_injected_compose, Index};

verus! {

/// Data key the post's AT-URI is exposed under (`page.data.bsky_uri`).
pub const DATA_KEY: &'static str = "bsky_uri";

/// The post recorded for the path `id`: the last state entry whose key is
/// the same path (an entry written later overrides an earlier one).
pub open spec fn post_for(posts: Seq<(String, PostRef)>, id: Seq<char>) -> Option<PostRef>
    decreases posts.len(),
{
    if posts.len() == 0 {
        None
    } else if same_path(posts.last().0@, id) {
        Some(posts.last().1)
    } else {
        post_for(posts.drop_last(), id)
    }
}

/// The post URI a doc gets: the recorded post for its `id_path`, for the
/// first doc with that id.
pub open spec fn post_uri_for(
    docs: Seq<Doc>,
    posts: Seq<(String, PostRef)>,
    j: int,
) -> Option<Seq<char>> {
    if first_with_id(docs, j) {
        match post_for(posts, docs[j].id_path@) {
            Some(p) => Some(p.uri@),
            None => None,
        }
    } else {
        None
    }
}

/// Set `bsky_uri` on every doc with a recorded announcement post.
pub fn inject(index: &mut Index, state: &State)
    requires
        state.wf(),
    ensures
        injected(
            old(index).docs@,
            final(index).docs@,
            DATA_KEY@,
            |j: int| post_uri_for(old(index).docs@, state.posts@, j),
        ),
{
    let ghost old_docs = index.docs@;
    let mut i: usize = 0;
    proof {
        assert forall|j: int| 0 <= j < old_docs.len() implies post_uri_for(old_docs, state.posts@.take(0), j) is None by {
            assert(state.posts@.take(0).len() == 0);
        }
    }
    while i < state.posts.len()
        invariant
            i <= state.posts@.len(),
            state.wf(),
            injected(
                old_docs,
                index.docs@,
                DATA_KEY@,
                |j: int| post_uri_for(old_docs, state.posts@.take(i as int), j),
            ),
        decreases state.posts@.len() - i,
    {
        let ghost mid = index.docs@;
        let entry = &state.posts[i];
        let ghost key = entry.0@;
        let ghost uri = entry.1.uri@;
        index.set_data(entry.0.as_str(), DATA_KEY, entry.1.uri.clone());
        proof {
            let take_i = state.posts@.take(i as int);
            let take_n = state.posts@.take(i + 1);
            assert(take_n.drop_last() =~= take_i);
            assert(take_n.last() == state.posts@[i as int]);
            let f = |j: int| post_uri_for(old_docs, take_i, j);
            let g = |j: int| if same_path(mid[j].id_path@, key) && first_with_id(mid, j) {
                Some(uri)
            } else {
                None
            };
            let h = |j: int| post_uri_for(old_docs, take_n, j);
            assert forall|j: int| 0 <= j < old_docs.len() implies #[trigger] h(j) == if g(j) is Some {
                g(j)
            } else {
                f(j)
            } by {
                lemma_first_with_id_same(old_docs, mid, j);
                assert(mid[j].id_path@ == old_docs[j].id_path@);
            }
            lemma_injected_compose(old_docs, mid, index.docs@, DATA_KEY@, f, g, h);
        }
        i = i + 1;
    }
    proof {
        assert(state.posts@.take(state.posts@.len() as int) =~= state.posts@);
    }
}

/// Apply the loaded state file (or pass its load error on).
pub fn run(index: &mut Index, loaded: Result<State, String>) -> (r: Result<(), String>)
    requires
        loaded matches Ok(s) ==> s.wf(),
    ensures
        loaded matches Err(e) ==> (r == Err::<(), String>(e) && final(index).docs@ == old(index).docs@),
        loaded matches Ok(s) ==> (r is Ok && injected(
            old(index).docs@,
            final(index).docs@,
            DATA_KEY@,
            |j: int| post_uri_for(old(index).docs@, s.posts@, j),
        )),
{
    match loaded {
        Ok(state) => {
            inject(index, &state);
            Ok(())
        },
        Err(e) => Err(e),
    }
}

} // verus!
