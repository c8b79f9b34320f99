//! Published-post state for Bluesky announcements (`.italic/bsky.yaml`):
//! each announced doc's id_path mapped to its post's `{uri, cid, createdAt}`.
use vstd::prelude::*;
use crate::doc::{find_key, insert_entry, lemma_lookup_none_all, lookup, Doc};
use crate::text::{decimal, decimal_string, forward_slashes, forward_slashes_spec};

verus! {

/// Where the state file lives, relative to the working directory.
pub const STATE_PATH: &'static str = ".italic/bsky.yaml";

/// The parsed state file.
pub struct State {
    /// Format version; always 1.
    pub version: u32,
    /// id_path (forward-slash normalized, see [`state_key`]) → created post,
    /// in key order with each key once.
    pub posts: Vec<(String, PostRef)>,
}

/// A created `app.bsky.feed.post`, as recorded at create time.
pub struct PostRef {
    /// AT-URI, e.g. `at://did:plc:abc/app.bsky.feed.post/3lwabc22xyz`.
    pub uri: String,
    /// The record CID — with `uri`, the `com.atproto.repo.strongRef` pair.
    pub cid: String,
    /// RFC3339 instant, same value as the post record's `createdAt`.
    pub created_at: String,
}

/// The state-map key for a doc: its id_path, forward-slash normalized so the
/// file is portable across platforms.
pub fn state_key(doc: &Doc) -> (k: String)
    ensures
        k@ == forward_slashes_spec(doc.id_path@),
{
    forward_slashes(doc.id_path.as_str())
}

impl State {
    /// Each doc key is recorded at most once (the file is a map).
    pub open spec fn wf(&self) -> bool {
        forall|i: int, j: int|
            0 <= i < j < self.posts@.len() ==> (#[trigger] self.posts@[i]).0@ != (#[trigger] self.posts@[j]).0@
    }

    /// The state of a first run (no state file yet): version 1, no posts.
    pub fn new() -> (s: State)
        ensures
            s.version == 1,
            s.posts@.len() == 0,
            s.wf(),
    {
        State { version: 1, posts: Vec::new() }
    }

    /// The post recorded under `key`.
    pub fn get(&self, key: &str) -> (r: Option<&PostRef>)
        ensures
            r matches Some(p) ==> lookup(self.posts@, key@) == Some(*p),
            r is None ==> lookup(self.posts@, key@) is None,
    {
        match find_key(&self.posts, key) {
            Some(i) => Some(&self.posts[i].1),
            None => None,
        }
    }

    /// Record `post` under `key`, replacing any post recorded there.
    pub fn insert(&mut self, key: String, post: PostRef)
        ensures
            final(self).version == old(self).version,
            old(self).wf() ==> final(self).wf(),
            forall|k: Seq<char>| #[trigger] lookup(final(self).posts@, k) == if k == key@ {
                Some(post)
            } else {
                lookup(old(self).posts@, k)
            },
    {
        let ghost before = self.posts@;
        let ghost was_wf = self.wf();
        let ghost kv = key@;
        proof {
            if lookup(before, kv) is None {
                lemma_lookup_none_all(before, kv);
            }
        }
        insert_entry(&mut self.posts, key, post);
        proof {
            if !was_wf {
            } else if lookup(before, kv) is None {
                assert(self.posts@.last().0@ == kv);
                assert forall|i: int, j: int|
                    0 <= i < j < self.posts@.len() implies (#[trigger] self.posts@[i]).0@
                    != (#[trigger] self.posts@[j]).0@ by {
                    if j == before.len() {
                        assert(self.posts@[i].0@ == before[i].0@);
                    } else {
                        assert(self.posts@[i].0@ == before[i].0@);
                        assert(self.posts@[j].0@ == before[j].0@);
                    }
                }
            } else {
                assert forall|i: int, j: int|
                    0 <= i < j < self.posts@.len() implies (#[trigger] self.posts@[i]).0@
                    != (#[trigger] self.posts@[j]).0@ by {
                    assert(self.posts@[i].0@ == before[i].0@);
                    assert(self.posts@[j].0@ == before[j].0@);
                }
            }
        }
    }
}

/// A loaded state file whose version this library does not understand.
pub open spec fn version_error(path: Seq<char>, version: u32) -> Seq<char> {
    path + ": unsupported state version "@ + decimal(version as nat)
        + " (this italic understands version 1)"@
}

/// Accept a parsed state file: version 1 passes unchanged, anything else is
/// an error naming the file — silently starting fresh would re-create every
/// post.
pub fn accept_loaded(path: &str, state: State) -> (r: Result<State, String>)
    ensures
        state.version == 1 ==> r == Ok::<State, String>(state),
        state.version != 1 ==> (r matches Err(m) && m@ == version_error(path@, state.version)),
{
    if state.version == 1 {
        Ok(state)
    } else {
        let mut m = String::from_str(path);
        m.append(": unsupported state version ");
        m.append(decimal_string(state.version as usize).as_str());
        m.append(" (this italic understands version 1)");
        Err(m)
    }
}

} // verus!
