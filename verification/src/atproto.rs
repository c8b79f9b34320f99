//! The `atproto` layer: the records, keys and state that sync a built site to
//! the user's ATProto PDS as `site.standard.*` records, and the offline
//! decisions of a publish run — which docs get a Bluesky post, what the
//! publication record holds, and what each sync step does next.
pub mod bsky;
pub mod client;
pub mod compare;
pub mod config;
pub mod cover;
pub mod covers;
pub mod document;
pub mod state;
pub mod status;

use vstd::prelude::*;
use crate::atproto::bsky::{bsky_text, frontmatter_text, text_error, BskyTextError};
use crate::atproto::document::{
    basic_theme, publication, same_color, BlobRef, Publication, PUBLICATION_NSID,
    THEME_BASIC_NSID,
};
use crate::atproto::state::{state_key, PostRef, State};
use crate::doc::{data_get, day_number, day_of, lookup, DateTime, Doc, Yaml};
use crate::atproto::bsky::{preview, preview_spec};
use crate::atproto::cover::Cover;
use crate::atproto::document::{at_uri, canonical_url, document_rkey, publication_rkey, publication_uri, rkey_spec};
use crate::atproto::state::STATE_PATH;
use crate::permalink::to_url_spec;
use crate::text::{
    chars_of, concat, decimal, decimal_string, forward_slashes_spec, join, join_seq, lowercase,
    string_of_range, to_lowercase, trim, trim_seq, views,
};
use crate::doc::find_key;

verus! {

/// How a publish run behaves.
#[derive(Clone, Copy)]
pub struct Options {
    /// Build records and diff against state, but make no network calls.
    pub dry_run: bool,
    /// Skip the interactive confirmation before creating new Bluesky posts.
    pub yes: bool,
}

impl Default for Options {
    fn default() -> (o: Self)
        ensures
            !o.dry_run && !o.yes,
    {
        Options { dry_run: false, yes: false }
    }
}

/// Length of the prefix of `s` that ends at its last `/` (0 when there is none).
pub open spec fn last_slash_end(s: Seq<char>) -> int
    decreases s.len(),
{
    if s.len() == 0 {
        0
    } else if s.last() == '/' {
        s.len() as int
    } else {
        last_slash_end(s.drop_last())
    }
}

/// The end of the last `/` lies within the string.
pub proof fn lemma_last_slash_end_bounds(s: Seq<char>)
    ensures
        0 <= last_slash_end(s) <= s.len(),
    decreases s.len(),
{
    if s.len() > 0 && s.last() != '/' {
        lemma_last_slash_end_bounds(s.drop_last());
    }
}

/// The last `/`-separated segment of `s` (all of `s` when it has no `/`).
pub open spec fn last_segment(s: Seq<char>) -> Seq<char> {
    s.subrange(last_slash_end(s), s.len() as int)
}

/// Extract the rkey (last path segment) from an `at://did/collection/rkey` URI.
pub fn rkey_from_uri(uri: &str) -> (r: String)
    ensures
        r@ == last_segment(uri@),
{
    let v = chars_of(uri);
    let mut i = v.len();
    proof {
        assert(v@.take(v@.len() as int) =~= v@);
    }
    while i > 0 && v[i - 1] != '/'
        invariant
            i <= v@.len(),
            last_slash_end(v@.take(i as int)) == last_slash_end(v@),
        decreases i,
    {
        proof {
            assert(v@.take(i as int).drop_last() =~= v@.take(i - 1));
        }
        i = i - 1;
    }
    proof {
        if i > 0 {
            assert(v@.take(i as int).last() == '/');
        }
        lemma_last_slash_end_bounds(v@);
    }
    string_of_range(&v, i, v.len())
}

/// A Bluesky post that would be created this run: the doc (by index into the
/// planned docs) and its post text.
pub struct PendingPost {
    pub doc: usize,
    pub text: String,
}

/// The outcome of post planning.
pub struct BskyPlan {
    /// The posts to create, in doc order.
    pub pending: Vec<PendingPost>,
    /// Docs with usable post text and no post yet, dated before the cutoff.
    pub skipped_old: usize,
    /// With posting disabled: how many docs carry `bsky:` frontmatter anyway
    /// (0 when posting is enabled).
    pub inert_opt_ins: usize,
}

/// The pending posts as (doc index, text) pairs.
pub open spec fn pending_view(p: Seq<PendingPost>) -> Seq<(int, Seq<char>)> {
    p.map_values(|x: PendingPost| (x.doc as int, x.text@))
}

/// The doc already has a recorded post.
pub open spec fn posted(doc: Doc, posts: Seq<(String, PostRef)>) -> bool {
    lookup(posts, forward_slashes_spec(doc.id_path@)) is Some
}

/// Post planning over the first `n` docs: the pending (index, text) pairs and
/// the number of docs skipped for being older than `cutoff` (a day number).
pub open spec fn plan_prefix(
    docs: Seq<Doc>,
    posts: Seq<(String, PostRef)>,
    cutoff: int,
    n: int,
) -> (Seq<(int, Seq<char>)>, nat)
    decreases n,
{
    if n <= 0 {
        (Seq::empty(), 0)
    } else {
        let (p, k) = plan_prefix(docs, posts, cutoff, n - 1);
        let d = docs[n - 1];
        match bsky_text(d) {
            Some(Some(t)) => if posted(d, posts) {
                (p, k)
            } else if day_number(d.date) < cutoff {
                (p, k + 1)
            } else {
                (p.push((n - 1, t)), k)
            },
            _ => (p, k),
        }
    }
}

/// Posts are create-once and respect the cutoff: every planned post is for a
/// doc (in order, each at most once) with usable `bsky:` text, no recorded
/// post, and a date on or after the cutoff day — and carries that text.
pub proof fn lemma_plan_create_once(
    docs: Seq<Doc>,
    posts: Seq<(String, PostRef)>,
    cutoff: int,
    n: int,
)
    requires
        0 <= n <= docs.len(),
    ensures
        ({
            let p = plan_prefix(docs, posts, cutoff, n).0;
            &&& forall|k: int|
                0 <= k < p.len() ==> {
                    let (i, t) = #[trigger] p[k];
                    &&& 0 <= i < n
                    &&& bsky_text(docs[i]) == Some(Some(t))
                    &&& !posted(docs[i], posts)
                    &&& day_number(docs[i].date) >= cutoff
                }
            &&& forall|k: int, l: int| 0 <= k < l < p.len() ==> (#[trigger] p[k]).0 < (#[trigger] p[l]).0
        }),
    decreases n,
{
    if n > 0 {
        lemma_plan_create_once(docs, posts, cutoff, n - 1);
    }
}

/// How many of the first `n` docs carry a `bsky:` key at all.
pub open spec fn opted_in(docs: Seq<Doc>, n: int) -> nat
    decreases n,
{
    if n <= 0 {
        0
    } else if lookup(docs[n - 1].data@, "bsky"@) is Some {
        opted_in(docs, n - 1) + 1
    } else {
        opted_in(docs, n - 1)
    }
}

/// `r` is the planning outcome for `docs` against the recorded `posts` with
/// the given cutoff day.
pub open spec fn planned(
    enabled: bool,
    docs: Seq<Doc>,
    posts: Seq<(String, PostRef)>,
    cutoff: int,
    r: Result<BskyPlan, BskyTextError>,
) -> bool {
    if !enabled {
        r matches Ok(p) && p.pending@.len() == 0 && p.skipped_old == 0 && p.inert_opt_ins
            == opted_in(docs, docs.len() as int)
    } else if forall|i: int| 0 <= i < docs.len() ==> (#[trigger] bsky_text(docs[i])) is Some {
        r matches Ok(p) && pending_view(p.pending@) == plan_prefix(
            docs,
            posts,
            cutoff,
            docs.len() as int,
        ).0 && p.skipped_old == plan_prefix(docs, posts, cutoff, docs.len() as int).1
            && p.inert_opt_ins == 0
    } else {
        r matches Err(e) && exists|j: int|
            0 <= j < docs.len() && bsky_text(#[trigger] docs[j]) is None && text_error(docs[j], e)
                && forall|i: int| 0 <= i < j ==> (#[trigger] bsky_text(docs[i])) is Some
    }
}

fn count_opted_in(docs: &Vec<Doc>) -> (n: usize)
    ensures
        n == opted_in(docs@, docs@.len() as int),
{
    let mut n: usize = 0;
    let mut i: usize = 0;
    while i < docs.len()
        invariant
            i <= docs@.len(),
            n == opted_in(docs@, i as int),
            n <= i,
        decreases docs@.len() - i,
    {
        if data_get(&docs[i].data, "bsky").is_some() {
            n = n + 1;
        }
        i = i + 1;
    }
    n
}

/// Decide which docs get a new Bluesky post: opted in via `bsky:`
/// frontmatter, not already in `state` (create-once), and dated on or after
/// the `cutoff` day. Nothing is planned when posting is disabled. The first
/// doc (in order) with an unusable `bsky:` value fails the plan.
pub fn plan_bsky_posts_with_cutoff(
    bsky: &config::Bsky,
    docs: &Vec<Doc>,
    state: &State,
    cutoff: i64,
) -> (r: Result<BskyPlan, BskyTextError>)
    ensures
        planned(bsky.enabled, docs@, state.posts@, cutoff as int, r),
{
    if !bsky.enabled {
        let n = count_opted_in(docs);
        return Ok(BskyPlan { pending: Vec::new(), skipped_old: 0, inert_opt_ins: n });
    }
    let ghost posts = state.posts@;
    let mut pending: Vec<PendingPost> = Vec::new();
    let mut skipped_old: usize = 0;
    let mut i: usize = 0;
    while i < docs.len()
        invariant
            i <= docs@.len(),
            bsky.enabled,
            posts == state.posts@,
            forall|k: int| 0 <= k < i ==> (#[trigger] bsky_text(docs@[k])) is Some,
            pending_view(pending@) == plan_prefix(docs@, posts, cutoff as int, i as int).0,
            skipped_old == plan_prefix(docs@, posts, cutoff as int, i as int).1,
            skipped_old <= i,
        decreases docs@.len() - i,
    {
        let doc = &docs[i];
        match frontmatter_text(doc) {
            Err(e) => {
                proof {
                    assert(bsky_text(docs@[i as int]) is None);
                    assert(exists|j: int|
                        0 <= j < docs@.len() && bsky_text(#[trigger] docs@[j]) is None
                            && text_error(docs@[j], e) && forall|k: int|
                            0 <= k < j ==> (#[trigger] bsky_text(docs@[k])) is Some);
                }
                return Err(e);
            },
            Ok(None) => {},
            Ok(Some(text)) => {
                let key = state_key(doc);
                if find_key(&state.posts, key.as_str()).is_some() {
                } else if day_of(&doc.date) < cutoff {
                    skipped_old = skipped_old + 1;
                } else {
                    let ghost before = pending@;
                    pending.push(PendingPost { doc: i, text });
                    proof {
                        assert(pending_view(pending@) =~= pending_view(before).push(
                            (i as int, pending@.last().text@),
                        ));
                    }
                }
            },
        }
        i = i + 1;
    }
    Ok(BskyPlan { pending, skipped_old, inert_opt_ins: 0 })
}

/// `chrono::Utc::now().timestamp()`: the current Unix time in seconds. The
/// value depends on the clock, so nothing is stated of it.
#[verifier::external_body]
fn now_secs() -> (r: i64) {
    chrono::Utc::now().timestamp()
}

/// How many days before today the default cutoff lies.
pub const DEFAULT_CUTOFF_DAYS: i64 = 3;

/// The default cutoff day when the Unix time is `now`: the day
/// [`DEFAULT_CUTOFF_DAYS`] before the (UTC) day `now` falls on.
pub open spec fn default_cutoff_spec(now: i64) -> int {
    day_number(DateTime { secs: now, nanos: 0 }) - DEFAULT_CUTOFF_DAYS
}

/// The default cutoff day at Unix time `now`.
pub fn default_cutoff(now: i64) -> (c: i64)
    ensures
        c == default_cutoff_spec(now),
{
    let today = day_of(&DateTime { secs: now, nanos: 0 });
    today - DEFAULT_CUTOFF_DAYS
}

/// [`plan_bsky_posts_with_cutoff`] with the configured cutoff, or by default
/// the day [`DEFAULT_CUTOFF_DAYS`] before today (UTC) — which guards a first
/// publish over an old archive from mass-posting.
pub fn plan_bsky_posts(bsky: &config::Bsky, docs: &Vec<Doc>, state: &State) -> (r: Result<
    BskyPlan,
    BskyTextError,
>)
    ensures
        bsky.since matches Some(c) ==> planned(bsky.enabled, docs@, state.posts@, c as int, r),
        bsky.since is None ==> exists|now: i64|
            planned(bsky.enabled, docs@, state.posts@, #[trigger] default_cutoff_spec(now), r),
{
    match bsky.since {
        Some(c) => plan_bsky_posts_with_cutoff(bsky, docs, state, c),
        None => {
            let now = now_secs();
            let r = plan_bsky_posts_with_cutoff(bsky, docs, state, default_cutoff(now));
            proof {
                assert(planned(bsky.enabled, docs@, state.posts@, default_cutoff_spec(now), r));
            }
            r
        },
    }
}

/// Why the site configuration cannot be published.
pub enum PublishError {
    /// `site.url` is unset, so document record keys cannot be derived.
    NoRecordOrigin,
    /// `site.url` is unset.
    MissingSiteUrl,
    /// `site.title` is unset (or not a string).
    MissingTitle,
}

impl PublishError {
    /// The error as the user sees it.
    pub fn message(&self) -> (m: String)
        ensures
            *self is NoRecordOrigin ==> m@
                == "site.url is required to publish documents — it disambiguates record keys so multiple sites can share one PDS"@,
            *self is MissingSiteUrl ==> m@
                == "site.url is required to publish — it becomes the publication record's url"@,
            *self is MissingTitle ==> m@ == "site.title is required to publish — it becomes the publication record's name (set it under `site:` in config.yaml)"@,
    {
        match self {
            PublishError::NoRecordOrigin => String::from_str(
                "site.url is required to publish documents — it disambiguates record keys so multiple sites can share one PDS",
            ),
            PublishError::MissingSiteUrl => String::from_str(
                "site.url is required to publish — it becomes the publication record's url",
            ),
            PublishError::MissingTitle => String::from_str(
                "site.title is required to publish — it becomes the publication record's name (set it under `site:` in config.yaml)",
            ),
        }
    }
}

/// What a publish run does once its records and planned posts are built.
pub enum PublishStep {
    /// Report what would change, and touch nothing.
    DryRun,
    /// List the new posts and ask before any network work.
    Confirm,
    /// Go straight to the sync.
    Sync,
}

/// The order of a publish run: without `site.url` nothing is published (record
/// keys come from the absolute URL, so two sites on one PDS would collide); a
/// dry run stops at the report; new posts are confirmed first unless `yes`.
pub fn publish_step(site_url: Option<&str>, dry_run: bool, yes: bool, pending: usize) -> (r:
    Result<PublishStep, PublishError>)
    ensures
        site_url is None ==> r matches Err(PublishError::NoRecordOrigin),
        site_url is Some && dry_run ==> r matches Ok(PublishStep::DryRun),
        site_url is Some && !dry_run && !yes && pending > 0 ==> r matches Ok(PublishStep::Confirm),
        site_url is Some && !dry_run && (yes || pending == 0) ==> r matches Ok(PublishStep::Sync),
{
    if site_url.is_none() {
        return Err(PublishError::NoRecordOrigin);
    }
    if dry_run {
        Ok(PublishStep::DryRun)
    } else if pending > 0 && !yes {
        Ok(PublishStep::Confirm)
    } else {
        Ok(PublishStep::Sync)
    }
}

/// A string field of the `site:` data.
pub open spec fn site_str(site: Seq<(String, Yaml)>, key: Seq<char>) -> Option<Seq<char>> {
    match lookup(site, key) {
        Some(Yaml::Str(s)) => Some(s@),
        _ => None,
    }
}

fn site_string(site: &Vec<(String, Yaml)>, key: &str) -> (r: Option<String>)
    ensures
        r matches Some(s) ==> site_str(site@, key@) == Some(s@),
        r is None ==> site_str(site@, key@) is None,
{
    match data_get(site, key) {
        Some(Yaml::Str(s)) => Some(s.clone()),
        _ => None,
    }
}

/// Build the expected `site.standard.publication` record from site config —
/// `site.title` → name (required), `site.url` + `base_path` → url,
/// `site.description` → description, the configured theme → basicTheme.
/// `icon` is the caller's blob ref (locally derived or freshly uploaded).
pub fn publication_record(
    site_url: Option<&str>,
    base_path: &str,
    site: &Vec<(String, Yaml)>,
    theme: Option<&config::BasicTheme>,
    icon: Option<BlobRef>,
) -> (r: Result<Publication, PublishError>)
    ensures
        site_str(site@, "title"@) is None ==> r matches Err(PublishError::MissingTitle),
        site_str(site@, "title"@) is Some && site_url is None ==> r matches Err(
            PublishError::MissingSiteUrl,
        ),
        site_str(site@, "title"@) matches Some(t) ==> (site_url matches Some(u) ==> (r matches Ok(
            p,
        ) && p.type_@ == PUBLICATION_NSID@ && p.name@ == t && p.url@ == u@ + base_path@
            && p.icon == icon && (p.description matches Some(d) ==> site_str(
            site@,
            "description"@,
        ) == Some(d@)) && (p.description is None ==> site_str(site@, "description"@) is None)
            && (theme is None ==> p.basic_theme is None) && (theme matches Some(th) ==> (
        p.basic_theme matches Some(bt) && bt.type_@ == THEME_BASIC_NSID@ && same_color(
            bt.background,
            th.background,
        ) && same_color(bt.foreground, th.foreground) && same_color(bt.accent, th.accent)
            && same_color(bt.accent_foreground, th.accent_foreground))))),
{
    let name = match site_string(site, "title") {
        Some(n) => n,
        None => {
            return Err(PublishError::MissingTitle);
        },
    };
    let origin = match site_url {
        Some(u) => u,
        None => {
            return Err(PublishError::MissingSiteUrl);
        },
    };
    let url = concat(origin, base_path);
    let description = site_string(site, "description");
    let basic = match theme {
        Some(th) => Some(basic_theme(th)),
        None => None,
    };
    Ok(publication(name, url, description, icon, basic))
}

/// What the sync loop reports back after each step it performed.
pub enum SyncEvent {
    /// The loop reached the next doc; whether a post is planned for it.
    DocStarted(bool),
    /// The doc's post was created and recorded (and saved) in the state file.
    PostCreated,
    /// The doc's expected record was compared with the PDS copy; whether they
    /// are identical.
    RecordCompared(bool),
    /// The doc's changed record was put at its rkey.
    RecordPut,
}

/// The next step of the sync loop.
pub enum SyncAction {
    /// Upload the cover thumbnail, create the doc's post, record it in state
    /// and save the state file at once.
    CreatePost,
    /// Build the doc's expected record (with its post ref from state) and
    /// compare it against the value the PDS holds.
    CompareRecord,
    /// Upload the cover for real and put the record at its stable rkey.
    PutRecord,
    /// Move on to the next doc.
    NextDoc,
}

/// What a sync run has done so far.
#[derive(Clone, Copy)]
pub struct SyncTally {
    pub put: usize,
    pub unchanged: usize,
    pub posts_created: usize,
}

/// One when `b` holds, else zero.
pub open spec fn one_if(b: bool) -> int {
    if b { 1 } else { 0 }
}

/// The tally after event `e`: a created post, an identical record and a put
/// record each count once in their own field.
pub open spec fn tally_after(t: SyncTally, e: SyncEvent) -> SyncTally {
    SyncTally {
        put: (t.put + one_if(e is RecordPut)) as usize,
        unchanged: (t.unchanged + one_if(e == SyncEvent::RecordCompared(true))) as usize,
        posts_created: (t.posts_created + one_if(e is PostCreated)) as usize,
    }
}

/// The step that follows event `e`: a started doc with a pending post gets it
/// first, every doc is then compared, a changed record is put, and the loop
/// moves on once the record is settled.
pub open spec fn next_action(e: SyncEvent) -> SyncAction {
    match e {
        SyncEvent::DocStarted(true) => SyncAction::CreatePost,
        SyncEvent::DocStarted(false) | SyncEvent::PostCreated => SyncAction::CompareRecord,
        SyncEvent::RecordCompared(false) => SyncAction::PutRecord,
        SyncEvent::RecordCompared(true) | SyncEvent::RecordPut => SyncAction::NextDoc,
    }
}

/// The sync loop's decision: the tally after `e` and the next step.
pub open spec fn sync_next(t: SyncTally, e: SyncEvent) -> (SyncTally, SyncAction) {
    (tally_after(t, e), next_action(e))
}

/// One step of the sync loop: a doc with a pending post gets its post first
/// (so the record can reference it), every doc's record is compared with the
/// PDS copy, identical records are skipped and changed ones are put.
pub fn sync_step(tally: SyncTally, event: SyncEvent) -> (r: (SyncTally, SyncAction))
    requires
        tally.put < usize::MAX,
        tally.unchanged < usize::MAX,
        tally.posts_created < usize::MAX,
    ensures
        r == sync_next(tally, event),
{
    match event {
        SyncEvent::DocStarted(pending) => if pending {
            (tally, SyncAction::CreatePost)
        } else {
            (tally, SyncAction::CompareRecord)
        },
        SyncEvent::PostCreated => (
            SyncTally {
                put: tally.put,
                unchanged: tally.unchanged,
                posts_created: tally.posts_created + 1,
            },
            SyncAction::CompareRecord,
        ),
        SyncEvent::RecordCompared(same) => if same {
            (
                SyncTally {
                    put: tally.put,
                    unchanged: tally.unchanged + 1,
                    posts_created: tally.posts_created,
                },
                SyncAction::NextDoc,
            )
        } else {
            (tally, SyncAction::PutRecord)
        },
        SyncEvent::RecordPut => (
            SyncTally {
                put: tally.put + 1,
                unchanged: tally.unchanged,
                posts_created: tally.posts_created,
            },
            SyncAction::NextDoc,
        ),
    }
}

/// The events one doc produces when each step is carried out as decided:
/// started, post created (when one is pending), compared, and put (when the
/// record changed).
pub open spec fn doc_events(pending: bool, same: bool) -> Seq<SyncEvent> {
    seq![SyncEvent::DocStarted(pending)] + (if pending {
        seq![SyncEvent::PostCreated]
    } else {
        Seq::empty()
    }) + seq![SyncEvent::RecordCompared(same)] + (if same {
        Seq::empty()
    } else {
        seq![SyncEvent::RecordPut]
    })
}

/// The tally and last decision after a run of events.
pub open spec fn run_events(t: SyncTally, es: Seq<SyncEvent>) -> (SyncTally, SyncAction)
    decreases es.len(),
{
    if es.len() == 0 {
        (t, SyncAction::NextDoc)
    } else if es.len() == 1 {
        sync_next(t, es[0])
    } else {
        run_events(sync_next(t, es[0]).0, es.drop_first())
    }
}

/// Every doc ends the sync either put or unchanged, never both: its events
/// end in `NextDoc`, add exactly one to `put + unchanged` (to `unchanged`
/// exactly when the PDS copy was identical), and create a post exactly when
/// one was pending.
pub proof fn lemma_sync_doc_outcome(t: SyncTally, pending: bool, same: bool)
    requires
        t.put < usize::MAX,
        t.unchanged < usize::MAX,
        t.posts_created < usize::MAX,
    ensures
        ({
            let (u, last) = run_events(t, doc_events(pending, same));
            &&& last is NextDoc
            &&& u.put + u.unchanged == t.put + t.unchanged + 1
            &&& (u.unchanged == t.unchanged + 1) == same
            &&& u.posts_created == t.posts_created + if pending { 1int } else { 0int }
        }),
{
    reveal_with_fuel(run_events, 5);
    let es = doc_events(pending, same);
    if pending {
        if same {
            assert(es =~= seq![SyncEvent::DocStarted(true), SyncEvent::PostCreated, SyncEvent::RecordCompared(true)]);
        } else {
            assert(es =~= seq![SyncEvent::DocStarted(true), SyncEvent::PostCreated, SyncEvent::RecordCompared(false), SyncEvent::RecordPut]);
        }
    } else {
        if same {
            assert(es =~= seq![SyncEvent::DocStarted(false), SyncEvent::RecordCompared(true)]);
        } else {
            assert(es =~= seq![SyncEvent::DocStarted(false), SyncEvent::RecordCompared(false), SyncEvent::RecordPut]);
        }
    }
}

impl SyncTally {
    /// The closing report of a sync run.
    pub fn summary(&self) -> (lines: Vec<String>)
        ensures
            self.posts_created > 0 ==> views(lines@) == seq!["done: "@ + decimal(self.put as nat)
                + " put, "@ + decimal(self.unchanged as nat) + " unchanged, "@ + decimal(
                self.posts_created as nat,
            ) + " post(s) created"@, "note: commit "@ + STATE_PATH@
                + " — it prevents duplicate posts"@],
            self.posts_created == 0 ==> views(lines@) == seq!["done: "@ + decimal(self.put as nat)
                + " put, "@ + decimal(self.unchanged as nat) + " unchanged"@],
    {
        let mut done = String::from_str("done: ");
        done.append(decimal_string(self.put).as_str());
        done.append(" put, ");
        done.append(decimal_string(self.unchanged).as_str());
        let mut lines: Vec<String> = Vec::new();
        if self.posts_created > 0 {
            done.append(" unchanged, ");
            done.append(decimal_string(self.posts_created).as_str());
            done.append(" post(s) created");
            let mut note = String::from_str("note: commit ");
            note.append(STATE_PATH);
            note.append(" — it prevents duplicate posts");
            lines.push(done);
            lines.push(note);
            proof {
                assert(views(lines@) =~= seq![lines@[0]@, lines@[1]@]);
            }
        } else {
            done.append(" unchanged");
            lines.push(done);
            proof {
                assert(views(lines@) =~= seq![lines@[0]@]);
            }
        }
        lines
    }
}

/// Whether a confirmation answer accepts: `y` or `yes` in any case, ignoring
/// surrounding whitespace.
pub open spec fn accepts(answer: Seq<char>) -> bool {
    let a = lowercase(trim_seq(answer));
    a == "y"@ || a == "yes"@
}

/// Decide a typed answer to the "create N post(s)?" prompt.
pub fn confirmed(answer: &str) -> (r: bool)
    ensures
        r == accepts(answer@),
{
    let t = trim(answer);
    let a = to_lowercase(t.as_str());
    crate::text::str_eq(a.as_str(), "y") || crate::text::str_eq(a.as_str(), "yes")
}

/// The note a dry run prints after a doc's line about its cover.
pub open spec fn cover_note(c: Cover) -> Seq<char> {
    match c {
        Cover::Resolved(p, s) => ", cover: "@ + p@ + " (from "@ + s@ + ")"@,
        Cover::External(u) => ", cover: skipped — external URL "@ + u@,
        Cover::Missing(raw, s) => ", cover: skipped — "@ + s@ + " "@ + raw@
            + " not found in static roots"@,
        Cover::Absent => Seq::empty(),
    }
}

fn cover_note_text(c: &Cover) -> (r: String)
    ensures
        r@ == cover_note(*c),
{
    match c {
        Cover::Resolved(p, s) => {
            let mut r = String::from_str(", cover: ");
            r.append(p.as_str());
            r.append(" (from ");
            r.append(s);
            r.append(")");
            r
        },
        Cover::External(u) => {
            let mut r = String::from_str(", cover: skipped — external URL ");
            r.append(u.as_str());
            r
        },
        Cover::Missing(raw, s) => {
            let mut r = String::from_str(", cover: skipped — ");
            r.append(s);
            r.append(" ");
            r.append(raw.as_str());
            r.append(" not found in static roots");
            r
        },
        Cover::Absent => String::new(),
    }
}

/// The dry-run line for the publication record.
pub open spec fn publication_line(did: Option<Seq<char>>, site_url: Seq<char>) -> Seq<char> {
    match did {
        Some(d) => "  put publication "@ + at_uri(d, PUBLICATION_NSID@, rkey_spec(site_url)),
        None => "  put publication rkey="@ + rkey_spec(site_url)
            + " (set ITALIC_ATPROTO_DID to preview the AT-URI)"@,
    }
}

/// The dry-run line for one doc's record.
pub open spec fn doc_line(doc: Doc, cover: Cover, site_url: Seq<char>, base_path: Seq<char>) -> Seq<
    char,
> {
    "    put "@ + doc.id_path@ + " (rkey="@ + rkey_spec(
        site_url + base_path + to_url_spec(doc.output_path@),
    ) + ")"@ + cover_note(cover)
}

/// The dry-run line for one pending post.
pub open spec fn post_line(doc: Doc, text: Seq<char>) -> Seq<char> {
    "    create post for "@ + doc.id_path@ + " — \""@ + preview_spec(text, 60) + "\""@
}

/// Everything a dry run prints, line by line.
pub open spec fn dry_run_spec(
    site_url: Seq<char>,
    base_path: Seq<char>,
    did: Option<Seq<char>>,
    collections: Seq<Seq<char>>,
    docs: Seq<Doc>,
    covers: Seq<Cover>,
    bsky_enabled: bool,
    pending: Seq<PendingPost>,
    existing_posts: nat,
) -> Seq<Seq<char>> {
    seq![
        "atproto publish --dry-run (no network calls)"@,
        publication_line(did, site_url),
        "  documents ("@ + join_seq(collections, ", "@) + "):"@,
    ] + Seq::new(docs.len(), |i: int| doc_line(docs[i], covers[i], site_url, base_path)) + if bsky_enabled {
        seq!["  bsky posts ("@ + decimal(pending.len()) + "):"@] + Seq::new(
            pending.len(),
            |i: int| post_line(docs[pending[i].doc as int], pending[i].text@),
        ) + if existing_posts > 0 {
            seq![
                "    "@ + decimal(existing_posts) + " existing post(s) in "@ + STATE_PATH@
                    + " (never touched)"@,
            ]
        } else {
            Seq::empty()
        }
    } else {
        Seq::empty()
    }
}

/// What a real run would do, without any network calls: the publication
/// put, one put per doc (with its cover resolution), and — when posting is
/// enabled — the posts that would be created. `covers[i]` is doc `i`'s
/// resolved cover; `did` the account DID when known.
pub fn dry_run(
    site_url: &str,
    base_path: &str,
    did: Option<&str>,
    collections: &Vec<String>,
    docs: &Vec<Doc>,
    covers: &Vec<Cover>,
    bsky_enabled: bool,
    pending: &Vec<PendingPost>,
    existing_posts: usize,
) -> (lines: Vec<String>)
    requires
        covers@.len() == docs@.len(),
        forall|i: int| 0 <= i < pending@.len() ==> (#[trigger] pending@[i]).doc < docs@.len(),
    ensures
        views(lines@) == dry_run_spec(
            site_url@,
            base_path@,
            match did {
                Some(d) => Some(d@),
                None => None,
            },
            views(collections@),
            docs@,
            covers@,
            bsky_enabled,
            pending@,
            existing_posts as nat,
        ),
{
    let mut lines: Vec<String> = Vec::new();
    lines.push(String::from_str("atproto publish --dry-run (no network calls)"));
    let publication_text = match did {
        Some(d) => {
            let mut l = String::from_str("  put publication ");
            l.append(publication_uri(d, site_url).as_str());
            l
        },
        None => {
            let mut l = String::from_str("  put publication rkey=");
            l.append(publication_rkey(site_url).as_str());
            l.append(" (set ITALIC_ATPROTO_DID to preview the AT-URI)");
            l
        },
    };
    lines.push(publication_text);
    let mut header = String::from_str("  documents (");
    header.append(join(collections, ", ").as_str());
    header.append("):");
    lines.push(header);
    let ghost head = views(lines@);
    let mut i: usize = 0;
    while i < docs.len()
        invariant
            i <= docs@.len(),
            covers@.len() == docs@.len(),
            head.len() == 3,
            views(lines@) == head + Seq::new(
                i as nat,
                |k: int| doc_line(docs@[k], covers@[k], site_url@, base_path@),
            ),
        decreases docs@.len() - i,
    {
        let doc = &docs[i];
        let url = canonical_url(doc, Some(site_url), base_path);
        let mut l = String::from_str("    put ");
        l.append(doc.id_path.as_str());
        l.append(" (rkey=");
        l.append(document_rkey(url.as_str()).as_str());
        l.append(")");
        l.append(cover_note_text(&covers[i]).as_str());
        let ghost before = views(lines@);
        lines.push(l);
        proof {
            assert(views(lines@) =~= before.push(doc_line(docs@[i as int], covers@[i as int], site_url@, base_path@)));
            assert(head + Seq::new(
                (i + 1) as nat,
                |k: int| doc_line(docs@[k], covers@[k], site_url@, base_path@),
            ) =~= (head + Seq::new(
                i as nat,
                |k: int| doc_line(docs@[k], covers@[k], site_url@, base_path@),
            )).push(doc_line(docs@[i as int], covers@[i as int], site_url@, base_path@)));
        }
        i = i + 1;
    }
    let ghost body = views(lines@);
    if bsky_enabled {
        let mut h = String::from_str("  bsky posts (");
        h.append(decimal_string(pending.len()).as_str());
        h.append("):");
        lines.push(h);
        let ghost top = views(lines@);
        let mut j: usize = 0;
        while j < pending.len()
            invariant
                j <= pending@.len(),
                forall|k: int| 0 <= k < pending@.len() ==> (#[trigger] pending@[k]).doc < docs@.len(),
                views(lines@) == top + Seq::new(
                    j as nat,
                    |k: int| post_line(docs@[pending@[k].doc as int], pending@[k].text@),
                ),
            decreases pending@.len() - j,
        {
            let p = &pending[j];
            let mut l = String::from_str("    create post for ");
            l.append(docs[p.doc].id_path.as_str());
            l.append(" — \"");
            l.append(preview(p.text.as_str(), 60).as_str());
            l.append("\"");
            let ghost before = views(lines@);
            lines.push(l);
            proof {
                assert(views(lines@) =~= before.push(post_line(docs@[pending@[j as int].doc as int], pending@[j as int].text@)));
                assert(top + Seq::new(
                    (j + 1) as nat,
                    |k: int| post_line(docs@[pending@[k].doc as int], pending@[k].text@),
                ) =~= (top + Seq::new(
                    j as nat,
                    |k: int| post_line(docs@[pending@[k].doc as int], pending@[k].text@),
                )).push(post_line(docs@[pending@[j as int].doc as int], pending@[j as int].text@)));
            }
            j = j + 1;
        }
        let ghost posts_part = views(lines@);
        if existing_posts > 0 {
            let mut l = String::from_str("    ");
            l.append(decimal_string(existing_posts).as_str());
            l.append(" existing post(s) in ");
            l.append(STATE_PATH);
            l.append(" (never touched)");
            lines.push(l);
            proof {
                assert(views(lines@) =~= posts_part + seq![
                    "    "@ + decimal(existing_posts as nat) + " existing post(s) in "@ + STATE_PATH@
                        + " (never touched)"@,
                ]);
            }
        } else {
            proof {
                assert(views(lines@) =~= posts_part + Seq::<Seq<char>>::empty());
            }
        }
        proof {
            assert(top =~= body + seq!["  bsky posts ("@ + decimal(pending@.len()) + "):"@]);
        }
    } else {
        proof {
            assert(views(lines@) =~= body + Seq::<Seq<char>>::empty());
        }
    }
    proof {
        let did_view = match did {
            Some(d) => Some(d@),
            None => None,
        };
        assert(head =~= seq![
            "atproto publish --dry-run (no network calls)"@,
            publication_line(did_view, site_url@),
            "  documents ("@ + join_seq(views(collections@), ", "@) + "):"@,
        ]);
        assert(views(lines@) =~= dry_run_spec(
            site_url@,
            base_path@,
            did_view,
            views(collections@),
            docs@,
            covers@,
            bsky_enabled,
            pending@,
            existing_posts as nat,
        ));
    }
    lines
}

} // verus!
