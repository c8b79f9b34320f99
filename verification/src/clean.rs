//! `italic clean` — empty the output directory except what the site's
//! `keep_files` globs match. The directory itself always stays; a matching
//! entry is kept whole (a matching directory is not descended into); any
//! other directory is emptied the same way and then removed unless something
//! inside it was kept.
use vstd::prelude::*;
use crate::text::views;

verus! {

#[verifier::external_type_specification]
#[verifier::external_body]
pub struct ExGlobSet(globset::GlobSet);

#[verifier::external_type_specification]
#[verifier::external_body]
pub struct ExGlob(globset::Glob);

/// Whether `GlobBuilder::new(pattern).literal_separator(true).build()`
/// accepts the pattern.
pub uninterp spec fn keep_glob_builds(pattern: Seq<char>) -> bool;

/// Whether the set of the patterns' globs (each built with a literal `/`
/// separator) matches the relative path `rel`, as `GlobSet::is_match` decides.
pub uninterp spec fn keep_set_matches(patterns: Seq<Seq<char>>, rel: Seq<char>) -> bool;

/// `GlobBuilder::new(pattern).literal_separator(true).build()`: `*` and `?`
/// do not cross a `/`. Whether it succeeds is named by [`keep_glob_builds`];
/// the error's text is globset's own.
#[verifier::external_body]
fn keep_glob(pattern: &str) -> (r: Result<globset::Glob, String>)
    ensures
        r is Ok == keep_glob_builds(pattern@),
{
    globset::GlobBuilder::new(pattern).literal_separator(true).build().map_err(|e| e.to_string())
}

/// `GlobSet::new` over the built globs. Its source returns the empty set at
/// once when there are no globs; otherwise building the matchers can fail on
/// regex size limits, so nothing more is stated.
#[verifier::external_body]
fn keep_set(globs: &Vec<globset::Glob>) -> (r: Result<globset::GlobSet, String>)
    ensures
        globs@.len() == 0 ==> r is Ok,
{
    globset::GlobSet::new(globs.iter()).map_err(|e| e.to_string())
}

/// The `keep_files` globs of a site: the patterns as written, and the set
/// built from them.
pub struct KeepFiles {
    patterns: Vec<String>,
    set: globset::GlobSet,
}

/// Why a `keep_files` list could not be turned into a glob set.
pub enum KeepFilesError {
    /// The pattern at this index is not a valid glob; globset's message.
    InvalidGlob { index: usize, message: String },
    /// The globs parsed but the set could not be built; globset's message.
    SetBuild(String),
}

impl KeepFiles {
    /// The patterns the set was built from.
    pub closed spec fn patterns(&self) -> Seq<Seq<char>> {
        views(self.patterns@)
    }

    /// Build the glob set of `patterns`, each with a literal `/` separator.
    /// Fails at the first pattern that is not a glob; an empty list always
    /// builds, and matches nothing.
    pub fn new(patterns: &Vec<String>) -> (r: Result<KeepFiles, KeepFilesError>)
        ensures
            match r {
                Ok(k) => k.patterns() == views(patterns@) && forall|i: int|
                    0 <= i < patterns@.len() ==> keep_glob_builds(#[trigger] patterns@[i]@),
                Err(KeepFilesError::InvalidGlob { index, .. }) => index < patterns@.len()
                    && !keep_glob_builds(patterns@[index as int]@) && forall|i: int|
                    0 <= i < index ==> keep_glob_builds(#[trigger] patterns@[i]@),
                Err(KeepFilesError::SetBuild(_)) => patterns@.len() > 0 && forall|i: int|
                    0 <= i < patterns@.len() ==> keep_glob_builds(#[trigger] patterns@[i]@),
            },
    {
        let mut globs: Vec<globset::Glob> = Vec::new();
        let mut copies: Vec<String> = Vec::new();
        let mut i: usize = 0;
        while i < patterns.len()
            invariant
                i <= patterns@.len(),
                globs@.len() == i,
                copies@.len() == i,
                forall|k: int| 0 <= k < i ==> (#[trigger] copies@[k])@ == patterns@[k]@,
                forall|k: int| 0 <= k < i ==> keep_glob_builds(#[trigger] patterns@[k]@),
            decreases patterns@.len() - i,
        {
            match keep_glob(patterns[i].as_str()) {
                Ok(g) => globs.push(g),
                Err(message) => {
                    return Err(KeepFilesError::InvalidGlob { index: i, message });
                },
            }
            copies.push(copy(&patterns[i]));
            i = i + 1;
        }
        proof {
            assert(views(copies@) =~= views(patterns@));
        }
        match keep_set(&globs) {
            Ok(set) => Ok(KeepFiles { patterns: copies, set }),
            Err(e) => Err(KeepFilesError::SetBuild(e)),
        }
    }
}

/// `GlobSet::is_match` of a relative path against the set built in
/// [`KeepFiles::new`], whose fields nothing else writes. The answer is
/// named by [`keep_set_matches`] over the patterns; the source answers
/// `false` at once for a set of no globs.
#[verifier::external_body]
fn glob_match(keep: &KeepFiles, rel: &str) -> (r: bool)
    ensures
        r == keep_set_matches(keep.patterns(), rel@),
        keep.patterns().len() == 0 ==> !r,
{
    keep.set.is_match(rel)
}

/// What an entry of the output directory is.
pub enum FsKind {
    /// A directory and its entries.
    Dir(Vec<FsEntry>),
    /// A file, or a symlink (which is never followed).
    File,
}

/// An entry of the output directory, by its path relative to it.
pub struct FsEntry {
    pub rel: String,
    /// Whether a `keep_files` glob matches the entry.
    pub kept: bool,
    pub kind: FsKind,
}

/// The contents of a directory, as a tree.
pub enum FsTree {
    Dir(Seq<FsNode>),
    File,
}

/// An entry of the tree.
pub struct FsNode {
    pub rel: Seq<char>,
    pub kept: bool,
    pub tree: FsTree,
}

/// The tree node of an entry.
pub open spec fn fsnode(e: FsEntry) -> FsNode
    decreases e, 0int,
{
    FsNode {
        rel: e.rel@,
        kept: e.kept,
        tree: match e.kind {
            FsKind::Dir(v) => FsTree::Dir(fsnodes(v@, v@.len() as int)),
            FsKind::File => FsTree::File,
        },
    }
}

/// The tree nodes of the first `n` entries.
pub open spec fn fsnodes(s: Seq<FsEntry>, n: int) -> Seq<FsNode>
    decreases s, n,
{
    if n <= 0 || n > s.len() {
        Seq::empty()
    } else {
        fsnodes(s, n - 1).push(fsnode(s[n - 1]))
    }
}

/// The tree of a directory's entries.
pub open spec fn entries_tree(v: Seq<FsEntry>) -> Seq<FsNode> {
    fsnodes(v, v.len() as int)
}

/// How many kept entries the first `n` nodes hold: a kept entry counts once
/// (a kept directory is not looked into), an unkept directory counts what
/// its own entries hold.
pub open spec fn kept_in(nodes: Seq<FsNode>, n: int) -> nat
    decreases nodes, n,
{
    if n <= 0 || n > nodes.len() {
        0
    } else {
        kept_in(nodes, n - 1) + if nodes[n - 1].kept {
            1nat
        } else {
            match nodes[n - 1].tree {
                FsTree::Dir(ch) => kept_in(ch, ch.len() as int),
                FsTree::File => 0nat,
            }
        }
    }
}

/// What emptying removes among the first `n` nodes, in order: an unkept
/// file, and an unkept directory's own removals followed by the directory
/// itself when nothing inside it was kept.
pub open spec fn removals(nodes: Seq<FsNode>, n: int) -> Seq<Seq<char>>
    decreases nodes, n,
{
    if n <= 0 || n > nodes.len() {
        Seq::empty()
    } else {
        removals(nodes, n - 1) + if nodes[n - 1].kept {
            Seq::<Seq<char>>::empty()
        } else {
            match nodes[n - 1].tree {
                FsTree::Dir(ch) => removals(ch, ch.len() as int) + if kept_in(ch, ch.len() as int) == 0 {
                    seq![nodes[n - 1].rel]
                } else {
                    Seq::<Seq<char>>::empty()
                },
                FsTree::File => seq![nodes[n - 1].rel],
            }
        }
    }
}

/// The number of entries in the first `n` nodes, at every depth.
pub open spec fn size(nodes: Seq<FsNode>, n: int) -> nat
    decreases nodes, n,
{
    if n <= 0 || n > nodes.len() {
        0
    } else {
        size(nodes, n - 1) + 1 + match nodes[n - 1].tree {
            FsTree::Dir(ch) => size(ch, ch.len() as int),
            FsTree::File => 0nat,
        }
    }
}

/// What is left of the first `n` nodes after emptying: the kept entries
/// (whole), and each unkept directory that still holds a kept entry, with
/// what is left of its own entries.
pub open spec fn survivors(nodes: Seq<FsNode>, n: int) -> Seq<FsNode>
    decreases nodes, n,
{
    if n <= 0 || n > nodes.len() {
        Seq::empty()
    } else {
        let rest = survivors(nodes, n - 1);
        let e = nodes[n - 1];
        if e.kept {
            rest.push(e)
        } else {
            match e.tree {
                FsTree::Dir(ch) => if kept_in(ch, ch.len() as int) > 0 {
                    let left = survivors(ch, ch.len() as int);
                    rest.push(FsNode { rel: e.rel, kept: false, tree: FsTree::Dir(left) })
                } else {
                    rest
                },
                FsTree::File => rest,
            }
        }
    }
}

proof fn lemma_fsnodes(s: Seq<FsEntry>, n: int)
    requires
        0 <= n <= s.len(),
    ensures
        fsnodes(s, n).len() == n,
        forall|k: int| 0 <= k < n ==> #[trigger] fsnodes(s, n)[k] == fsnode(s[k]),
    decreases n,
{
    if n > 0 {
        lemma_fsnodes(s, n - 1);
    }
}

proof fn lemma_prefix_stable(nodes: Seq<FsNode>, n: int)
    requires
        0 <= n <= nodes.len(),
    ensures
        kept_in(nodes, n) <= size(nodes, n),
    decreases nodes, n,
{
    if n > 0 {
        lemma_prefix_stable(nodes, n - 1);
        match nodes[n - 1].tree {
            FsTree::Dir(ch) => {
                lemma_prefix_stable(ch, ch.len() as int);
            },
            FsTree::File => {},
        }
    }
}

/// Emptying what is left removes nothing more, and leaves the same kept
/// entries: cleaning twice is harmless.
pub proof fn lemma_clean_idempotent(nodes: Seq<FsNode>, n: int)
    requires
        0 <= n <= nodes.len(),
    ensures
        removals(survivors(nodes, n), survivors(nodes, n).len() as int) == Seq::<Seq<char>>::empty(),
        kept_in(survivors(nodes, n), survivors(nodes, n).len() as int) == kept_in(nodes, n),
    decreases nodes, n,
{
    if n > 0 {
        lemma_clean_idempotent(nodes, n - 1);
        let rest = survivors(nodes, n - 1);
        let e = nodes[n - 1];
        let s = survivors(nodes, n);
        if e.kept || (e.tree is Dir && kept_in(e.tree->Dir_0, e.tree->Dir_0.len() as int) > 0) {
            assert(s == rest.push(s.last()));
            lemma_push_prefix(rest, s.last());
            if !e.kept {
                let ch = e.tree->Dir_0;
                lemma_clean_idempotent(ch, ch.len() as int);
            }
        } else {
            assert(s == rest);
        }
    }
}

/// The paths of the first `n` nodes that no glob keeps and that lie under no
/// kept directory: an unkept directory is listed with what it holds.
pub open spec fn unkept_rels(nodes: Seq<FsNode>, n: int) -> Seq<Seq<char>>
    decreases nodes, n,
{
    if n <= 0 || n > nodes.len() {
        Seq::empty()
    } else {
        unkept_rels(nodes, n - 1) + if nodes[n - 1].kept {
            Seq::<Seq<char>>::empty()
        } else {
            match nodes[n - 1].tree {
                FsTree::Dir(ch) => unkept_rels(ch, ch.len() as int).push(nodes[n - 1].rel),
                FsTree::File => seq![nodes[n - 1].rel],
            }
        }
    }
}

/// Cleaning keeps what `keep_files` matches: every path it removes is an
/// entry that no glob matched, reached only through directories that no glob
/// matched, so a kept entry and everything inside a kept directory stay.
pub proof fn lemma_clean_spares_kept(nodes: Seq<FsNode>, n: int, x: Seq<char>)
    requires
        0 <= n <= nodes.len(),
        removals(nodes, n).contains(x),
    ensures
        unkept_rels(nodes, n).contains(x),
    decreases nodes, n,
{
    let prev = removals(nodes, n - 1);
    let e = nodes[n - 1];
    let up = unkept_rels(nodes, n - 1);
    if prev.contains(x) {
        lemma_clean_spares_kept(nodes, n - 1, x);
        let j = choose|j: int| 0 <= j < up.len() && up[j] == x;
        assert(unkept_rels(nodes, n)[j] == x);
    } else {
        let i = choose|i: int| 0 <= i < removals(nodes, n).len() && removals(nodes, n)[i] == x;
        assert(i >= prev.len()) by {
            if i < prev.len() {
                assert(prev[i] == removals(nodes, n)[i]);
            }
        }
        assert(!e.kept);
        match e.tree {
            FsTree::Dir(ch) => {
                let inner = removals(ch, ch.len() as int);
                let k = i - prev.len();
                let u = unkept_rels(ch, ch.len() as int);
                if k < inner.len() {
                    assert(inner[k] == x);
                    lemma_clean_spares_kept(ch, ch.len() as int, x);
                    let j = choose|j: int| 0 <= j < u.len() && u[j] == x;
                    assert(unkept_rels(nodes, n)[up.len() + j] == x);
                } else {
                    assert(x == e.rel);
                    assert(unkept_rels(nodes, n)[(up.len() + u.len()) as int] == x);
                }
            },
            FsTree::File => {
                assert(x == e.rel);
                assert(unkept_rels(nodes, n)[up.len() as int] == x);
            },
        }
    }
}

proof fn lemma_push_prefix(s: Seq<FsNode>, x: FsNode)
    ensures
        kept_in(s.push(x), s.len() as int) == kept_in(s, s.len() as int),
        removals(s.push(x), s.len() as int) == removals(s, s.len() as int),
{
    lemma_prefix_eq(s, s.push(x), s.len() as int);
}

proof fn lemma_prefix_eq(a: Seq<FsNode>, b: Seq<FsNode>, n: int)
    requires
        0 <= n <= a.len(),
        n <= b.len(),
        forall|k: int| 0 <= k < n ==> #[trigger] a[k] == b[k],
    ensures
        kept_in(a, n) == kept_in(b, n),
        removals(a, n) == removals(b, n),
        size(a, n) == size(b, n),
    decreases n,
{
    if n > 0 {
        lemma_prefix_eq(a, b, n - 1);
        assert(a[n - 1] == b[n - 1]);
    }
}

/// What emptying the output directory does: the paths it removes, in order,
/// and how many entries a glob kept.
pub struct CleanPlan {
    pub removals: Vec<String>,
    pub kept: usize,
}

fn copy(s: &String) -> (r: String)
    ensures
        r@ == s@,
{
    String::from_str(s.as_str())
}

fn plan_level(entries: &Vec<FsEntry>, out: &mut Vec<String>) -> (kept: usize)
    requires
        size(entries_tree(entries@), entries@.len() as int) <= usize::MAX,
    ensures
        views(final(out)@) == views(old(out)@) + removals(entries_tree(entries@), entries@.len() as int),
        kept == kept_in(entries_tree(entries@), entries@.len() as int),
    decreases entries@,
{
    let ghost t = entries_tree(entries@);
    proof {
        lemma_fsnodes(entries@, entries@.len() as int);
        lemma_prefix_stable(t, t.len() as int);
    }
    let mut kept: usize = 0;
    let mut i: usize = 0;
    let ghost start = views(out@);
    while i < entries.len()
        invariant
            i <= entries@.len(),
            t == entries_tree(entries@),
            t.len() == entries@.len(),
            forall|k: int| 0 <= k < entries@.len() ==> #[trigger] t[k] == fsnode(entries@[k]),
            size(t, t.len() as int) <= usize::MAX,
            views(out@) == start + removals(t, i as int),
            kept == kept_in(t, i as int),
            kept_in(t, i as int) <= size(t, i as int),
        decreases entries@.len() - i,
    {
        proof {
            lemma_size_prefix(t, i + 1, t.len() as int);
            lemma_prefix_stable(t, i + 1);
        }
        let e = &entries[i];
        let ghost before = views(out@);
        if e.kept {
            proof {
                assert(t[i as int].kept);
                assert(kept_in(t, i + 1) == kept_in(t, i as int) + 1);
            }
            kept = kept + 1;
            proof {
                assert(removals(t, i + 1) =~= removals(t, i as int));
            }
        } else {
            match &e.kind {
                FsKind::File => {
                    out.push(copy(&e.rel));
                    proof {
                        assert(t[i as int].tree == FsTree::File);
                        assert(kept_in(t, i + 1) == kept_in(t, i as int));
                        assert(views(out@) =~= before.push(e.rel@));
                        assert(removals(t, i + 1) =~= removals(t, i as int) + seq![e.rel@]);
                    }
                },
                FsKind::Dir(children) => {
                    proof {
                        assert(decreases_to!(entries@ => entries@[i as int]));
                        assert(decreases_to!(entries@[i as int] => entries@[i as int].kind));
                        assert(decreases_to!(entries@[i as int].kind => entries@[i as int].kind->Dir_0));
                        assert(decreases_to!(entries@[i as int].kind->Dir_0 => entries@[i as int].kind->Dir_0@));
                        assert(t[i as int].tree == FsTree::Dir(entries_tree(children@)));
                        let ch = entries_tree(children@);
                        lemma_fsnodes(children@, children@.len() as int);
                        assert(size(t, i + 1) == size(t, i as int) + 1 + size(ch, ch.len() as int));
                        assert(kept_in(t, i + 1) == kept_in(t, i as int) + kept_in(ch, ch.len() as int));
                    }
                    let inner = plan_level(children, out);
                    kept = kept + inner;
                    if inner == 0 {
                        let ghost mid = views(out@);
                        out.push(copy(&e.rel));
                        proof {
                            assert(views(out@) =~= mid.push(e.rel@));
                        }
                    }
                    proof {
                        let ch = entries_tree(children@);
                        lemma_fsnodes(children@, children@.len() as int);
                        assert(removals(t, i + 1) == removals(t, i as int) + (removals(ch, ch.len() as int) + if kept_in(
                            ch,
                            ch.len() as int,
                        ) == 0 {
                            seq![e.rel@]
                        } else {
                            Seq::<Seq<char>>::empty()
                        }));
                        assert(views(out@) =~= start + removals(t, i + 1));
                    }
                },
            }
        }
        i = i + 1;
    }
    kept
}

proof fn lemma_size_prefix(t: Seq<FsNode>, m: int, n: int)
    requires
        0 <= m <= n <= t.len(),
    ensures
        size(t, m) <= size(t, n),
    decreases n - m,
{
    if m < n {
        lemma_size_prefix(t, m, n - 1);
    }
}

/// Plan emptying the output directory whose entries are `entries`.
pub fn plan_clean(entries: &Vec<FsEntry>) -> (p: CleanPlan)
    requires
        size(entries_tree(entries@), entries@.len() as int) <= usize::MAX,
    ensures
        views(p.removals@) == removals(entries_tree(entries@), entries@.len() as int),
        p.kept == kept_in(entries_tree(entries@), entries@.len() as int),
{
    let mut removals: Vec<String> = Vec::new();
    proof {
        assert(views(removals@) =~= Seq::<Seq<char>>::empty());
    }
    let kept = plan_level(entries, &mut removals);
    proof {
        assert(views(removals@) =~= Seq::<Seq<char>>::empty() + crate::clean::removals(
            entries_tree(entries@),
            entries@.len() as int,
        ));
    }
    CleanPlan { removals, kept }
}

/// How the walk treats one entry of the output directory.
pub struct Visit {
    /// A `keep_files` glob matches the entry.
    pub kept: bool,
    /// The walk reads the entry's own entries: it is a directory no glob
    /// keeps.
    pub descend: bool,
}

/// Decide on the entry at `rel` (relative to the output directory) while
/// reading the tree: a kept entry is never looked into, and only a directory
/// is descended into.
pub fn visit(keep: &KeepFiles, rel: &str, is_dir: bool) -> (v: Visit)
    ensures
        v.kept == keep_set_matches(keep.patterns(), rel@),
        v.descend == (!v.kept && is_dir),
{
    let kept = glob_match(keep, rel);
    Visit { kept, descend: !kept && is_dir }
}

} // verus!
