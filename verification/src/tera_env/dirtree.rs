//! `dirtree` — docs folded into a nested directory tree by their
//! `output_path`. Each level holds its entries sorted by name (dirs and files
//! interleaved); a dir carries its children, a file the index of its doc.
//! Every node also carries its accumulated path from the root.
use vstd::prelude::*;
use crate::paths::{
    lemma_str_less_irreflexive, lemma_str_less_total, lemma_str_less_transitive, split_path, split_slash,
    str_less, string_less,
};
use crate::text::{str_eq, views};

verus! {

/// A directory level's contents, as a tree.
pub enum DirTree {
    Dir(Seq<DirEntry>),
    File(int),
}

/// A named node of the tree and its path from the root.
pub struct DirEntry {
    pub name: Seq<char>,
    pub path: Seq<char>,
    pub node: DirTree,
}

/// What a node is: a directory with its children, or a file naming the
/// index of its doc in the input.
pub enum NodeKind {
    Dir(Vec<TreeNode>),
    File(usize),
}

/// A node of the built tree.
pub struct TreeNode {
    /// The single path segment at this level.
    pub name: String,
    /// The accumulated output path from the root.
    pub path: String,
    pub kind: NodeKind,
}

/// The tree entry of a node.
pub open spec fn tnode(n: TreeNode) -> DirEntry
    decreases n, 0int,
{
    DirEntry {
        name: n.name@,
        path: n.path@,
        node: match n.kind {
            NodeKind::Dir(v) => DirTree::Dir(tnodes(v@, v@.len() as int)),
            NodeKind::File(d) => DirTree::File(d as int),
        },
    }
}

/// The tree entries of the first `n` nodes.
pub open spec fn tnodes(s: Seq<TreeNode>, n: int) -> Seq<DirEntry>
    decreases s, n,
{
    if n <= 0 || n > s.len() {
        Seq::empty()
    } else {
        tnodes(s, n - 1).push(tnode(s[n - 1]))
    }
}

/// The tree entries of a list of nodes.
pub open spec fn level(v: Seq<TreeNode>) -> Seq<DirEntry> {
    tnodes(v, v.len() as int)
}

/// `s` split on `/`, empty segments dropped.
pub open spec fn nonempty(segs: Seq<Seq<char>>) -> Seq<Seq<char>>
    decreases segs.len(),
{
    if segs.len() == 0 {
        Seq::empty()
    } else if segs.last().len() == 0 {
        nonempty(segs.drop_last())
    } else {
        nonempty(segs.drop_last()).push(segs.last())
    }
}

/// The position of `name` among entries sorted by name: the first entry
/// that does not sort before it.
pub open spec fn find_pos(entries: Seq<DirEntry>, name: Seq<char>) -> int
    decreases entries.len(),
{
    if entries.len() == 0 || !str_less(entries[0].name, name) {
        0
    } else {
        1 + find_pos(entries.drop_first(), name)
    }
}

/// The path of `name` under `prefix`.
pub open spec fn child_path(prefix: Seq<char>, name: Seq<char>) -> Seq<char> {
    if prefix.len() == 0 {
        name
    } else {
        prefix + seq!['/'] + name
    }
}

/// `entries` with the doc `doc` placed at the segments `segs` below
/// `prefix`: missing directories are created, a name already taken by a file
/// stops the descent (the doc is dropped), and a leaf name already taken
/// keeps what is there.
pub open spec fn place(entries: Seq<DirEntry>, segs: Seq<Seq<char>>, doc: int, prefix: Seq<char>) -> Seq<DirEntry>
    decreases segs.len(),
{
    if segs.len() == 0 {
        entries
    } else {
        let name = segs[0];
        let i = find_pos(entries, name);
        let hit = i < entries.len() && entries[i].name == name;
        if segs.len() == 1 {
            if hit {
                entries
            } else {
                entries.insert(i, DirEntry { name, path: child_path(prefix, name), node: DirTree::File(doc) })
            }
        } else if hit {
            match entries[i].node {
                DirTree::File(_) => entries,
                DirTree::Dir(ch) => entries.update(
                    i,
                    DirEntry {
                        name,
                        path: entries[i].path,
                        node: DirTree::Dir(place(ch, segs.drop_first(), doc, entries[i].path)),
                    },
                ),
            }
        } else {
            let path = child_path(prefix, name);
            entries.insert(
                i,
                DirEntry { name, path, node: DirTree::Dir(place(Seq::empty(), segs.drop_first(), doc, path)) },
            )
        }
    }
}

/// The tree of the first `n` docs, each placed in turn at its output path's
/// segments.
pub open spec fn tree_of(paths: Seq<Seq<char>>, n: int) -> Seq<DirEntry>
    decreases n,
{
    if n <= 0 || n > paths.len() {
        Seq::empty()
    } else {
        place(tree_of(paths, n - 1), nonempty(split_slash(paths[n - 1])), n - 1, Seq::empty())
    }
}

/// The error for a doc without a string `output_path`.
pub open spec fn missing_path_msg() -> Seq<char> {
    "dirtree filter: every doc must have a string `output_path`"@
}

proof fn lemma_tnodes(s: Seq<TreeNode>, n: int)
    requires
        0 <= n <= s.len(),
    ensures
        tnodes(s, n).len() == n,
        forall|k: int| 0 <= k < n ==> #[trigger] tnodes(s, n)[k] == tnode(s[k]),
    decreases n,
{
    if n > 0 {
        lemma_tnodes(s, n - 1);
    }
}

proof fn lemma_level_insert(s: Seq<TreeNode>, i: int, x: TreeNode)
    requires
        0 <= i <= s.len(),
    ensures
        level(s.insert(i, x)) == level(s).insert(i, tnode(x)),
{
    lemma_tnodes(s, s.len() as int);
    lemma_tnodes(s.insert(i, x), s.len() + 1int);
    assert(level(s.insert(i, x)) =~= level(s).insert(i, tnode(x)));
}

proof fn lemma_level_update(s: Seq<TreeNode>, i: int, x: TreeNode)
    requires
        0 <= i < s.len(),
    ensures
        level(s.update(i, x)) == level(s).update(i, tnode(x)),
{
    lemma_tnodes(s, s.len() as int);
    lemma_tnodes(s.update(i, x), s.len() as int);
    assert(level(s.update(i, x)) =~= level(s).update(i, tnode(x)));
}

fn position(nodes: &Vec<TreeNode>, name: &str) -> (i: usize)
    ensures
        i == find_pos(level(nodes@), name@),
        i <= nodes@.len(),
{
    let ghost lv = level(nodes@);
    proof {
        lemma_tnodes(nodes@, nodes@.len() as int);
        assert(lv.skip(0) =~= lv);
    }
    let mut i: usize = 0;
    while i < nodes.len() && string_less(nodes[i].name.as_str(), name)
        invariant
            i <= nodes@.len(),
            lv == level(nodes@),
            lv.len() == nodes@.len(),
            forall|k: int| 0 <= k < nodes@.len() ==> #[trigger] lv[k] == tnode(nodes@[k]),
            find_pos(lv, name@) == i + find_pos(lv.skip(i as int), name@),
        decreases nodes@.len() - i,
    {
        proof {
            assert(lv.skip(i as int)[0] == lv[i as int]);
            assert(lv.skip(i as int).drop_first() =~= lv.skip(i + 1));
        }
        i = i + 1;
    }
    proof {
        if i < nodes.len() {
            assert(lv.skip(i as int)[0] == lv[i as int]);
        }
    }
    i
}

fn copy(s: &str) -> (r: String)
    ensures
        r@ == s@,
{
    String::from_str(s)
}

fn join_name(prefix: &str, name: &str) -> (r: String)
    ensures
        r@ == child_path(prefix@, name@),
{
    if prefix.unicode_len() == 0 {
        copy(name)
    } else {
        let mut r = copy(prefix);
        r.append("/");
        r.append(name);
        proof {
            reveal_strlit("/");
        }
        r
    }
}

/// Place doc `doc` at `segs[k..]` under `prefix` in the level `nodes`.
fn place_doc(nodes: Vec<TreeNode>, segs: &Vec<String>, k: usize, doc: usize, prefix: &str) -> (r: Vec<TreeNode>)
    requires
        k <= segs@.len(),
    ensures
        level(r@) == place(level(nodes@), views(segs@).skip(k as int), doc as int, prefix@),
    decreases segs@.len() - k,
{
    let ghost segv = views(segs@).skip(k as int);
    if k >= segs.len() {
        return nodes;
    }
    let mut nodes = nodes;
    let ghost lv = level(nodes@);
    proof {
        lemma_tnodes(nodes@, nodes@.len() as int);
        assert(segv[0] == segs@[k as int]@);
    }
    let name = segs[k].as_str();
    let i = position(&nodes, name);
    let hit = i < nodes.len() && str_eq(nodes[i].name.as_str(), name);
    proof {
        if i < nodes.len() {
            assert(lv[i as int] == tnode(nodes@[i as int]));
        }
    }
    if k + 1 == segs.len() {
        if hit {
            return nodes;
        }
        let node = TreeNode { name: copy(name), path: join_name(prefix, name), kind: NodeKind::File(doc) };
        proof {
            lemma_level_insert(nodes@, i as int, node);
        }
        nodes.insert(i, node);
        return nodes;
    }
    proof {
        assert(segv.drop_first() =~= views(segs@).skip(k + 1));
    }
    if hit {
        let is_file = match &nodes[i].kind {
            NodeKind::File(_) => true,
            NodeKind::Dir(_) => false,
        };
        if is_file {
            return nodes;
        }
        let ghost before = nodes@;
        let node = nodes.remove(i);
        proof {
            assert(nodes@ =~= before.remove(i as int));
        }
        let TreeNode { name: nm, path: p, kind } = node;
        match kind {
            NodeKind::Dir(ch) => {
                let ch2 = place_doc(ch, segs, k + 1, doc, p.as_str());
                let new_node = TreeNode { name: nm, path: p, kind: NodeKind::Dir(ch2) };
                nodes.insert(i, new_node);
                proof {
                    assert(nodes@ =~= before.update(i as int, new_node));
                    lemma_level_update(before, i as int, new_node);
                }
                nodes
            },
            NodeKind::File(d) => {
                nodes.insert(i, TreeNode { name: nm, path: p, kind: NodeKind::File(d) });
                nodes
            },
        }
    } else {
        let path = join_name(prefix, name);
        let ch = place_doc(Vec::new(), segs, k + 1, doc, path.as_str());
        proof {
            assert(level(Seq::<TreeNode>::empty()) =~= Seq::<DirEntry>::empty());
        }
        let new_node = TreeNode { name: copy(name), path, kind: NodeKind::Dir(ch) };
        proof {
            lemma_level_insert(nodes@, i as int, new_node);
        }
        nodes.insert(i, new_node);
        nodes
    }
}

fn nonempty_segments(s: &str) -> (r: Vec<String>)
    ensures
        views(r@) == nonempty(split_slash(s@)),
{
    let all = split_path(s);
    let mut out: Vec<String> = Vec::new();
    let mut i: usize = 0;
    while i < all.len()
        invariant
            i <= all@.len(),
            views(all@) == split_slash(s@),
            views(out@) == nonempty(views(all@).take(i as int)),
        decreases all@.len() - i,
    {
        let ghost before = views(out@);
        proof {
            assert(views(all@).take(i + 1).drop_last() =~= views(all@).take(i as int));
        }
        if all[i].unicode_len() > 0 {
            out.push(copy(all[i].as_str()));
            proof {
                assert(views(out@) =~= before.push(all@[i as int]@));
            }
        }
        i = i + 1;
    }
    proof {
        assert(views(all@).take(all@.len() as int) =~= views(all@));
    }
    out
}

/// The output paths, when every doc has one.
pub open spec fn all_paths(paths: Seq<Option<String>>) -> Option<Seq<Seq<char>>> {
    if forall|i: int| 0 <= i < paths.len() ==> (#[trigger] paths[i]) is Some {
        Some(paths.map_values(|p: Option<String>| match p {
            Some(s) => s@,
            None => Seq::empty(),
        }))
    } else {
        None
    }
}

/// Fold the docs, given by their `output_path` (`None` for a doc without a
/// string one), into the tree's top level. A doc whose path has no segment is
/// left out.
pub fn build_tree(paths: &Vec<Option<String>>) -> (r: Result<Vec<TreeNode>, String>)
    ensures
        all_paths(paths@) matches Some(ps) ==> (r matches Ok(top) && level(top@) == tree_of(ps, ps.len() as int)
            && sorted_tree(level(top@))),
        all_paths(paths@) is None ==> (r matches Err(e) && e@ == missing_path_msg()),
{
    let ghost ps = paths@.map_values(|p: Option<String>| match p {
        Some(s) => s@,
        None => Seq::empty(),
    });
    let mut root: Vec<TreeNode> = Vec::new();
    let mut i: usize = 0;
    proof {
        assert(level(root@) =~= Seq::<DirEntry>::empty());
    }
    while i < paths.len()
        invariant
            i <= paths@.len(),
            ps.len() == paths@.len(),
            forall|k: int| 0 <= k < paths@.len() ==> #[trigger] ps[k] == match paths@[k] {
                Some(s) => s@,
                None => Seq::<char>::empty(),
            },
            forall|k: int| 0 <= k < i ==> (#[trigger] paths@[k]) is Some,
            level(root@) == tree_of(ps, i as int),
        decreases paths@.len() - i,
    {
        match &paths[i] {
            None => {
                proof {
                    assert(!(paths@[i as int] is Some));
                }
                return Err(String::from_str("dirtree filter: every doc must have a string `output_path`"));
            },
            Some(p) => {
                let segs = nonempty_segments(p.as_str());
                proof {
                    assert(views(segs@).skip(0) =~= views(segs@));
                }
                root = place_doc(root, &segs, 0, i, "");
                proof {
                    reveal_strlit("");
                    assert(""@ =~= Seq::<char>::empty());
                }
            },
        }
        i = i + 1;
    }
    proof {
        assert(all_paths(paths@) == Some(ps));
        lemma_tree_sorted(ps, ps.len() as int);
    }
    Ok(root)
}


/// The entries' names are in strictly ascending order.
pub open spec fn names_sorted(entries: Seq<DirEntry>) -> bool {
    forall|i: int, j: int| 0 <= i < j < entries.len() ==> str_less(#[trigger] entries[i].name, #[trigger] entries[j].name)
}

/// Every directory among the first `n` entries has sorted names at every
/// depth.
pub open spec fn tidy(entries: Seq<DirEntry>, n: int) -> bool
    decreases entries, n,
{
    if n <= 0 || n > entries.len() {
        true
    } else {
        tidy(entries, n - 1) && match entries[n - 1].node {
            DirTree::Dir(ch) => names_sorted(ch) && tidy(ch, ch.len() as int),
            DirTree::File(_) => true,
        }
    }
}

/// A level sorted by name, and so are all the levels below it.
pub open spec fn sorted_tree(entries: Seq<DirEntry>) -> bool {
    names_sorted(entries) && tidy(entries, entries.len() as int)
}

/// An entry whose subtree (if it is a directory) is sorted.
pub open spec fn entry_ok(e: DirEntry) -> bool {
    match e.node {
        DirTree::Dir(ch) => sorted_tree(ch),
        DirTree::File(_) => true,
    }
}

proof fn lemma_tidy(s: Seq<DirEntry>, n: int)
    requires
        0 <= n <= s.len(),
    ensures
        tidy(s, n) <==> forall|k: int| 0 <= k < n ==> #[trigger] entry_ok(s[k]),
    decreases n,
{
    if n > 0 {
        lemma_tidy(s, n - 1);
        assert(entry_ok(s[n - 1]) == match s[n - 1].node {
            DirTree::Dir(ch) => names_sorted(ch) && tidy(ch, ch.len() as int),
            DirTree::File(_) => true,
        });
        if tidy(s, n) {
            assert forall|k: int| 0 <= k < n implies #[trigger] entry_ok(s[k]) by {
                if k < n - 1 {
                    assert(entry_ok(s[k]));
                }
            }
        }
    }
}

proof fn lemma_find_pos(entries: Seq<DirEntry>, name: Seq<char>)
    ensures
        0 <= find_pos(entries, name) <= entries.len(),
        forall|k: int| 0 <= k < find_pos(entries, name) ==> str_less(#[trigger] entries[k].name, name),
        find_pos(entries, name) < entries.len() ==> !str_less(entries[find_pos(entries, name)].name, name),
    decreases entries.len(),
{
    if entries.len() > 0 && str_less(entries[0].name, name) {
        lemma_find_pos(entries.drop_first(), name);
        assert forall|k: int| 0 <= k < find_pos(entries, name) implies str_less(#[trigger] entries[k].name, name) by {
            if k > 0 {
                assert(entries[k] == entries.drop_first()[k - 1]);
            }
        }
    }
}

proof fn lemma_place_sorted(entries: Seq<DirEntry>, segs: Seq<Seq<char>>, doc: int, prefix: Seq<char>)
    requires
        sorted_tree(entries),
    ensures
        sorted_tree(place(entries, segs, doc, prefix)),
    decreases segs.len(),
{
    if segs.len() == 0 {
        return;
    }
    let name = segs[0];
    let i = find_pos(entries, name);
    let hit = i < entries.len() && entries[i].name == name;
    lemma_find_pos(entries, name);
    lemma_tidy(entries, entries.len() as int);
    let r = place(entries, segs, doc, prefix);
    if hit {
        if segs.len() == 1 {
            return;
        }
        match entries[i].node {
            DirTree::File(_) => {},
            DirTree::Dir(ch) => {
                assert(entry_ok(entries[i]));
                lemma_place_sorted(ch, segs.drop_first(), doc, entries[i].path);
                let e = DirEntry {
                    name,
                    path: entries[i].path,
                    node: DirTree::Dir(place(ch, segs.drop_first(), doc, entries[i].path)),
                };
                assert(r == entries.update(i, e));
                assert(entry_ok(e));
                lemma_tidy(r, r.len() as int);
                assert forall|k: int| 0 <= k < r.len() implies #[trigger] entry_ok(r[k]) by {
                    if k != i {
                        assert(r[k] == entries[k]);
                    }
                }
                assert forall|a: int, b: int| 0 <= a < b < r.len() implies str_less(#[trigger] r[a].name, #[trigger] r[b].name) by {
                    assert(r[a].name == entries[a].name);
                    assert(r[b].name == entries[b].name);
                }
            },
        }
    } else {
        // `name` sorts before every entry from `i` on.
        assert forall|k: int| i <= k < entries.len() implies str_less(name, #[trigger] entries[k].name) by {
            lemma_str_less_total(entries[i].name, name);
            if k > i {
                lemma_str_less_transitive(name, entries[i].name, entries[k].name);
            }
        }
        let e = if segs.len() == 1 {
            DirEntry { name, path: child_path(prefix, name), node: DirTree::File(doc) }
        } else {
            let path = child_path(prefix, name);
            assert(sorted_tree(Seq::<DirEntry>::empty()));
            lemma_place_sorted(Seq::empty(), segs.drop_first(), doc, path);
            DirEntry { name, path, node: DirTree::Dir(place(Seq::empty(), segs.drop_first(), doc, path)) }
        };
        assert(r == entries.insert(i, e));
        assert(entry_ok(e));
        lemma_tidy(r, r.len() as int);
        assert forall|k: int| 0 <= k < r.len() implies #[trigger] entry_ok(r[k]) by {
            if k < i {
                assert(r[k] == entries[k]);
            } else if k > i {
                assert(r[k] == entries[k - 1]);
            }
        }
        assert forall|a: int, b: int| 0 <= a < b < r.len() implies str_less(#[trigger] r[a].name, #[trigger] r[b].name) by {
            if b < i {
                assert(r[a] == entries[a] && r[b] == entries[b]);
            } else if b == i {
                assert(r[a] == entries[a]);
            } else if a < i {
                assert(r[a] == entries[a] && r[b] == entries[b - 1]);
                lemma_str_less_transitive(entries[a].name, name, entries[b - 1].name);
            } else if a == i {
                assert(r[b] == entries[b - 1]);
            } else {
                assert(r[a] == entries[a - 1] && r[b] == entries[b - 1]);
            }
        }
    }
}

/// Siblings come in strictly ascending name order (dirs and files
/// interleaved), at every depth of the tree, however the docs' output paths
/// fall.
pub proof fn lemma_tree_sorted(paths: Seq<Seq<char>>, n: int)
    ensures
        sorted_tree(tree_of(paths, n)),
    decreases n,
{
    if n <= 0 || n > paths.len() {
        assert(sorted_tree(Seq::<DirEntry>::empty()));
    } else {
        lemma_tree_sorted(paths, n - 1);
        lemma_place_sorted(tree_of(paths, n - 1), nonempty(split_slash(paths[n - 1])), n - 1, Seq::empty());
    }
}

} // verus!
