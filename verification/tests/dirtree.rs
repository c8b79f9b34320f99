use italic::tera_env::dirtree::{build_tree, NodeKind, TreeNode};

fn tree(paths: &[Option<&str>]) -> Vec<TreeNode> {
    match build_tree(&paths.iter().map(|p| p.map(|s| s.to_string())).collect()) {
        Ok(t) => t,
        Err(e) => panic!("{e}"),
    }
}

fn kind(n: &TreeNode) -> &'static str {
    match n.kind {
        NodeKind::Dir(_) => "dir",
        NodeKind::File(_) => "file",
    }
}

fn children(n: &TreeNode) -> &Vec<TreeNode> {
    match &n.kind {
        NodeKind::Dir(c) => c,
        NodeKind::File(_) => panic!("not a dir"),
    }
}

fn doc(n: &TreeNode) -> usize {
    match n.kind {
        NodeKind::File(d) => d,
        NodeKind::Dir(_) => panic!("not a file"),
    }
}

#[test]
fn flat_files_sorted_ascending() {
    let titles = ["Home", "About"];
    let top = tree(&[Some("index.html"), Some("about.html")]);
    assert_eq!(top.len(), 2);
    assert_eq!(kind(&top[0]), "file");
    assert_eq!(top[0].name, "about.html");
    assert_eq!(top[0].path, "about.html");
    assert_eq!(titles[doc(&top[0])], "About");
    assert_eq!(top[1].name, "index.html");
}

#[test]
fn nests_dirs_and_accumulates_path() {
    let titles = ["B", "A", "About"];
    let top = tree(&[Some("posts/b/index.html"), Some("posts/a/index.html"), Some("about.html")]);
    assert_eq!(kind(&top[0]), "file");
    assert_eq!(top[0].name, "about.html");
    assert_eq!(kind(&top[1]), "dir");
    assert_eq!(top[1].name, "posts");
    assert_eq!(top[1].path, "posts");
    let posts = children(&top[1]);
    assert_eq!(posts.len(), 2);
    assert_eq!(posts[0].name, "a");
    assert_eq!(posts[0].path, "posts/a");
    assert_eq!(posts[1].name, "b");
    assert_eq!(posts[1].path, "posts/b");
    let a_children = children(&posts[0]);
    assert_eq!(kind(&a_children[0]), "file");
    assert_eq!(a_children[0].path, "posts/a/index.html");
    assert_eq!(titles[doc(&a_children[0])], "A");
}

#[test]
fn missing_output_path_is_an_error() {
    let r = build_tree(&vec![Some("a.html".to_string()), None]);
    assert_eq!(r.err().as_deref(), Some("dirtree filter: every doc must have a string `output_path`"));
}

#[test]
fn collisions_keep_the_first_doc_and_empty_paths_are_skipped() {
    // `a` is a file first, so `a/b.html` cannot descend through it; the
    // second `x.html` leaves the first in place; `//` has no segment.
    let top = tree(&[Some("a"), Some("a/b.html"), Some("x.html"), Some("x.html"), Some("//"), Some("/y//z.html")]);
    let names: Vec<&str> = top.iter().map(|n| n.name.as_str()).collect();
    assert_eq!(names, vec!["a", "x.html", "y"]);
    assert_eq!(kind(&top[0]), "file");
    assert_eq!(doc(&top[0]), 0);
    assert_eq!(doc(&top[1]), 2);
    assert_eq!(children(&top[2])[0].path, "y/z.html");
    // A directory already owning a name keeps it: the later file is dropped.
    let top = tree(&[Some("d/e.html"), Some("d")]);
    assert_eq!(top.len(), 1);
    assert_eq!(kind(&top[0]), "dir");
}

#[test]
fn siblings_sort_by_code_point() {
    let top = tree(&[Some("b"), Some("B"), Some("a"), Some("_"), Some("é")]);
    let names: Vec<&str> = top.iter().map(|n| n.name.as_str()).collect();
    assert_eq!(names, vec!["B", "_", "a", "b", "é"]);
}
