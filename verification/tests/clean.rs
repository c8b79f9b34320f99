use italic::clean::{plan_clean, visit, FsEntry, FsKind, KeepFiles, KeepFilesError};
use std::collections::BTreeMap;

/// An in-memory directory: name → `None` for a file, `Some(dir)` for a dir.
#[derive(Default)]
struct Dir(BTreeMap<String, Option<Dir>>);

fn tree(files: &[&str]) -> Dir {
    let mut root = Dir::default();
    for f in files {
        let parts: Vec<&str> = f.split('/').collect();
        let mut cur = &mut root;
        for (i, p) in parts.iter().enumerate() {
            if i + 1 == parts.len() {
                cur.0.insert(p.to_string(), None);
            } else {
                let e = cur.0.entry(p.to_string()).or_insert_with(|| Some(Dir::default()));
                cur = e.as_mut().unwrap();
            }
        }
    }
    root
}

fn keep(patterns: &[&str]) -> KeepFiles {
    let v: Vec<String> = patterns.iter().map(|p| p.to_string()).collect();
    match KeepFiles::new(&v) {
        Ok(k) => k,
        Err(_) => panic!("invalid keep_files"),
    }
}

/// Read `dir` the way the clean walk does.
fn walk(dir: &Dir, prefix: &str, set: &KeepFiles) -> Vec<FsEntry> {
    dir.0
        .iter()
        .map(|(name, sub)| {
            let rel = if prefix.is_empty() { name.clone() } else { format!("{prefix}/{name}") };
            let v = visit(set, &rel, sub.is_some());
            let kind = match sub {
                Some(d) if v.descend => FsKind::Dir(walk(d, &rel, set)),
                Some(_) => FsKind::Dir(Vec::new()),
                None => FsKind::File,
            };
            FsEntry { rel, kept: v.kept, kind }
        })
        .collect()
}

fn clean(files: &[&str], patterns: &[&str]) -> (Vec<String>, usize) {
    let set = keep(patterns);
    let entries = walk(&tree(files), "", &set);
    let plan = plan_clean(&entries);
    (plan.removals, plan.kept)
}

#[test]
fn default_keeps_dot_git_and_removes_output() {
    let (removed, kept) = clean(&[".git", "index.html"], &[".git"]);
    assert_eq!(removed, vec!["index.html"]);
    assert_eq!(kept, 1);
}

#[test]
fn emptied_subdirs_are_pruned() {
    let (removed, _) = clean(&["notes/a.html", "notes/deep/b.html"], &[".git"]);
    assert_eq!(removed, vec!["notes/a.html", "notes/deep/b.html", "notes/deep", "notes"]);
}

#[test]
fn dir_holding_a_kept_file_is_not_pruned() {
    let (removed, kept) = clean(&["notes/keep.txt", "notes/drop.html"], &["notes/keep.txt"]);
    assert_eq!(removed, vec!["notes/drop.html"]);
    assert_eq!(kept, 1);
}

#[test]
fn empty_keep_files_removes_everything_but_the_dir() {
    let (removed, kept) = clean(&[".git", "notes/a.html"], &[]);
    assert_eq!(removed, vec![".git", "notes/a.html", "notes"]);
    assert_eq!(kept, 0);
}

#[test]
fn literal_separator_scopes_the_default_to_the_top_level() {
    let (removed, _) = clean(&[".git", "notes/.git"], &[".git"]);
    assert_eq!(removed, vec!["notes/.git", "notes"]);
}

#[test]
fn double_star_matches_nested_subtrees() {
    let (removed, _) = clean(&["media/img/a.png", "media/b.png", "index.html"], &["media/**"]);
    assert_eq!(removed, vec!["index.html"]);
}

#[test]
fn matching_dir_is_kept_whole_without_descending() {
    let set = keep(&[".git"]);
    let entries = walk(&tree(&[".git/HEAD", ".git/objects/ab/cdef"]), "", &set);
    match &entries[0].kind {
        FsKind::Dir(children) => assert!(children.is_empty()),
        FsKind::File => panic!("dir expected"),
    }
    let plan = plan_clean(&entries);
    assert!(plan.removals.is_empty());
    assert_eq!(plan.kept, 1);
}

#[test]
fn cleaning_twice_is_harmless() {
    let files = ["index.html", "notes/keep.txt", "notes/x.html", ".git/HEAD"];
    let (removed, kept) = clean(&files, &[".git", "notes/keep.txt"]);
    assert_eq!(removed, vec!["index.html", "notes/x.html"]);
    let (again, kept_again) = clean(&[".git/HEAD", "notes/keep.txt"], &[".git", "notes/keep.txt"]);
    assert!(again.is_empty());
    assert_eq!(kept, kept_again);
}

#[test]
fn invalid_keep_glob_is_reported_by_index() {
    let v = vec![".git".to_string(), "a{b".to_string()];
    match KeepFiles::new(&v) {
        Err(KeepFilesError::InvalidGlob { index, .. }) => assert_eq!(index, 1),
        _ => panic!("expected an invalid glob"),
    }
}

#[test]
fn visit_reports_glob_matches() {
    let k = keep(&[".git", "media/**"]);
    assert!(visit(&k, ".git", true).kept);
    assert!(!visit(&k, ".git", true).descend);
    assert!(visit(&k, "media/a/b.png", false).kept);
    assert!(!visit(&k, "notes/.git", false).kept);
    assert!(visit(&k, "notes", true).descend);
    assert!(!visit(&keep(&[]), ".git", false).kept);
}
