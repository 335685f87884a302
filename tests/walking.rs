use repo_scan::walk::{build_rules, bytes_hidden, bytes_under, ends_with_segment, select_candidates, vcs_metadata, walk_candidates, FileKind, WalkEntry};

fn e(p: &str, kind: FileKind) -> WalkEntry {
    WalkEntry { path: p.to_string(), kind }
}

fn listing() -> Vec<WalkEntry> {
    vec![
        e("a.txt", FileKind::File),
        e("node_modules", FileKind::Directory),
        e("node_modules/needle.txt", FileKind::File),
        e(".git", FileKind::Directory),
        e(".git/config", FileKind::File),
        e("src", FileKind::Directory),
        e("src/lib.rs", FileKind::File),
        e("src/.hidden.rs", FileKind::File),
        e("src/link", FileKind::Symlink),
        e("build.log", FileKind::File),
    ]
}

fn paths(v: &[repo_scan::walk::CandidateFile]) -> Vec<String> {
    v.iter().map(|c| c.path.clone()).collect()
}

#[test]
fn path_helpers() {
    assert!(bytes_under(b"src", b"src/lib.rs"));
    assert!(!bytes_under(b"src", b"srcx/lib.rs"));
    assert!(!bytes_under(b"src", b"src"));
    assert!(bytes_hidden(b".git/config"));
    assert!(bytes_hidden(b"a/.b"));
    assert!(!bytes_hidden(b"a/b.c"));
    assert!(ends_with_segment(b"a/.git", b".git"));
    assert!(ends_with_segment(b".git", b".git"));
    assert!(!ends_with_segment(b"a.git", b".git"));
    assert!(!ends_with_segment(b"git", b".git"));
    assert!(vcs_metadata(b"sub/.hg"));
    assert!(vcs_metadata(b".svn"));
    assert!(!vcs_metadata(b".github"));
}

#[test]
fn ignored_directory_prunes_its_contents() {
    let entries = listing();
    let ignored = vec![false, true, false, false, false, false, false, false, false, false];
    let out = select_candidates(&entries, &ignored, true);
    assert_eq!(paths(&out), vec!["a.txt", "src/lib.rs", "src/.hidden.rs", "build.log"]);
}

#[test]
fn hidden_entries_skipped_unless_followed() {
    let entries = listing();
    let ignored = vec![false; 10];
    let out = select_candidates(&entries, &ignored, false);
    assert_eq!(paths(&out), vec!["a.txt", "node_modules/needle.txt", "src/lib.rs", "build.log"]);
}

#[test]
fn rules_from_ignore_file_and_extras() {
    let rules = build_rules("", &vec!["node_modules/".to_string(), "# comment".to_string()], &vec!["*.log".to_string()]);
    assert!(rules.rejected().is_empty());
    assert!(rules.compiled());
    let out = walk_candidates(&vec![rules], &listing(), true);
    assert_eq!(paths(&out), vec!["a.txt", "src/lib.rs", "src/.hidden.rs"]);
    assert_eq!(out[1].kind, FileKind::File);
}

#[test]
fn selection_is_repeatable() {
    let rules = build_rules("", &vec![], &vec!["*.log".to_string()]);
    let layers = vec![rules];
    let a = walk_candidates(&layers, &listing(), false);
    let b = walk_candidates(&layers, &listing(), false);
    assert_eq!(paths(&a), paths(&b));
    assert_eq!(paths(&a), vec!["a.txt", "node_modules/needle.txt", "src/lib.rs"]);
}

#[test]
fn metadata_directory_excluded_even_when_whitelisted() {
    let rules = build_rules("", &vec!["!.git".to_string(), "!.git/**".to_string()], &vec![]);
    let entries = vec![
        e(".git", FileKind::Directory),
        e(".git/needle.txt", FileKind::File),
        e("x/.svn", FileKind::Directory),
        e("x/.svn/entries", FileKind::File),
        e("x/y.txt", FileKind::File),
    ];
    let out = walk_candidates(&vec![rules], &entries, true);
    assert_eq!(paths(&out), vec!["x/y.txt"]);
}

#[test]
fn lines_that_do_not_compile_are_listed() {
    let rules = build_rules("", &vec!["*.tmp".to_string(), "{unclosed".to_string()], &vec!["ok/".to_string()]);
    assert_eq!(rules.rejected(), &vec!["{unclosed".to_string()]);
}

#[test]
fn nested_ignore_file_speaks_only_below_its_directory() {
    let top = build_rules("", &vec!["/build/".to_string()], &vec![]);
    let sub = build_rules("sub", &vec!["*.log".to_string(), "/gen/".to_string()], &vec![]);
    let entries = vec![
        e("a.log", FileKind::File),
        e("build", FileKind::Directory),
        e("build/out.txt", FileKind::File),
        e("gen", FileKind::Directory),
        e("gen/g.txt", FileKind::File),
        e("sub", FileKind::Directory),
        e("sub/b.log", FileKind::File),
        e("sub/gen", FileKind::Directory),
        e("sub/gen/h.txt", FileKind::File),
        e("sub/keep.txt", FileKind::File),
        e("subway/c.log", FileKind::File),
    ];
    let out = walk_candidates(&vec![top, sub], &entries, false);
    assert_eq!(paths(&out), vec!["a.log", "gen/g.txt", "sub/keep.txt", "subway/c.log"]);
}
