use repo_scan::archive::{check_archive, decompress_archive, entry_is_safe, first_unsafe_entry, ArchiveEntry, EntryKind};
use repo_scan::error::PipelineError;
use repo_scan::paths::{check_clone_destination, is_strict_descendant, resolved_depth, PathPart};
use std::io::Write;

fn parts(p: &str) -> Vec<PathPart> {
    let mut v = Vec::new();
    if p.starts_with('/') {
        v.push(PathPart::Root);
    }
    for seg in p.split('/') {
        match seg {
            "" => {}
            "." => v.push(PathPart::Current),
            ".." => v.push(PathPart::Parent),
            s => v.push(PathPart::Name(s.to_string())),
        }
    }
    v
}

fn file(p: &str) -> ArchiveEntry {
    ArchiveEntry { parts: parts(p), kind: EntryKind::File }
}

#[test]
fn depth_of_plain_and_dotted_paths() {
    assert_eq!(resolved_depth(0, &parts("a/b/c.txt")), Some(3));
    assert_eq!(resolved_depth(0, &parts("a/./b/../c")), Some(2));
    assert_eq!(resolved_depth(0, &parts("../x")), None);
    assert_eq!(resolved_depth(0, &parts("/etc/passwd")), None);
    assert_eq!(resolved_depth(2, &parts("../../x")), Some(1));
    assert_eq!(resolved_depth(2, &parts("../../../x")), None);
}

#[test]
fn traversal_entry_is_rejected() {
    assert!(!entry_is_safe(&file("../../etc/passwd")));
    assert!(!entry_is_safe(&file("/etc/passwd")));
    assert!(!entry_is_safe(&file("a/../b")));
    assert!(!entry_is_safe(&file(".")));
    assert!(entry_is_safe(&file("a.txt")));
    assert!(entry_is_safe(&file("./src/lib.rs")));
}

#[test]
fn link_targets_are_checked() {
    let ok = ArchiveEntry { parts: parts("a/link"), kind: EntryKind::Symlink(parts("b/c.txt")) };
    assert!(entry_is_safe(&ok));
    let dot = ArchiveEntry { parts: parts("a/b/here"), kind: EntryKind::Symlink(parts(".")) };
    assert!(entry_is_safe(&dot));
    let climbing = ArchiveEntry { parts: parts("a/link"), kind: EntryKind::Symlink(parts("../b.txt")) };
    assert!(!entry_is_safe(&climbing));
    let bad = ArchiveEntry { parts: parts("a/link"), kind: EntryKind::Symlink(parts("../../etc/passwd")) };
    assert!(!entry_is_safe(&bad));
    let abs = ArchiveEntry { parts: parts("link"), kind: EntryKind::Symlink(parts("/etc/passwd")) };
    assert!(!entry_is_safe(&abs));
    let hard_bad = ArchiveEntry { parts: parts("a/b/h"), kind: EntryKind::HardLink(parts("../x")) };
    assert!(!entry_is_safe(&hard_bad));
    let hard_ok = ArchiveEntry { parts: parts("a/b/h"), kind: EntryKind::HardLink(parts("a/x")) };
    assert!(entry_is_safe(&hard_ok));
}

#[test]
fn archive_with_escaping_entry_fails_whole_check() {
    let entries = vec![file("a.txt"), file("src/b.rs"), file("../../etc/passwd"), file("c.txt")];
    assert_eq!(first_unsafe_entry(&entries), Some(2));
    assert_eq!(check_archive(&entries), Err(PipelineError::UnsafeArchiveEntry));
    let good = vec![file("a.txt"), file("src/b.rs")];
    assert_eq!(first_unsafe_entry(&good), None);
    assert_eq!(check_archive(&good), Ok(()));
    assert_eq!(check_archive(&Vec::new()), Ok(()));
}

#[test]
fn clone_destination_must_be_strictly_inside() {
    let root = parts("/tmp/ws-1");
    assert!(is_strict_descendant(&root, &parts("/tmp/ws-1/repo")));
    assert!(!is_strict_descendant(&root, &parts("/tmp/ws-1")));
    assert!(!is_strict_descendant(&root, &parts("/tmp/ws-2/repo")));
    assert!(!is_strict_descendant(&root, &parts("/tmp/ws-1/../etc")));
    assert!(!is_strict_descendant(&root, &parts("/tmp")));
    assert_eq!(check_clone_destination(&root, &parts("/tmp/ws-1/repo")), Ok(()));
    assert_eq!(check_clone_destination(&root, &parts("/etc")), Err(PipelineError::UnsafeCloneDestination));
}

#[test]
fn gzip_round_trip_and_malformed_input() {
    let mut enc = flate2::write::GzEncoder::new(Vec::new(), flate2::Compression::default());
    enc.write_all(b"hello archive").unwrap();
    let gz = enc.finish().unwrap();
    assert_ne!(gz, b"hello archive".to_vec());
    assert_eq!(decompress_archive(&gz), Ok(b"hello archive".to_vec()));
    assert_eq!(decompress_archive(b"not gzip at all"), Err(PipelineError::ExtractionFailed));
}

#[test]
fn link_escaping_through_another_link_is_refused() {
    let entries = vec![
        ArchiveEntry { parts: parts("x"), kind: EntryKind::Directory },
        ArchiveEntry { parts: parts("a/b/l2"), kind: EntryKind::Symlink(parts("../../x")) },
        ArchiveEntry { parts: parts("a/b/l3"), kind: EntryKind::Symlink(parts("l2/../../q")) },
        file("a/b/l3/evil"),
    ];
    assert_eq!(first_unsafe_entry(&entries), Some(1));
    assert_eq!(check_archive(&entries), Err(PipelineError::UnsafeArchiveEntry));
}
