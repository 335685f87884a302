use repo_scan::archive::{ArchiveEntry, EntryKind};
use repo_scan::error::PipelineError;
use repo_scan::paths::PathPart;
use repo_scan::pipeline::{Action, Event, Phase, Pipeline};
use repo_scan::workspace::{creation_stamp, WorkspaceHandle};

fn name(s: &str) -> PathPart {
    PathPart::Name(s.to_string())
}

#[test]
fn successful_fetch_run_destroys_before_reply() {
    let (mut p, a) = Pipeline::new(false, 1000);
    assert_eq!(a, Action::CreateWorkspace);
    assert_eq!(p.step(Event::WorkspaceCreated), Action::Fetch);
    assert_eq!(p.step(Event::Fetched { len: 1000 }), Action::ListArchive);
    let entries = vec![ArchiveEntry { parts: vec![name("a.txt")], kind: EntryKind::File }];
    assert_eq!(p.step(Event::ArchiveListed { entries }), Action::Unpack);
    assert_eq!(p.step(Event::Unpacked), Action::Scan);
    assert_eq!(p.step(Event::Scanned), Action::Destroy);
    assert_eq!(p.phase, Phase::Cleaning);
    assert_eq!(p.step(Event::Destroyed), Action::Reply(None));
    assert_eq!(p.phase, Phase::Done);
    assert_eq!(p.step(Event::Destroyed), Action::Ignore);
}

#[test]
fn escaping_archive_entry_ends_request_after_cleanup() {
    let (mut p, _) = Pipeline::new(false, 1000);
    p.step(Event::WorkspaceCreated);
    p.step(Event::Fetched { len: 10 });
    let entries = vec![
        ArchiveEntry { parts: vec![name("ok.txt")], kind: EntryKind::File },
        ArchiveEntry { parts: vec![PathPart::Parent, PathPart::Parent, name("etc"), name("passwd")], kind: EntryKind::File },
    ];
    assert_eq!(p.step(Event::ArchiveListed { entries }), Action::Destroy);
    assert_eq!(p.step(Event::Destroyed), Action::Reply(Some(PipelineError::UnsafeArchiveEntry)));
}

#[test]
fn oversized_retrieval_is_never_extracted() {
    let (mut p, _) = Pipeline::new(false, 100);
    p.step(Event::WorkspaceCreated);
    assert_eq!(p.step(Event::Fetched { len: 101 }), Action::Destroy);
    assert_eq!(p.failure, Some(PipelineError::RetrievalTooLarge));
    assert_eq!(p.step(Event::Unpacked), Action::Ignore);
    assert_eq!(p.step(Event::Destroyed), Action::Reply(Some(PipelineError::RetrievalTooLarge)));
}

#[test]
fn retrieval_failures_are_classified() {
    let (mut p, _) = Pipeline::new(false, 100);
    p.step(Event::WorkspaceCreated);
    assert_eq!(p.step(Event::FetchFailed { timed_out: true }), Action::Destroy);
    assert_eq!(p.step(Event::Destroyed), Action::Reply(Some(PipelineError::RetrievalTimeout)));
    let (mut q, _) = Pipeline::new(false, 100);
    q.step(Event::WorkspaceCreated);
    q.step(Event::Fetched { len: 3 });
    assert_eq!(q.step(Event::ArchiveUnreadable), Action::Destroy);
    assert_eq!(q.step(Event::Destroyed), Action::Reply(Some(PipelineError::ExtractionFailed)));
}

#[test]
fn workspace_creation_failure_needs_no_cleanup() {
    let (mut p, _) = Pipeline::new(true, 100);
    assert_eq!(p.step(Event::WorkspaceCreateFailed), Action::Reply(Some(PipelineError::WorkspaceCreateFailed)));
}

#[test]
fn clone_destination_outside_root_is_refused_before_cloning() {
    let root = vec![PathPart::Root, name("tmp"), name("ws-1")];
    let (mut p, _) = Pipeline::new(true, 100);
    assert_eq!(p.step(Event::WorkspaceCreated), Action::ResolveCloneDestination);
    let dest = vec![PathPart::Root, name("etc")];
    assert_eq!(p.step(Event::DestinationResolved { root: root.clone(), dest }), Action::Destroy);
    assert_eq!(p.step(Event::Destroyed), Action::Reply(Some(PipelineError::UnsafeCloneDestination)));

    let (mut q, _) = Pipeline::new(true, 100);
    q.step(Event::WorkspaceCreated);
    let dest = vec![PathPart::Root, name("tmp"), name("ws-1"), name("repo")];
    assert_eq!(q.step(Event::DestinationResolved { root, dest }), Action::Clone);
    assert_eq!(q.step(Event::Cloned), Action::Scan);
    assert_eq!(q.step(Event::Scanned), Action::Destroy);
    assert_eq!(q.step(Event::Destroyed), Action::Reply(None));
}

#[test]
fn workspace_is_disposed_once() {
    let mut h = WorkspaceHandle::new("/tmp/ws-1".to_string(), creation_stamp());
    assert!(!h.is_disposed());
    assert!(h.begin_dispose());
    assert!(h.is_disposed());
    assert!(!h.begin_dispose());
    assert_eq!(h.root(), "/tmp/ws-1");
    assert_eq!(h.created_nanos(), h.created_nanos());
}

#[test]
fn creation_stamp_reads_the_clock() {
    assert!(creation_stamp() > 1_500_000_000_000_000_000);
}

#[test]
fn unresolvable_workspace_is_a_server_fault() {
    let (mut p, _) = Pipeline::new(true, 100);
    p.step(Event::WorkspaceCreated);
    assert_eq!(p.step(Event::ResolveFailed), Action::Destroy);
    assert_eq!(p.step(Event::Destroyed), Action::Reply(Some(PipelineError::WorkspaceCreateFailed)));
    assert!(!PipelineError::WorkspaceCreateFailed.is_input_error());
}
