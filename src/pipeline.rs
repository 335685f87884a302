//! The per-request orchestrator as a state machine. The surrounding service
//! performs each action (create the workspace, fetch, clone, unpack, scan,
//! destroy) and hands back what came of it; the machine decides the next step.
//! Once a workspace exists, every path to the reply passes through `Destroy`.
use vstd::prelude::*;
use crate::archive::{ArchiveEntry, check_archive, entry_fits, entry_safe};
use crate::error::PipelineError;
use crate::paths::{PathPart, check_clone_destination, strict_descendant};

verus! {

/// Where a request stands.
#[derive(Clone, Copy, Debug, PartialEq, Eq, Structural)]
pub enum Phase {
    /// Waiting for the workspace directory to be created.
    Creating,
    /// Fetching the archive.
    Retrieving,
    /// Waiting for the canonical workspace root and clone destination.
    Resolving,
    /// Waiting for the external clone to finish.
    Cloning,
    /// Waiting for the archive's entry listing.
    Listing,
    /// Waiting for the checked archive to be unpacked.
    Unpacking,
    /// Walking and scanning the workspace.
    Scanning,
    /// Waiting for the workspace to be removed.
    Cleaning,
    /// The reply has been given.
    Done,
}

/// What the service is to do next.
#[derive(Clone, Copy, Debug, PartialEq, Eq, Structural)]
pub enum Action {
    CreateWorkspace,
    Fetch,
    ResolveCloneDestination,
    Clone,
    ListArchive,
    Unpack,
    Scan,
    Destroy,
    /// Answer the caller: `None` for success, else the failure.
    Reply(Option<PipelineError>),
    /// The event did not fit the phase; nothing to do.
    Ignore,
}

/// What came of the last action.
pub enum Event {
    WorkspaceCreated,
    WorkspaceCreateFailed,
    /// The archive was fetched, or the fetch stopped once more than the limit
    /// had arrived; `len` is the number of bytes received.
    Fetched { len: u64 },
    FetchFailed { timed_out: bool },
    /// Canonical forms of the workspace root and of the clone destination.
    DestinationResolved { root: Vec<PathPart>, dest: Vec<PathPart> },
    /// The workspace root could not be resolved to its canonical form (a fault
    /// of the workspace, reported as `WorkspaceCreateFailed`).
    ResolveFailed,
    Cloned,
    CloneFailed { timed_out: bool },
    /// The archive's entries, in archive order.
    ArchiveListed { entries: Vec<ArchiveEntry> },
    /// The archive could not be decompressed or read.
    ArchiveUnreadable,
    Unpacked,
    UnpackFailed,
    Scanned,
    /// The workspace removal was attempted; its own failure is never reported.
    Destroyed,
}

/// One request's pipeline.
#[derive(Clone, Copy, Debug, PartialEq, Eq, Structural)]
pub struct Pipeline {
    pub phase: Phase,
    /// The source is cloned (else an archive is fetched).
    pub clone_source: bool,
    pub max_retrieved_bytes: u64,
    /// The first fatal failure, kept until the reply.
    pub failure: Option<PipelineError>,
}

/// A workspace directory exists in this phase.
pub open spec fn workspace_live(p: Phase) -> bool {
    !(p is Creating || p is Done)
}

/// The event's archive listing, if any, fits the machine's counters.
pub open spec fn event_fits(ev: Event) -> bool {
    match ev {
        Event::ArchiveListed { entries } => forall|i: int| 0 <= i < entries@.len() ==> entry_fits(#[trigger] entries@[i]),
        _ => true,
    }
}

/// Failure on the way: remember it and remove the workspace.
pub open spec fn fail(p: Pipeline, e: PipelineError) -> (Pipeline, Action) {
    (Pipeline { phase: Phase::Cleaning, failure: Some(e), ..p }, Action::Destroy)
}

pub open spec fn goto(p: Pipeline, ph: Phase, a: Action) -> (Pipeline, Action) {
    (Pipeline { phase: ph, ..p }, a)
}

/// The transition relation of the pipeline.
pub open spec fn next(p: Pipeline, ev: Event) -> (Pipeline, Action) {
    match (p.phase, ev) {
        (Phase::Creating, Event::WorkspaceCreated) =>
            if p.clone_source { goto(p, Phase::Resolving, Action::ResolveCloneDestination) }
            else { goto(p, Phase::Retrieving, Action::Fetch) },
        (Phase::Creating, Event::WorkspaceCreateFailed) =>
            (Pipeline { phase: Phase::Done, failure: Some(PipelineError::WorkspaceCreateFailed), ..p },
             Action::Reply(Some(PipelineError::WorkspaceCreateFailed))),
        (Phase::Retrieving, Event::Fetched { len }) =>
            if len > p.max_retrieved_bytes { fail(p, PipelineError::RetrievalTooLarge) }
            else { goto(p, Phase::Listing, Action::ListArchive) },
        (Phase::Retrieving, Event::FetchFailed { timed_out }) =>
            fail(p, if timed_out { PipelineError::RetrievalTimeout } else { PipelineError::RetrievalFailed }),
        (Phase::Resolving, Event::DestinationResolved { root, dest }) =>
            if strict_descendant(root@, dest@) { goto(p, Phase::Cloning, Action::Clone) }
            else { fail(p, PipelineError::UnsafeCloneDestination) },
        (Phase::Resolving, Event::ResolveFailed) => fail(p, PipelineError::WorkspaceCreateFailed),
        (Phase::Cloning, Event::Cloned) => goto(p, Phase::Scanning, Action::Scan),
        (Phase::Cloning, Event::CloneFailed { timed_out }) =>
            fail(p, if timed_out { PipelineError::RetrievalTimeout } else { PipelineError::RetrievalFailed }),
        (Phase::Listing, Event::ArchiveListed { entries }) =>
            if forall|j: int| 0 <= j < entries@.len() ==> entry_safe(#[trigger] entries@[j]) {
                goto(p, Phase::Unpacking, Action::Unpack)
            } else {
                fail(p, PipelineError::UnsafeArchiveEntry)
            },
        (Phase::Listing, Event::ArchiveUnreadable) => fail(p, PipelineError::ExtractionFailed),
        (Phase::Unpacking, Event::Unpacked) => goto(p, Phase::Scanning, Action::Scan),
        (Phase::Unpacking, Event::UnpackFailed) => fail(p, PipelineError::ExtractionFailed),
        (Phase::Scanning, Event::Scanned) => goto(p, Phase::Cleaning, Action::Destroy),
        (Phase::Cleaning, Event::Destroyed) => (Pipeline { phase: Phase::Done, ..p }, Action::Reply(p.failure)),
        _ => (p, Action::Ignore),
    }
}

impl Pipeline {
    /// A pipeline for one request, and its first action.
    pub fn new(clone_source: bool, max_retrieved_bytes: u64) -> (r: (Pipeline, Action))
        ensures
            r.0 == (Pipeline { phase: Phase::Creating, clone_source, max_retrieved_bytes, failure: None }),
            r.1 == Action::CreateWorkspace,
    {
        (Pipeline { phase: Phase::Creating, clone_source, max_retrieved_bytes, failure: None }, Action::CreateWorkspace)
    }

    fn fail_with(&mut self, e: PipelineError) -> (a: Action)
        ensures
            (*final(self), a) == fail(*old(self), e),
    {
        self.phase = Phase::Cleaning;
        self.failure = Some(e);
        Action::Destroy
    }

    fn go(&mut self, ph: Phase, a: Action) -> (r: Action)
        ensures
            (*final(self), r) == goto(*old(self), ph, a),
    {
        self.phase = ph;
        a
    }

    /// Takes what came of the last action and returns the next one.
    pub fn step(&mut self, ev: Event) -> (a: Action)
        requires
            event_fits(ev),
        ensures
            (*final(self), a) == next(*old(self), ev),
    {
        match (self.phase, ev) {
            (Phase::Creating, Event::WorkspaceCreated) => {
                if self.clone_source {
                    self.go(Phase::Resolving, Action::ResolveCloneDestination)
                } else {
                    self.go(Phase::Retrieving, Action::Fetch)
                }
            },
            (Phase::Creating, Event::WorkspaceCreateFailed) => {
                self.phase = Phase::Done;
                self.failure = Some(PipelineError::WorkspaceCreateFailed);
                Action::Reply(Some(PipelineError::WorkspaceCreateFailed))
            },
            (Phase::Retrieving, Event::Fetched { len }) => {
                if len > self.max_retrieved_bytes {
                    self.fail_with(PipelineError::RetrievalTooLarge)
                } else {
                    self.go(Phase::Listing, Action::ListArchive)
                }
            },
            (Phase::Retrieving, Event::FetchFailed { timed_out }) => {
                self.fail_with(if timed_out { PipelineError::RetrievalTimeout } else { PipelineError::RetrievalFailed })
            },
            (Phase::Resolving, Event::DestinationResolved { root, dest }) => {
                match check_clone_destination(&root, &dest) {
                    Ok(()) => self.go(Phase::Cloning, Action::Clone),
                    Err(e) => self.fail_with(e),
                }
            },
            (Phase::Resolving, Event::ResolveFailed) => self.fail_with(PipelineError::WorkspaceCreateFailed),
            (Phase::Cloning, Event::Cloned) => self.go(Phase::Scanning, Action::Scan),
            (Phase::Cloning, Event::CloneFailed { timed_out }) => {
                self.fail_with(if timed_out { PipelineError::RetrievalTimeout } else { PipelineError::RetrievalFailed })
            },
            (Phase::Listing, Event::ArchiveListed { entries }) => {
                match check_archive(&entries) {
                    Ok(()) => self.go(Phase::Unpacking, Action::Unpack),
                    Err(e) => self.fail_with(e),
                }
            },
            (Phase::Listing, Event::ArchiveUnreadable) => self.fail_with(PipelineError::ExtractionFailed),
            (Phase::Unpacking, Event::Unpacked) => self.go(Phase::Scanning, Action::Scan),
            (Phase::Unpacking, Event::UnpackFailed) => self.fail_with(PipelineError::ExtractionFailed),
            (Phase::Scanning, Event::Scanned) => self.go(Phase::Cleaning, Action::Destroy),
            (Phase::Cleaning, Event::Destroyed) => {
                self.phase = Phase::Done;
                Action::Reply(self.failure)
            },
            _ => Action::Ignore,
        }
    }
}

/// Cleanup is unconditional. A live workspace is left only by the step that
/// reports its removal; every step into `Cleaning` asks for `Destroy`; and the
/// caller is answered only after that removal, or when no workspace was made.
pub proof fn lemma_cleanup_precedes_reply(p: Pipeline, ev: Event)
    ensures
        workspace_live(p.phase) && !workspace_live(next(p, ev).0.phase) ==>
            p.phase == Phase::Cleaning && ev is Destroyed,
        next(p, ev).0.phase == Phase::Cleaning && p.phase != Phase::Cleaning ==> next(p, ev).1 == Action::Destroy,
        next(p, ev).1 is Reply ==>
            (p.phase == Phase::Cleaning && ev is Destroyed)
            || (p.phase == Phase::Creating && ev is WorkspaceCreateFailed),
        p.phase == Phase::Creating ==> !workspace_live(next(p, ev).0.phase) || ev is WorkspaceCreated,
{
}

/// A clone destination that is not strictly below the canonical workspace
/// root is refused before the clone is asked for.
pub proof fn lemma_unsafe_destination_never_cloned(p: Pipeline, root: Vec<PathPart>, dest: Vec<PathPart>)
    requires
        p.phase == Phase::Resolving,
        !strict_descendant(root@, dest@),
    ensures
        next(p, Event::DestinationResolved { root, dest }).1 == Action::Destroy,
        next(p, Event::DestinationResolved { root, dest }).0.failure == Some(PipelineError::UnsafeCloneDestination),
        forall|q: Pipeline, ev: Event| next(q, ev).1 == Action::Clone ==> q.phase == Phase::Resolving
            && (ev matches Event::DestinationResolved { root, dest } && strict_descendant(root@, dest@)),
{
}

/// An archive holding an unsafe entry is never unpacked: the request ends in
/// `UnsafeArchiveEntry`, after the workspace is removed.
pub proof fn lemma_unsafe_archive_refused(p: Pipeline, entries: Vec<ArchiveEntry>, k: int)
    requires
        p.phase == Phase::Listing,
        0 <= k < entries@.len(),
        !entry_safe(entries@[k]),
    ensures
        next(p, Event::ArchiveListed { entries }).1 == Action::Destroy,
        next(next(p, Event::ArchiveListed { entries }).0, Event::Destroyed).1
            == Action::Reply(Some(PipelineError::UnsafeArchiveEntry)),
{
}

/// A fetch that delivered more than the limit ends in `RetrievalTooLarge`:
/// no extraction is asked for, and the workspace is removed first.
pub proof fn lemma_oversized_fetch_refused(p: Pipeline, len: u64)
    requires
        p.phase == Phase::Retrieving,
        len > p.max_retrieved_bytes,
    ensures
        next(p, Event::Fetched { len }).1 == Action::Destroy,
        next(next(p, Event::Fetched { len }).0, Event::Destroyed).1
            == Action::Reply(Some(PipelineError::RetrievalTooLarge)),
        forall|q: Pipeline, ev: Event| next(q, ev).1 == Action::ListArchive ==>
            q.phase == Phase::Retrieving && (ev matches Event::Fetched { len } && len <= q.max_retrieved_bytes),
{
}

/// The state reached and the actions asked for when `evs` are fed in order
/// from `p`.
pub open spec fn run(p: Pipeline, evs: Seq<Event>) -> (Pipeline, Seq<Action>)
    decreases evs.len(),
{
    if evs.len() == 0 {
        (p, Seq::empty())
    } else {
        let prev = run(p, evs.drop_last());
        let step = next(prev.0, evs.last());
        (step.0, prev.1.push(step.1))
    }
}

/// Some action of `acts` set up a workspace's contents (a fetch or a clone
/// destination), so a workspace directory had been created.
pub open spec fn workspace_used(acts: Seq<Action>) -> bool {
    acts.contains(Action::Fetch) || acts.contains(Action::ResolveCloneDestination)
}

proof fn lemma_push_keeps(acts: Seq<Action>, a: Action, x: Action)
    ensures
        acts.contains(x) ==> acts.push(a).contains(x),
        acts.push(a).contains(x) ==> acts.contains(x) || a == x,
{
    if acts.contains(x) {
        let k = choose|k: int| 0 <= k < acts.len() && acts[k] == x;
        assert(acts.push(a)[k] == x);
    }
    if acts.push(a).contains(x) && a != x {
        let k = choose|k: int| 0 <= k < acts.len() + 1 && acts.push(a)[k] == x;
        assert(acts[k] == x);
    }
}

/// Over any run of a fresh pipeline: while the workspace is being removed, a
/// `Destroy` has been asked for; and once the request is answered, either a
/// `Destroy` was asked for or no workspace was ever set up.
pub proof fn lemma_run_cleans_up(clone_source: bool, max_retrieved_bytes: u64, evs: Seq<Event>)
    ensures
        ({
            let start = Pipeline { phase: Phase::Creating, clone_source, max_retrieved_bytes, failure: None };
            let (q, acts) = run(start, evs);
            &&& q.phase == Phase::Cleaning ==> acts.contains(Action::Destroy)
            &&& q.phase == Phase::Done ==> acts.contains(Action::Destroy) || !workspace_used(acts)
            &&& q.phase == Phase::Creating ==> !workspace_used(acts)
            &&& q.clone_source == clone_source
        }),
    decreases evs.len(),
{
    let start = Pipeline { phase: Phase::Creating, clone_source, max_retrieved_bytes, failure: None };
    if evs.len() > 0 {
        lemma_run_cleans_up(clone_source, max_retrieved_bytes, evs.drop_last());
        let (q0, acts0) = run(start, evs.drop_last());
        let (q1, a) = next(q0, evs.last());
        lemma_push_keeps(acts0, a, Action::Destroy);
        lemma_push_keeps(acts0, a, Action::Fetch);
        lemma_push_keeps(acts0, a, Action::ResolveCloneDestination);
        lemma_cleanup_precedes_reply(q0, evs.last());
        if q1.phase == Phase::Cleaning && q0.phase != Phase::Cleaning {
            assert(acts0.push(a)[acts0.len() as int] == Action::Destroy);
        }
    }
}

} // verus!
