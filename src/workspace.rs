//! The workspace handle: one sandbox directory per request, removed exactly
//! once.
use vstd::prelude::*;

verus! {

/// Relies on chrono's `From<SystemTime> for DateTime<Utc>` (which takes times
/// before the epoch as well) and DateTime::timestamp_nanos_opt: the current
/// time in nanoseconds since the Unix epoch, `None` outside the range of `i64`.
#[verifier::external_body]
fn clock_nanos() -> Option<i64> {
    chrono::DateTime::<chrono::Utc>::from(std::time::SystemTime::now()).timestamp_nanos_opt()
}

/// The current time in nanoseconds since the Unix epoch (0 where the clock
/// lies outside what `i64` holds). With a per-process serial number it makes a
/// workspace name that no concurrent request shares.
pub fn creation_stamp() -> i64 {
    match clock_nanos() {
        Some(n) => n,
        None => 0,
    }
}

/// One request's sandbox directory.
pub struct WorkspaceHandle {
    root: String,
    created_nanos: i64,
    disposed: bool,
}

impl WorkspaceHandle {
    pub closed spec fn spec_disposed(&self) -> bool {
        self.disposed
    }

    pub closed spec fn root_view(&self) -> Seq<char> {
        self.root@
    }

    pub closed spec fn spec_created_nanos(&self) -> i64 {
        self.created_nanos
    }

    /// The directory's absolute path.
    pub fn root(&self) -> (r: &String)
        ensures
            r@ == self.root_view(),
    {
        &self.root
    }

    pub fn created_nanos(&self) -> (r: i64)
        ensures
            r == self.spec_created_nanos(),
    {
        self.created_nanos
    }

    /// A handle for the freshly created directory `root`.
    pub fn new(root: String, created_nanos: i64) -> (h: WorkspaceHandle)
        ensures
            h.root_view() == root@,
            h.spec_created_nanos() == created_nanos,
            !h.spec_disposed(),
    {
        WorkspaceHandle { root, created_nanos, disposed: false }
    }

    pub fn is_disposed(&self) -> (r: bool)
        ensures
            r == self.spec_disposed(),
    {
        self.disposed
    }

    /// Marks the handle disposed. Returns `true` only on the first call: the
    /// caller then removes the directory; later calls must not touch it.
    pub fn begin_dispose(&mut self) -> (first: bool)
        ensures
            first == !old(self).spec_disposed(),
            final(self).spec_disposed(),
            final(self).root_view() == old(self).root_view(),
            final(self).spec_created_nanos() == old(self).spec_created_nanos(),
    {
        let first = !self.disposed;
        self.disposed = true;
        first
    }
}

} // verus!
