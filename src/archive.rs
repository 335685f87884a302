//! The entry check of the safe extractor: every entry of an archive, and every
//! link target it carries, must resolve strictly inside the workspace root.
use vstd::prelude::*;
use crate::error::PipelineError;
use crate::paths::{PathPart, depth_after, stays_inside, resolved_depth};

verus! {

/// What an archive entry is, with the target of a link.
#[derive(Clone, Debug)]
pub enum EntryKind {
    File,
    Directory,
    /// A symbolic link; its target is resolved from the entry's own directory.
    Symlink(Vec<PathPart>),
    /// A hard link; its target is resolved from the archive's root.
    HardLink(Vec<PathPart>),
    Other,
}

/// One entry of an archive: its path split into segments, and its kind.
#[derive(Clone, Debug)]
pub struct ArchiveEntry {
    pub parts: Vec<PathPart>,
    pub kind: EntryKind,
}

/// The bytes that a gzip stream decompresses to; `None` where it is not a
/// valid gzip stream.
pub uninterp spec fn gunzip_of(b: Seq<u8>) -> Option<Seq<u8>>;

/// Relies on flate2::read::GzDecoder read to the end (std::io::Read::read_to_end):
/// the decompressed content of the gzip stream in `b`, or an error where the
/// stream is malformed. Reading from a slice does no I/O.
#[verifier::external_body]
fn gunzip(b: &[u8]) -> (r: Option<Vec<u8>>)
    ensures
        match r {
            Some(v) => gunzip_of(b@) == Some(v@),
            None => gunzip_of(b@) is None,
        },
{
    let mut out: Vec<u8> = Vec::new();
    match std::io::Read::read_to_end(&mut flate2::read::GzDecoder::new(b), &mut out) {
        Ok(_) => Some(out),
        Err(_) => None,
    }
}

/// Decompresses fetched archive bytes; a malformed stream is `ExtractionFailed`.
pub fn decompress_archive(bytes: &[u8]) -> (r: Result<Vec<u8>, PipelineError>)
    ensures
        match r {
            Ok(v) => gunzip_of(bytes@) == Some(v@),
            Err(e) => gunzip_of(bytes@) is None && e == PipelineError::ExtractionFailed,
        },
{
    match gunzip(bytes) {
        Some(v) => Ok(v),
        None => Err(PipelineError::ExtractionFailed),
    }
}

/// The entry's path and link target together fit the machine's counters.
pub open spec fn entry_fits(e: ArchiveEntry) -> bool {
    match e.kind {
        EntryKind::Symlink(t) => e.parts@.len() + t@.len() <= usize::MAX,
        EntryKind::HardLink(t) => e.parts@.len() + t@.len() <= usize::MAX,
        _ => true,
    }
}

/// The entry's path holds no `..` segment.
pub open spec fn no_parent_segment(parts: Seq<PathPart>) -> bool {
    forall|i: int| 0 <= i < parts.len() ==> !(parts[i] is Parent)
}

/// An entry may be extracted: its path is relative, has no `..` segment and
/// names something strictly below the root; a link's target is relative, has
/// no `..` segment either, and resolves strictly below the root. Since no path
/// and no target of an accepted archive ever climbs, a path or target that
/// runs through a link made by another entry still cannot leave the root.
pub open spec fn entry_safe(e: ArchiveEntry) -> bool {
    &&& no_parent_segment(e.parts@)
    &&& stays_inside(0, e.parts@)
    &&& match e.kind {
        EntryKind::Symlink(t) => no_parent_segment(t@) && match depth_after(0, e.parts@) {
            Some(d) => stays_inside(d - 1, t@),
            None => false,
        },
        EntryKind::HardLink(t) => no_parent_segment(t@) && stays_inside(0, t@),
        _ => true,
    }
}

/// Every segment is a plain name or `.`: following the path only descends.
pub open spec fn descending(parts: Seq<PathPart>) -> bool {
    forall|i: int| 0 <= i < parts.len() ==> (#[trigger] parts[i] is Name) || parts[i] is Current
}

/// Decides whether `parts` holds a `..` segment.
fn has_parent_segment(parts: &Vec<PathPart>) -> (r: bool)
    ensures
        r == !no_parent_segment(parts@),
        parts@.len() <= usize::MAX,
{
    let n: usize = parts.len();
    let mut i: usize = 0;
    while i < n
        invariant
            n == parts@.len(),
            i <= parts@.len(),
            forall|j: int| 0 <= j < i ==> !(parts@[j] is Parent),
        decreases parts@.len() - i,
    {
        if let PathPart::Parent = &parts[i] {
            return true;
        }
        i = i + 1;
    }
    false
}

/// Decides `entry_safe` for one entry.
pub fn entry_is_safe(e: &ArchiveEntry) -> (r: bool)
    requires
        entry_fits(*e),
    ensures
        r == entry_safe(*e),
{
    if has_parent_segment(&e.parts) {
        return false;
    }
    let d = match resolved_depth(0, &e.parts) {
        Some(d) => d,
        None => return false,
    };
    if d == 0 {
        return false;
    }
    proof {
        crate::paths::lemma_depth_bound(0, e.parts@);
    }
    match &e.kind {
        EntryKind::Symlink(t) => if has_parent_segment(t) {
            false
        } else {
            match resolved_depth(d - 1, t) {
                Some(td) => td > 0,
                None => false,
            }
        },
        EntryKind::HardLink(t) => if has_parent_segment(t) {
            false
        } else {
            match resolved_depth(0, t) {
                Some(td) => td > 0,
                None => false,
            }
        },
        _ => true,
    }
}

/// Checks every entry of an archive in order; stops at the first one that is
/// not safe and returns its index.
pub fn first_unsafe_entry(entries: &Vec<ArchiveEntry>) -> (r: Option<usize>)
    requires
        forall|i: int| 0 <= i < entries@.len() ==> entry_fits(#[trigger] entries@[i]),
    ensures
        match r {
            Some(k) => k < entries@.len() && !entry_safe(entries@[k as int])
                && forall|j: int| 0 <= j < k ==> entry_safe(entries@[j]),
            None => forall|j: int| 0 <= j < entries@.len() ==> entry_safe(entries@[j]),
        },
{
    let mut i: usize = 0;
    while i < entries.len()
        invariant
            i <= entries@.len(),
            forall|k: int| 0 <= k < entries@.len() ==> entry_fits(#[trigger] entries@[k]),
            forall|j: int| 0 <= j < i ==> entry_safe(entries@[j]),
        decreases entries@.len() - i,
    {
        if !entry_is_safe(&entries[i]) {
            return Some(i);
        }
        i = i + 1;
    }
    None
}

/// What the extractor's gate answers for an archive with `entries`.
pub open spec fn archive_verdict(entries: Seq<ArchiveEntry>) -> Result<(), PipelineError> {
    if forall|j: int| 0 <= j < entries.len() ==> entry_safe(#[trigger] entries[j]) {
        Ok(())
    } else {
        Err(PipelineError::UnsafeArchiveEntry)
    }
}

/// The extractor's gate: `Ok` exactly when every entry is safe, else
/// `UnsafeArchiveEntry`.
pub fn check_archive(entries: &Vec<ArchiveEntry>) -> (r: Result<(), PipelineError>)
    requires
        forall|i: int| 0 <= i < entries@.len() ==> entry_fits(#[trigger] entries@[i]),
    ensures
        r == archive_verdict(entries@),
{
    match first_unsafe_entry(entries) {
        Some(_) => Err(PipelineError::UnsafeArchiveEntry),
        None => Ok(()),
    }
}

/// An archive with an entry whose path leaves the workspace root (an absolute
/// path, or `..` segments climbing above it) is refused with
/// `UnsafeArchiveEntry`; so is any entry holding a `..` segment at all.
pub proof fn lemma_escaping_entry_refused(entries: Seq<ArchiveEntry>, i: int)
    requires
        0 <= i < entries.len(),
        !stays_inside(0, entries[i].parts@) || !no_parent_segment(entries[i].parts@),
    ensures
        !entry_safe(entries[i]),
        archive_verdict(entries) == Err::<(), PipelineError>(PipelineError::UnsafeArchiveEntry),
{
}

proof fn lemma_resolving_means_no_root(start: int, parts: Seq<PathPart>)
    requires
        depth_after(start, parts) is Some,
    ensures
        forall|i: int| 0 <= i < parts.len() ==> !(#[trigger] parts[i] is Root),
    decreases parts.len(),
{
    if parts.len() > 0 {
        lemma_resolving_means_no_root(start, parts.drop_last());
        assert forall|i: int| 0 <= i < parts.len() implies !(#[trigger] parts[i] is Root) by {
            if i < parts.len() - 1 {
                assert(parts.drop_last()[i] == parts[i]);
            }
        }
    }
}

/// In an archive whose verdict is `Ok`, every entry path and every link
/// target is made of plain names and `.` only: each symbolic link points at or
/// below its own directory, each hard link below the root, and each path
/// descends from the root. No chain of such links leads above the root.
pub proof fn lemma_accepted_archive_only_descends(entries: Seq<ArchiveEntry>)
    requires
        archive_verdict(entries) is Ok,
    ensures
        forall|i: int| 0 <= i < entries.len() ==> {
            &&& descending((#[trigger] entries[i]).parts@)
            &&& match entries[i].kind {
                EntryKind::Symlink(t) => descending(t@),
                EntryKind::HardLink(t) => descending(t@),
                _ => true,
            }
        },
{
    assert forall|i: int| 0 <= i < entries.len() implies {
        &&& descending((#[trigger] entries[i]).parts@)
        &&& match entries[i].kind {
            EntryKind::Symlink(t) => descending(t@),
            EntryKind::HardLink(t) => descending(t@),
            _ => true,
        }
    } by {
        let e = entries[i];
        assert(entry_safe(e));
        lemma_resolving_means_no_root(0, e.parts@);
        match e.kind {
            EntryKind::Symlink(t) => {
                let d = depth_after(0, e.parts@)->Some_0;
                lemma_resolving_means_no_root(d - 1, t@);
            },
            EntryKind::HardLink(t) => {
                lemma_resolving_means_no_root(0, t@);
            },
            _ => {},
        }
    }
}

/// A link target that climbs with `..` is refused, wherever it would lead.
pub proof fn lemma_climbing_link_refused(entries: Seq<ArchiveEntry>, i: int)
    requires
        0 <= i < entries.len(),
        match entries[i].kind {
            EntryKind::Symlink(t) => !no_parent_segment(t@),
            EntryKind::HardLink(t) => !no_parent_segment(t@),
            _ => false,
        },
    ensures
        !entry_safe(entries[i]),
        archive_verdict(entries) == Err::<(), PipelineError>(PipelineError::UnsafeArchiveEntry),
{
}

} // verus!
