//! Lexical path containment: whether a relative path, resolved segment by
//! segment from a directory at a given depth below the workspace root, stays
//! strictly inside that root.
use vstd::prelude::*;
use crate::error::PipelineError;

verus! {

/// One segment of a path, as a path parser splits it.
#[derive(Clone, Debug)]
pub enum PathPart {
    /// The filesystem root (the path is absolute).
    Root,
    /// `.`
    Current,
    /// `..`
    Parent,
    /// Any other segment.
    Name(String),
}

impl PathPart {
    pub open spec fn is_name(&self) -> bool {
        self is Name
    }

    /// Two segments are the same segment (names compared by their characters).
    pub open spec fn same_as(&self, o: &PathPart) -> bool {
        match (self, o) {
            (PathPart::Name(a), PathPart::Name(b)) => a@ == b@,
            (PathPart::Root, PathPart::Root) => true,
            (PathPart::Current, PathPart::Current) => true,
            (PathPart::Parent, PathPart::Parent) => true,
            _ => false,
        }
    }
}

/// Depth below the root after taking one segment at depth `d`; `None` once the
/// path leaves the root (an absolute segment, or `..` at the root itself).
pub open spec fn step_depth(d: int, p: PathPart) -> Option<int> {
    match p {
        PathPart::Root => None,
        PathPart::Current => Some(d),
        PathPart::Parent => if d <= 0 { None } else { Some(d - 1) },
        PathPart::Name(_) => Some(d + 1),
    }
}

/// Depth below the root after resolving `parts` left to right from depth `start`.
pub open spec fn depth_after(start: int, parts: Seq<PathPart>) -> Option<int>
    decreases parts.len(),
{
    if parts.len() == 0 {
        Some(start)
    } else {
        match depth_after(start, parts.drop_last()) {
            None => None,
            Some(d) => step_depth(d, parts.last()),
        }
    }
}

/// Resolving `parts` from depth `start` ends strictly below the root and never
/// leaves it on the way.
pub open spec fn stays_inside(start: int, parts: Seq<PathPart>) -> bool {
    match depth_after(start, parts) {
        Some(d) => d > 0,
        None => false,
    }
}

pub(crate) proof fn lemma_depth_bound(start: int, parts: Seq<PathPart>)
    requires
        start >= 0,
    ensures
        depth_after(start, parts) matches Some(d) ==> 0 <= d <= start + parts.len(),
    decreases parts.len(),
{
    if parts.len() > 0 {
        lemma_depth_bound(start, parts.drop_last());
    }
}

/// Resolves `parts` from depth `start` and reports the depth reached, or `None`
/// where the path leaves the root.
pub fn resolved_depth(start: usize, parts: &Vec<PathPart>) -> (r: Option<usize>)
    requires
        start + parts@.len() <= usize::MAX,
    ensures
        match r {
            Some(d) => depth_after(start as int, parts@) == Some(d as int),
            None => depth_after(start as int, parts@) is None,
        },
{
    let mut d: usize = start;
    let mut i: usize = 0;
    while i < parts.len()
        invariant
            i <= parts@.len(),
            start + parts@.len() <= usize::MAX,
            depth_after(start as int, parts@.subrange(0, i as int)) == Some(d as int),
            d <= start + i,
        decreases parts@.len() - i,
    {
        proof {
            assert(parts@.subrange(0, i + 1).drop_last() =~= parts@.subrange(0, i as int));
        }
        match &parts[i] {
            PathPart::Root => {
                proof { lemma_none_stays(start as int, parts@, i as int + 1); }
                return None;
            },
            PathPart::Current => {},
            PathPart::Parent => {
                if d == 0 {
                    proof { lemma_none_stays(start as int, parts@, i as int + 1); }
                    return None;
                }
                d = d - 1;
            },
            PathPart::Name(_) => {
                d = d + 1;
            },
        }
        i = i + 1;
    }
    proof {
        assert(parts@.subrange(0, i as int) =~= parts@);
    }
    Some(d)
}

/// Once a prefix of the path leaves the root, the whole path does.
proof fn lemma_none_stays(start: int, parts: Seq<PathPart>, k: int)
    requires
        0 <= k <= parts.len(),
        depth_after(start, parts.subrange(0, k)) is None,
    ensures
        depth_after(start, parts) is None,
    decreases parts.len() - k,
{
    if k < parts.len() {
        assert(parts.subrange(0, k + 1).drop_last() =~= parts.subrange(0, k));
        lemma_none_stays(start, parts, k + 1);
    } else {
        assert(parts.subrange(0, k) =~= parts);
    }
}

/// `dest` names a directory strictly below `root`: it starts with `root`'s
/// segments and continues with at least one plain name, and every segment
/// after `root`'s is a plain name (no `.`, `..` or root that could move it).
pub open spec fn strict_descendant(root: Seq<PathPart>, dest: Seq<PathPart>) -> bool {
    &&& dest.len() > root.len()
    &&& forall|i: int| 0 <= i < root.len() ==> (#[trigger] root[i]).same_as(&dest[i])
    &&& forall|i: int| root.len() <= i < dest.len() ==> (#[trigger] dest[i]).is_name()
}

fn same_part(a: &PathPart, b: &PathPart) -> (r: bool)
    ensures
        r == a.same_as(b),
{
    match (a, b) {
        (PathPart::Name(x), PathPart::Name(y)) => x.eq(y),
        (PathPart::Root, PathPart::Root) => true,
        (PathPart::Current, PathPart::Current) => true,
        (PathPart::Parent, PathPart::Parent) => true,
        _ => false,
    }
}

/// Decides `strict_descendant` on two canonical paths.
pub fn is_strict_descendant(root: &Vec<PathPart>, dest: &Vec<PathPart>) -> (r: bool)
    ensures
        r == strict_descendant(root@, dest@),
{
    if dest.len() <= root.len() {
        return false;
    }
    let mut i: usize = 0;
    while i < root.len()
        invariant
            i <= root@.len() < dest@.len(),
            forall|j: int| 0 <= j < i ==> (#[trigger] root@[j]).same_as(&dest@[j]),
        decreases root@.len() - i,
    {
        if !same_part(&root[i], &dest[i]) {
            return false;
        }
        i = i + 1;
    }
    while i < dest.len()
        invariant
            root@.len() <= i <= dest@.len(),
            forall|j: int| 0 <= j < root@.len() ==> (#[trigger] root@[j]).same_as(&dest@[j]),
            forall|j: int| root@.len() <= j < i ==> (#[trigger] dest@[j]).is_name(),
        decreases dest@.len() - i,
    {
        if let PathPart::Name(_) = &dest[i] {
        } else {
            return false;
        }
        i = i + 1;
    }
    true
}

/// The clone gate: `Ok` exactly when the canonical destination lies strictly
/// below the canonical workspace root, else `UnsafeCloneDestination`.
pub fn check_clone_destination(root: &Vec<PathPart>, dest: &Vec<PathPart>) -> (r: Result<(), PipelineError>)
    ensures
        r is Ok <==> strict_descendant(root@, dest@),
        r is Err ==> r == Err::<(), PipelineError>(PipelineError::UnsafeCloneDestination),
{
    if is_strict_descendant(root, dest) {
        Ok(())
    } else {
        Err(PipelineError::UnsafeCloneDestination)
    }
}

} // verus!
