//! Ignore-aware selection of candidate files. The tree is listed outside the
//! library (entries with workspace-relative paths such as `src/a.rs`); here
//! each entry is judged by the ignore rules and the hidden-file policy, and a
//! directory that is ignored, that holds version-control metadata, or that is
//! hidden when hidden entries are not followed, prunes everything below it.
use vstd::prelude::*;
use vstd::utf8::encode_utf8;
use ignore::gitignore::{Gitignore, GitignoreBuilder};

verus! {

#[verifier::external_type_specification]
#[verifier::external_body]
pub struct ExGitignore(Gitignore);

#[verifier::external_type_specification]
#[verifier::external_body]
pub struct ExGitignoreBuilder(GitignoreBuilder);

/// Whether one line of ignore-file syntax compiles to a pattern (comments and
/// blank lines do, to nothing).
pub uninterp spec fn pattern_parses(line: Seq<char>) -> bool;

/// What a matcher built from the pattern lines `lines`, relative to `root`,
/// answers for `path`: the path itself is ignored (a later whitelist pattern
/// re-includes it; parent directories are not consulted).
pub uninterp spec fn ignored_by(root: Seq<char>, lines: Seq<Seq<char>>, path: Seq<char>, is_dir: bool) -> bool;

/// Relies on ignore::gitignore::GitignoreBuilder::new: an empty builder whose
/// patterns match relative to `root`.
#[verifier::external_body]
fn new_builder(root: &str) -> GitignoreBuilder {
    GitignoreBuilder::new(root)
}

/// Relies on ignore::gitignore::GitignoreBuilder::add_line: adds one pattern in
/// ignore-file syntax; `false`, and the builder untouched, where the pattern
/// does not compile. Which lines compile depends on the line alone.
#[verifier::external_body]
fn add_pattern(b: &mut GitignoreBuilder, line: &str) -> (r: bool)
    ensures
        r == pattern_parses(line@),
{
    b.add_line(None, line).is_ok()
}

/// Relies on ignore::gitignore::GitignoreBuilder::build: compiles the patterns
/// added so far into a matcher.
#[verifier::external_body]
fn build_matcher(b: &GitignoreBuilder) -> Option<Gitignore> {
    b.build().ok()
}

/// Relies on ignore::gitignore::Gitignore::empty: a matcher that ignores nothing.
#[verifier::external_body]
fn empty_matcher() -> Gitignore {
    Gitignore::empty()
}

/// Relies on ignore::gitignore::Gitignore::matched and Match::is_ignore. The
/// matcher of a rule set is built only by `build_rules`, from its root and its
/// lines in order (lines that do not compile leave the builder untouched), and
/// its answer depends on those and on the path alone.
#[verifier::external_body]
fn matcher_ignores(rules: &IgnoreRuleSet, path: &str, is_dir: bool) -> (r: bool)
    ensures
        r == ignored_by(rules.root_view(), rules.lines_view(), path@, is_dir),
{
    rules.matcher.matched(path, is_dir).is_ignore()
}

/// The texts of a sequence of strings.
pub open spec fn views(s: Seq<String>) -> Seq<Seq<char>> {
    s.map_values(|l: String| l@)
}

/// The lines of `lines` that do not compile, in order.
pub open spec fn rejected_of(lines: Seq<Seq<char>>) -> Seq<Seq<char>>
    decreases lines.len(),
{
    if lines.len() == 0 {
        Seq::empty()
    } else if pattern_parses(lines.last()) {
        rejected_of(lines.drop_last())
    } else {
        rejected_of(lines.drop_last()).push(lines.last())
    }
}

/// The compiled exclusion patterns of one request; read-only once built.
pub struct IgnoreRuleSet {
    root: String,
    lines: Vec<String>,
    matcher: Gitignore,
    rejected: Vec<String>,
    compiled: bool,
}

impl IgnoreRuleSet {
    /// The directory the patterns are relative to.
    pub closed spec fn root_view(&self) -> Seq<char> {
        self.root@
    }

    /// The pattern lines, in the order they were added.
    pub closed spec fn lines_view(&self) -> Seq<Seq<char>> {
        views(self.lines@)
    }

    /// The lines that did not compile and were left out.
    pub closed spec fn rejected_view(&self) -> Seq<Seq<char>> {
        views(self.rejected@)
    }

    /// The patterns compiled into a matcher. Where they did not, the matcher
    /// ignores nothing and the caller is to record that.
    pub closed spec fn spec_compiled(&self) -> bool {
        self.compiled
    }

    pub fn compiled(&self) -> (r: bool)
        ensures
            r == self.spec_compiled(),
    {
        self.compiled
    }

    pub fn rejected(&self) -> (r: &Vec<String>)
        ensures
            views(r@) == self.rejected_view(),
    {
        &self.rejected
    }
}

/// Builds the rule set of one directory, `root` (workspace-relative, empty for
/// the workspace root), from the lines of its ignore file, then the caller's
/// extra patterns (a later pattern overrides an earlier one). Lines that do not compile are left
/// out and listed in `rejected`; where the patterns as a whole fail to compile,
/// `compiled` is false and no pattern is in force. Version-control metadata directories are
/// excluded whatever these rules say (see `is_vcs_metadata`).
pub fn build_rules(root: &str, file_lines: &Vec<String>, extra: &Vec<String>) -> (r: IgnoreRuleSet)
    ensures
        r.root_view() == root@,
        r.lines_view() == views(file_lines@) + views(extra@),
        r.rejected_view() == rejected_of(r.lines_view()),
{
    let mut b = new_builder(root);
    let mut lines: Vec<String> = Vec::new();
    let mut rejected: Vec<String> = Vec::new();
    assert(views(lines@) =~= Seq::empty());
    assert(views(rejected@) =~= Seq::empty());
    add_all(&mut b, file_lines, &mut lines, &mut rejected);
    add_all(&mut b, extra, &mut lines, &mut rejected);
    assert(views(lines@) =~= views(file_lines@) + views(extra@));
    let (matcher, compiled) = match build_matcher(&b) {
        Some(g) => (g, true),
        None => (empty_matcher(), false),
    };
    IgnoreRuleSet { root: root.to_owned(), lines, matcher, rejected, compiled }
}

fn add_all(b: &mut GitignoreBuilder, more: &Vec<String>, lines: &mut Vec<String>, rejected: &mut Vec<String>)
    requires
        views(old(rejected)@) == rejected_of(views(old(lines)@)),
    ensures
        views(final(lines)@) == views(old(lines)@) + views(more@),
        views(final(rejected)@) == rejected_of(views(final(lines)@)),
{
    let ghost start = views(lines@);
    let mut i: usize = 0;
    while i < more.len()
        invariant
            i <= more@.len(),
            views(lines@) == start + views(more@.subrange(0, i as int)),
            views(rejected@) == rejected_of(views(lines@)),
        decreases more@.len() - i,
    {
        let ghost before = views(lines@);
        let ok = add_pattern(b, more[i].as_str());
        lines.push(more[i].clone());
        proof {
            assert(views(lines@) =~= before.push(more@[i as int]@));
            assert(views(lines@).drop_last() =~= before);
            assert(views(more@.subrange(0, i as int + 1)) =~= views(more@.subrange(0, i as int)).push(more@[i as int]@));
        }
        if !ok {
            let ghost rb = views(rejected@);
            rejected.push(more[i].clone());
            proof {
                assert(views(rejected@) =~= rb.push(more@[i as int]@));
            }
        }
        i = i + 1;
    }
    proof {
        assert(more@.subrange(0, more@.len() as int) =~= more@);
    }
}

/// What a listed filesystem entry is. Symbolic links are listed, never followed.
#[derive(Clone, Copy, Debug, PartialEq, Eq, Structural)]
pub enum FileKind {
    File,
    Directory,
    Symlink,
    Other,
}

/// One entry of the listed tree: its workspace-relative path (segments joined
/// by `/`, no leading `/`) and its kind.
#[derive(Clone, Debug)]
pub struct WalkEntry {
    pub path: String,
    pub kind: FileKind,
}

/// A file that the scanner is to read.
#[derive(Clone, Debug)]
pub struct CandidateFile {
    pub path: String,
    pub kind: FileKind,
}

pub open spec fn path_bytes(p: Seq<char>) -> Seq<u8> {
    encode_utf8(p)
}

/// `p` lies below directory `dir`: it continues `dir` past a `/`.
pub open spec fn is_under(dir: Seq<u8>, p: Seq<u8>) -> bool {
    &&& p.len() > dir.len()
    &&& p.subrange(0, dir.len() as int) == dir
    &&& p[dir.len() as int] == 0x2fu8
}

/// Some segment of `p` begins with `.`.
pub open spec fn has_hidden_segment(p: Seq<u8>) -> bool {
    (p.len() > 0 && p[0] == 0x2eu8)
    || exists|k: int| 0 <= k && k + 1 < p.len() && #[trigger] p[k] == 0x2fu8 && p[k + 1] == 0x2eu8
}

/// The entry is a directory whose contents are never visited.
pub open spec fn prunes(e: WalkEntry, ignored: bool, follow_hidden: bool) -> bool {
    e.kind == FileKind::Directory
    && (ignored || is_vcs_metadata(path_bytes(e.path@)) || (!follow_hidden && has_hidden_segment(path_bytes(e.path@))))
}

/// The last segment of `p` is `name`.
pub open spec fn last_segment_is(p: Seq<u8>, name: Seq<u8>) -> bool {
    p == name || (p.len() > name.len()
        && p.subrange(p.len() - name.len(), p.len() as int) == name
        && p[p.len() - name.len() - 1] == 0x2fu8)
}

/// `p` names a version-control metadata directory (`.git`, `.hg`, `.svn`),
/// which is never scanned.
pub open spec fn is_vcs_metadata(p: Seq<u8>) -> bool {
    last_segment_is(p, seq![0x2eu8, 0x67u8, 0x69u8, 0x74u8])
    || last_segment_is(p, seq![0x2eu8, 0x68u8, 0x67u8])
    || last_segment_is(p, seq![0x2eu8, 0x73u8, 0x76u8, 0x6eu8])
}

/// Decides `last_segment_is`.
pub fn ends_with_segment(p: &[u8], name: &[u8]) -> (r: bool)
    ensures
        r == last_segment_is(p@, name@),
{
    let n = p.len();
    let m = name.len();
    if n < m {
        return false;
    }
    let off = n - m;
    let mut k: usize = 0;
    while k < m
        invariant
            n == p@.len(),
            m == name@.len(),
            off == n - m,
            k <= m,
            forall|t: int| 0 <= t < k ==> p@[off + t] == name@[t],
        decreases m - k,
    {
        if p[off + k] != name[k] {
            assert(p@.subrange(off as int, n as int)[k as int] != name@[k as int]);
            if n == m {
                assert(p@[k as int] != name@[k as int]);
            }
            return false;
        }
        k = k + 1;
    }
    assert(p@.subrange(off as int, n as int) =~= name@);
    if n == m {
        assert(p@ =~= name@);
        return true;
    }
    p[off - 1] == 0x2fu8
}

/// Decides `is_vcs_metadata`.
pub fn vcs_metadata(p: &[u8]) -> (r: bool)
    ensures
        r == is_vcs_metadata(p@),
{
    let git: Vec<u8> = vec![0x2eu8, 0x67u8, 0x69u8, 0x74u8];
    let hg: Vec<u8> = vec![0x2eu8, 0x68u8, 0x67u8];
    let svn: Vec<u8> = vec![0x2eu8, 0x73u8, 0x76u8, 0x6eu8];
    assert(git@ =~= seq![0x2eu8, 0x67u8, 0x69u8, 0x74u8]);
    assert(hg@ =~= seq![0x2eu8, 0x68u8, 0x67u8]);
    assert(svn@ =~= seq![0x2eu8, 0x73u8, 0x76u8, 0x6eu8]);
    ends_with_segment(p, git.as_slice()) || ends_with_segment(p, hg.as_slice()) || ends_with_segment(p, svn.as_slice())
}

/// Some pruned directory among `entries` holds the path `p`.
pub open spec fn pruned_below(entries: Seq<WalkEntry>, ignored: Seq<bool>, follow_hidden: bool, p: Seq<u8>) -> bool {
    exists|j: int| 0 <= j < entries.len()
        && #[trigger] prunes(entries[j], ignored[j], follow_hidden)
        && is_under(path_bytes(entries[j].path@), p)
}

/// Entry `i` is a candidate: a regular file, not ignored itself, not hidden
/// (unless hidden entries are followed), and under no pruned directory.
pub open spec fn is_candidate(entries: Seq<WalkEntry>, ignored: Seq<bool>, follow_hidden: bool, i: int) -> bool {
    &&& entries[i].kind == FileKind::File
    &&& !ignored[i]
    &&& (follow_hidden || !has_hidden_segment(path_bytes(entries[i].path@)))
    &&& !pruned_below(entries, ignored, follow_hidden, path_bytes(entries[i].path@))
}

/// Indices of the candidates among the first `n` entries, in listing order.
pub open spec fn candidates_upto(entries: Seq<WalkEntry>, ignored: Seq<bool>, follow_hidden: bool, n: int) -> Seq<int>
    decreases n,
{
    if n <= 0 {
        Seq::empty()
    } else {
        let prev = candidates_upto(entries, ignored, follow_hidden, n - 1);
        if is_candidate(entries, ignored, follow_hidden, n - 1) {
            prev.push(n - 1)
        } else {
            prev
        }
    }
}

/// Indices of all candidates, in listing order.
pub open spec fn candidates(entries: Seq<WalkEntry>, ignored: Seq<bool>, follow_hidden: bool) -> Seq<int> {
    candidates_upto(entries, ignored, follow_hidden, entries.len() as int)
}

/// `out` holds, in order, the candidates `sel` of `entries`.
pub open spec fn lists_candidates(out: Seq<CandidateFile>, entries: Seq<WalkEntry>, sel: Seq<int>) -> bool {
    &&& out.len() == sel.len()
    &&& forall|i: int| 0 <= i < out.len() ==>
        0 <= sel[i] < entries.len()
        && (#[trigger] out[i]).path@ == entries[sel[i]].path@
        && out[i].kind == entries[sel[i]].kind
}

/// Decides `is_under`.
pub fn bytes_under(dir: &[u8], p: &[u8]) -> (r: bool)
    ensures
        r == is_under(dir@, p@),
{
    if p.len() <= dir.len() {
        return false;
    }
    let mut i: usize = 0;
    while i < dir.len()
        invariant
            i <= dir@.len() < p@.len(),
            forall|k: int| 0 <= k < i ==> p@[k] == dir@[k],
        decreases dir@.len() - i,
    {
        if p[i] != dir[i] {
            assert(p@.subrange(0, dir@.len() as int)[i as int] != dir@[i as int]);
            return false;
        }
        i = i + 1;
    }
    assert(p@.subrange(0, dir@.len() as int) =~= dir@);
    p[dir.len()] == 0x2fu8
}

/// Decides `has_hidden_segment`.
pub fn bytes_hidden(p: &[u8]) -> (r: bool)
    ensures
        r == has_hidden_segment(p@),
{
    if p.len() > 0 && p[0] == 0x2eu8 {
        return true;
    }
    let mut k: usize = 0;
    while k < p.len()
        invariant
            k <= p@.len(),
            forall|j: int| 0 <= j < k && j + 1 < p@.len() ==> !(#[trigger] p@[j] == 0x2fu8 && p@[j + 1] == 0x2eu8),
        decreases p@.len() - k,
    {
        if p[k] == 0x2fu8 && k + 1 < p.len() && p[k + 1] == 0x2eu8 {
            return true;
        }
        k = k + 1;
    }
    false
}

/// Selects, in listing order, the candidate files of `entries`, where
/// `ignored[i]` says whether the ignore rules match entry `i` itself.
pub fn select_candidates(entries: &Vec<WalkEntry>, ignored: &Vec<bool>, follow_hidden: bool) -> (r: Vec<CandidateFile>)
    requires
        ignored@.len() == entries@.len(),
    ensures
        lists_candidates(r@, entries@, candidates(entries@, ignored@, follow_hidden)),
{
    let n = entries.len();
    // Pass one: every directory whose contents are pruned.
    let mut pruned: Vec<usize> = Vec::new();
    let mut i: usize = 0;
    while i < n
        invariant
            n == entries@.len(),
            ignored@.len() == n,
            i <= n,
            forall|t: int| 0 <= t < pruned@.len() ==>
                (#[trigger] pruned@[t]) < n && prunes(entries@[pruned@[t] as int], ignored@[pruned@[t] as int], follow_hidden),
            forall|j: int| 0 <= j < i && #[trigger] prunes(entries@[j], ignored@[j], follow_hidden) ==>
                exists|t: int| 0 <= t < pruned@.len() && pruned@[t] == j,
        decreases n - i,
    {
        let e = &entries[i];
        let is_dir = e.kind == FileKind::Directory;
        let pb = e.path.as_str().as_bytes();
        if is_dir && (ignored[i] || vcs_metadata(pb) || (!follow_hidden && bytes_hidden(pb))) {
            let ghost before = pruned@;
            pruned.push(i);
            proof {
                assert(pruned@[before.len() as int] == i);
                assert forall|j: int| 0 <= j < i + 1 && #[trigger] prunes(entries@[j], ignored@[j], follow_hidden)
                    implies exists|t: int| 0 <= t < pruned@.len() && pruned@[t] == j by {
                    if j < i {
                        let t = choose|t: int| 0 <= t < before.len() && before[t] == j;
                        assert(pruned@[t] == j);
                    }
                }
            }
        } else {
            proof {
                assert(!prunes(entries@[i as int], ignored@[i as int], follow_hidden));
            }
        }
        i = i + 1;
    }
    // Pass two: the candidates, in listing order.
    let mut out: Vec<CandidateFile> = Vec::new();
    let mut i: usize = 0;
    while i < n
        invariant
            n == entries@.len(),
            ignored@.len() == n,
            i <= n,
            forall|t: int| 0 <= t < pruned@.len() ==>
                (#[trigger] pruned@[t]) < n && prunes(entries@[pruned@[t] as int], ignored@[pruned@[t] as int], follow_hidden),
            forall|j: int| 0 <= j < n && #[trigger] prunes(entries@[j], ignored@[j], follow_hidden) ==>
                exists|t: int| 0 <= t < pruned@.len() && pruned@[t] == j,
            lists_candidates(out@, entries@, candidates_upto(entries@, ignored@, follow_hidden, i as int)),
        decreases n - i,
    {
        let e = &entries[i];
        let p = e.path.as_str().as_bytes();
        let mut keep = e.kind == FileKind::File && !ignored[i] && (follow_hidden || !bytes_hidden(p));
        if keep {
            let mut t: usize = 0;
            let mut hit = false;
            while t < pruned.len() && !hit
                invariant
                    n == entries@.len(),
                    ignored@.len() == n,
                    i < n,
                    t <= pruned@.len(),
                    p@ == path_bytes(entries@[i as int].path@),
                    forall|s: int| 0 <= s < pruned@.len() ==>
                        (#[trigger] pruned@[s]) < n && prunes(entries@[pruned@[s] as int], ignored@[pruned@[s] as int], follow_hidden),
                    !hit ==> forall|s: int| 0 <= s < t ==>
                        !is_under(path_bytes(entries@[#[trigger] pruned@[s] as int].path@), p@),
                    hit ==> t < pruned@.len() && is_under(path_bytes(entries@[pruned@[t as int] as int].path@), p@),
                decreases pruned@.len() - t + (if hit { 0int } else { 1int }),
            {
                let d = pruned[t];
                if bytes_under(entries[d].path.as_str().as_bytes(), p) {
                    hit = true;
                } else {
                    t = t + 1;
                }
            }
            proof {
                if hit {
                    let j = pruned@[t as int] as int;
                    assert(prunes(entries@[j], ignored@[j], follow_hidden));
                    assert(pruned_below(entries@, ignored@, follow_hidden, p@));
                } else {
                    assert forall|j: int| 0 <= j < n && #[trigger] prunes(entries@[j], ignored@[j], follow_hidden)
                        implies !is_under(path_bytes(entries@[j].path@), p@) by {
                        let s = choose|s: int| 0 <= s < pruned@.len() && pruned@[s] == j;
                        assert(pruned@[s] == j);
                    }
                }
            }
            keep = !hit;
        }
        proof {
            assert(keep == is_candidate(entries@, ignored@, follow_hidden, i as int));
        }
        if keep {
            out.push(CandidateFile { path: e.path.clone(), kind: e.kind });
        }
        proof {
            let sel = candidates_upto(entries@, ignored@, follow_hidden, i as int + 1);
            assert forall|k: int| 0 <= k < out@.len() implies
                0 <= sel[k] < entries@.len()
                && (#[trigger] out@[k]).path@ == entries@[sel[k]].path@
                && out@[k].kind == entries@[sel[k]].kind by {
            }
        }
        i = i + 1;
    }
    out
}

/// A rule set whose directory is `dir` (workspace-relative, empty for the
/// workspace root) speaks of the path `p`: `p` lies below that directory.
pub open spec fn layer_applies(dir: Seq<u8>, p: Seq<u8>) -> bool {
    dir.len() == 0 || is_under(dir, p)
}

/// The answer of the rule sets `layers` for entry `e`: some rule set whose
/// directory holds the entry ignores it.
pub open spec fn layered_answer(layers: Seq<IgnoreRuleSet>, e: WalkEntry) -> bool {
    exists|k: int| 0 <= k < layers.len()
        && layer_applies(path_bytes((#[trigger] layers[k]).root_view()), path_bytes(e.path@))
        && ignored_by(layers[k].root_view(), layers[k].lines_view(), e.path@, e.kind == FileKind::Directory)
}

/// The answer of the rule sets for each entry of `entries`.
pub open spec fn rule_answers(layers: Seq<IgnoreRuleSet>, entries: Seq<WalkEntry>) -> Seq<bool> {
    Seq::new(entries.len(), |i: int| layered_answer(layers, entries[i]))
}

/// Decides `layered_answer` for one entry.
fn entry_ignored(layers: &Vec<IgnoreRuleSet>, e: &WalkEntry) -> (r: bool)
    ensures
        r == layered_answer(layers@, *e),
{
    let is_dir = e.kind == FileKind::Directory;
    let p = e.path.as_str().as_bytes();
    let mut k: usize = 0;
    while k < layers.len()
        invariant
            k <= layers@.len(),
            p@ == path_bytes(e.path@),
            is_dir == (e.kind == FileKind::Directory),
            forall|j: int| 0 <= j < k ==> !(
                layer_applies(path_bytes((#[trigger] layers@[j]).root_view()), p@)
                && ignored_by(layers@[j].root_view(), layers@[j].lines_view(), e.path@, is_dir)),
        decreases layers@.len() - k,
    {
        let layer = &layers[k];
        let d = layer.root.as_str().as_bytes();
        if d.len() == 0 || bytes_under(d, p) {
            if matcher_ignores(layer, e.path.as_str(), is_dir) {
                assert(layer_applies(path_bytes(layers@[k as int].root_view()), p@));
                return true;
            }
        }
        k = k + 1;
    }
    false
}

/// Judges every entry by the rule sets of the ignore files found in the
/// workspace (each set built with its file's directory as root) and selects
/// the candidates. A set speaks only of entries below its own directory.
pub fn walk_candidates(layers: &Vec<IgnoreRuleSet>, entries: &Vec<WalkEntry>, follow_hidden: bool) -> (r: Vec<CandidateFile>)
    ensures
        lists_candidates(r@, entries@, candidates(entries@, rule_answers(layers@, entries@), follow_hidden)),
{
    let mut ignored: Vec<bool> = Vec::new();
    let mut i: usize = 0;
    while i < entries.len()
        invariant
            i <= entries@.len(),
            ignored@ =~= rule_answers(layers@, entries@).subrange(0, i as int),
        decreases entries@.len() - i,
    {
        ignored.push(entry_ignored(layers, &entries[i]));
        i = i + 1;
    }
    assert(ignored@ =~= rule_answers(layers@, entries@));
    select_candidates(entries, &ignored, follow_hidden)
}

proof fn lemma_upto_are_candidates(entries: Seq<WalkEntry>, ignored: Seq<bool>, follow_hidden: bool, n: int)
    requires
        0 <= n <= entries.len(),
    ensures
        forall|k: int| 0 <= k < candidates_upto(entries, ignored, follow_hidden, n).len() ==> {
            let i = #[trigger] candidates_upto(entries, ignored, follow_hidden, n)[k];
            0 <= i < n && is_candidate(entries, ignored, follow_hidden, i)
        },
    decreases n,
{
    if n > 0 {
        lemma_upto_are_candidates(entries, ignored, follow_hidden, n - 1);
        let prev = candidates_upto(entries, ignored, follow_hidden, n - 1);
        let cur = candidates_upto(entries, ignored, follow_hidden, n);
        assert forall|k: int| 0 <= k < cur.len() implies {
            let i = #[trigger] cur[k];
            0 <= i < n && is_candidate(entries, ignored, follow_hidden, i)
        } by {
            if k < prev.len() {
                assert(cur[k] == prev[k]);
            }
        }
    }
}

/// A file below a directory that the ignore rules match, or below a
/// version-control metadata directory whatever the rules say, is never
/// selected, whatever its own name.
pub proof fn lemma_ignored_dir_excludes_contents(
    entries: Seq<WalkEntry>,
    ignored: Seq<bool>,
    follow_hidden: bool,
    out: Seq<CandidateFile>,
    d: int,
)
    requires
        ignored.len() == entries.len(),
        lists_candidates(out, entries, candidates(entries, ignored, follow_hidden)),
        0 <= d < entries.len(),
        entries[d].kind == FileKind::Directory,
        ignored[d] || is_vcs_metadata(path_bytes(entries[d].path@)),
    ensures
        forall|k: int| 0 <= k < out.len() ==>
            !is_under(path_bytes(entries[d].path@), path_bytes(#[trigger] out[k].path@)),
{
    lemma_upto_are_candidates(entries, ignored, follow_hidden, entries.len() as int);
    let sel = candidates(entries, ignored, follow_hidden);
    assert forall|k: int| 0 <= k < out.len() implies
        !is_under(path_bytes(entries[d].path@), path_bytes(#[trigger] out[k].path@)) by {
        let i = sel[k];
        assert(is_candidate(entries, ignored, follow_hidden, i));
        assert(prunes(entries[d], ignored[d], follow_hidden));
    }
}

/// Selection is deterministic: two selections over the same listing and the
/// same ignore answers list the same files in the same order.
pub proof fn lemma_selection_deterministic(
    entries: Seq<WalkEntry>,
    ignored: Seq<bool>,
    follow_hidden: bool,
    a: Seq<CandidateFile>,
    b: Seq<CandidateFile>,
)
    requires
        lists_candidates(a, entries, candidates(entries, ignored, follow_hidden)),
        lists_candidates(b, entries, candidates(entries, ignored, follow_hidden)),
    ensures
        a.len() == b.len(),
        forall|k: int| 0 <= k < a.len() ==> (#[trigger] a[k]).path@ == b[k].path@ && a[k].kind == b[k].kind,
{
}

} // verus!
