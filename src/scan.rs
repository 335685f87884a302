//! The content scanner: a file is fed to it line by line, so memory stays
//! bounded by one line; a substring query yields one record per matching line,
//! a keyword query counts, for each keyword, the lines that contain it.
use vstd::prelude::*;
use vstd::utf8::encode_utf8;

verus! {

/// What a request looks for.
#[derive(Clone, Debug)]
pub enum ScanQuery {
    /// Lines containing this text, byte for byte.
    Substring(String),
    /// For each keyword, the number of lines that contain it.
    Keywords(Vec<String>),
}

/// `q` occurs in `line` as a contiguous run of bytes.
pub open spec fn contains_seq(line: Seq<u8>, q: Seq<u8>) -> bool {
    exists|i: int| 0 <= i && i + q.len() <= line.len() && #[trigger] line.subrange(i, i + q.len()) == q
}

/// `q` occurs in the text `line`, compared byte by byte over their UTF-8 forms.
pub open spec fn text_contains(line: Seq<char>, q: Seq<char>) -> bool {
    contains_seq(encode_utf8(line), encode_utf8(q))
}

/// Decides `contains_seq`: a case-sensitive, byte-wise substring test.
pub fn bytes_contain(line: &[u8], q: &[u8]) -> (r: bool)
    ensures
        r == contains_seq(line@, q@),
{
    let n = line.len();
    let m = q.len();
    if m > n {
        return false;
    }
    let mut i: usize = 0;
    while i <= n - m
        invariant
            n == line@.len(),
            m == q@.len(),
            m <= n,
            i <= n - m + 1,
            forall|j: int| 0 <= j < i ==> #[trigger] line@.subrange(j, j + m) != q@,
        decreases n - m + 1 - i,
    {
        let mut k: usize = 0;
        while k < m && line[i + k] == q[k]
            invariant
                k <= m,
                i + m <= n,
                n == line@.len(),
                m == q@.len(),
                forall|t: int| 0 <= t < k ==> line@[i + t] == q@[t],
            decreases m - k,
        {
            k = k + 1;
        }
        if k == m {
            assert(line@.subrange(i as int, i + m) =~= q@);
            return true;
        }
        assert(line@.subrange(i as int, i + m)[k as int] != q@[k as int]);
        i = i + 1;
    }
    false
}

/// Decides `text_contains` on two strings.
pub fn line_contains(line: &str, q: &str) -> (r: bool)
    ensures
        r == text_contains(line@, q@),
{
    bytes_contain(line.as_bytes(), q.as_bytes())
}

/// One line of a file that holds the query: the file's workspace-relative
/// path, the 1-based line number and the line's full text.
#[derive(Clone, Debug)]
pub struct MatchRecord {
    pub file: String,
    pub line: usize,
    pub text: String,
}

/// The (line number, text) pairs that a substring query yields on `lines`,
/// in line order.
pub open spec fn line_matches(q: Seq<char>, lines: Seq<Seq<char>>) -> Seq<(int, Seq<char>)>
    decreases lines.len(),
{
    if lines.len() == 0 {
        Seq::empty()
    } else {
        let prev = line_matches(q, lines.drop_last());
        if text_contains(lines.last(), q) {
            prev.push((lines.len() as int, lines.last()))
        } else {
            prev
        }
    }
}

/// `recs` are the records of file `file` for the pairs `expected`, in order.
pub open spec fn records_are(recs: Seq<MatchRecord>, file: Seq<char>, expected: Seq<(int, Seq<char>)>) -> bool {
    &&& recs.len() == expected.len()
    &&& forall|i: int| 0 <= i < recs.len() ==> {
        &&& (#[trigger] recs[i]).file@ == file
        &&& recs[i].line as int == expected[i].0
        &&& recs[i].text@ == expected[i].1
    }
}

/// Scanning is deterministic: two scans of the same lines of the same file
/// for the same query yield the same records in the same order.
pub proof fn lemma_scan_deterministic(
    a: Seq<MatchRecord>,
    b: Seq<MatchRecord>,
    file: Seq<char>,
    q: Seq<char>,
    lines: Seq<Seq<char>>,
)
    requires
        records_are(a, file, line_matches(q, lines)),
        records_are(b, file, line_matches(q, lines)),
    ensures
        a.len() == b.len(),
        forall|i: int| 0 <= i < a.len() ==>
            (#[trigger] a[i]).file@ == b[i].file@ && a[i].line == b[i].line && a[i].text@ == b[i].text@,
{
}

/// Substring scan of one file, fed one line at a time.
pub struct LineScanner {
    pub file: String,
    pub query: String,
    pub found: Vec<MatchRecord>,
    pub lines_seen: usize,
    /// The lines fed so far.
    pub seen: Ghost<Seq<Seq<char>>>,
}

impl LineScanner {
    pub open spec fn wf(&self) -> bool {
        &&& self.lines_seen as int == self.seen@.len()
        &&& records_are(self.found@, self.file@, line_matches(self.query@, self.seen@))
    }

    /// A scanner for `file` that has seen no line yet.
    pub fn new(file: String, query: String) -> (s: LineScanner)
        ensures
            s.wf(),
            s.file@ == file@,
            s.query@ == query@,
            s.seen@.len() == 0,
    {
        LineScanner { file, query, found: Vec::new(), lines_seen: 0, seen: Ghost(Seq::empty()) }
    }

    /// Takes the next line of the file (without its line terminator).
    pub fn feed(&mut self, line: &str)
        requires
            old(self).wf(),
            old(self).lines_seen < usize::MAX,
        ensures
            final(self).wf(),
            final(self).file@ == old(self).file@,
            final(self).query@ == old(self).query@,
            final(self).seen@ == old(self).seen@.push(line@),
    {
        let ghost before = self.seen@;
        self.lines_seen = self.lines_seen + 1;
        self.seen = Ghost(before.push(line@));
        proof {
            assert(self.seen@.drop_last() =~= before);
        }
        if line_contains(line, self.query.as_str()) {
            let rec = MatchRecord { file: self.file.clone(), line: self.lines_seen, text: line.to_owned() };
            self.found.push(rec);
        }
    }

    /// The records of the file, once its last line has been fed.
    pub fn finish(self) -> (r: Vec<MatchRecord>)
        requires
            self.wf(),
        ensures
            records_are(r@, self.file@, line_matches(self.query@, self.seen@)),
    {
        self.found
    }
}

/// Number of lines of `lines` that contain `kw` at least once.
pub open spec fn lines_containing(lines: Seq<Seq<char>>, kw: Seq<char>) -> nat
    decreases lines.len(),
{
    if lines.len() == 0 {
        0
    } else {
        lines_containing(lines.drop_last(), kw) + if text_contains(lines.last(), kw) { 1nat } else { 0nat }
    }
}

proof fn lemma_lines_containing_bound(lines: Seq<Seq<char>>, kw: Seq<char>)
    ensures
        lines_containing(lines, kw) <= lines.len(),
    decreases lines.len(),
{
    if lines.len() > 0 {
        lemma_lines_containing_bound(lines.drop_last(), kw);
    }
}

proof fn lemma_lines_containing_concat(a: Seq<Seq<char>>, b: Seq<Seq<char>>, kw: Seq<char>)
    ensures
        lines_containing(a + b, kw) == lines_containing(a, kw) + lines_containing(b, kw),
    decreases b.len(),
{
    if b.len() == 0 {
        assert(a + b =~= a);
    } else {
        assert((a + b).drop_last() =~= a + b.drop_last());
        lemma_lines_containing_concat(a, b.drop_last(), kw);
    }
}

/// Keyword analysis: the number of lines seen, and for each keyword the number
/// of those lines that contain it.
pub struct KeywordTally {
    pub keywords: Vec<String>,
    pub total_lines: u64,
    pub line_counts: Vec<u64>,
    /// The lines counted so far.
    pub seen: Ghost<Seq<Seq<char>>>,
}

impl KeywordTally {
    pub open spec fn wf(&self) -> bool {
        &&& self.total_lines as int == self.seen@.len()
        &&& self.line_counts@.len() == self.keywords@.len()
        &&& forall|k: int| 0 <= k < self.keywords@.len() ==>
            #[trigger] self.line_counts@[k] as int == lines_containing(self.seen@, self.keywords@[k]@)
    }

    /// A tally over `keywords` that has counted no line yet.
    pub fn new(keywords: Vec<String>) -> (t: KeywordTally)
        ensures
            t.wf(),
            t.keywords@ == keywords@,
            t.seen@.len() == 0,
    {
        let mut line_counts: Vec<u64> = Vec::new();
        let mut i: usize = 0;
        while i < keywords.len()
            invariant
                i <= keywords@.len(),
                line_counts@.len() == i,
                forall|k: int| 0 <= k < i ==> line_counts@[k] == 0,
            decreases keywords@.len() - i,
        {
            line_counts.push(0);
            i = i + 1;
        }
        KeywordTally { keywords, total_lines: 0, line_counts, seen: Ghost(Seq::empty()) }
    }

    /// Counts one more line: each keyword's count grows by one exactly when the
    /// line contains it, however many times it occurs there.
    pub fn feed(&mut self, line: &str)
        requires
            old(self).wf(),
            old(self).total_lines < u64::MAX,
        ensures
            final(self).wf(),
            final(self).keywords@ == old(self).keywords@,
            final(self).seen@ == old(self).seen@.push(line@),
            final(self).total_lines == old(self).total_lines + 1,
            forall|k: int| 0 <= k < old(self).keywords@.len() ==>
                #[trigger] final(self).line_counts@[k] == old(self).line_counts@[k]
                    + if text_contains(line@, old(self).keywords@[k]@) { 1int } else { 0int },
    {
        let ghost before = self.seen@;
        let ghost old_counts = self.line_counts@;
        let ghost after = before.push(line@);
        proof {
            assert(after.drop_last() =~= before);
        }
        let mut k: usize = 0;
        while k < self.keywords.len()
            invariant
                self.keywords@ == old(self).keywords@,
                self.seen@ == before,
                after == before.push(line@),
                after.drop_last() == before,
                self.total_lines as int == before.len(),
                self.total_lines < u64::MAX,
                self.line_counts@.len() == self.keywords@.len(),
                old_counts.len() == self.keywords@.len(),
                k <= self.keywords@.len(),
                forall|j: int| 0 <= j < self.keywords@.len() ==>
                    #[trigger] old_counts[j] as int == lines_containing(before, self.keywords@[j]@),
                forall|j: int| 0 <= j < k ==>
                    #[trigger] self.line_counts@[j] as int == lines_containing(after, self.keywords@[j]@)
                    && self.line_counts@[j] == old_counts[j]
                        + if text_contains(line@, self.keywords@[j]@) { 1int } else { 0int },
                forall|j: int| k <= j < self.keywords@.len() ==> #[trigger] self.line_counts@[j] == old_counts[j],
            decreases self.keywords@.len() - k,
        {
            proof {
                lemma_lines_containing_bound(before, self.keywords@[k as int]@);
            }
            if line_contains(line, self.keywords[k].as_str()) {
                let c = self.line_counts[k];
                self.line_counts.set(k, c + 1);
            }
            k = k + 1;
        }
        self.total_lines = self.total_lines + 1;
        self.seen = Ghost(after);
    }

    /// Adds the counts of `other` (the tally of one more file, over the same
    /// keywords) to this one.
    pub fn absorb(&mut self, other: &KeywordTally)
        requires
            old(self).wf(),
            other.wf(),
            other.keywords@.len() == old(self).keywords@.len(),
            forall|k: int| 0 <= k < other.keywords@.len() ==> #[trigger] other.keywords@[k]@ == old(self).keywords@[k]@,
            old(self).total_lines + other.total_lines <= u64::MAX,
        ensures
            final(self).wf(),
            final(self).keywords@ == old(self).keywords@,
            final(self).seen@ == old(self).seen@ + other.seen@,
    {
        let ghost before = self.seen@;
        let ghost after = before + other.seen@;
        let ghost old_counts = self.line_counts@;
        let mut k: usize = 0;
        while k < self.keywords.len()
            invariant
                self.keywords@ == old(self).keywords@,
                self.seen@ == before,
                after == before + other.seen@,
                other.wf(),
                other.keywords@.len() == self.keywords@.len(),
                forall|j: int| 0 <= j < other.keywords@.len() ==> #[trigger] other.keywords@[j]@ == self.keywords@[j]@,
                self.total_lines as int == before.len(),
                self.total_lines + other.total_lines <= u64::MAX,
                self.line_counts@.len() == self.keywords@.len(),
                old_counts.len() == self.keywords@.len(),
                k <= self.keywords@.len(),
                forall|j: int| 0 <= j < self.keywords@.len() ==>
                    #[trigger] old_counts[j] as int == lines_containing(before, self.keywords@[j]@),
                forall|j: int| 0 <= j < k ==>
                    #[trigger] self.line_counts@[j] as int == lines_containing(after, self.keywords@[j]@),
                forall|j: int| k <= j < self.keywords@.len() ==> #[trigger] self.line_counts@[j] == old_counts[j],
            decreases self.keywords@.len() - k,
        {
            proof {
                let kw = self.keywords@[k as int]@;
                lemma_lines_containing_bound(before, kw);
                lemma_lines_containing_bound(other.seen@, kw);
                lemma_lines_containing_concat(before, other.seen@, kw);
                assert(other.line_counts@[k as int] as int == lines_containing(other.seen@, other.keywords@[k as int]@));
            }
            let c = self.line_counts[k] + other.line_counts[k];
            self.line_counts.set(k, c);
            k = k + 1;
        }
        self.total_lines = self.total_lines + other.total_lines;
        self.seen = Ghost(after);
    }
}

} // verus!
