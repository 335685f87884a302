//! What the surrounding service hands in and gets back: the request and
//! response bodies, the source descriptor, and the collected results.
use vstd::prelude::*;
use crate::error::PipelineError;
use crate::scan::{MatchRecord, ScanQuery};

verus! {

/// A search request: the query text and the URL of the archive to fetch.
#[derive(Clone, Debug)]
pub struct QueryRequest {
    pub query: String,
    pub repo_url: String,
}

/// Where the source tree comes from.
#[derive(Clone, Debug)]
pub enum SourceDescriptor {
    /// An archive fetched over HTTP.
    Fetch(String),
    /// A repository cloned by the external version-control tool.
    Clone(String),
}

impl SourceDescriptor {
    pub fn is_clone(&self) -> (r: bool)
        ensures
            r == (self is Clone),
    {
        match self {
            SourceDescriptor::Fetch(_) => false,
            SourceDescriptor::Clone(_) => true,
        }
    }
}

impl QueryRequest {
    /// The request fetches the archive at `repo_url`.
    pub fn source(&self) -> (r: SourceDescriptor)
        ensures
            r matches SourceDescriptor::Fetch(u) && u@ == self.repo_url@,
    {
        SourceDescriptor::Fetch(self.repo_url.clone())
    }

    /// The request looks for `query` as a substring.
    pub fn scan_query(&self) -> (r: ScanQuery)
        ensures
            r matches ScanQuery::Substring(q) && q@ == self.query@,
    {
        ScanQuery::Substring(self.query.clone())
    }
}

/// A failure met on one entry or file, recorded without ending the request.
#[derive(Clone, Debug)]
pub struct Diagnostic {
    pub path: String,
    pub kind: PipelineError,
}

/// How reading one candidate file ended.
#[derive(Clone, Copy, Debug, PartialEq, Eq, Structural)]
pub enum FileOutcome {
    /// Every line was read and scanned.
    Complete,
    /// The content does not decode as text: skipped, not an error.
    NotText,
    /// A read error ended the file's scan.
    Failed,
}

/// The findings of one request, in traversal order, and the diagnostics.
pub struct ScanResults {
    pub records: Vec<MatchRecord>,
    pub diagnostics: Vec<Diagnostic>,
}

impl ScanResults {
    pub fn new() -> (r: ScanResults)
        ensures
            r.records@.len() == 0,
            r.diagnostics@.len() == 0,
    {
        ScanResults { records: Vec::new(), diagnostics: Vec::new() }
    }

    /// Appends the records of a file that was scanned to its end.
    pub fn add_file(&mut self, recs: Vec<MatchRecord>)
        ensures
            final(self).records@ == old(self).records@ + recs@,
            final(self).diagnostics@ == old(self).diagnostics@,
    {
        let mut recs = recs;
        self.records.append(&mut recs);
    }

    /// Records a per-entry or per-file failure; the file adds no records.
    pub fn add_problem(&mut self, path: String, kind: PipelineError)
        requires
            !kind.spec_is_fatal(),
        ensures
            final(self).records@ == old(self).records@,
            final(self).diagnostics@.len() == old(self).diagnostics@.len() + 1,
            final(self).diagnostics@.last().path@ == path@,
            final(self).diagnostics@.last().kind == kind,
            forall|i: int| 0 <= i < old(self).diagnostics@.len() ==> #[trigger] final(self).diagnostics@[i] == old(self).diagnostics@[i],
    {
        self.diagnostics.push(Diagnostic { path, kind });
    }
}

impl ScanResults {
    /// Closes the scan of file `path`, whose scanner produced `recs`: a complete
    /// file adds its records; a file that is not text adds nothing; a file whose
    /// reading failed adds none of its records, only a `ScanFileError`
    /// diagnostic. Records of other files are kept in every case.
    pub fn close_file(&mut self, path: String, outcome: FileOutcome, recs: Vec<MatchRecord>)
        ensures
            outcome == FileOutcome::Complete ==> final(self).records@ == old(self).records@ + recs@
                && final(self).diagnostics@ == old(self).diagnostics@,
            outcome == FileOutcome::NotText ==> final(self).records@ == old(self).records@
                && final(self).diagnostics@ == old(self).diagnostics@,
            outcome == FileOutcome::Failed ==> final(self).records@ == old(self).records@
                && final(self).diagnostics@.len() == old(self).diagnostics@.len() + 1
                && final(self).diagnostics@.last().path@ == path@
                && final(self).diagnostics@.last().kind == PipelineError::ScanFileError
                && final(self).diagnostics@.drop_last() == old(self).diagnostics@,
    {
        match outcome {
            FileOutcome::Complete => self.add_file(recs),
            FileOutcome::NotText => {},
            FileOutcome::Failed => {
                let ghost before = self.diagnostics@;
                self.add_problem(path, PipelineError::ScanFileError);
                assert(self.diagnostics@.drop_last() =~= before);
            },
        }
    }
}

/// The files named by `recs`, each once per run of consecutive records.
pub open spec fn files_listed(recs: Seq<MatchRecord>) -> Seq<Seq<char>>
    decreases recs.len(),
{
    if recs.len() == 0 {
        Seq::empty()
    } else {
        let prev = files_listed(recs.drop_last());
        if recs.len() >= 2 && recs[recs.len() - 2].file@ == recs.last().file@ {
            prev
        } else {
            prev.push(recs.last().file@)
        }
    }
}

/// The response body: the files in which the query was found.
#[derive(Clone, Debug)]
pub struct QueryResponse {
    pub results: Vec<String>,
}

impl QueryResponse {
    /// The files of `recs` in traversal order, each once (a file's records
    /// stand together, as the scanner yields them).
    pub fn from_records(recs: &Vec<MatchRecord>) -> (r: QueryResponse)
        ensures
            r.results@.len() == files_listed(recs@).len(),
            forall|i: int| 0 <= i < r.results@.len() ==> #[trigger] r.results@[i]@ == files_listed(recs@)[i],
    {
        let mut results: Vec<String> = Vec::new();
        let mut i: usize = 0;
        while i < recs.len()
            invariant
                i <= recs@.len(),
                results@.len() == files_listed(recs@.subrange(0, i as int)).len(),
                forall|k: int| 0 <= k < results@.len() ==>
                    #[trigger] results@[k]@ == files_listed(recs@.subrange(0, i as int))[k],
            decreases recs@.len() - i,
        {
            let ghost pre = recs@.subrange(0, i as int);
            let ghost cur = recs@.subrange(0, i as int + 1);
            proof {
                assert(cur.drop_last() =~= pre);
            }
            let repeat = i > 0 && recs[i - 1].file.eq(&recs[i].file);
            if !repeat {
                results.push(recs[i].file.clone());
            }
            proof {
                assert forall|k: int| 0 <= k < results@.len() implies
                    #[trigger] results@[k]@ == files_listed(cur)[k] by {
                    if k < files_listed(pre).len() {
                        assert(results@[k]@ == files_listed(pre)[k]);
                    }
                }
            }
            i = i + 1;
        }
        proof {
            assert(recs@.subrange(0, recs@.len() as int) =~= recs@);
        }
        QueryResponse { results }
    }
}

} // verus!
