use repo_scan::error::PipelineError;
use repo_scan::scan::{bytes_contain, line_contains, KeywordTally, LineScanner};
use repo_scan::service::{FileOutcome, QueryRequest, QueryResponse, ScanResults, SourceDescriptor};
use repo_scan::scan::ScanQuery;

#[test]
fn byte_substring_search() {
    assert!(bytes_contain(b"needle here", b"needle"));
    assert!(bytes_contain(b"a needle", b"needle"));
    assert!(bytes_contain(b"abc", b""));
    assert!(!bytes_contain(b"Needle", b"needle"));
    assert!(!bytes_contain(b"nee", b"needle"));
    assert!(line_contains("héllo wörld", "wö"));
    assert!(!line_contains("hello", "world"));
}

#[test]
fn needle_on_second_line() {
    let mut s = LineScanner::new("a.txt".to_string(), "needle".to_string());
    s.feed("first line");
    s.feed("needle here");
    s.feed("nothing");
    let recs = s.finish();
    assert_eq!(recs.len(), 1);
    assert_eq!(recs[0].file, "a.txt");
    assert_eq!(recs[0].line, 2);
    assert_eq!(recs[0].text, "needle here");
}

#[test]
fn every_matching_line_is_reported_in_order() {
    let mut s = LineScanner::new("b.rs".to_string(), "fn".to_string());
    s.feed("fn a() {}");
    s.feed("");
    s.feed("pub fn b() { fn c() {} }");
    let recs = s.finish();
    assert_eq!(recs.len(), 2);
    assert_eq!((recs[0].line, recs[1].line), (1, 3));
    assert_eq!(recs[1].text, "pub fn b() { fn c() {} }");
}

#[test]
fn keyword_counts_lines_not_occurrences() {
    let mut t = KeywordTally::new(vec!["TODO".to_string(), "fn".to_string()]);
    t.feed("TODO TODO TODO");
    t.feed("fn x() {} // TODO");
    t.feed("nothing");
    assert_eq!(t.total_lines, 3);
    assert_eq!(t.line_counts, vec![2, 1]);
}

#[test]
fn keyword_tallies_of_files_add_up() {
    let kws = vec!["use".to_string()];
    let mut total = KeywordTally::new(kws.clone());
    let mut a = KeywordTally::new(kws.clone());
    a.feed("use a; use b;");
    a.feed("x");
    let mut b = KeywordTally::new(kws.clone());
    b.feed("use c;");
    total.absorb(&a);
    total.absorb(&b);
    assert_eq!(total.total_lines, 3);
    assert_eq!(total.line_counts, vec![2]);
}

#[test]
fn unreadable_file_gives_diagnostic_and_others_still_count() {
    let mut results = ScanResults::new();
    let mut s = LineScanner::new("ok.txt".to_string(), "x".to_string());
    s.feed("x marks");
    results.add_file(s.finish());
    // The unreadable file's partial scan is dropped; only a diagnostic remains.
    let mut broken = LineScanner::new("locked.txt".to_string(), "x".to_string());
    broken.feed("x before the read error");
    drop(broken);
    results.add_problem("locked.txt".to_string(), PipelineError::ScanFileError);
    let mut s2 = LineScanner::new("z.txt".to_string(), "x".to_string());
    s2.feed("no");
    s2.feed("xx");
    results.add_file(s2.finish());
    assert_eq!(results.records.len(), 2);
    assert_eq!(results.records[0].file, "ok.txt");
    assert_eq!(results.records[1].file, "z.txt");
    assert_eq!(results.records[1].line, 2);
    assert_eq!(results.diagnostics.len(), 1);
    assert_eq!(results.diagnostics[0].path, "locked.txt");
    assert_eq!(results.diagnostics[0].kind, PipelineError::ScanFileError);
}

#[test]
fn response_lists_each_file_once() {
    let mut results = ScanResults::new();
    let mut s = LineScanner::new("a.txt".to_string(), "q".to_string());
    s.feed("q");
    s.feed("qq");
    results.add_file(s.finish());
    let mut s = LineScanner::new("b.txt".to_string(), "q".to_string());
    s.feed("q");
    results.add_file(s.finish());
    let resp = QueryResponse::from_records(&results.records);
    assert_eq!(resp.results, vec!["a.txt".to_string(), "b.txt".to_string()]);
    assert!(QueryResponse::from_records(&Vec::new()).results.is_empty());
}

#[test]
fn request_maps_to_fetch_and_substring() {
    let req = QueryRequest { query: "needle".to_string(), repo_url: "http://h/r.tar.gz".to_string() };
    let src = req.source();
    assert!(!src.is_clone());
    assert!(matches!(src, SourceDescriptor::Fetch(ref u) if u == "http://h/r.tar.gz"));
    assert!(matches!(req.scan_query(), ScanQuery::Substring(ref q) if q == "needle"));
    assert!(SourceDescriptor::Clone("u".to_string()).is_clone());
}

#[test]
fn error_classes() {
    assert!(PipelineError::UnsafeCloneDestination.is_input_error());
    assert!(!PipelineError::RetrievalTimeout.is_input_error());
    assert!(!PipelineError::ExtractionFailed.is_input_error());
    assert!(PipelineError::RetrievalTimeout.is_fatal());
    assert!(!PipelineError::ScanFileError.is_fatal());
    assert!(!PipelineError::TraversalError.is_fatal());
}

#[test]
fn rescanning_same_lines_gives_same_records() {
    let lines = ["alpha needle", "beta", "needle needle", "gamma"];
    let run = || {
        let mut s = LineScanner::new("f.txt".to_string(), "needle".to_string());
        for l in lines.iter() {
            s.feed(l);
        }
        s.finish().into_iter().map(|r| (r.file, r.line, r.text)).collect::<Vec<_>>()
    };
    let a = run();
    assert_eq!(a, run());
    assert_eq!(a, vec![
        ("f.txt".to_string(), 1, "alpha needle".to_string()),
        ("f.txt".to_string(), 3, "needle needle".to_string()),
    ]);
}

#[test]
fn closing_files_by_outcome() {
    let mut results = ScanResults::new();
    let mut a = LineScanner::new("a.txt".to_string(), "x".to_string());
    a.feed("x1");
    results.close_file("a.txt".to_string(), FileOutcome::Complete, a.finish());
    let mut b = LineScanner::new("b.bin".to_string(), "x".to_string());
    b.feed("x2");
    results.close_file("b.bin".to_string(), FileOutcome::NotText, b.finish());
    let mut c = LineScanner::new("c.txt".to_string(), "x".to_string());
    c.feed("x3");
    results.close_file("c.txt".to_string(), FileOutcome::Failed, c.finish());
    assert_eq!(results.records.len(), 1);
    assert_eq!(results.records[0].text, "x1");
    assert_eq!(results.diagnostics.len(), 1);
    assert_eq!(results.diagnostics[0].path, "c.txt");
    assert_eq!(results.diagnostics[0].kind, PipelineError::ScanFileError);
}
