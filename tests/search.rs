use search_engine::cli::Cli;
use search_engine::config::SearchConfig;
use search_engine::engine::{keep_result, SearchEngine, SearchError};
use search_engine::matchers::{Matcher, RegexMatcher, SimpleMatcher};
use search_engine::results::{Match, SearchResult};

fn config(pattern: &str, content: bool, regex: bool, threads: usize) -> SearchConfig {
    SearchConfig {
        path: "root".to_string(),
        pattern: pattern.to_string(),
        search_content: content,
        use_regex: regex,
        max_threads: threads,
        benchmark: false,
    }
}

fn engine(pattern: &str, content: bool, regex: bool, threads: usize) -> SearchEngine {
    match SearchEngine::new(config(pattern, content, regex, threads)) {
        Ok(e) => e,
        Err(e) => panic!("engine refused: {:?}", e),
    }
}

fn spans(r: &SearchResult) -> Vec<(usize, usize, usize)> {
    r.matches.iter().map(|m| (m.line_number, m.position.0, m.position.1)).collect()
}

#[test]
fn literal_content_search_is_case_insensitive() {
    let e = engine("hello", true, false, 4);
    let a = e.search_file("root/a.txt".to_string(), "a.txt", "hello world", 10);
    let b = e.search_file("root/b.txt".to_string(), "b.txt", "HELLO", 20);
    assert_eq!(spans(&a), vec![(1, 0, 5)]);
    assert_eq!(spans(&b), vec![(1, 0, 5)]);
    assert_eq!(a.matches[0].content, "hello world");
    assert_eq!(b.matches[0].content, "HELLO");
    let report = e.generate_report(vec![a, b], 2, 1000);
    assert_eq!(report.results.len(), 2);
    assert_eq!(report.total_matches, 2);
}

#[test]
fn name_mode_matches_only_main() {
    let e = engine("main", false, false, 4);
    let main = e.search_file("root/main.rs".to_string(), "main.rs", "fn main() {}", 1);
    let lib = e.search_file("root/lib.rs".to_string(), "lib.rs", "main main", 1);
    assert_eq!(main.matches.len(), 1);
    assert_eq!(main.matches[0].line_number, 0);
    assert_eq!(main.matches[0].content, "main.rs");
    assert_eq!(main.matches[0].position, (0, 4));
    assert_eq!(lib.matches.len(), 0);
    let report = e.generate_report(vec![main, lib], 2, 100);
    assert_eq!(report.results.len(), 1);
    assert_eq!(report.results[0].file_path, "root/main.rs");
}

#[test]
fn name_mode_reports_true_offset() {
    let e = engine("RS", false, false, 1);
    let r = e.search_file("x/lib.rs".to_string(), "lib.rs", "", 0);
    assert_eq!(r.matches.len(), 1);
    assert_eq!(r.matches[0].position, (4, 6));
}

#[test]
fn name_mode_regex_single_match() {
    let e = engine(r"[a-z]", false, true, 1);
    let r = e.search_file("x/abc.txt".to_string(), "abc.txt", "", 0);
    assert_eq!(spans(&r), vec![(0, 0, 1)]);
    let none = e.search_file("x/123".to_string(), "123", "abc", 0);
    assert_eq!(none.matches.len(), 0);
}

#[test]
fn regex_digits_two_matches() {
    let e = engine(r"\d+", true, true, 2);
    let r = e.search_file("f.txt".to_string(), "f.txt", "room 42 and 7", 5);
    assert_eq!(spans(&r), vec![(1, 5, 7), (1, 12, 13)]);
    assert_eq!(r.scan_duration, 5);
}

#[test]
fn regex_line_numbers() {
    let m = match RegexMatcher::new("a+") {
        Ok(m) => m,
        Err(_) => panic!("valid regex refused"),
    };
    let found = m.find_matches("xa\nbb\naa a\r\n");
    assert_eq!(
        found,
        vec![
            (1, "xa".to_string(), (1, 2)),
            (3, "aa a".to_string(), (0, 2)),
            (3, "aa a".to_string(), (3, 4)),
        ]
    );
    assert!(m.matches("baaa"));
    assert!(!m.matches("bbb"));
}

#[test]
fn regex_is_case_sensitive() {
    let e = engine("Hello", true, true, 1);
    let r = e.search_file("f".to_string(), "f", "hello\nHello", 0);
    assert_eq!(spans(&r), vec![(2, 0, 5)]);
}

#[test]
fn empty_directory_report() {
    let e = engine("x", true, false, 4);
    let report = e.generate_report(Vec::new(), 0, 0);
    assert_eq!(report.total_files_scanned, 0);
    assert_eq!(report.total_matches, 0);
    assert!(report.results.is_empty());
    assert_eq!(report.performance.average_scan_time, 0);
    assert_eq!(report.performance.files_per_second, 0);
    assert_eq!(report.performance.busy_threads, 0);
    assert_eq!(report.performance.max_threads, 4);
}

#[test]
fn invalid_regex_is_refused() {
    let r = SearchEngine::new(config("foo(bar", true, true, 4));
    assert!(matches!(r, Err(SearchError::InvalidPattern)));
    assert!(RegexMatcher::new("(").is_err());
}

#[test]
fn invalid_regex_text_is_fine_as_literal() {
    let e = engine("foo(bar", true, false, 4);
    let r = e.search_file("f".to_string(), "f", "a FOO(BAR b", 0);
    assert_eq!(spans(&r), vec![(1, 2, 9)]);
}

#[test]
fn literal_find_and_matches_agree() {
    let m = SimpleMatcher::new("AbC");
    let text = "xxabcx abc\nnothing\r\nABCABC\n";
    let found = m.find_matches(text);
    assert_eq!(
        found,
        vec![
            (1, "xxabcx abc".to_string(), (2, 5)),
            (3, "ABCABC".to_string(), (0, 3)),
        ]
    );
    for (_, line, _) in &found {
        assert!(m.matches(line));
    }
    assert!(!m.matches("nothing"));
    assert!(m.matches(text));
}

#[test]
fn literal_lowercases_unicode() {
    let m = SimpleMatcher::new("ÉTÉ");
    assert!(m.matches("un été chaud"));
    let found = m.find_matches("un été chaud");
    assert_eq!(found, vec![(1, "un été chaud".to_string(), (3, 6))]);
}

#[test]
fn empty_literal_matches_every_line() {
    let m = SimpleMatcher::new("");
    assert!(m.matches(""));
    let found = m.find_matches("a\nb");
    assert_eq!(found, vec![(1, "a".to_string(), (0, 0)), (2, "b".to_string(), (0, 0))]);
}

#[test]
fn report_totals_and_drops_empty_results() {
    let e = engine("a", true, false, 2);
    let r1 = e.search_file("one".to_string(), "one", "a\na\na", 1);
    let r2 = e.search_file("two".to_string(), "two", "bbb", 1);
    let r3 = e.search_file("three".to_string(), "three", "xa", 1);
    let report = e.generate_report(vec![r1, r2, r3], 3, 3_000_000_000);
    assert_eq!(report.total_matches, 4);
    let sum: usize = report.results.iter().map(|r| r.matches.len()).sum();
    assert_eq!(report.total_matches, sum);
    assert_eq!(report.results.len(), 2);
    assert!(report.results.iter().all(|r| !r.matches.is_empty()));
    assert_eq!(report.results[0].file_path, "one");
    assert_eq!(report.results[1].file_path, "three");
    assert_eq!(report.total_duration, 3_000_000_000);
}

#[test]
fn performance_figures() {
    let e = engine("a", true, false, 4);
    let report = e.generate_report(Vec::new(), 10, 2_000_000_000);
    assert_eq!(report.performance.files_per_second, 5);
    assert_eq!(report.performance.average_scan_time, 200_000_000);
    assert_eq!(report.performance.busy_threads, 4);
    assert_eq!(report.performance.max_threads, 4);
    let few = e.generate_report(Vec::new(), 3, 7);
    assert_eq!(few.performance.busy_threads, 3);
    assert_eq!(few.performance.average_scan_time, 2);
    assert_eq!(few.performance.files_per_second, 428_571_428);
}

#[test]
fn utilisation_stays_within_one() {
    for threads in [0usize, 1, 3, 8] {
        let e = engine("a", true, false, threads);
        for files in [0usize, 1, 2, 5, 100] {
            let p = e.generate_report(Vec::new(), files, 1).performance;
            assert!(p.max_threads >= 1);
            assert!(p.busy_threads <= p.max_threads);
        }
    }
}

#[test]
fn zero_workers_clamped_to_one() {
    let e = engine("a", true, false, 0);
    assert_eq!(e.worker_count(), 1);
    assert_eq!(e.chunk_size(5), 5);
    assert_eq!(e.chunk_ranges(5), vec![(0, 5)]);
}

#[test]
fn chunk_partition() {
    let e = engine("a", true, false, 3);
    assert_eq!(e.chunk_size(10), 3);
    assert_eq!(e.chunk_ranges(10), vec![(0, 3), (3, 6), (6, 9), (9, 10)]);
    assert_eq!(e.chunk_ranges(0), Vec::<(usize, usize)>::new());
    let many = engine("a", true, false, 4);
    assert_eq!(many.chunk_size(2), 1);
    assert_eq!(many.chunk_ranges(2), vec![(0, 1), (1, 2)]);
}

#[test]
fn same_search_twice_same_outcome() {
    let files = [("p/a", "a", "x a y\na"), ("p/b", "b", "none"), ("p/c", "c", "aa")];
    let run = |order: &[usize]| {
        let e = engine("a", true, false, 2);
        let mut acc = Vec::new();
        for &i in order {
            let (path, name, content) = files[i];
            keep_result(&mut acc, e.search_file(path.to_string(), name, content, 0));
        }
        let report = e.generate_report(acc, files.len(), 10);
        let mut pairs: Vec<(String, usize, usize, usize)> = Vec::new();
        for r in &report.results {
            for m in &r.matches {
                pairs.push((r.file_path.clone(), m.line_number, m.position.0, m.position.1));
            }
        }
        pairs.sort();
        (report.total_files_scanned, report.total_matches, pairs)
    };
    assert_eq!(run(&[0, 1, 2]), run(&[2, 0, 1]));
}

#[test]
fn keep_result_skips_empty() {
    let mut acc = Vec::new();
    keep_result(&mut acc, SearchResult { file_path: "e".to_string(), matches: Vec::new(), scan_duration: 1 });
    assert!(acc.is_empty());
    let m = Match { line_number: 1, content: "x".to_string(), position: (0, 1) };
    keep_result(&mut acc, SearchResult { file_path: "f".to_string(), matches: vec![m], scan_duration: 2 });
    assert_eq!(acc.len(), 1);
    assert_eq!(acc[0].file_path, "f");
}

#[test]
fn config_from_cli() {
    let cli = Cli {
        path: "dir".to_string(),
        pattern: "pat".to_string(),
        content: true,
        regex: false,
        threads: 6,
        benchmark: true,
    };
    let c = SearchConfig::from_cli(&cli);
    assert_eq!(c.path, "dir");
    assert_eq!(c.pattern, "pat");
    assert!(c.search_content);
    assert!(!c.use_regex);
    assert_eq!(c.max_threads, 6);
    assert!(c.benchmark);
}
