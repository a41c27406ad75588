//! The search engine: one matcher built from the configuration, the scan of
//! a single file, the partition of the file list among workers, the merge of
//! their results and the final report.

use vstd::prelude::*;
use crate::config::SearchConfig;
use crate::matchers::{
    compiles, first_occurrence, hits_view, lemma_contains_iff_first, lower_of, regex_spans, Hit,
    Matcher, RegexMatcher, SimpleMatcher,
};
use crate::results::{
    lemma_match_total_append, lemma_match_total_nonempty, match_total, matches_view,
    nonempty_only, Match, PerformanceStats, SearchReport, SearchResult,
};

verus! {

/// Why a search could not run.
#[derive(Debug, PartialEq, Eq, Structural)]
pub enum SearchError {
    /// The pattern is not a valid regular expression.
    InvalidPattern,
    /// The directory tree could not be listed.
    TraversalError,
}

/// The matcher a search uses, chosen by the configuration.
pub enum PatternMatcher {
    Literal(SimpleMatcher),
    Pattern(RegexMatcher),
}

impl PatternMatcher {
    /// The span of the first occurrence in a text, if any.
    pub open spec fn first_span(&self, text: Seq<char>) -> Option<(nat, nat)> {
        match self {
            PatternMatcher::Literal(m) => match first_occurrence(lower_of(text), m@) {
                Some(p) => Some((p, p + m@.len())),
                None => None,
            },
            PatternMatcher::Pattern(m) => if regex_spans(m@, text).len() > 0 {
                Some(regex_spans(m@, text)[0])
            } else {
                None
            },
        }
    }

    /// A text has a first occurrence exactly when it matches.
    pub proof fn lemma_first_span(&self, text: Seq<char>)
        ensures
            self.first_span(text) is Some <==> self.spec_matches(text),
    {
        if let PatternMatcher::Literal(m) = self {
            lemma_contains_iff_first(lower_of(text), m@);
        }
    }

    pub fn locate(&self, text: &str) -> (r: Option<(usize, usize)>)
        ensures
            r matches Some(sp) ==> self.first_span(text@) == Some((sp.0 as nat, sp.1 as nat)),
            r is None ==> self.first_span(text@) is None,
    {
        match self {
            PatternMatcher::Literal(m) => {
                let r = m.locate(text);
                proof {
                    lemma_contains_iff_first(lower_of(text@), m@);
                }
                r
            },
            PatternMatcher::Pattern(m) => m.locate(text),
        }
    }
}

impl Matcher for PatternMatcher {
    open spec fn spec_matches(&self, text: Seq<char>) -> bool {
        match self {
            PatternMatcher::Literal(m) => m.spec_matches(text),
            PatternMatcher::Pattern(m) => m.spec_matches(text),
        }
    }

    open spec fn spec_find_matches(&self, text: Seq<char>) -> Seq<Hit> {
        match self {
            PatternMatcher::Literal(m) => m.spec_find_matches(text),
            PatternMatcher::Pattern(m) => m.spec_find_matches(text),
        }
    }

    fn matches(&self, content: &str) -> (r: bool) {
        match self {
            PatternMatcher::Literal(m) => m.matches(content),
            PatternMatcher::Pattern(m) => m.matches(content),
        }
    }

    fn find_matches(&self, content: &str) -> (r: Vec<(usize, String, (usize, usize))>) {
        match self {
            PatternMatcher::Literal(m) => m.find_matches(content),
            PatternMatcher::Pattern(m) => m.find_matches(content),
        }
    }
}

/// The matches a scan reports for one file: every occurrence in its content,
/// or, when names are searched, one record at the first occurrence in the name.
pub open spec fn scan_hits(
    m: PatternMatcher,
    search_content: bool,
    name: Seq<char>,
    content: Seq<char>,
) -> Seq<Hit> {
    if search_content {
        m.spec_find_matches(content)
    } else {
        match m.first_span(name) {
            Some(sp) => seq![(0nat, name, sp)],
            None => Seq::empty(),
        }
    }
}

/// The matcher that a configuration asks for: the regular expression as
/// written, or the lower-cased literal.
pub open spec fn built_from(m: PatternMatcher, config: SearchConfig) -> bool {
    if config.use_regex {
        m is Pattern && m->Pattern_0@ == config.pattern@
    } else {
        m is Literal && m->Literal_0@ == lower_of(config.pattern@)
    }
}

/// Scanning is repeatable: two engines built from the same configuration
/// report the same matches for the same file name and content.
pub proof fn lemma_scan_repeatable(
    m1: PatternMatcher,
    m2: PatternMatcher,
    config: SearchConfig,
    name: Seq<char>,
    content: Seq<char>,
)
    requires
        built_from(m1, config),
        built_from(m2, config),
    ensures
        scan_hits(m1, config.search_content, name, content) == scan_hits(
            m2,
            config.search_content,
            name,
            content,
        ),
{
}

/// Files per chunk: the file count divided by the worker count, at least 1.
pub open spec fn spec_chunk_size(files: nat, workers: nat) -> nat {
    if workers > 0 && files / workers >= 1 {
        files / workers
    } else {
        1
    }
}

/// Records a scanned file among the results when it has any match.
pub fn keep_result(results: &mut Vec<SearchResult>, result: SearchResult)
    ensures
        result.matches@.len() > 0 ==> final(results)@ == old(results)@.push(result),
        result.matches@.len() == 0 ==> final(results)@ == old(results)@,
{
    if result.matches.len() > 0 {
        results.push(result);
    }
}

/// A search over one directory tree with one pattern.
pub struct SearchEngine {
    config: SearchConfig,
    matcher: PatternMatcher,
}

impl SearchEngine {
    pub closed spec fn spec_config(&self) -> SearchConfig {
        self.config
    }

    pub closed spec fn spec_matcher(&self) -> PatternMatcher {
        self.matcher
    }

    /// The worker count, raised to 1 when the configuration asks for none.
    pub open spec fn spec_workers(&self) -> nat {
        if self.spec_config().max_threads == 0 {
            1
        } else {
            self.spec_config().max_threads as nat
        }
    }

    /// Builds the matcher; fails, before anything is scanned, on a regular
    /// expression that does not compile.
    pub fn new(config: SearchConfig) -> (r: Result<Self, SearchError>)
        ensures
            r is Ok <==> (!config.use_regex || compiles(config.pattern@)),
            r matches Err(e) ==> e == SearchError::InvalidPattern,
            r matches Ok(eng) ==> eng.spec_config() == config && built_from(eng.spec_matcher(), config),
    {
        let matcher = if config.use_regex {
            match RegexMatcher::new(config.pattern.as_str()) {
                Ok(m) => PatternMatcher::Pattern(m),
                Err(_) => {
                    return Err(SearchError::InvalidPattern);
                },
            }
        } else {
            PatternMatcher::Literal(SimpleMatcher::new(config.pattern.as_str()))
        };
        Ok(SearchEngine { config, matcher })
    }

    pub fn config(&self) -> (r: &SearchConfig)
        ensures
            *r == self.spec_config(),
    {
        &self.config
    }

    /// Number of workers the scan is spread over.
    pub fn worker_count(&self) -> (r: usize)
        ensures
            r == self.spec_workers(),
    {
        if self.config.max_threads == 0 {
            1
        } else {
            self.config.max_threads
        }
    }

    /// Files per chunk for a list of `file_count` files.
    pub fn chunk_size(&self, file_count: usize) -> (r: usize)
        ensures
            r == spec_chunk_size(file_count as nat, self.spec_workers()),
            r >= 1,
    {
        let per = file_count / self.worker_count();
        if per >= 1 {
            per
        } else {
            1
        }
    }

    /// Splits `0..file_count` into contiguous chunks of `chunk_size` files,
    /// the last one possibly shorter; one worker task runs per chunk.
    pub fn chunk_ranges(&self, file_count: usize) -> (r: Vec<(usize, usize)>)
        ensures
            (r@.len() == 0) == (file_count == 0),
            r@.len() > 0 ==> r@[0].0 == 0 && r@.last().1 == file_count,
            forall|i: int| 0 <= i < r@.len() ==> 0 < #[trigger] r@[i].1 - r@[i].0 <= spec_chunk_size(
                file_count as nat,
                self.spec_workers(),
            ),
            forall|i: int| 0 <= i < r@.len() - 1 ==> #[trigger] r@[i].1 == r@[i + 1].0
                && r@[i].1 - r@[i].0 == spec_chunk_size(file_count as nat, self.spec_workers()),
    {
        let cs = self.chunk_size(file_count);
        let n = file_count;
        let mut out: Vec<(usize, usize)> = Vec::new();
        let mut start: usize = 0;
        while start < n
            invariant
                start <= n,
                cs >= 1,
                out@.len() == 0 ==> start == 0,
                out@.len() > 0 ==> out@[0].0 == 0 && out@.last().1 == start,
                forall|i: int| 0 <= i < out@.len() ==> 0 < #[trigger] out@[i].1 - out@[i].0 <= cs,
                forall|i: int| 0 <= i < out@.len() ==> (#[trigger] out@[i].1 - out@[i].0 == cs
                    || out@[i].1 == n) && out@[i].1 <= start,
                forall|i: int| 0 <= i < out@.len() - 1 ==> #[trigger] out@[i].1 == out@[i + 1].0,
            decreases n - start,
        {
            let end = if n - start > cs {
                start + cs
            } else {
                n
            };
            out.push((start, end));
            start = end;
        }
        assert forall|i: int| 0 <= i < out@.len() - 1 implies #[trigger] out@[i].1 == out@[i + 1].0
            && out@[i].1 - out@[i].0 == cs by {
            assert(out@[i + 1].1 <= n);
            assert(0 < out@[i + 1].1 - out@[i + 1].0);
        }
        out
    }

    /// Scans one file: its content when contents are searched, else its name.
    /// The path and the measured duration are carried into the result.
    pub fn search_file(&self, file_path: String, file_name: &str, content: &str, scan_duration: u64) -> (r: SearchResult)
        ensures
            r.file_path == file_path,
            r.scan_duration == scan_duration,
            matches_view(r.matches@) == scan_hits(
                self.spec_matcher(),
                self.spec_config().search_content,
                file_name@,
                content@,
            ),
            !self.spec_config().search_content ==> r.matches@.len() <= 1 && (r.matches@.len() == 1
                <==> self.spec_matcher().spec_matches(file_name@)),
    {
        let mut matches: Vec<Match> = Vec::new();
        if self.config.search_content {
            let hits = self.matcher.find_matches(content);
            let ghost hv = hits_view(hits@);
            let mut i: usize = 0;
            while i < hits.len()
                invariant
                    hv == hits_view(hits@),
                    i <= hits@.len(),
                    matches_view(matches@) == hv.take(i as int),
                decreases hits@.len() - i,
            {
                let m = Match { line_number: hits[i].0, content: hits[i].1.clone(), position: hits[i].2 };
                assert(m@ == hv[i as int]);
                let ghost prev = matches@;
                matches.push(m);
                assert(matches_view(matches@) =~= matches_view(prev).push(hv[i as int]));
                assert(hv.take(i + 1) =~= hv.take(i as int).push(hv[i as int]));
                i = i + 1;
                assert(matches_view(matches@) =~= hv.take(i as int));
            }
            assert(hv.take(i as int) =~= hv);
        } else {
            proof {
                self.matcher.lemma_first_span(file_name@);
            }
            match self.matcher.locate(file_name) {
                Some(sp) => {
                    matches.push(Match { line_number: 0, content: file_name.to_owned(), position: sp });
                    assert(matches_view(matches@) =~= seq![(0nat, file_name@, (sp.0 as nat, sp.1 as nat))]);
                },
                None => {
                    assert(matches_view(matches@) =~= Seq::<Hit>::empty());
                },
            }
        }
        SearchResult { file_path, matches, scan_duration }
    }

    /// Assembles the report: keeps the results that hold a match, counts the
    /// matches, and derives the performance figures from the file count and
    /// the elapsed time in nanoseconds.
    pub fn generate_report(&self, results: Vec<SearchResult>, total_files: usize, total_duration: u64) -> (r: SearchReport)
        requires
            match_total(results@) <= usize::MAX,
        ensures
            r.total_files_scanned == total_files,
            r.total_duration == total_duration,
            r.results@ == nonempty_only(results@),
            r.total_matches == match_total(r.results@),
            forall|i: int| 0 <= i < r.results@.len() ==> #[trigger] r.results@[i].matches@.len() > 0,
            r.performance.files_per_second == (if total_duration == 0 {
                0
            } else {
                total_files as int * 1_000_000_000 / total_duration as int
            }),
            r.performance.average_scan_time == (if total_files == 0 {
                0
            } else {
                total_duration as int / total_files as int
            }),
            r.performance.max_threads == self.spec_workers(),
            r.performance.busy_threads == (if total_files < self.spec_workers() {
                total_files as nat
            } else {
                self.spec_workers()
            }),
            1 <= r.performance.max_threads,
            r.performance.busy_threads <= r.performance.max_threads,
    {
        let ghost all = results@;
        let mut kept: Vec<SearchResult> = Vec::new();
        let mut total: usize = 0;
        for res in it: results
            invariant
                it.seq() == all,
                match_total(all) <= usize::MAX,
                kept@ == nonempty_only(all.take(it.index() as int)),
                total == match_total(kept@),
        {
            let ghost i = it.index() as int;
            proof {
                assert(all.take(i + 1).drop_last() =~= all.take(i));
                lemma_match_total_nonempty(all.take(i + 1));
                lemma_match_total_append(all.take(i + 1), all.skip(i + 1));
                assert(all.take(i + 1) + all.skip(i + 1) =~= all);
                assert(res == all[i]);
                assert(all.take(i + 1).last() == res);
                assert(kept@.push(res).drop_last() =~= kept@);
            }
            if res.matches.len() > 0 {
                total = total + res.matches.len();
                kept.push(res);
            }
        }
        proof {
            assert(all.take(all.len() as int) =~= all);
            lemma_match_total_nonempty(all);
        }
        let workers = self.worker_count();
        let files_per_second: u128 = if total_duration == 0 {
            0
        } else {
            assert(total_files as u128 * 1_000_000_000 <= u64::MAX as u128 * 1_000_000_000) by (nonlinear_arith);
            (total_files as u128 * 1_000_000_000) / (total_duration as u128)
        };
        let average_scan_time: u64 = if total_files == 0 {
            0
        } else {
            total_duration / (total_files as u64)
        };
        let busy_threads = if total_files < workers {
            total_files
        } else {
            workers
        };
        SearchReport {
            total_files_scanned: total_files,
            total_matches: total,
            total_duration,
            results: kept,
            performance: PerformanceStats { files_per_second, average_scan_time, busy_threads, max_threads: workers },
        }
    }
}

} // verus!
