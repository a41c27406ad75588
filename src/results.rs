//! Match records, per-file results and the final report.

use vstd::prelude::*;
use crate::matchers::Hit;

verus! {

/// One occurrence of the pattern.
pub struct Match {
    /// 1-based line number; 0 for a match on the file name.
    pub line_number: usize,
    /// The whole line (or the file name).
    pub content: String,
    /// Half-open span `[start, end)` of the occurrence.
    pub position: (usize, usize),
}

impl View for Match {
    type V = Hit;

    open spec fn view(&self) -> Hit {
        (self.line_number as nat, self.content@, (self.position.0 as nat, self.position.1 as nat))
    }
}

/// The mathematical form of a list of matches.
pub open spec fn matches_view(v: Seq<Match>) -> Seq<Hit> {
    v.map_values(|m: Match| m@)
}

/// A file with its matches, in the order they were found.
pub struct SearchResult {
    pub file_path: String,
    pub matches: Vec<Match>,
    /// Time spent scanning this file, in nanoseconds.
    pub scan_duration: u64,
}

/// Statistics derived once scanning is over.
pub struct PerformanceStats {
    /// Files scanned per second, rounded down; 0 when no time was measured.
    pub files_per_second: u128,
    /// Mean scan time per file in nanoseconds, rounded down; 0 with no files.
    pub average_scan_time: u64,
    /// Workers that had at least one file to scan.
    pub busy_threads: usize,
    /// Workers available; thread utilisation is `busy_threads / max_threads`.
    pub max_threads: usize,
}

/// The outcome of one search.
pub struct SearchReport {
    pub total_files_scanned: usize,
    pub total_matches: usize,
    /// Wall time of the whole search, in nanoseconds.
    pub total_duration: u64,
    pub results: Vec<SearchResult>,
    pub performance: PerformanceStats,
}

/// Number of matches over all results.
pub open spec fn match_total(s: Seq<SearchResult>) -> nat
    decreases s.len(),
{
    if s.len() == 0 {
        0
    } else {
        match_total(s.drop_last()) + s.last().matches@.len()
    }
}

/// The results that hold at least one match, in their order.
pub open spec fn nonempty_only(s: Seq<SearchResult>) -> Seq<SearchResult>
    decreases s.len(),
{
    if s.len() == 0 {
        Seq::empty()
    } else if s.last().matches@.len() > 0 {
        nonempty_only(s.drop_last()).push(s.last())
    } else {
        nonempty_only(s.drop_last())
    }
}

/// Every (file path, match) pair that a list of results reports.
pub open spec fn found(s: Seq<SearchResult>) -> Set<(Seq<char>, Hit)> {
    Set::new(
        |x: (Seq<char>, Hit)|
            exists|i: int, j: int|
                0 <= i < s.len() && 0 <= j < s[i].matches@.len() && x == (
                s[i].file_path@,
                s[i].matches@[j]@,
            ),
    )
}

/// Match counts add up over concatenation.
pub proof fn lemma_match_total_append(a: Seq<SearchResult>, b: Seq<SearchResult>)
    ensures
        match_total(a + b) == match_total(a) + match_total(b),
    decreases b.len(),
{
    if b.len() == 0 {
        assert(a + b =~= a);
    } else {
        lemma_match_total_append(a, b.drop_last());
        assert((a + b).drop_last() =~= a + b.drop_last());
    }
}

/// Dropping results without matches changes no count.
pub proof fn lemma_match_total_nonempty(s: Seq<SearchResult>)
    ensures
        match_total(nonempty_only(s)) == match_total(s),
        forall|i: int| 0 <= i < nonempty_only(s).len() ==> #[trigger] nonempty_only(s)[i].matches@.len() > 0,
        found(nonempty_only(s)) == found(s),
    decreases s.len(),
{
    if s.len() > 0 {
        lemma_match_total_nonempty(s.drop_last());
        let p = nonempty_only(s.drop_last());
        if s.last().matches@.len() > 0 {
            assert(p.push(s.last()).drop_last() =~= p);
        }
        lemma_found_push(s.drop_last(), s.last());
        assert(s.drop_last().push(s.last()) =~= s);
        if s.last().matches@.len() > 0 {
            lemma_found_push(p, s.last());
        } else {
            assert(found(p) =~= found(p).union(found(seq![s.last()])));
        }
    } else {
        assert(found(nonempty_only(s)) =~= found(s));
    }
}

proof fn lemma_found_push(s: Seq<SearchResult>, r: SearchResult)
    ensures
        found(s.push(r)) == found(s).union(found(seq![r])),
{
    let t = s.push(r);
    assert forall|x: (Seq<char>, Hit)| found(t).contains(x) implies found(s).union(found(seq![r])).contains(x) by {
        let (i, j) = choose|i: int, j: int|
            0 <= i < t.len() && 0 <= j < t[i].matches@.len() && x == (t[i].file_path@, t[i].matches@[j]@);
        if i < s.len() {
            assert(found(s).contains(x));
        } else {
            assert(seq![r][0] == r);
            assert(found(seq![r]).contains(x));
        }
    }
    assert forall|x: (Seq<char>, Hit)| found(s).union(found(seq![r])).contains(x) implies found(t).contains(x) by {
        if found(s).contains(x) {
            let (i, j) = choose|i: int, j: int|
                0 <= i < s.len() && 0 <= j < s[i].matches@.len() && x == (s[i].file_path@, s[i].matches@[j]@);
            assert(t[i] == s[i]);
        } else {
            let (i, j) = choose|i: int, j: int|
                0 <= i < 1 && 0 <= j < seq![r][i].matches@.len() && x == (seq![r][i].file_path@, seq![r][i].matches@[j]@);
            assert(t[s.len() as int] == r);
            assert(seq![r][i] == r);
        }
    }
    assert(found(t) =~= found(s).union(found(seq![r])));
}


proof fn lemma_found_append(a: Seq<SearchResult>, b: Seq<SearchResult>)
    ensures
        found(a + b) == found(a).union(found(b)),
{
    let t = a + b;
    assert forall|x: (Seq<char>, Hit)| found(t).contains(x) implies found(a).union(found(b)).contains(x) by {
        let (i, j) = choose|i: int, j: int|
            0 <= i < t.len() && 0 <= j < t[i].matches@.len() && x == (t[i].file_path@, t[i].matches@[j]@);
        if i < a.len() {
            assert(t[i] == a[i]);
            assert(found(a).contains(x));
        } else {
            assert(t[i] == b[i - a.len()]);
            assert(found(b).contains(x));
        }
    }
    assert forall|x: (Seq<char>, Hit)| found(a).union(found(b)).contains(x) implies found(t).contains(x) by {
        if found(a).contains(x) {
            let (i, j) = choose|i: int, j: int|
                0 <= i < a.len() && 0 <= j < a[i].matches@.len() && x == (a[i].file_path@, a[i].matches@[j]@);
            assert(t[i] == a[i]);
        } else {
            let (i, j) = choose|i: int, j: int|
                0 <= i < b.len() && 0 <= j < b[i].matches@.len() && x == (b[i].file_path@, b[i].matches@[j]@);
            assert(t[i + a.len()] == b[i]);
        }
    }
    assert(found(t) =~= found(a).union(found(b)));
}

/// Workers finish in any order: merging two partial result lists either way
/// round gives the same match count and the same (file path, match) pairs
/// once files without matches are dropped.
pub proof fn lemma_merge_order_free(a: Seq<SearchResult>, b: Seq<SearchResult>)
    ensures
        match_total(nonempty_only(a + b)) == match_total(nonempty_only(b + a)),
        found(nonempty_only(a + b)) == found(nonempty_only(b + a)),
{
    lemma_match_total_nonempty(a + b);
    lemma_match_total_nonempty(b + a);
    lemma_match_total_append(a, b);
    lemma_match_total_append(b, a);
    lemma_found_append(a, b);
    lemma_found_append(b, a);
    assert(found(a).union(found(b)) =~= found(b).union(found(a)));
}

} // verus!
