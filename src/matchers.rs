//! Matchers: a case-insensitive literal matcher and a regular-expression
//! matcher behind one capability.

use vstd::prelude::*;
use regex::Regex;

verus! {

/// One located occurrence in mathematical form: 1-based line number (0 for a
/// file-name match), the text of the line, and the half-open span `[start, end)`.
pub type Hit = (nat, Seq<char>, (nat, nat));

/// What `str::to_lowercase` makes of a text.
pub uninterp spec fn lower_of(s: Seq<char>) -> Seq<char>;

/// The lines that `str::lines` cuts a text into.
pub uninterp spec fn lines_of(s: Seq<char>) -> Seq<Seq<char>>;

/// Relies on `str::to_lowercase`: the result depends on the characters alone.
#[verifier::external_body]
fn lowercase(s: &str) -> (r: String)
    ensures
        r@ == lower_of(s@),
{
    s.to_lowercase()
}

/// Relies on `str::lines`: the lines depend on the characters alone.
#[verifier::external_body]
fn split_lines(s: &str) -> (r: Vec<String>)
    ensures
        r@.len() == lines_of(s@).len(),
        forall|i: int| 0 <= i < r@.len() ==> #[trigger] r@[i]@ == lines_of(s@)[i],
{
    s.lines().map(|l| l.to_string()).collect()
}

/// The characters of a text, one by one.
fn chars_of(s: &str) -> (r: Vec<char>)
    ensures
        r@ == s@,
{
    let mut v: Vec<char> = Vec::new();
    for c in it: s.chars()
        invariant
            v@ == it.seq().take(it.index() as int),
    {
        v.push(c);
        assert(v@ =~= it.seq().take(it.index() + 1));
    }
    assert(v@ =~= s@);
    v
}

/// `pat` occurs in `hay` at position `i`.
pub open spec fn occurs_at(hay: Seq<char>, pat: Seq<char>, i: int) -> bool {
    0 <= i && i + pat.len() <= hay.len() && hay.subrange(i, i + pat.len()) == pat
}

/// `pat` occurs somewhere in `hay`.
pub open spec fn contains(hay: Seq<char>, pat: Seq<char>) -> bool {
    exists|i: int| occurs_at(hay, pat, i)
}

/// The first position at or after `i` where `pat` occurs in `hay`.
pub open spec fn first_from(hay: Seq<char>, pat: Seq<char>, i: nat) -> Option<nat>
    decreases hay.len() + 1 - i,
{
    if i + pat.len() > hay.len() {
        None
    } else if occurs_at(hay, pat, i as int) {
        Some(i)
    } else {
        first_from(hay, pat, i + 1)
    }
}

/// The first position where `pat` occurs in `hay`.
pub open spec fn first_occurrence(hay: Seq<char>, pat: Seq<char>) -> Option<nat> {
    first_from(hay, pat, 0)
}

proof fn lemma_first_from(hay: Seq<char>, pat: Seq<char>, i: nat)
    ensures
        first_from(hay, pat, i) matches Some(p) ==> i <= p && occurs_at(hay, pat, p as int),
        first_from(hay, pat, i) is None ==> forall|j: int| i <= j ==> !occurs_at(hay, pat, j),
    decreases hay.len() + 1 - i,
{
    if i + pat.len() > hay.len() {
    } else if occurs_at(hay, pat, i as int) {
    } else {
        lemma_first_from(hay, pat, i + 1);
        assert forall|j: int| i <= j && first_from(hay, pat, i) is None implies !occurs_at(hay, pat, j) by {
            if j == i {
            } else {
            }
        }
    }
}

/// A text contains the pattern exactly when it has a first occurrence of it.
pub proof fn lemma_contains_iff_first(hay: Seq<char>, pat: Seq<char>)
    ensures
        contains(hay, pat) <==> first_occurrence(hay, pat) is Some,
        first_occurrence(hay, pat) matches Some(p) ==> occurs_at(hay, pat, p as int),
{
    lemma_first_from(hay, pat, 0);
}

/// Position of the first occurrence of `pat` in `hay`.
fn find_first(hay: &Vec<char>, pat: &Vec<char>) -> (r: Option<usize>)
    ensures
        r matches Some(p) ==> first_occurrence(hay@, pat@) == Some(p as nat)
            && p + pat@.len() <= hay@.len(),
        r is None ==> first_occurrence(hay@, pat@) is None,
{
    let n = hay.len();
    let m = pat.len();
    if m > n {
        return None;
    }
    let mut i: usize = 0;
    while i <= n - m
        invariant
            n == hay@.len(),
            m == pat@.len(),
            m <= n,
            i <= n - m,
            first_from(hay@, pat@, 0) == first_from(hay@, pat@, i as nat),
        decreases n - m + 1 - i,
    {
        let mut j: usize = 0;
        let mut same = true;
        assert(hay@.subrange(i as int, i as int) =~= pat@.take(0));
        while j < m
            invariant
                n == hay@.len(),
                m == pat@.len(),
                i + m <= n,
                j <= m,
                same == (hay@.subrange(i as int, i + j) == pat@.take(j as int)),
            decreases m - j,
        {
            if hay[i + j] != pat[j] {
                same = false;
                assert(hay@.subrange(i as int, i + j + 1)[j as int] != pat@.take(j + 1)[j as int]);
            } else if same {
                assert(hay@.subrange(i as int, i + j + 1) =~= pat@.take(j + 1));
            } else {
                proof {
                    if hay@.subrange(i as int, i + j + 1) == pat@.take(j + 1) {
                        assert(hay@.subrange(i as int, i + j) =~= hay@.subrange(i as int, i + j + 1).take(j as int));
                        assert(pat@.take(j as int) =~= pat@.take(j + 1).take(j as int));
                    }
                }
            }
            j = j + 1;
        }
        assert(pat@.take(m as int) =~= pat@);
        if same {
            return Some(i);
        }
        if i == n - m {
            assert(first_from(hay@, pat@, (i + 1) as nat) is None);
            return None;
        }
        i = i + 1;
    }
    None
}


/// The mathematical form of the tuples that `find_matches` returns.
pub open spec fn hits_view(v: Seq<(usize, String, (usize, usize))>) -> Seq<Hit> {
    v.map_values(|t: (usize, String, (usize, usize))| (t.0 as nat, t.1@, (t.2.0 as nat, t.2.1 as nat)))
}

/// Literal hits over the given lines: at most one per line, at the first
/// occurrence of `pat` in the lower-cased line, numbered from 1.
pub open spec fn literal_hits(lines: Seq<Seq<char>>, pat: Seq<char>) -> Seq<Hit>
    decreases lines.len(),
{
    if lines.len() == 0 {
        Seq::empty()
    } else {
        let prev = literal_hits(lines.drop_last(), pat);
        match first_occurrence(lower_of(lines.last()), pat) {
            Some(p) => prev.push((lines.len(), lines.last(), (p, p + pat.len()))),
            None => prev,
        }
    }
}

/// The capability shared by both matchers.
pub trait Matcher {
    /// Whether a text matches.
    spec fn spec_matches(&self, text: Seq<char>) -> bool;

    /// The occurrences found in a text, line by line.
    spec fn spec_find_matches(&self, text: Seq<char>) -> Seq<Hit>;

    fn matches(&self, content: &str) -> (r: bool)
        ensures
            r == self.spec_matches(content@),
    ;

    fn find_matches(&self, content: &str) -> (r: Vec<(usize, String, (usize, usize))>)
        ensures
            hits_view(r@) == self.spec_find_matches(content@),
    ;
}

/// Case-insensitive substring matcher.
pub struct SimpleMatcher {
    pattern: String,
}

impl View for SimpleMatcher {
    type V = Seq<char>;

    /// The lower-cased pattern.
    closed spec fn view(&self) -> Seq<char> {
        self.pattern@
    }
}

impl SimpleMatcher {
    pub fn new(pattern: &str) -> (r: Self)
        ensures
            r@ == lower_of(pattern@),
    {
        SimpleMatcher { pattern: lowercase(pattern) }
    }

    /// The first occurrence of the pattern in the lower-cased text.
    pub fn locate(&self, text: &str) -> (r: Option<(usize, usize)>)
        ensures
            r is Some <==> contains(lower_of(text@), self@),
            r matches Some(sp) ==> first_occurrence(lower_of(text@), self@) == Some(sp.0 as nat)
                && sp.1 == sp.0 + self@.len(),
    {
        let lower = lowercase(text);
        let hay = chars_of(lower.as_str());
        let pat = chars_of(self.pattern.as_str());
        proof {
            lemma_contains_iff_first(hay@, pat@);
        }
        let hay_len = hay.len();
        match find_first(&hay, &pat) {
            Some(p) => {
                proof {
                    lemma_first_from(hay@, pat@, 0);
                }
                Some((p, p + pat.len()))
            },
            None => None,
        }
    }
}

impl Matcher for SimpleMatcher {
    open spec fn spec_matches(&self, text: Seq<char>) -> bool {
        contains(lower_of(text), self@)
    }

    open spec fn spec_find_matches(&self, text: Seq<char>) -> Seq<Hit> {
        literal_hits(lines_of(text), self@)
    }

    fn matches(&self, content: &str) -> (r: bool) {
        let lower = lowercase(content);
        let hay = chars_of(lower.as_str());
        let pat = chars_of(self.pattern.as_str());
        proof {
            lemma_contains_iff_first(hay@, pat@);
        }
        find_first(&hay, &pat).is_some()
    }

    fn find_matches(&self, content: &str) -> (r: Vec<(usize, String, (usize, usize))>) {
        let lines = split_lines(content);
        let ghost all = lines_of(content@);
        let pat = chars_of(self.pattern.as_str());
        let mut out: Vec<(usize, String, (usize, usize))> = Vec::new();
        let mut k: usize = 0;
        while k < lines.len()
            invariant
                lines@.len() == all.len(),
                forall|i: int| 0 <= i < lines@.len() ==> #[trigger] lines@[i]@ == all[i],
                pat@ == self@,
                k <= lines@.len(),
                hits_view(out@) == literal_hits(all.take(k as int), self@),
            decreases lines@.len() - k,
        {
            let line = &lines[k];
            let lower = lowercase(line.as_str());
            let hay = chars_of(lower.as_str());
            let ghost before = out@;
            assert(all.take(k + 1).drop_last() =~= all.take(k as int));
            let hay_len = hay.len();
            match find_first(&hay, &pat) {
                Some(p) => {
                    proof {
                        lemma_first_from(hay@, pat@, 0);
                    }
                    out.push((k + 1, line.clone(), (p, p + pat.len())));
                },
                None => {},
            }
            assert(hits_view(out@) =~= literal_hits(all.take(k + 1), self@));
            k = k + 1;
        }
        assert(all.take(lines@.len() as int) =~= all);
        out
    }
}


#[verifier::external_type_specification]
#[verifier::external_body]
pub struct ExRegex(Regex);

#[verifier::external_type_specification]
#[verifier::external_body]
pub struct ExRegexError(regex::Error);

/// Whether `Regex::new` accepts a pattern.
pub uninterp spec fn compiles(pattern: Seq<char>) -> bool;

/// The pattern text that a compiled regex was built from (`Regex::as_str`).
pub uninterp spec fn source_of(re: Regex) -> Seq<char>;

/// The byte spans that `Regex::find_iter` reports for a pattern over a text:
/// successive non-overlapping leftmost-first matches.
pub uninterp spec fn regex_spans(pattern: Seq<char>, text: Seq<char>) -> Seq<(nat, nat)>;

/// The mathematical form of a list of spans.
pub open spec fn spans_view(v: Seq<(usize, usize)>) -> Seq<(nat, nat)> {
    v.map_values(|sp: (usize, usize)| (sp.0 as nat, sp.1 as nat))
}

/// Relies on `regex::Regex::new`: it fails exactly on the patterns it refuses,
/// and the regex it builds keeps its pattern text.
#[verifier::external_body]
fn compile(pattern: &str) -> (r: Result<Regex, regex::Error>)
    ensures
        r is Ok <==> compiles(pattern@),
        r matches Ok(re) ==> source_of(re) == pattern@,
{
    Regex::new(pattern)
}

/// Relies on `regex::Regex::is_match`: true exactly when the regex matches
/// somewhere in the text, that is when `find_iter` reports a match.
#[verifier::external_body]
fn regex_is_match(re: &Regex, text: &str) -> (r: bool)
    ensures
        r == (regex_spans(source_of(*re), text@).len() > 0),
{
    re.is_match(text)
}

/// Relies on `regex::Regex::find_iter`: the start and end of each match.
#[verifier::external_body]
fn regex_find_all(re: &Regex, text: &str) -> (r: Vec<(usize, usize)>)
    ensures
        spans_view(r@) == regex_spans(source_of(*re), text@),
{
    re.find_iter(text).map(|m| (m.start(), m.end())).collect()
}

/// Regular-expression hits over the given lines: every span that the regex
/// reports on a line, in order, numbered from 1.
pub open spec fn regex_hits(lines: Seq<Seq<char>>, pattern: Seq<char>) -> Seq<Hit>
    decreases lines.len(),
{
    if lines.len() == 0 {
        Seq::empty()
    } else {
        let n = lines.len();
        let line = lines.last();
        regex_hits(lines.drop_last(), pattern) + regex_spans(pattern, line).map_values(
            |sp: (nat, nat)| (n, line, sp),
        )
    }
}

/// Regular-expression matcher, case-sensitive as written.
pub struct RegexMatcher {
    regex: Regex,
}

impl View for RegexMatcher {
    type V = Seq<char>;

    /// The pattern text.
    closed spec fn view(&self) -> Seq<char> {
        source_of(self.regex)
    }
}

impl RegexMatcher {
    /// Compiles the pattern; fails when the regex engine refuses it.
    pub fn new(pattern: &str) -> (r: Result<Self, regex::Error>)
        ensures
            r is Ok <==> compiles(pattern@),
            r matches Ok(m) ==> m@ == pattern@,
    {
        match compile(pattern) {
            Ok(regex) => Ok(RegexMatcher { regex }),
            Err(e) => Err(e),
        }
    }

    /// The first span the regex reports in the text.
    pub fn locate(&self, text: &str) -> (r: Option<(usize, usize)>)
        ensures
            r is Some <==> regex_spans(self@, text@).len() > 0,
            r matches Some(sp) ==> regex_spans(self@, text@)[0] == (sp.0 as nat, sp.1 as nat),
    {
        let spans = regex_find_all(&self.regex, text);
        if spans.len() > 0 {
            assert(spans_view(spans@)[0] == (spans@[0].0 as nat, spans@[0].1 as nat));
            Some(spans[0])
        } else {
            None
        }
    }
}

impl Matcher for RegexMatcher {
    open spec fn spec_matches(&self, text: Seq<char>) -> bool {
        regex_spans(self@, text).len() > 0
    }

    open spec fn spec_find_matches(&self, text: Seq<char>) -> Seq<Hit> {
        regex_hits(lines_of(text), self@)
    }

    fn matches(&self, content: &str) -> (r: bool) {
        regex_is_match(&self.regex, content)
    }

    fn find_matches(&self, content: &str) -> (r: Vec<(usize, String, (usize, usize))>) {
        let lines = split_lines(content);
        let ghost all = lines_of(content@);
        let mut out: Vec<(usize, String, (usize, usize))> = Vec::new();
        let mut k: usize = 0;
        while k < lines.len()
            invariant
                lines@.len() == all.len(),
                forall|i: int| 0 <= i < lines@.len() ==> #[trigger] lines@[i]@ == all[i],
                k <= lines@.len(),
                hits_view(out@) == regex_hits(all.take(k as int), self@),
            decreases lines@.len() - k,
        {
            let line = &lines[k];
            let spans = regex_find_all(&self.regex, line.as_str());
            let ghost before = hits_view(out@);
            let ghost sv = regex_spans(self@, all[k as int]);
            let mut j: usize = 0;
            while j < spans.len()
                invariant
                    lines@.len() == all.len(),
                    forall|i: int| 0 <= i < lines@.len() ==> #[trigger] lines@[i]@ == all[i],
                    k < lines@.len(),
                    lines@.len() <= usize::MAX,
                    line@ == all[k as int],
                    spans_view(spans@) == sv,
                    j <= spans@.len(),
                    hits_view(out@) == before + sv.take(j as int).map_values(
                        |sp: (nat, nat)| ((k + 1) as nat, all[k as int], sp),
                    ),
                decreases spans@.len() - j,
            {
                assert(sv[j as int] == (spans@[j as int].0 as nat, spans@[j as int].1 as nat));
                let ghost prev_out = out@;
                out.push((k + 1, line.clone(), spans[j]));
                assert(hits_view(out@) =~= hits_view(prev_out).push(((k + 1) as nat, all[k as int], sv[j as int])));
                assert(sv.take(j + 1) =~= sv.take(j as int).push(sv[j as int]));
                j = j + 1;
                assert(hits_view(out@) =~= before + sv.take(j as int).map_values(
                    |sp: (nat, nat)| ((k + 1) as nat, all[k as int], sp),
                ));
            }
            assert(sv.take(j as int) =~= sv);
            assert(all.take(k + 1).drop_last() =~= all.take(k as int));
            assert(hits_view(out@) =~= regex_hits(all.take(k + 1), self@));
            k = k + 1;
        }
        assert(all.take(lines@.len() as int) =~= all);
        out
    }
}

/// For the literal matcher, every line on which `find_matches` reports a hit
/// is a text on which `matches` holds.
pub proof fn lemma_literal_hit_matches(m: SimpleMatcher, text: Seq<char>, i: int)
    requires
        0 <= i < m.spec_find_matches(text).len(),
    ensures
        m.spec_matches(m.spec_find_matches(text)[i].1),
{
    lemma_literal_hits_contain(lines_of(text), m@, i);
}

proof fn lemma_literal_hits_contain(lines: Seq<Seq<char>>, pat: Seq<char>, i: int)
    requires
        0 <= i < literal_hits(lines, pat).len(),
    ensures
        contains(lower_of(literal_hits(lines, pat)[i].1), pat),
    decreases lines.len(),
{
    let prev = literal_hits(lines.drop_last(), pat);
    if i < prev.len() {
        lemma_literal_hits_contain(lines.drop_last(), pat, i);
    } else {
        lemma_contains_iff_first(lower_of(lines.last()), pat);
    }
}

} // verus!
