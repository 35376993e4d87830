//! Compiled regular expressions from the `regex` crate, with the results of
//! its matching operations named as functions of the pattern, the builder
//! options and the haystack.
use vstd::prelude::*;

verus! {

#[verifier::external_type_specification]
#[verifier::external_body]
pub struct ExRegex(regex::Regex);

/// The `regex` crate compiles `pattern` with these options
/// (`RegexBuilder::new(pattern).case_insensitive(..).size_limit(..).build()`
/// succeeds).
pub uninterp spec fn regex_compiles(pattern: Seq<char>, case_insensitive: bool, size_limit: usize) -> bool;

/// `Regex::is_match` of the compiled pattern on `haystack`.
pub uninterp spec fn regex_is_match(
    pattern: Seq<char>,
    case_insensitive: bool,
    size_limit: usize,
    haystack: Seq<char>,
) -> bool;

/// The pieces that `Regex::split` yields on `haystack`: the text between
/// successive non-overlapping matches, including the text before the first
/// and after the last.
pub uninterp spec fn regex_split(
    pattern: Seq<char>,
    case_insensitive: bool,
    size_limit: usize,
    haystack: Seq<char>,
) -> Seq<Seq<char>>;

/// The capture groups of each successive non-overlapping match that
/// `Regex::captures_iter` yields on `haystack`; group 0 is the whole match,
/// and a group that did not take part in a match is `None`.
pub uninterp spec fn regex_captures_all(
    pattern: Seq<char>,
    case_insensitive: bool,
    size_limit: usize,
    haystack: Seq<char>,
) -> Seq<Seq<Option<Seq<char>>>>;

/// The capture groups of the leftmost match that `Regex::captures` finds in
/// `haystack`, if there is one.
pub uninterp spec fn regex_captures_first(
    pattern: Seq<char>,
    case_insensitive: bool,
    size_limit: usize,
    haystack: Seq<char>,
) -> Option<Seq<Option<Seq<char>>>>;

/// The default limit on the size of a compiled program (`regex` uses ten
/// mebibytes unless told otherwise).
pub const DEFAULT_SIZE_LIMIT: usize = 10485760;

/// A compiled regular expression together with what it was compiled from.
pub struct Pattern {
    source: String,
    case_insensitive: bool,
    size_limit: usize,
    re: regex::Regex,
}

/// The piece of a replacement at position `i`: the text before the `i`-th
/// match followed by that match's replacement (the last piece has none).
pub open spec fn piece(gaps: Seq<Seq<char>>, reps: Seq<Seq<char>>, i: int) -> Seq<char> {
    if i + 1 < gaps.len() && i < reps.len() {
        gaps[i] + reps[i]
    } else {
        gaps[i]
    }
}

/// The first `n` pieces, concatenated.
pub open spec fn join_pieces(gaps: Seq<Seq<char>>, reps: Seq<Seq<char>>, n: int) -> Seq<char>
    decreases n,
{
    if n <= 0 {
        Seq::<char>::empty()
    } else {
        join_pieces(gaps, reps, n - 1) + piece(gaps, reps, n - 1)
    }
}

/// The unmatched text with each match replaced, in order: what
/// `Regex::replace_all` builds from the split pieces and the replacements.
pub open spec fn interleave(gaps: Seq<Seq<char>>, reps: Seq<Seq<char>>) -> Seq<char> {
    join_pieces(gaps, reps, gaps.len() as int)
}

/// Capture group `i`, or nothing when the group did not take part.
pub open spec fn group(caps: Seq<Option<Seq<char>>>, i: int) -> Seq<char> {
    if 0 <= i < caps.len() && caps[i] is Some {
        caps[i]->0
    } else {
        Seq::<char>::empty()
    }
}

/// The text of each match (capture group 0).
pub open spec fn match_texts(caps: Seq<Seq<Option<Seq<char>>>>) -> Seq<Seq<char>> {
    caps.map_values(|c: Seq<Option<Seq<char>>>| group(c, 0))
}

/// The total length of some texts.
pub open spec fn total_len(s: Seq<Seq<char>>) -> int
    decreases s.len(),
{
    if s.len() == 0 {
        0
    } else {
        total_len(s.drop_last()) + s.last().len()
    }
}

proof fn lemma_total_len_nonneg(s: Seq<Seq<char>>)
    ensures
        total_len(s) >= 0,
    decreases s.len(),
{
    if s.len() > 0 {
        lemma_total_len_nonneg(s.drop_last());
    }
}

proof fn lemma_join_pieces_len(gaps: Seq<Seq<char>>, reps: Seq<Seq<char>>, n: int)
    requires
        gaps.len() == reps.len() + 1,
        0 <= n <= gaps.len(),
    ensures
        join_pieces(gaps, reps, n).len() == join_pieces(gaps, Seq::empty(), n).len() + total_len(
            reps.take(if n - 1 < reps.len() { if n > 0 { n } else { 0 } } else { reps.len() as int }),
        ),
        (forall|i: int| 0 <= i < reps.len() ==> #[trigger] reps[i].len() == 0) ==> join_pieces(gaps, reps, n)
            == join_pieces(gaps, Seq::empty(), n),
    decreases n,
{
    if n > 0 {
        lemma_join_pieces_len(gaps, reps, n - 1);
        let k = if n - 1 < reps.len() { n } else { reps.len() as int };
        let k1 = if n - 2 < reps.len() { if n - 1 > 0 { n - 1 } else { 0 } } else { reps.len() as int };
        if n - 1 < reps.len() {
            assert(reps.take(k).drop_last() =~= reps.take(k1));
        } else {
            assert(k == k1);
        }
        if forall|i: int| 0 <= i < reps.len() ==> #[trigger] reps[i].len() == 0 {
            if n - 1 < reps.len() {
                assert(reps[n - 1].len() == 0);
                assert(reps[n - 1] =~= Seq::<char>::empty());
            }
            assert(piece(gaps, reps, n - 1) =~= piece(gaps, Seq::empty(), n - 1));
        }
    } else {
        assert(reps.take(0) =~= Seq::<Seq<char>>::empty());
    }
}

/// Removing the matches from a text shortens it by their total length; when
/// that length is zero (every match is empty) the text is unchanged.
pub proof fn lemma_removal_len(gaps: Seq<Seq<char>>, matches: Seq<Seq<char>>)
    requires
        gaps.len() == matches.len() + 1,
    ensures
        interleave(gaps, matches).len() == interleave(gaps, Seq::empty()).len() + total_len(matches),
        total_len(matches) >= 0,
        total_len(matches) == 0 ==> (forall|i: int| 0 <= i < matches.len() ==> #[trigger] matches[i].len() == 0),
        total_len(matches) == 0 ==> interleave(gaps, matches) == interleave(gaps, Seq::empty()),
{
    lemma_join_pieces_len(gaps, matches, gaps.len() as int);
    assert(matches.take(matches.len() as int) =~= matches);
    lemma_total_len_zero(matches);
    lemma_total_len_nonneg(matches);
}

proof fn lemma_total_len_zero(s: Seq<Seq<char>>)
    ensures
        total_len(s) == 0 ==> (forall|i: int| 0 <= i < s.len() ==> #[trigger] s[i].len() == 0),
    decreases s.len(),
{
    if s.len() > 0 {
        lemma_total_len_zero(s.drop_last());
        lemma_total_len_nonneg(s.drop_last());
        if total_len(s) == 0 {
            assert forall|i: int| 0 <= i < s.len() implies #[trigger] s[i].len() == 0 by {
                if i < s.len() - 1 {
                    assert(s.drop_last()[i] == s[i]);
                }
            }
        }
    }
}

pub open spec fn opt_views(v: Seq<Option<String>>) -> Seq<Option<Seq<char>>> {
    v.map_values(|o: Option<String>| crate::data::opt_view(o))
}

pub open spec fn captures_views(v: Seq<Vec<Option<String>>>) -> Seq<Seq<Option<Seq<char>>>> {
    v.map_values(|g: Vec<Option<String>>| opt_views(g@))
}

/// `RegexBuilder::build` with the case-insensitivity and program size limit
/// given; `None` when the `regex` crate refuses the pattern.
#[verifier::external_body]
fn build_regex(pattern: &str, case_insensitive: bool, size_limit: usize) -> (r: Option<regex::Regex>)
    ensures
        r is Some <==> regex_compiles(pattern@, case_insensitive, size_limit),
{
    regex::RegexBuilder::new(pattern).case_insensitive(case_insensitive).size_limit(
        size_limit,
    ).build().ok()
}

impl Pattern {
    pub closed spec fn source(&self) -> Seq<char> {
        self.source@
    }

    pub closed spec fn case_insensitive(&self) -> bool {
        self.case_insensitive
    }

    pub closed spec fn size_limit(&self) -> usize {
        self.size_limit
    }

    /// Compiles `pattern`; `None` when the `regex` crate refuses it.
    pub fn new(pattern: &str, case_insensitive: bool, size_limit: usize) -> (r: Option<Pattern>)
        ensures
            r is Some <==> regex_compiles(pattern@, case_insensitive, size_limit),
            r matches Some(p) ==> p.source() == pattern@ && p.case_insensitive() == case_insensitive
                && p.size_limit() == size_limit,
    {
        match build_regex(pattern, case_insensitive, size_limit) {
            Some(re) => Some(Pattern { source: String::from_str(pattern), case_insensitive, size_limit, re }),
            None => None,
        }
    }

    /// `Regex::is_match`.
    #[verifier::external_body]
    pub(crate) fn is_match(&self, haystack: &str) -> (b: bool)
        ensures
            b == regex_is_match(self.source(), self.case_insensitive(), self.size_limit(), haystack@),
    {
        self.re.is_match(haystack)
    }

    /// `Regex::split`, each piece as an owned string. The pieces are the text
    /// between the successive matches that `captures_iter` finds (one more
    /// piece than matches), so the pieces with the matches between them give
    /// the haystack back.
    #[verifier::external_body]
    pub(crate) fn split(&self, haystack: &str) -> (r: Vec<String>)
        ensures
            crate::text::views(r@) == regex_split(
                self.source(),
                self.case_insensitive(),
                self.size_limit(),
                haystack@,
            ),
            r@.len() == regex_captures_all(self.source(), self.case_insensitive(), self.size_limit(), haystack@).len() + 1,
            interleave(
                crate::text::views(r@),
                match_texts(regex_captures_all(self.source(), self.case_insensitive(), self.size_limit(), haystack@)),
            ) == haystack@,
    {
        self.re.split(haystack).map(|piece| piece.to_string()).collect()
    }

    /// `Regex::captures_iter`, each group as an owned string.
    #[verifier::external_body]
    pub(crate) fn captures_all(&self, haystack: &str) -> (r: Vec<Vec<Option<String>>>)
        ensures
            captures_views(r@) == regex_captures_all(
                self.source(),
                self.case_insensitive(),
                self.size_limit(),
                haystack@,
            ),
    {
        self.re.captures_iter(haystack).map(
            |caps| caps.iter().map(|m| m.map(|m| m.as_str().to_string())).collect(),
        ).collect()
    }

    /// `Regex::captures`, each group as an owned string.
    #[verifier::external_body]
    pub(crate) fn captures_first(&self, haystack: &str) -> (r: Option<Vec<Option<String>>>)
        ensures
            match r {
                Some(g) => regex_captures_first(
                    self.source(),
                    self.case_insensitive(),
                    self.size_limit(),
                    haystack@,
                ) == Some(opt_views(g@)),
                None => regex_captures_first(
                    self.source(),
                    self.case_insensitive(),
                    self.size_limit(),
                    haystack@,
                ) is None,
            },
    {
        self.re.captures(haystack).map(
            |caps| caps.iter().map(|m| m.map(|m| m.as_str().to_string())).collect(),
        )
    }
}

} // verus!
