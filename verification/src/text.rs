//! Character-level helpers shared by the feed, filter and routing logic:
//! splitting, searching, case folding, and the decimal and hexadecimal
//! notations of integers.
use vstd::prelude::*;

verus! {

/// `String::push` appends one character.
pub assume_specification[ String::push ](string: &mut String, ch: char)
    ensures
        final(string)@ == old(string)@.push(ch),
;

// ---------------------------------------------------------------------------
// Searching
// ---------------------------------------------------------------------------

/// `t` occurs in `s` starting at position `i`.
pub open spec fn occurs_at(s: Seq<char>, t: Seq<char>, i: int) -> bool {
    0 <= i && i + t.len() <= s.len() && s.subrange(i, i + t.len()) == t
}

/// `t` occurs somewhere in `s` (as `str::contains` with a string pattern).
pub open spec fn has_substring(s: Seq<char>, t: Seq<char>) -> bool {
    exists|i: int| occurs_at(s, t, i)
}

/// Position of the first `c` in `s`, or `s.len()` when there is none.
pub open spec fn index_of_char(s: Seq<char>, c: char) -> int
    decreases s.len(),
{
    if s.len() == 0 {
        0
    } else if s[0] == c {
        0
    } else {
        1 + index_of_char(s.drop_first(), c)
    }
}

pub proof fn lemma_index_of_char(s: Seq<char>, c: char)
    ensures
        0 <= index_of_char(s, c) <= s.len(),
        index_of_char(s, c) < s.len() ==> s[index_of_char(s, c)] == c,
        forall|j: int| 0 <= j < index_of_char(s, c) ==> s[j] != c,
    decreases s.len(),
{
    if s.len() > 0 && s[0] != c {
        lemma_index_of_char(s.drop_first(), c);
        assert forall|j: int| 0 <= j < index_of_char(s, c) implies s[j] != c by {
            if j > 0 {
                assert(s[j] == s.drop_first()[j - 1]);
            }
        }
    }
}

/// The first occurrence is the unique position before which `c` does not occur.
pub proof fn lemma_index_of_char_at(s: Seq<char>, c: char, i: int)
    requires
        0 <= i <= s.len(),
        i < s.len() ==> s[i] == c,
        forall|j: int| 0 <= j < i ==> s[j] != c,
    ensures
        index_of_char(s, c) == i,
    decreases s.len(),
{
    if s.len() > 0 && i > 0 {
        assert forall|j: int| 0 <= j < i - 1 implies s.drop_first()[j] != c by {
            assert(s.drop_first()[j] == s[j + 1]);
        }
        lemma_index_of_char_at(s.drop_first(), c, i - 1);
    }
}

/// What precedes the first `sep` and what follows it (as `str::split_once`).
pub open spec fn split_once(s: Seq<char>, sep: char) -> Option<(Seq<char>, Seq<char>)> {
    let i = index_of_char(s, sep);
    if i < s.len() {
        Some((s.take(i), s.skip(i + 1)))
    } else {
        None
    }
}

/// `s` starts with `p`; the rest of `s` (as `str::strip_prefix`).
pub open spec fn strip_prefix(s: Seq<char>, p: Seq<char>) -> Option<Seq<char>> {
    if p.len() <= s.len() && s.take(p.len() as int) == p {
        Some(s.skip(p.len() as int))
    } else {
        None
    }
}

/// The pieces of `s` between occurrences of `sep` (as `str::split` with a
/// character pattern): never empty, one more piece than there are separators.
pub open spec fn split_on(s: Seq<char>, sep: char) -> Seq<Seq<char>>
    decreases s.len(),
{
    if s.len() == 0 {
        seq![Seq::<char>::empty()]
    } else {
        let p = split_on(s.drop_last(), sep);
        if s.last() == sep {
            p.push(Seq::<char>::empty())
        } else {
            p.update(p.len() - 1, p.last().push(s.last()))
        }
    }
}

pub proof fn lemma_split_on_nonempty(s: Seq<char>, sep: char)
    ensures
        split_on(s, sep).len() >= 1,
    decreases s.len(),
{
    if s.len() > 0 {
        lemma_split_on_nonempty(s.drop_last(), sep);
    }
}

/// The views of a vector of strings.
pub open spec fn views(v: Seq<String>) -> Seq<Seq<char>> {
    v.map_values(|x: String| x@)
}

/// The characters of a string slice, as a vector.
pub fn chars_of(s: &str) -> (r: Vec<char>)
    ensures
        r@ == s@,
{
    let mut r: Vec<char> = Vec::new();
    for c in it: s.chars()
        invariant
            r@ == it.seq().take(it.index() as int),
            it.seq() == s@,
    {
        r.push(c);
    }
    r
}

/// A string holding the characters `v[lo..hi]`.
pub fn string_of(v: &Vec<char>, lo: usize, hi: usize) -> (r: String)
    requires
        lo <= hi <= v.len(),
    ensures
        r@ == v@.subrange(lo as int, hi as int),
{
    let mut r = String::new();
    let mut i = lo;
    while i < hi
        invariant
            lo <= i <= hi <= v.len(),
            r@ == v@.subrange(lo as int, i as int),
        decreases hi - i,
    {
        r.push(v[i]);
        assert(v@.subrange(lo as int, i + 1) == v@.subrange(lo as int, i as int).push(v[i as int]));
        i = i + 1;
    }
    r
}

/// `t` occurs in `s` at position `i` (on character vectors).
fn occurs_at_exec(s: &Vec<char>, t: &Vec<char>, i: usize) -> (b: bool)
    requires
        i + t.len() <= s.len(),
    ensures
        b == occurs_at(s@, t@, i as int),
{
    let mut j: usize = 0;
    while j < t.len()
        invariant
            i + t.len() <= s.len(),
            j <= t.len(),
            forall|k: int| 0 <= k < j ==> s@[i + k] == t@[k],
        decreases t.len() - j,
    {
        if s[i + j] != t[j] {
            assert(s@.subrange(i as int, i + t.len())[j as int] != t@[j as int]);
            return false;
        }
        j = j + 1;
    }
    assert(s@.subrange(i as int, i + t.len()) =~= t@);
    true
}

/// Whether `t` occurs in `s`, on character vectors.
pub fn chars_contain(s: &Vec<char>, t: &Vec<char>) -> (b: bool)
    ensures
        b == has_substring(s@, t@),
{
    if t.len() > s.len() {
        return false;
    }
    let last = s.len() - t.len();
    let mut i: usize = 0;
    while i < last
        invariant
            t.len() <= s.len(),
            last == s.len() - t.len(),
            i <= last,
            forall|k: int| 0 <= k < i ==> !occurs_at(s@, t@, k),
        decreases last - i,
    {
        if occurs_at_exec(s, t, i) {
            return true;
        }
        i = i + 1;
    }
    if occurs_at_exec(s, t, last) {
        return true;
    }
    assert forall|k: int| !occurs_at(s@, t@, k) by {
        if 0 <= k < i {
        }
    }
    false
}

/// Whether `t` occurs in `s` (as `str::contains`).
pub fn str_contains(s: &str, t: &str) -> (b: bool)
    ensures
        b == has_substring(s@, t@),
{
    let sv = chars_of(s);
    let tv = chars_of(t);
    chars_contain(&sv, &tv)
}

/// The position of the first `c` in `v[from..]`, or `v.len()`.
pub fn find_char(v: &Vec<char>, c: char, from: usize) -> (r: usize)
    requires
        from <= v.len(),
    ensures
        r == from + index_of_char(v@.skip(from as int), c),
{
    let mut i = from;
    while i < v.len() && v[i] != c
        invariant
            from <= i <= v.len(),
            forall|j: int| from <= j < i ==> v@[j] != c,
        decreases v.len() - i,
    {
        i = i + 1;
    }
    proof {
        lemma_index_of_char_at(v@.skip(from as int), c, i - from);
    }
    i
}

/// The pieces of `s` between occurrences of `sep` (as `str::split`).
pub fn split_char(s: &str, sep: char) -> (r: Vec<String>)
    ensures
        views(r@) == split_on(s@, sep),
{
    let v = chars_of(s);
    let mut pieces: Vec<String> = Vec::new();
    let mut cur = String::new();
    let mut i: usize = 0;
    while i < v.len()
        invariant
            i <= v.len(),
            v@ == s@,
            views(pieces@).push(cur@) == split_on(v@.take(i as int), sep),
        decreases v.len() - i,
    {
        let c = v[i];
        let ghost before = views(pieces@).push(cur@);
        assert(v@.take(i + 1).drop_last() == v@.take(i as int));
        if c == sep {
            pieces.push(cur);
            cur = String::new();
            assert(views(pieces@) == before);
        } else {
            cur.push(c);
            assert(views(pieces@).push(cur@) =~= before.update(before.len() - 1, before.last().push(c)));
        }
        i = i + 1;
    }
    assert(v@.take(v.len() as int) == v@);
    pieces.push(cur);
    assert(views(pieces@) =~= split_on(s@, sep));
    pieces
}


/// Whether two strings have the same characters.
pub fn str_eq(a: &str, b: &str) -> (r: bool)
    ensures
        r == (a@ == b@),
{
    let av = chars_of(a);
    let bv = chars_of(b);
    if av.len() != bv.len() {
        return false;
    }
    let mut i: usize = 0;
    while i < av.len()
        invariant
            i <= av.len() == bv.len(),
            av@ == a@,
            bv@ == b@,
            forall|j: int| 0 <= j < i ==> av@[j] == bv@[j],
        decreases av.len() - i,
    {
        if av[i] != bv[i] {
            return false;
        }
        i = i + 1;
    }
    assert(av@ =~= bv@);
    true
}

/// `s` without the prefix `p`, when it starts with it (as `str::strip_prefix`).
pub fn strip_prefix_exec(s: &str, p: &str) -> (r: Option<String>)
    ensures
        opt_str_view(r) == strip_prefix(s@, p@),
{
    let sv = chars_of(s);
    let pv = chars_of(p);
    if pv.len() > sv.len() {
        return None;
    }
    let mut i: usize = 0;
    while i < pv.len()
        invariant
            i <= pv.len() <= sv.len(),
            sv@ == s@,
            pv@ == p@,
            forall|j: int| 0 <= j < i ==> sv@[j] == pv@[j],
        decreases pv.len() - i,
    {
        if sv[i] != pv[i] {
            assert(sv@.take(pv.len() as int)[i as int] != pv@[i as int]);
            return None;
        }
        i = i + 1;
    }
    assert(sv@.take(pv.len() as int) =~= pv@);
    Some(string_of(&sv, pv.len(), sv.len()))
}

pub open spec fn opt_slice_view(o: Option<&str>) -> Option<Seq<char>> {
    match o {
        Some(s) => Some(s@),
        None => None,
    }
}

pub open spec fn opt_str_view(o: Option<String>) -> Option<Seq<char>> {
    match o {
        Some(s) => Some(s@),
        None => None,
    }
}

/// The rest of the first piece that starts with `prefix`.
pub open spec fn first_prefixed(pieces: Seq<Seq<char>>, prefix: Seq<char>) -> Option<Seq<char>>
    decreases pieces.len(),
{
    if pieces.len() == 0 {
        None
    } else {
        match strip_prefix(pieces[0], prefix) {
            Some(v) => Some(v),
            None => first_prefixed(pieces.drop_first(), prefix),
        }
    }
}

/// The rest of the last piece that starts with `prefix`.
pub open spec fn last_prefixed(pieces: Seq<Seq<char>>, prefix: Seq<char>) -> Option<Seq<char>>
    decreases pieces.len(),
{
    if pieces.len() == 0 {
        None
    } else {
        match strip_prefix(pieces.last(), prefix) {
            Some(v) => Some(v),
            None => last_prefixed(pieces.drop_last(), prefix),
        }
    }
}

proof fn lemma_first_prefixed_skip(pieces: Seq<Seq<char>>, prefix: Seq<char>, i: int)
    requires
        0 <= i < pieces.len(),
    ensures
        first_prefixed(pieces.skip(i), prefix) == (match strip_prefix(pieces[i], prefix) {
            Some(v) => Some(v),
            None => first_prefixed(pieces.skip(i + 1), prefix),
        }),
{
    assert(pieces.skip(i).drop_first() =~= pieces.skip(i + 1));
    assert(pieces.skip(i)[0] == pieces[i]);
}

/// The rest of the first piece that starts with `prefix`.
pub fn first_prefixed_exec(pieces: &Vec<String>, prefix: &str) -> (r: Option<String>)
    ensures
        opt_str_view(r) == first_prefixed(views(pieces@), prefix@),
{
    let mut i: usize = 0;
    assert(views(pieces@).skip(0) =~= views(pieces@));
    while i < pieces.len()
        invariant
            i <= pieces.len(),
            first_prefixed(views(pieces@), prefix@) == first_prefixed(views(pieces@).skip(i as int), prefix@),
        decreases pieces.len() - i,
    {
        proof {
            lemma_first_prefixed_skip(views(pieces@), prefix@, i as int);
        }
        let found = strip_prefix_exec(pieces[i].as_str(), prefix);
        if found.is_some() {
            return found;
        }
        i = i + 1;
    }
    assert(views(pieces@).skip(i as int) =~= Seq::<Seq<char>>::empty());
    None
}

/// The rest of the last piece that starts with `prefix`.
pub fn last_prefixed_exec(pieces: &Vec<String>, prefix: &str) -> (r: Option<String>)
    ensures
        opt_str_view(r) == last_prefixed(views(pieces@), prefix@),
{
    let mut i: usize = pieces.len();
    assert(views(pieces@).take(i as int) =~= views(pieces@));
    while i > 0
        invariant
            i <= pieces.len(),
            last_prefixed(views(pieces@), prefix@) == last_prefixed(views(pieces@).take(i as int), prefix@),
        decreases i,
    {
        let ghost t = views(pieces@).take(i as int);
        assert(t.last() == pieces@[i - 1]@);
        assert(t.drop_last() =~= views(pieces@).take(i - 1));
        let found = strip_prefix_exec(pieces[i - 1].as_str(), prefix);
        if found.is_some() {
            return found;
        }
        i = i - 1;
    }
    None
}


/// Number of leading `c`s.
pub open spec fn count_leading(s: Seq<char>, c: char) -> int
    decreases s.len(),
{
    if s.len() > 0 && s[0] == c {
        1 + count_leading(s.drop_first(), c)
    } else {
        0
    }
}

/// Number of trailing `c`s.
pub open spec fn count_trailing(s: Seq<char>, c: char) -> int
    decreases s.len(),
{
    if s.len() > 0 && s.last() == c {
        1 + count_trailing(s.drop_last(), c)
    } else {
        0
    }
}

/// `s` without its leading and trailing `c`s (as `str::trim_matches` with a
/// character).
pub open spec fn trim_char(s: Seq<char>, c: char) -> Seq<char> {
    let rest = s.skip(count_leading(s, c));
    rest.take(rest.len() - count_trailing(rest, c))
}

pub proof fn lemma_count_leading_at(s: Seq<char>, c: char, i: int)
    requires
        0 <= i <= s.len(),
        i < s.len() ==> s[i] != c,
        forall|k: int| 0 <= k < i ==> s[k] == c,
    ensures
        count_leading(s, c) == i,
    decreases s.len(),
{
    if s.len() > 0 && i > 0 {
        assert forall|k: int| 0 <= k < i - 1 implies s.drop_first()[k] == c by {
            assert(s.drop_first()[k] == s[k + 1]);
        }
        lemma_count_leading_at(s.drop_first(), c, i - 1);
    }
}

pub proof fn lemma_count_trailing_at(s: Seq<char>, c: char, j: int)
    requires
        0 <= j <= s.len(),
        j > 0 ==> s[j - 1] != c,
        forall|k: int| j <= k < s.len() ==> s[k] == c,
    ensures
        count_trailing(s, c) == s.len() - j,
    decreases s.len(),
{
    if s.len() > 0 && j < s.len() {
        assert forall|k: int| j <= k < s.len() - 1 implies s.drop_last()[k] == c by {
            assert(s.drop_last()[k] == s[k]);
        }
        lemma_count_trailing_at(s.drop_last(), c, j);
    }
}

/// `s` without its leading and trailing `c`s.
pub fn trim_char_exec(s: &str, c: char) -> (r: String)
    ensures
        r@ == trim_char(s@, c),
{
    let v = chars_of(s);
    let mut i: usize = 0;
    while i < v.len() && v[i] == c
        invariant
            i <= v.len(),
            forall|k: int| 0 <= k < i ==> v@[k] == c,
        decreases v.len() - i,
    {
        i = i + 1;
    }
    let mut j: usize = v.len();
    while j > i && v[j - 1] == c
        invariant
            i <= j <= v.len(),
            forall|k: int| j <= k < v.len() ==> v@[k] == c,
        decreases j,
    {
        j = j - 1;
    }
    proof {
        lemma_count_leading_at(v@, c, i as int);
        let rest = v@.skip(i as int);
        assert forall|k: int| j - i <= k < rest.len() implies rest[k] == c by {
            assert(rest[k] == v@[k + i]);
        }
        if j > i {
            assert(rest[j - i - 1] == v@[j - 1]);
        }
        lemma_count_trailing_at(rest, c, j - i);
        assert(rest.take(j - i) =~= v@.subrange(i as int, j as int));
    }
    string_of(&v, i, j)
}

pub proof fn lemma_split_on_no_sep(s: Seq<char>, sep: char)
    requires
        !s.contains(sep),
    ensures
        split_on(s, sep) == seq![s],
    decreases s.len(),
{
    if s.len() > 0 {
        assert(!s.drop_last().contains(sep)) by {
            if s.drop_last().contains(sep) {
                let k = choose|k: int| 0 <= k < s.drop_last().len() && s.drop_last()[k] == sep;
                assert(s[k] == sep);
            }
        }
        lemma_split_on_no_sep(s.drop_last(), sep);
        assert(s.drop_last().push(s.last()) =~= s);
    } else {
        assert(s =~= Seq::<char>::empty());
    }
}

// ---------------------------------------------------------------------------
// Case folding
// ---------------------------------------------------------------------------

pub open spec fn lower_char(c: char) -> char {
    if 'A' <= c <= 'Z' {
        ((c as u32) + 32) as char
    } else {
        c
    }
}

/// `s` with ASCII letters folded to lower case (as `str::to_ascii_lowercase`).
pub open spec fn ascii_lower(s: Seq<char>) -> Seq<char> {
    s.map_values(|c: char| lower_char(c))
}

pub fn lower_char_exec(c: char) -> (r: char)
    ensures
        r == lower_char(c),
{
    if 'A' <= c && c <= 'Z' {
        let b = (c as u8) + 32;
        proof {
            assert((c as u32) < 128);
        }
        b as char
    } else {
        c
    }
}

/// `s` with ASCII letters folded to lower case.
pub fn to_ascii_lowercase(s: &str) -> (r: String)
    ensures
        r@ == ascii_lower(s@),
{
    let v = chars_of(s);
    let mut r = String::new();
    let mut i: usize = 0;
    while i < v.len()
        invariant
            i <= v.len(),
            v@ == s@,
            r@ == ascii_lower(v@.take(i as int)),
        decreases v.len() - i,
    {
        r.push(lower_char_exec(v[i]));
        assert(ascii_lower(v@.take(i + 1)) =~= ascii_lower(v@.take(i as int)).push(lower_char(v@[i as int])));
        i = i + 1;
    }
    assert(v@.take(v.len() as int) == v@);
    r
}

} // verus!
