//! Character-sequence primitives with their specifications.
//!
//! Text is handled as sequences of `char`; every search, trim and
//! replacement used by the parsers is defined here over `Seq<char>` and
//! implemented on `Vec<char>`.
use vstd::prelude::*;

verus! {

broadcast use vstd::string::group_string_axioms;

/// Whether `c` has the Unicode `White_Space` property, which is what
/// `char::is_whitespace` decides: U+0009 to U+000D, U+0020, U+0085,
/// U+00A0, U+1680, U+2000 to U+200A, U+2028, U+2029, U+202F, U+205F and
/// U+3000.
pub open spec fn white_space(c: char) -> bool {
    let u = c as u32;
    (0x9 <= u <= 0xd) || u == 0x20 || u == 0x85 || u == 0xa0 || u == 0x1680 || (0x2000 <= u
        <= 0x200a) || u == 0x2028 || u == 0x2029 || u == 0x202f || u == 0x205f || u == 0x3000
}

/// Whether `c` is white space, as `char::is_whitespace` decides.
pub fn is_white_space(c: char) -> (r: bool)
    ensures
        r == white_space(c),
{
    let u = c as u32;
    (0x9 <= u && u <= 0xd) || u == 0x20 || u == 0x85 || u == 0xa0 || u == 0x1680 || (0x2000 <= u
        && u <= 0x200a) || u == 0x2028 || u == 0x2029 || u == 0x202f || u == 0x205f || u == 0x3000
}

/// Calls `String::push`, which appends one character.
#[verifier::external_body]
pub(crate) fn push_char(s: &mut String, c: char)
    ensures
        final(s)@ == old(s)@.push(c),
{
    s.push(c)
}

/// An owned copy of `s`.
pub fn owned(s: &str) -> (r: String)
    ensures
        r@ == s@,
{
    s.to_owned()
}

/// The characters of `s`, in order.
pub fn chars_of(s: &str) -> (r: Vec<char>)
    ensures
        r@ == s@,
{
    let mut r: Vec<char> = Vec::new();
    for c in it: s.chars()
        invariant
            r@ == it.seq().take(it.index() as int),
    {
        r.push(c);
    }
    r
}

/// The string made of the characters of `v`.
pub fn string_of(v: &[char]) -> (r: String)
    ensures
        r@ == v@,
{
    let mut r = String::new();
    let mut i: usize = 0;
    while i < v.len()
        invariant
            i <= v.len(),
            r@ == v@.take(i as int),
        decreases v.len() - i,
    {
        push_char(&mut r, v[i]);
        assert(v@.take(i + 1) == v@.take(i as int).push(v@[i as int]));
        i = i + 1;
    }
    assert(v@.take(v.len() as int) == v@);
    r
}

/// `v` followed by the characters of `s`.
pub fn append_str(v: &mut Vec<char>, s: &str)
    ensures
        final(v)@ == old(v)@ + s@,
{
    let cs = chars_of(s);
    append_chars(v, &cs);
}

/// `v` followed by `w`.
pub fn append_chars(v: &mut Vec<char>, w: &[char])
    ensures
        final(v)@ == old(v)@ + w@,
{
    let ghost v0 = v@;
    let mut i: usize = 0;
    while i < w.len()
        invariant
            i <= w.len(),
            v@ == v0 + w@.take(i as int),
        decreases w.len() - i,
    {
        v.push(w[i]);
        assert(w@.take(i + 1) == w@.take(i as int).push(w@[i as int]));
        i = i + 1;
    }
    assert(w@.take(w.len() as int) == w@);
}

/// The characters of `s` from index `a` up to (not including) `b`.
pub fn sub_chars(s: &[char], a: usize, b: usize) -> (r: Vec<char>)
    requires
        a <= b <= s.len(),
    ensures
        r@ == s@.subrange(a as int, b as int),
{
    let mut r: Vec<char> = Vec::new();
    let mut i: usize = a;
    while i < b
        invariant
            a <= i <= b <= s.len(),
            r@ == s@.subrange(a as int, i as int),
        decreases b - i,
    {
        r.push(s[i]);
        assert(s@.subrange(a as int, i + 1) == s@.subrange(a as int, i as int).push(s@[i as int]));
        i = i + 1;
    }
    r
}

// ------------------------------------------------------------------
// Occurrences
// ------------------------------------------------------------------

/// `pat` occurs in `s` starting at index `i`.
pub open spec fn occurs_at(s: Seq<char>, pat: Seq<char>, i: int) -> bool {
    0 <= i && i + pat.len() <= s.len() && s.subrange(i, i + pat.len()) == pat
}

/// The first index at or after `i` where `pat` occurs in `s`.
pub open spec fn find_from(s: Seq<char>, pat: Seq<char>, i: int) -> Option<int>
    decreases s.len() + 1 - i,
{
    if i < 0 || i + pat.len() > s.len() {
        None
    } else if occurs_at(s, pat, i) {
        Some(i)
    } else {
        find_from(s, pat, i + 1)
    }
}

/// The first index where `pat` occurs in `s` (what `str::find` gives, counted in characters).
pub open spec fn find(s: Seq<char>, pat: Seq<char>) -> Option<int> {
    find_from(s, pat, 0)
}

/// `pat` occurs somewhere in `s`.
pub open spec fn contains(s: Seq<char>, pat: Seq<char>) -> bool {
    find(s, pat) is Some
}

/// `s` begins with `pat`.
pub open spec fn starts_with(s: Seq<char>, pat: Seq<char>) -> bool {
    occurs_at(s, pat, 0)
}

/// `s` ends with `pat`.
pub open spec fn ends_with(s: Seq<char>, pat: Seq<char>) -> bool {
    occurs_at(s, pat, s.len() - pat.len())
}

/// `find_from` gives the least occurrence at or after `i`.
pub proof fn lemma_find_from(s: Seq<char>, pat: Seq<char>, i: int)
    requires
        0 <= i,
    ensures
        match find_from(s, pat, i) {
            Some(j) => i <= j && occurs_at(s, pat, j) && forall|k: int|
                i <= k < j ==> !#[trigger] occurs_at(s, pat, k),
            None => forall|k: int| i <= k ==> !#[trigger] occurs_at(s, pat, k),
        },
    decreases s.len() + 1 - i,
{
    if i + pat.len() > s.len() {
    } else if occurs_at(s, pat, i) {
    } else {
        lemma_find_from(s, pat, i + 1);
    }
}

/// Whether `pat` occurs in `s` at index `i`.
pub fn matches_at(s: &[char], pat: &[char], i: usize) -> (r: bool)
    ensures
        r == occurs_at(s@, pat@, i as int),
{
    if i > s.len() || pat.len() > s.len() - i {
        return false;
    }
    let mut k: usize = 0;
    while k < pat.len()
        invariant
            i + pat.len() <= s.len(),
            k <= pat.len(),
            forall|j: int| 0 <= j < k ==> s@[i + j] == pat@[j],
        decreases pat.len() - k,
    {
        if s[i + k] != pat[k] {
            assert(s@.subrange(i as int, i + pat.len())[k as int] != pat@[k as int]);
            return false;
        }
        k = k + 1;
    }
    assert(s@.subrange(i as int, i + pat.len()) == pat@);
    true
}

/// The first index at or after `from` where `pat` occurs in `s`.
pub fn find_chars_from(s: &[char], pat: &[char], from: usize) -> (r: Option<usize>)
    ensures
        match r {
            Some(j) => find_from(s@, pat@, from as int) == Some(j as int),
            None => find_from(s@, pat@, from as int) is None,
        },
{
    if from > s.len() || pat.len() > s.len() - from {
        return None;
    }
    let last = s.len() - pat.len();
    let mut i: usize = from;
    loop
        invariant
            from <= i <= last,
            last + pat.len() == s.len(),
            find_from(s@, pat@, from as int) == find_from(s@, pat@, i as int),
        decreases last - i,
    {
        if matches_at(s, pat, i) {
            return Some(i);
        }
        if i == last {
            assert(find_from(s@, pat@, i + 1) is None);
            return None;
        }
        i = i + 1;
    }
}

/// The first index where `pat` occurs in `s`.
pub fn find_chars(s: &[char], pat: &[char]) -> (r: Option<usize>)
    ensures
        match r {
            Some(j) => find(s@, pat@) == Some(j as int),
            None => find(s@, pat@) is None,
        },
{
    find_chars_from(s, pat, 0)
}

/// Whether `pat` occurs in `s`.
pub fn contains_chars(s: &[char], pat: &[char]) -> (r: bool)
    ensures
        r == contains(s@, pat@),
{
    find_chars(s, pat).is_some()
}

/// Whether `pat` occurs in `s`, with `pat` given as text.
pub fn contains_str(s: &[char], pat: &str) -> (r: bool)
    ensures
        r == contains(s@, pat@),
{
    let p = chars_of(pat);
    contains_chars(s, &p)
}

/// Whether `s` begins with `pat`.
pub fn starts_with_str(s: &[char], pat: &str) -> (r: bool)
    ensures
        r == starts_with(s@, pat@),
{
    let p = chars_of(pat);
    matches_at(s, &p, 0)
}

/// Whether `s` is exactly `pat`.
pub fn equals_str(s: &[char], pat: &str) -> (r: bool)
    ensures
        r == (s@ == pat@),
{
    let p = chars_of(pat);
    if p.len() != s.len() {
        return false;
    }
    let r = matches_at(s, &p, 0);
    assert(s@.subrange(0, p@.len() as int) =~= s@);
    r
}

// ------------------------------------------------------------------
// Trimming
// ------------------------------------------------------------------

/// `s` without its leading white space.
pub open spec fn trim_start(s: Seq<char>) -> Seq<char>
    decreases s.len(),
{
    if s.len() > 0 && white_space(s[0]) {
        trim_start(s.drop_first())
    } else {
        s
    }
}

/// `s` without its trailing white space.
pub open spec fn trim_end(s: Seq<char>) -> Seq<char>
    decreases s.len(),
{
    if s.len() > 0 && white_space(s.last()) {
        trim_end(s.drop_last())
    } else {
        s
    }
}

/// `s` without leading and trailing white space (what `str::trim` gives).
pub open spec fn trim(s: Seq<char>) -> Seq<char> {
    trim_end(trim_start(s))
}

/// `s` with every leading copy of `pat` removed (what `str::trim_start_matches` gives).
pub open spec fn trim_start_matches(s: Seq<char>, pat: Seq<char>) -> Seq<char>
    decreases s.len(),
{
    if pat.len() > 0 && starts_with(s, pat) {
        trim_start_matches(s.skip(pat.len() as int), pat)
    } else {
        s
    }
}

/// `s` with every trailing copy of `pat` removed (what `str::trim_end_matches` gives).
pub open spec fn trim_end_matches(s: Seq<char>, pat: Seq<char>) -> Seq<char>
    decreases s.len(),
{
    if pat.len() > 0 && ends_with(s, pat) {
        trim_end_matches(s.take(s.len() - pat.len()), pat)
    } else {
        s
    }
}

/// `s` with its leading characters that belong to `set` removed.
pub open spec fn trim_start_set(s: Seq<char>, set: Seq<char>) -> Seq<char>
    decreases s.len(),
{
    if s.len() > 0 && set.contains(s[0]) {
        trim_start_set(s.drop_first(), set)
    } else {
        s
    }
}

/// An occurrence at `i` in `s` is an occurrence at the start of what follows `i`.
pub proof fn lemma_occurs_skip(s: Seq<char>, pat: Seq<char>, i: int, k: int)
    requires
        0 <= i <= s.len(),
        0 <= k,
    ensures
        occurs_at(s, pat, i + k) == occurs_at(s.skip(i), pat, k),
{
    if i + k + pat.len() <= s.len() {
        assert(s.skip(i).subrange(k, k + pat.len()) =~= s.subrange(i + k, i + k + pat.len()));
    }
}

/// An occurrence that ends within the first `n` characters is one of `s.take(n)` too.
pub proof fn lemma_occurs_take(s: Seq<char>, pat: Seq<char>, n: int, i: int)
    requires
        0 <= n <= s.len(),
        0 <= i,
        i + pat.len() <= n,
    ensures
        occurs_at(s, pat, i) == occurs_at(s.take(n), pat, i),
{
    assert(s.take(n).subrange(i, i + pat.len()) =~= s.subrange(i, i + pat.len()));
}

/// Searching from `i + k` in `s` is searching from `k` in what follows `i`.
pub proof fn lemma_find_from_skip(s: Seq<char>, pat: Seq<char>, i: int, k: int)
    requires
        0 <= i <= s.len(),
        0 <= k,
    ensures
        find_from(s, pat, i + k) == match find_from(s.skip(i), pat, k) {
            Some(j) => Some(j + i),
            None => None::<int>,
        },
    decreases s.len() + 1 - (i + k),
{
    lemma_occurs_skip(s, pat, i, k);
    if i + k + pat.len() > s.len() {
    } else if occurs_at(s, pat, i + k) {
    } else {
        lemma_find_from_skip(s, pat, i, k + 1);
    }
}

/// `s` without leading and trailing white space.
pub fn trim_chars(s: &[char]) -> (r: Vec<char>)
    ensures
        r@ == trim(s@),
{
    let n = s.len();
    let mut a: usize = 0;
    assert(s@.subrange(0, n as int) =~= s@);
    while a < n && is_white_space(s[a])
        invariant
            a <= n == s.len(),
            trim_start(s@) == trim_start(s@.subrange(a as int, n as int)),
        decreases n - a,
    {
        assert(s@.subrange(a as int, n as int).drop_first() =~= s@.subrange(a + 1, n as int));
        a = a + 1;
    }
    let mut b: usize = n;
    while b > a && is_white_space(s[b - 1])
        invariant
            a <= b <= n == s.len(),
            trim_start(s@) == s@.subrange(a as int, n as int),
            trim(s@) == trim_end(s@.subrange(a as int, b as int)),
        decreases b - a,
    {
        assert(s@.subrange(a as int, b as int).drop_last() =~= s@.subrange(a as int, b - 1));
        b = b - 1;
    }
    sub_chars(s, a, b)
}

/// `s` with every leading copy of `pat` removed.
pub fn trim_start_matches_chars(s: &[char], pat: &[char]) -> (r: Vec<char>)
    ensures
        r@ == trim_start_matches(s@, pat@),
{
    let n = s.len();
    if pat.len() == 0 {
        return sub_chars(s, 0, n);
    }
    let mut i: usize = 0;
    assert(s@.subrange(0, n as int) =~= s@);
    while matches_at(s, pat, i)
        invariant
            i <= n == s.len(),
            pat.len() > 0,
            trim_start_matches(s@, pat@) == trim_start_matches(s@.subrange(i as int, n as int), pat@),
        decreases n - i,
    {
        proof {
            lemma_occurs_skip(s@, pat@, i as int, 0);
            assert(s@.skip(i as int) =~= s@.subrange(i as int, n as int));
            assert(s@.subrange(i as int, n as int).skip(pat.len() as int) =~= s@.subrange(
                i + pat.len(),
                n as int,
            ));
        }
        i = i + pat.len();
    }
    proof {
        lemma_occurs_skip(s@, pat@, i as int, 0);
        assert(s@.skip(i as int) =~= s@.subrange(i as int, n as int));
    }
    sub_chars(s, i, n)
}

/// `s` with every trailing copy of `pat` removed.
pub fn trim_end_matches_chars(s: &[char], pat: &[char]) -> (r: Vec<char>)
    ensures
        r@ == trim_end_matches(s@, pat@),
{
    let n = s.len();
    if pat.len() == 0 {
        return sub_chars(s, 0, n);
    }
    let mut j: usize = n;
    assert(s@.take(n as int) =~= s@);
    while j >= pat.len() && matches_at(s, pat, j - pat.len())
        invariant
            j <= n == s.len(),
            pat.len() > 0,
            trim_end_matches(s@, pat@) == trim_end_matches(s@.take(j as int), pat@),
        decreases j,
    {
        proof {
            lemma_occurs_take(s@, pat@, j as int, j - pat.len());
            assert(s@.take(j as int).take(j - pat.len()) =~= s@.take(j - pat.len()));
        }
        j = j - pat.len();
    }
    proof {
        if j >= pat.len() {
            lemma_occurs_take(s@, pat@, j as int, j - pat.len());
        }
    }
    sub_chars(s, 0, j)
}

/// `s` with its leading characters that belong to `set` removed.
pub fn trim_start_set_chars(s: &[char], set: &[char]) -> (r: Vec<char>)
    ensures
        r@ == trim_start_set(s@, set@),
{
    let n = s.len();
    let mut a: usize = 0;
    assert(s@.subrange(0, n as int) =~= s@);
    while a < n && contains_char(set, s[a])
        invariant
            a <= n == s.len(),
            trim_start_set(s@, set@) == trim_start_set(s@.subrange(a as int, n as int), set@),
        decreases n - a,
    {
        assert(s@.subrange(a as int, n as int).drop_first() =~= s@.subrange(a + 1, n as int));
        a = a + 1;
    }
    sub_chars(s, a, n)
}

/// Whether `c` is one of the characters of `set`.
pub fn contains_char(set: &[char], c: char) -> (r: bool)
    ensures
        r == set@.contains(c),
{
    let mut i: usize = 0;
    while i < set.len()
        invariant
            i <= set.len(),
            forall|k: int| 0 <= k < i ==> set@[k] != c,
        decreases set.len() - i,
    {
        if set[i] == c {
            assert(set@[i as int] == c);
            return true;
        }
        i = i + 1;
    }
    false
}

// ------------------------------------------------------------------
// Removal of every occurrence
// ------------------------------------------------------------------

/// `s` with every occurrence of `pat` removed, scanning left to right
/// (what `str::replace(pat, "")` gives).
pub open spec fn remove_all(s: Seq<char>, pat: Seq<char>) -> Seq<char>
    decreases s.len(),
{
    if pat.len() == 0 {
        s
    } else {
        match find(s, pat) {
            Some(i) => {
                proof {
                    lemma_find_from(s, pat, 0);
                }
                s.take(i) + remove_all(s.skip(i + pat.len()), pat)
            },
            None => s,
        }
    }
}

/// `s` with every occurrence of `pat` removed.
pub fn remove_all_chars(s: &[char], pat: &[char]) -> (r: Vec<char>)
    ensures
        r@ == remove_all(s@, pat@),
{
    let n = s.len();
    if pat.len() == 0 {
        let r = sub_chars(s, 0, n);
        assert(s@.subrange(0, n as int) =~= s@);
        return r;
    }
    let mut out: Vec<char> = Vec::new();
    let mut pos: usize = 0;
    assert(s@.skip(0) =~= s@);
    loop
        invariant
            pos <= n == s.len(),
            pat.len() > 0,
            out@ + remove_all(s@.skip(pos as int), pat@) == remove_all(s@, pat@),
        decreases n - pos,
    {
        let found = find_chars_from(s, pat, pos);
        proof {
            lemma_find_from_skip(s@, pat@, pos as int, 0);
        }
        match found {
            None => {
                let rest = sub_chars(s, pos, n);
                assert(s@.skip(pos as int) =~= s@.subrange(pos as int, n as int));
                append_chars(&mut out, &rest);
                return out;
            },
            Some(j) => {
                proof {
                    lemma_find_from(s@, pat@, pos as int);
                    let t = s@.skip(pos as int);
                    assert(t.take(j - pos) =~= s@.subrange(pos as int, j as int));
                    assert(t.skip(j - pos + pat.len()) =~= s@.skip(j + pat.len()));
                }
                let piece = sub_chars(s, pos, j);
                append_chars(&mut out, &piece);
                pos = j + pat.len();
            },
        }
    }
}

/// The first index where `pat` occurs in `s`, with `pat` given as text.
pub fn find_str(s: &[char], pat: &str) -> (r: Option<usize>)
    ensures
        match r {
            Some(j) => find(s@, pat@) == Some(j as int),
            None => find(s@, pat@) is None,
        },
{
    let p = chars_of(pat);
    find_chars(s, &p)
}

/// The characters of `s` after the first `n`.
pub fn skip_chars(s: &[char], n: usize) -> (r: Vec<char>)
    requires
        n <= s.len(),
    ensures
        r@ == s@.skip(n as int),
{
    let r = sub_chars(s, n, s.len());
    assert(r@ =~= s@.skip(n as int));
    r
}

/// The first `n` characters of `s`.
pub fn take_chars(s: &[char], n: usize) -> (r: Vec<char>)
    requires
        n <= s.len(),
    ensures
        r@ == s@.take(n as int),
{
    let r = sub_chars(s, 0, n);
    assert(r@ =~= s@.take(n as int));
    r
}

/// `s` with every leading copy of `pat` removed, with `pat` given as text.
pub fn trim_start_matches_str(s: &[char], pat: &str) -> (r: Vec<char>)
    ensures
        r@ == trim_start_matches(s@, pat@),
{
    let p = chars_of(pat);
    trim_start_matches_chars(s, &p)
}

/// `s` with every trailing copy of `pat` removed, with `pat` given as text.
pub fn trim_end_matches_str(s: &[char], pat: &str) -> (r: Vec<char>)
    ensures
        r@ == trim_end_matches(s@, pat@),
{
    let p = chars_of(pat);
    trim_end_matches_chars(s, &p)
}

/// `s` with every occurrence of `pat` removed, with `pat` given as text.
pub fn remove_all_str(s: &[char], pat: &str) -> (r: Vec<char>)
    ensures
        r@ == remove_all(s@, pat@),
{
    let p = chars_of(pat);
    remove_all_chars(s, &p)
}

/// `s` when it is not empty.
pub open spec fn nonempty(s: Seq<char>) -> Option<Seq<char>> {
    if s.len() > 0 {
        Some(s)
    } else {
        None
    }
}

/// The string of `v` when `v` is not empty.
pub fn nonempty_string(v: &[char]) -> (r: Option<String>)
    ensures
        r.deep_view() == nonempty(v@),
{
    if v.len() > 0 {
        Some(string_of(v))
    } else {
        None
    }
}

} // verus!
