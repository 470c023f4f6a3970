//! Query strings: percent-encoding and `key=value` lists joined by '&'.
use vstd::prelude::*;
use vstd::utf8::encode_utf8;
use crate::num::{bool_chars, bool_text, decimal_i64, decimal, hex_digit, hex_digit_exec, signed_decimal};
use crate::text::{append_chars, append_str, chars_of, push_char, string_of};

verus! {

broadcast use vstd::string::group_string_axioms;

/// The characters a query value keeps as they are: ASCII letters and
/// digits and `-`, `_`, `.`, `~`.
pub open spec fn unreserved(c: char) -> bool {
    let n = c as u32;
    (97 <= n <= 122) || (65 <= n <= 90) || (48 <= n <= 57) || c == '-' || c == '_' || c == '.' || c
        == '~'
}

/// Bytes written as "%XX" each, with upper-case hexadecimal digits.
pub open spec fn percent_bytes(b: Seq<u8>) -> Seq<char>
    decreases b.len(),
{
    if b.len() == 0 {
        Seq::empty()
    } else {
        percent_bytes(b.drop_last()) + seq![
            '%',
            hex_digit((b.last() / 16) as nat),
            hex_digit((b.last() % 16) as nat),
        ]
    }
}

/// One character of a query value: itself when unreserved, else its UTF-8
/// bytes percent-encoded.
pub open spec fn encode_char(c: char) -> Seq<char> {
    if unreserved(c) {
        seq![c]
    } else {
        percent_bytes(encode_utf8(seq![c]))
    }
}

/// A query value percent-encoded, character by character.
pub open spec fn url_encoded(s: Seq<char>) -> Seq<char>
    decreases s.len(),
{
    if s.len() == 0 {
        Seq::empty()
    } else {
        url_encoded(s.drop_last()) + encode_char(s.last())
    }
}

/// Text made only of unreserved characters is sent as it is.
pub proof fn law_url_encode_keeps_plain_text(s: Seq<char>)
    requires
        forall|i: int| 0 <= i < s.len() ==> unreserved(#[trigger] s[i]),
    ensures
        url_encoded(s) == s,
    decreases s.len(),
{
    if s.len() > 0 {
        law_url_encode_keeps_plain_text(s.drop_last());
        assert(s.drop_last() + seq![s.last()] =~= s);
    }
}

/// Encoding text piece by piece is encoding it whole.
pub proof fn law_url_encode_concat(a: Seq<char>, b: Seq<char>)
    ensures
        url_encoded(a + b) == url_encoded(a) + url_encoded(b),
    decreases b.len(),
{
    if b.len() == 0 {
        assert(a + b =~= a);
    } else {
        law_url_encode_concat(a, b.drop_last());
        assert((a + b).drop_last() =~= a + b.drop_last());
        assert((a + b).last() == b.last());
    }
}

/// `parts` joined with `sep` between each two.
pub open spec fn join(parts: Seq<Seq<char>>, sep: Seq<char>) -> Seq<char>
    decreases parts.len(),
{
    if parts.len() == 0 {
        Seq::empty()
    } else if parts.len() == 1 {
        parts[0]
    } else {
        join(parts.drop_last(), sep) + sep + parts.last()
    }
}

/// Text in which `pat` occurs at some place contains it.
pub proof fn lemma_contains_at(s: Seq<char>, pat: Seq<char>, j: int)
    requires
        crate::text::occurs_at(s, pat, j),
    ensures
        crate::text::contains(s, pat),
{
    crate::text::lemma_find_from(s, pat, 0);
}

/// Each part occurs in the parts joined; the place where it does.
pub proof fn lemma_join_holds(parts: Seq<Seq<char>>, sep: Seq<char>, k: int) -> (j: int)
    requires
        0 <= k < parts.len(),
    ensures
        crate::text::occurs_at(join(parts, sep), parts[k], j),
    decreases parts.len(),
{
    if parts.len() == 1 {
        assert(join(parts, sep).subrange(0, parts[k].len() as int) =~= parts[k]);
        0
    } else if k == parts.len() - 1 {
        let head = join(parts.drop_last(), sep) + sep;
        let j = head.len() as int;
        assert(join(parts, sep).subrange(j, j + parts[k].len()) =~= parts[k]);
        j
    } else {
        let j = lemma_join_holds(parts.drop_last(), sep, k);
        let head = join(parts.drop_last(), sep);
        assert(parts.drop_last()[k] == parts[k]);
        assert(join(parts, sep).subrange(j, j + parts[k].len()) =~= head.subrange(j, j + parts[k].len()));
        j
    }
}

/// Each part appears in the query string.
pub proof fn lemma_query_holds(parts: Seq<Seq<char>>, k: int)
    requires
        0 <= k < parts.len(),
    ensures
        crate::text::contains(query_of(parts), parts[k]),
{
    let j = lemma_join_holds(parts, seq!['&'], k);
    let q = query_of(parts);
    assert(q.subrange(j + 1, j + 1 + parts[k].len()) =~= join(parts, seq!['&']).subrange(j, j + parts[k].len()));
    lemma_contains_at(q, parts[k], j + 1);
}

/// The values of a list of parts.
pub open spec fn parts_view(p: Seq<Vec<char>>) -> Seq<Seq<char>> {
    p.map_values(|v: Vec<char>| v@)
}

/// A query string: empty when there are no parts, else "?" and the parts joined by "&".
pub open spec fn query_of(parts: Seq<Seq<char>>) -> Seq<char> {
    if parts.len() == 0 {
        Seq::empty()
    } else {
        seq!['?'] + join(parts, seq!['&'])
    }
}

/// The UTF-8 bytes of `c`.
fn utf8_of(c: char) -> (r: Vec<u8>)
    ensures
        r@ == encode_utf8(seq![c]),
{
    let mut s = String::new();
    push_char(&mut s, c);
    let b = s.as_str().as_bytes();
    let mut r: Vec<u8> = Vec::new();
    let mut i: usize = 0;
    while i < b.len()
        invariant
            i <= b.len(),
            r@ == b@.take(i as int),
        decreases b.len() - i,
    {
        r.push(b[i]);
        assert(b@.take(i + 1) =~= b@.take(i as int).push(b@[i as int]));
        i = i + 1;
    }
    assert(b@.take(b.len() as int) =~= b@);
    r
}

fn is_unreserved(c: char) -> (r: bool)
    ensures
        r == unreserved(c),
{
    let n = c as u32;
    (97 <= n && n <= 122) || (65 <= n && n <= 90) || (48 <= n && n <= 57) || c == '-' || c == '_'
        || c == '.' || c == '~'
}

/// Percent-encodes a query value: ASCII letters, digits and `-_.~` stay,
/// every other character becomes the "%XX" codes of its UTF-8 bytes.
pub fn url_encode(s: &str) -> (r: String)
    ensures
        r@ == url_encoded(s@),
{
    let cs = chars_of(s);
    let v = url_encode_chars(&cs);
    string_of(&v)
}

/// Percent-encodes a query value given as characters.
pub fn url_encode_chars(cs: &[char]) -> (r: Vec<char>)
    ensures
        r@ == url_encoded(cs@),
{
    let mut out: Vec<char> = Vec::new();
    let mut i: usize = 0;
    while i < cs.len()
        invariant
            i <= cs.len(),
            out@ == url_encoded(cs@.take(i as int)),
        decreases cs.len() - i,
    {
        let c = cs[i];
        let ghost before = out@;
        if is_unreserved(c) {
            out.push(c);
        } else {
            let bytes = utf8_of(c);
            let mut k: usize = 0;
            while k < bytes.len()
                invariant
                    k <= bytes.len(),
                    out@ == before + percent_bytes(bytes@.take(k as int)),
                decreases bytes.len() - k,
            {
                let b = bytes[k];
                out.push('%');
                out.push(hex_digit_exec(b / 16));
                out.push(hex_digit_exec(b % 16));
                assert(bytes@.take(k + 1).drop_last() =~= bytes@.take(k as int));
                k = k + 1;
            }
            assert(bytes@.take(bytes.len() as int) =~= bytes@);
        }
        assert(cs@.take(i + 1).drop_last() =~= cs@.take(i as int));
        i = i + 1;
    }
    assert(cs@.take(cs.len() as int) =~= cs@);
    out
}

/// Adds the part `key` followed by `value`.
pub fn push_part(parts: &mut Vec<Vec<char>>, key: &str, value: &[char])
    ensures
        parts_view(final(parts)@) == parts_view(old(parts)@).push(key@ + value@),
{
    let mut p = chars_of(key);
    append_chars(&mut p, value);
    parts.push(p);
    assert(parts_view(parts@) =~= parts_view(old(parts)@).push(key@ + value@));
}

/// `parts` joined with "&".
pub fn join_parts(parts: &Vec<Vec<char>>) -> (r: Vec<char>)
    ensures
        r@ == join(parts_view(parts@), seq!['&']),
{
    let mut out: Vec<char> = Vec::new();
    let mut i: usize = 0;
    while i < parts.len()
        invariant
            i <= parts.len(),
            out@ == join(parts_view(parts@).take(i as int), seq!['&']),
        decreases parts.len() - i,
    {
        let ghost pv = parts_view(parts@);
        if i > 0 {
            out.push('&');
        }
        append_chars(&mut out, &parts[i]);
        assert(pv.take(i + 1).drop_last() =~= pv.take(i as int));
        assert(out@ =~= join(pv.take(i + 1), seq!['&']));
        i = i + 1;
    }
    assert(parts_view(parts@).take(parts.len() as int) =~= parts_view(parts@));
    out
}

/// A query string from its parts: empty when there are none, else "?" and
/// the parts joined by "&".
pub fn query_string(parts: &Vec<Vec<char>>) -> (r: String)
    ensures
        r@ == query_of(parts_view(parts@)),
{
    if parts.len() == 0 {
        return String::new();
    }
    let mut out: Vec<char> = Vec::new();
    out.push('?');
    let j = join_parts(parts);
    append_chars(&mut out, &j);
    string_of(&out)
}

/// `prefix`, the decimal text of `n`, then `suffix`.
pub fn path_with_number(prefix: &str, n: i64, suffix: &str) -> (r: String)
    ensures
        r@ == prefix@ + signed_decimal(n as int) + suffix@,
{
    let mut v = chars_of(prefix);
    let d = decimal_i64(n);
    append_chars(&mut v, &d);
    append_str(&mut v, suffix);
    string_of(&v)
}

/// `prefix` followed by the decimal text of `n`.
pub fn path_ending_number(prefix: &str, n: i64) -> (r: String)
    ensures
        r@ == prefix@ + signed_decimal(n as int),
{
    let mut v = chars_of(prefix);
    let d = decimal_i64(n);
    append_chars(&mut v, &d);
    string_of(&v)
}

/// The part "key=value" for a number that is present.
pub open spec fn num_part(key: Seq<char>, v: Option<int>) -> Seq<Seq<char>> {
    match v {
        Some(x) => seq![key + signed_decimal(x)],
        None => Seq::empty(),
    }
}

/// The part "key=value" for a boolean that is present.
pub open spec fn bool_part(key: Seq<char>, v: Option<bool>) -> Seq<Seq<char>> {
    match v {
        Some(b) => seq![key + bool_text(b)],
        None => Seq::empty(),
    }
}

/// The part "key=value" for a text that is present and not empty, the
/// value percent-encoded.
pub open spec fn text_part(key: Seq<char>, v: Option<Seq<char>>) -> Seq<Seq<char>> {
    match v {
        Some(t) => if t.len() > 0 {
            seq![key + url_encoded(t)]
        } else {
            Seq::empty()
        },
        None => Seq::empty(),
    }
}

/// An optional `i64` as an optional integer.
pub open spec fn opt_i64(v: Option<i64>) -> Option<int> {
    match v {
        Some(x) => Some(x as int),
        None => None,
    }
}

/// An optional `i16` as an optional integer.
pub open spec fn opt_i16(v: Option<i16>) -> Option<int> {
    match v {
        Some(x) => Some(x as int),
        None => None,
    }
}

/// An optional `u32` as an optional integer.
pub open spec fn opt_u32(v: Option<u32>) -> Option<int> {
    match v {
        Some(x) => Some(x as int),
        None => None,
    }
}

/// Adds the part for a number that is present.
pub fn push_num(parts: &mut Vec<Vec<char>>, key: &str, v: Option<i64>)
    ensures
        parts_view(final(parts)@) == parts_view(old(parts)@) + num_part(key@, opt_i64(v)),
{
    match v {
        Some(x) => {
            let d = decimal_i64(x);
            push_part(parts, key, &d);
        },
        None => {},
    }
    assert(parts_view(parts@) =~= parts_view(old(parts)@) + num_part(key@, opt_i64(v)));
}

/// Adds the part for a boolean that is present.
pub fn push_bool(parts: &mut Vec<Vec<char>>, key: &str, v: Option<bool>)
    ensures
        parts_view(final(parts)@) == parts_view(old(parts)@) + bool_part(key@, v),
{
    match v {
        Some(b) => {
            let t = bool_chars(b);
            push_part(parts, key, &t);
        },
        None => {},
    }
    assert(parts_view(parts@) =~= parts_view(old(parts)@) + bool_part(key@, v));
}

/// Adds the part for a text that is present and not empty.
pub fn push_text(parts: &mut Vec<Vec<char>>, key: &str, v: &Option<String>)
    ensures
        parts_view(final(parts)@) == parts_view(old(parts)@) + text_part(key@, v.deep_view()),
{
    match v {
        Some(t) => {
            if !t.as_str().is_empty() {
                let cs = chars_of(t.as_str());
                let e = url_encode_chars(&cs);
                push_part(parts, key, &e);
            }
        },
        None => {},
    }
    assert(parts_view(parts@) =~= parts_view(old(parts)@) + text_part(key@, v.deep_view()));
}

/// An optional `i16` widened to `i64`.
pub fn widen_i16(v: Option<i16>) -> (r: Option<i64>)
    ensures
        opt_i64(r) == opt_i16(v),
{
    match v {
        Some(x) => Some(x as i64),
        None => None,
    }
}

/// An optional `u32` widened to `i64`.
pub fn widen_u32(v: Option<u32>) -> (r: Option<i64>)
    ensures
        opt_i64(r) == opt_u32(v),
{
    match v {
        Some(x) => Some(x as i64),
        None => None,
    }
}

} // verus!
