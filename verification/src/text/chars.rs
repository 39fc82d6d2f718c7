//! Conversions between strings, character vectors and byte slices.

use vstd::prelude::*;
use vstd::string::*;
use vstd::utf8::*;

verus! {

/// `String::push`: appends one character and changes nothing before it.
pub assume_specification[ String::push ](s: &mut String, c: char)
    ensures
        final(s)@ == old(s)@.push(c),
;

/// The characters of `s`, in order.
pub fn chars_of(s: &str) -> (v: Vec<char>)
    ensures
        v@ == s@,
{
    let mut v: Vec<char> = Vec::new();
    for c in it: s.chars()
        invariant
            v@ == s@.take(it.index() as int),
            it.seq() == s@,
    {
        v.push(c);
    }
    v
}

/// The string made of the characters `v[lo..hi]`.
pub fn string_of(v: &[char], lo: usize, hi: usize) -> (s: String)
    requires
        lo <= hi <= v@.len(),
    ensures
        s@ == v@.subrange(lo as int, hi as int),
{
    let mut s = String::new();
    let mut i: usize = lo;
    while i < hi
        invariant
            lo <= i <= hi <= v@.len(),
            s@ == v@.subrange(lo as int, i as int),
        decreases hi - i,
    {
        s.push(v[i]);
        i = i + 1;
        assert(s@ =~= v@.subrange(lo as int, i as int));
    }
    s
}

/// Whether two strings hold the same characters.
pub fn str_eq(a: &str, b: &str) -> (r: bool)
    ensures
        r == (a@ == b@),
{
    let x: &[u8] = a.as_bytes();
    let y: &[u8] = b.as_bytes();
    proof {
        encode_utf8_decode_utf8(a@);
        encode_utf8_decode_utf8(b@);
    }
    if x.len() != y.len() {
        return false;
    }
    let mut i: usize = 0;
    while i < x.len()
        invariant
            i <= x@.len(),
            x@.len() == y@.len(),
            x@ == encode_utf8(a@),
            y@ == encode_utf8(b@),
            forall|j: int| 0 <= j < i ==> x@[j] == y@[j],
        decreases x@.len() - i,
    {
        if x[i] != y[i] {
            return false;
        }
        i = i + 1;
    }
    assert(x@ =~= y@);
    true
}

/// The characters of an optional string.
pub open spec fn opt_view(s: Option<String>) -> Option<Seq<char>> {
    match s {
        Some(t) => Some(t@),
        None => None,
    }
}

/// The character sequences that a vector of strings holds.
pub open spec fn seq_views(v: Seq<String>) -> Seq<Seq<char>> {
    v.map_values(|s: String| s@)
}

/// A copy of `v`, string by string.
pub fn clone_strings(v: &Vec<String>) -> (r: Vec<String>)
    ensures
        r@ == v@,
{
    let mut r: Vec<String> = Vec::new();
    let mut i: usize = 0;
    while i < v.len()
        invariant
            i <= v@.len(),
            r@.len() == i,
            forall|j: int| 0 <= j < i ==> r@[j] == v@[j],
        decreases v@.len() - i,
    {
        r.push(v[i].clone());
        i = i + 1;
    }
    assert(r@ =~= v@);
    r
}

/// A copy of an optional string.
pub fn clone_opt(s: &Option<String>) -> (r: Option<String>)
    ensures
        r == *s,
{
    match s {
        Some(t) => Some(t.clone()),
        None => None,
    }
}

/// The text of an optional string, empty when there is none.
pub open spec fn or_empty(s: Option<Seq<char>>) -> Seq<char> {
    match s {
        Some(t) => t,
        None => Seq::empty(),
    }
}

/// The part of `s` that starts at byte `at`.
pub open spec fn text_from(s: Seq<char>, at: int) -> Seq<char> {
    decode_utf8(encode_utf8(s).skip(at))
}

/// The part of `s` between the bytes `lo` and `hi`.
pub open spec fn text_between(s: Seq<char>, lo: int, hi: int) -> Seq<char> {
    decode_utf8(encode_utf8(s).subrange(lo, hi))
}

/// Cuts `s` in two at byte `at`, which has to fall between two characters.
pub fn cut(s: &str, at: usize) -> (r: (&str, &str))
    requires
        is_char_boundary(encode_utf8(s@), at as int),
        at <= encode_utf8(s@).len(),
    ensures
        r.0@ == text_between(s@, 0, at as int),
        r.1@ == text_from(s@, at as int),
        r.0@ + r.1@ == s@,
{
    let r = s.split_at(at);
    proof {
        encode_utf8_valid_utf8(s@);
        encode_utf8_decode_utf8(s@);
        encode_utf8_decode_utf8(r.0@);
        encode_utf8_decode_utf8(r.1@);
        let b = encode_utf8(s@);
        decode_utf8_split(b, at as int);
        assert(b.skip(at as int) =~= b.subrange(at as int, b.len() as int));
    }
    r
}

/// Texts that may be absent, and lists of texts, by their characters.
pub proof fn law_views(s: String, v: Seq<String>, i: int)
    ensures
        opt_view(Some(s)) == Some(s@),
        opt_view(None) is None,
        or_empty(Some(s@)) == s@,
        or_empty(None).len() == 0,
        seq_views(v).len() == v.len(),
        0 <= i < v.len() ==> seq_views(v)[i] == v[i]@,
{
}

/// Cutting a text at a byte between two characters gives its beginning and its rest.
pub proof fn law_cuts(s: Seq<char>, at: int)
    requires
        0 <= at <= encode_utf8(s).len(),
        is_char_boundary(encode_utf8(s), at),
    ensures
        text_between(s, 0, at) + text_from(s, at) == s,
        text_from(s, at) == text_between(s, at, encode_utf8(s).len() as int),
{
    let b = encode_utf8(s);
    encode_utf8_valid_utf8(s);
    encode_utf8_decode_utf8(s);
    decode_utf8_split(b, at);
    assert(b.skip(at) =~= b.subrange(at, b.len() as int));
}

} // verus!
