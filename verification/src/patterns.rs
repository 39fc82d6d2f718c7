//! Regular expressions. What a pattern finds in a text is left to the `regex`
//! crate and has a name here; everything that the crate's searches and
//! replacements return is said in terms of that name.

use regex::Regex;
use vstd::prelude::*;
use vstd::string::*;
use vstd::utf8::*;

verus! {

/// Why a pattern does not compile, in the words of the `regex` crate; nothing
/// for a pattern that compiles.
pub uninterp spec fn pattern_error(pattern: Seq<char>) -> Option<Seq<char>>;

/// The successive, non-overlapping matches of a pattern in a text, each as the
/// byte offsets of its start and of its end. A pattern that does not compile
/// has none.
pub uninterp spec fn matches_of(pattern: Seq<char>, text: Seq<char>) -> Seq<(usize, usize)>;

/// Whether a pattern matches somewhere in a text.
pub open spec fn matches_somewhere(pattern: Seq<char>, text: Seq<char>) -> bool {
    matches_of(pattern, text).len() > 0
}

/// `m` is a range of bytes of `text` that begins and ends between characters.
pub open spec fn is_span(m: (usize, usize), text: Seq<char>) -> bool {
    &&& m.0 <= m.1 <= encode_utf8(text).len()
    &&& is_char_boundary(encode_utf8(text), m.0 as int)
    &&& is_char_boundary(encode_utf8(text), m.1 as int)
}

/// The bytes of `b` from `from` on that lie in none of the ranges `ms`.
pub open spec fn outside_of(b: Seq<u8>, ms: Seq<(usize, usize)>, from: int) -> Seq<u8>
    decreases ms.len(),
{
    if ms.len() == 0 {
        b.skip(from)
    } else {
        b.subrange(from, ms[0].0 as int) + outside_of(b, ms.drop_first(), ms[0].1 as int)
    }
}

/// `text` without the parts that the pattern matches.
pub open spec fn without_matches(pattern: Seq<char>, text: Seq<char>) -> Seq<char> {
    decode_utf8(outside_of(encode_utf8(text), matches_of(pattern, text), 0))
}

/// `r` is what is left of `text` when some of its characters are taken away: nothing
/// is added, and what is left keeps its order.
pub open spec fn is_left_of(r: Seq<char>, text: Seq<char>) -> bool
    decreases text.len(),
{
    if r.len() == 0 {
        true
    } else if text.len() == 0 {
        false
    } else {
        ||| r.last() == text.last() && is_left_of(r.drop_last(), text.drop_last())
        ||| is_left_of(r, text.drop_last())
    }
}

/// The pattern begins with a character that stands for itself and has to be there: behind
/// the flags comes an angle bracket or an at sign, then a small letter, and nowhere is
/// there an alternative.
pub open spec fn begins_with_literal(pattern: Seq<char>) -> bool {
    &&& pattern.len() > 6
    &&& pattern.take(5) == "(?is)"@
    &&& pattern[5] == '<' || pattern[5] == '@'
    &&& 'a' <= pattern[6] <= 'z'
    &&& !pattern.contains('|')
}

/// `Regex::new` and `Regex::is_match`: a pattern that does not compile gives the
/// message of the crate's error; one that does tells whether it matches
/// anywhere in the text.
#[verifier::external_body]
pub(crate) fn try_match(pattern: &str, text: &str) -> (r: Result<bool, String>)
    ensures
        match r {
            Ok(b) => pattern_error(pattern@) is None && b == matches_somewhere(pattern@, text@),
            Err(e) => pattern_error(pattern@) == Some(e@) && !matches_somewhere(pattern@, text@),
        },
{
    match Regex::new(pattern) {
        Ok(re) => Ok(re.is_match(text)),
        Err(e) => Err(e.to_string()),
    }
}

/// `Regex::find`: the first of the pattern's matches. Its offsets fall between
/// characters of the text.
#[verifier::external_body]
pub(crate) fn find(pattern: &str, text: &str) -> (r: Option<(usize, usize)>)
    ensures
        r is Some == matches_somewhere(pattern@, text@),
        r matches Some(m) ==> m == matches_of(pattern@, text@)[0] && is_span(m, text@),
{
    let re = Regex::new(pattern).ok()?;
    re.find(text).map(|m| (m.start(), m.end()))
}

/// `Regex::find_iter`: the matches of the pattern, in order. Their offsets fall
/// between characters of the text.
#[verifier::external_body]
pub(crate) fn find_all(pattern: &str, text: &str) -> (r: Vec<(usize, usize)>)
    ensures
        r@ == matches_of(pattern@, text@),
        forall|i: int| 0 <= i < r@.len() ==> is_span(#[trigger] r@[i], text@),
{
    match Regex::new(pattern) {
        Ok(re) => re.find_iter(text).map(|m| (m.start(), m.end())).collect(),
        Err(_) => Vec::new(),
    }
}

/// `Regex::replace_all` with the empty replacement: the text with the matches of
/// the pattern taken out. What stands between the matches is copied in its order,
/// and nothing is added. A match of a pattern that begins with a character which has
/// to be there is not empty, so that taking one out shortens the text.
#[verifier::external_body]
pub(crate) fn remove_all(pattern: &str, text: &str) -> (r: String)
    ensures
        r@ == without_matches(pattern@, text@),
        is_left_of(r@, text@),
        begins_with_literal(pattern@) && matches_somewhere(pattern@, text@) ==> r@.len()
            < text@.len(),
{
    match Regex::new(pattern) {
        Ok(re) => re.replace_all(text, "").into_owned(),
        Err(_) => text.to_owned(),
    }
}

/// A text in which the pattern matches nowhere is left as it is.
pub proof fn lemma_nothing_to_remove(pattern: Seq<char>, text: Seq<char>)
    requires
        !matches_somewhere(pattern, text),
    ensures
        without_matches(pattern, text) == text,
{
    assert(outside_of(encode_utf8(text), matches_of(pattern, text), 0) =~= encode_utf8(text));
    encode_utf8_decode_utf8(text);
}

/// Whether the pattern matches somewhere in the text.
pub fn is_match(pattern: &str, text: &str) -> (r: bool)
    ensures
        r == matches_somewhere(pattern@, text@),
{
    match try_match(pattern, text) {
        Ok(b) => b,
        Err(_) => false,
    }
}

} // verus!
