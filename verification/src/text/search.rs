//! Substring search, over bytes and over characters.

use vstd::prelude::*;
use vstd::string::*;
use vstd::utf8::*;

use crate::text::chars::chars_of;

verus! {

/// `n` stands in `h` at position `i`.
pub open spec fn occurs_at<T>(h: Seq<T>, n: Seq<T>, i: int) -> bool {
    &&& 0 <= i
    &&& i + n.len() <= h.len()
    &&& h.subrange(i, i + n.len()) == n
}

/// `n` stands somewhere in `h`.
pub open spec fn contains_seq<T>(h: Seq<T>, n: Seq<T>) -> bool {
    exists|i: int| occurs_at(h, n, i)
}

/// `h` begins with `n`.
pub open spec fn starts_with<T>(h: Seq<T>, n: Seq<T>) -> bool {
    occurs_at(h, n, 0)
}

/// A text stands in another exactly where that is made of something, the text, and
/// something.
pub proof fn law_contains<T>(h: Seq<T>, n: Seq<T>)
    ensures
        contains_seq(h, n) <==> exists|a: Seq<T>, b: Seq<T>| h == #[trigger] (a + n + b),
{
    if contains_seq(h, n) {
        let i = choose|i: int| occurs_at(h, n, i);
        let a = h.take(i);
        let b = h.skip(i + n.len());
        assert(h =~= a + n + b);
    }
    if exists|a: Seq<T>, b: Seq<T>| h == #[trigger] (a + n + b) {
        let (a, b) = choose|a: Seq<T>, b: Seq<T>| h == #[trigger] (a + n + b);
        assert(h.subrange(a.len() as int, (a.len() + n.len()) as int) =~= n);
        assert(occurs_at(h, n, a.len() as int));
    }
}

/// The first position at or after `k` where `n` stands in `h`.
pub open spec fn find_from<T>(h: Seq<T>, n: Seq<T>, k: int) -> Option<int>
    decreases h.len() - k,
{
    if k < 0 || k + n.len() > h.len() {
        None
    } else if occurs_at(h, n, k) {
        Some(k)
    } else if k < h.len() {
        find_from(h, n, k + 1)
    } else {
        None
    }
}

/// The first position where `n` stands in `h`.
pub open spec fn find_seq<T>(h: Seq<T>, n: Seq<T>) -> Option<int> {
    find_from(h, n, 0)
}

/// What `find_from` finds is the least position that holds an occurrence, and
/// it finds one exactly where there is one.
pub proof fn lemma_find_from<T>(h: Seq<T>, n: Seq<T>, k: int)
    requires
        0 <= k,
    ensures
        match find_from(h, n, k) {
            Some(i) => k <= i && occurs_at(h, n, i) && forall|j: int|
                k <= j < i ==> !occurs_at(h, n, j),
            None => forall|j: int| k <= j ==> !occurs_at(h, n, j),
        },
    decreases h.len() - k,
{
    if k + n.len() > h.len() || occurs_at(h, n, k) {
    } else if k < h.len() {
        lemma_find_from(h, n, k + 1);
    }
}

/// Searching and containment agree.
pub proof fn lemma_find_contains<T>(h: Seq<T>, n: Seq<T>)
    ensures
        find_seq(h, n) is Some <==> contains_seq(h, n),
{
    lemma_find_from(h, n, 0);
}

/// Whether the bytes `n` stand in `h` at `i`.
pub fn bytes_occur_at(h: &[u8], n: &[u8], i: usize) -> (r: bool)
    ensures
        r == occurs_at(h@, n@, i as int),
{
    if h.len() < n.len() || h.len() - n.len() < i {
        return false;
    }
    let mut j: usize = 0;
    while j < n.len()
        invariant
            j <= n@.len(),
            i + n@.len() <= h@.len() <= usize::MAX,
            forall|k: int| 0 <= k < j ==> h@[i + k] == n@[k],
        decreases n@.len() - j,
    {
        if h[i + j] != n[j] {
            assert(h@.subrange(i as int, i + n@.len())[j as int] == h@[i + j]);
            return false;
        }
        j = j + 1;
    }
    assert(h@.subrange(i as int, i + n@.len()) =~= n@);
    true
}

/// The first position at or after `from` where the bytes `n` stand in `h`.
pub fn find_bytes(h: &[u8], n: &[u8], from: usize) -> (r: Option<usize>)
    requires
        from <= h@.len(),
    ensures
        match r {
            Some(i) => find_from(h@, n@, from as int) == Some(i as int),
            None => find_from(h@, n@, from as int) is None,
        },
{
    let mut i: usize = from;
    while i < h.len()
        invariant
            from <= i <= h@.len(),
            find_from(h@, n@, from as int) == find_from(h@, n@, i as int),
        decreases h@.len() - i,
    {
        if bytes_occur_at(h, n, i) {
            return Some(i);
        }
        i = i + 1;
    }
    if bytes_occur_at(h, n, i) {
        Some(i)
    } else {
        None
    }
}

/// Whether the bytes `n` stand somewhere in `h`.
pub fn bytes_contain(h: &[u8], n: &[u8]) -> (r: bool)
    ensures
        r == contains_seq(h@, n@),
{
    proof {
        lemma_find_contains(h@, n@);
    }
    match find_bytes(h, n, 0) {
        Some(_) => true,
        None => false,
    }
}

/// Whether the characters `n` stand in `h` at `i`.
pub fn chars_occur_at(h: &[char], n: &[char], i: usize) -> (r: bool)
    ensures
        r == occurs_at(h@, n@, i as int),
{
    if h.len() < n.len() || h.len() - n.len() < i {
        return false;
    }
    let mut j: usize = 0;
    while j < n.len()
        invariant
            j <= n@.len(),
            i + n@.len() <= h@.len() <= usize::MAX,
            forall|k: int| 0 <= k < j ==> h@[i + k] == n@[k],
        decreases n@.len() - j,
    {
        if h[i + j] != n[j] {
            assert(h@.subrange(i as int, i + n@.len())[j as int] == h@[i + j]);
            return false;
        }
        j = j + 1;
    }
    assert(h@.subrange(i as int, i + n@.len()) =~= n@);
    true
}

/// Whether the text `n` stands somewhere in the text `h`.
pub fn text_contains(h: &str, n: &str) -> (r: bool)
    ensures
        r == contains_seq(h@, n@),
{
    let hv: Vec<char> = chars_of(h);
    let nv: Vec<char> = chars_of(n);
    let mut i: usize = 0;
    while i < hv.len()
        invariant
            i <= hv@.len(),
            hv@ == h@,
            nv@ == n@,
            forall|j: int| 0 <= j < i ==> !occurs_at(h@, n@, j),
        decreases hv@.len() - i,
    {
        if chars_occur_at(hv.as_slice(), nv.as_slice(), i) {
            return true;
        }
        i = i + 1;
    }
    let r: bool = chars_occur_at(hv.as_slice(), nv.as_slice(), i);
    assert(r == contains_seq(h@, n@)) by {
        assert forall|j: int| occurs_at(h@, n@, j) implies j == i by {};
    }
    r
}

/// Whether the text `s` begins with `p`.
pub fn text_starts_with(s: &str, p: &str) -> (r: bool)
    ensures
        r == starts_with(s@, p@),
{
    let sv: Vec<char> = chars_of(s);
    let pv: Vec<char> = chars_of(p);
    chars_occur_at(sv.as_slice(), pv.as_slice(), 0)
}

} // verus!
