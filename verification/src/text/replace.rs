//! Replacing every occurrence of a text by another.

use vstd::prelude::*;
use vstd::string::*;

use crate::text::chars;
use crate::text::search;

verus! {

/// `s` with every occurrence of `from` replaced by `to`, the occurrences taken
/// from the left and without overlap.
pub open spec fn replaced(s: Seq<char>, from: Seq<char>, to: Seq<char>) -> Seq<char>
    recommends
        from.len() > 0,
    decreases s.len(),
{
    if s.len() == 0 || from.len() == 0 {
        s
    } else if search::starts_with(s, from) {
        to + replaced(s.skip(from.len() as int), from, to)
    } else {
        seq![s[0]] + replaced(s.drop_first(), from, to)
    }
}

/// `s` with every occurrence of `from` replaced by `to`.
pub fn replace(s: &str, from: &str, to: &str) -> (r: String)
    requires
        from@.len() > 0,
    ensures
        r@ == replaced(s@, from@, to@),
{
    let v: Vec<char> = chars::chars_of(s);
    let f: Vec<char> = chars::chars_of(from);
    let mut r = String::new();
    let mut i: usize = 0;
    assert(v@.skip(0) =~= v@);
    assert(r@ + replaced(v@, from@, to@) =~= replaced(v@, from@, to@));
    while i < v.len()
        invariant
            i <= v@.len(),
            v@ == s@,
            f@ == from@,
            from@.len() > 0,
            r@ + replaced(v@.skip(i as int), from@, to@) == replaced(s@, from@, to@),
        decreases v@.len() - i,
    {
        let ghost rest = v@.skip(i as int);
        let ghost before = r@;
        assert(search::starts_with(rest, from@) == search::occurs_at(v@, from@, i as int)) by {
            if i + from@.len() <= v@.len() {
                assert(rest.subrange(0, from@.len() as int) =~= v@.subrange(
                    i as int,
                    i + from@.len(),
                ));
            }
        }
        if search::chars_occur_at(v.as_slice(), f.as_slice(), i) {
            r.append(to);
            i = i + f.len();
            assert(rest.skip(from@.len() as int) =~= v@.skip(i as int));
            assert(before + replaced(rest, from@, to@) =~= r@ + replaced(
                v@.skip(i as int),
                from@,
                to@,
            ));
        } else {
            r.push(v[i]);
            i = i + 1;
            assert(rest.drop_first() =~= v@.skip(i as int));
            assert(before + replaced(rest, from@, to@) =~= r@ + replaced(
                v@.skip(i as int),
                from@,
                to@,
            ));
        }
    }
    assert(v@.skip(i as int).len() == 0);
    assert(r@ + replaced(v@.skip(i as int), from@, to@) =~= r@);
    r
}

/// The first occurrence is replaced, and what is left of it is kept: behind it the
/// replacing goes on.
pub proof fn law_first_occurrence_is_replaced(
    a: Seq<char>,
    b: Seq<char>,
    from: Seq<char>,
    to: Seq<char>,
)
    requires
        from.len() > 0,
        forall|i: int| 0 <= i < a.len() ==> !search::occurs_at(a + from + b, from, i),
    ensures
        replaced(a + from + b, from, to) == a + to + replaced(b, from, to),
    decreases a.len(),
{
    let s = a + from + b;
    let n = from.len() as int;
    if a.len() == 0 {
        assert(s =~= from + b);
        assert(s.subrange(0, n) =~= from);
        assert(s.skip(n) =~= b);
        assert(a + to + replaced(b, from, to) =~= to + replaced(b, from, to));
    } else {
        let rest = a.drop_first();
        let t = rest + from + b;
        assert(s.drop_first() =~= t);
        assert(!search::occurs_at(s, from, 0));
        assert forall|i: int| 0 <= i < rest.len() implies !search::occurs_at(t, from, i) by {
            assert(!search::occurs_at(s, from, i + 1));
            assert(t.subrange(i, i + n) =~= s.subrange(i + 1, i + 1 + n));
        }
        law_first_occurrence_is_replaced(rest, b, from, to);
        assert(seq![s[0]] + (rest + to + replaced(b, from, to)) =~= a + to + replaced(
            b,
            from,
            to,
        ));
    }
}

/// A text without an occurrence is left as it is.
pub proof fn law_nothing_else_is_replaced(s: Seq<char>, from: Seq<char>, to: Seq<char>)
    requires
        from.len() > 0,
        !search::contains_seq(s, from),
    ensures
        replaced(s, from, to) == s,
    decreases s.len(),
{
    let n = from.len() as int;
    if s.len() > 0 {
        assert(!search::occurs_at(s, from, 0));
        let t = s.drop_first();
        assert forall|i: int| !search::occurs_at(t, from, i) by {
            if search::occurs_at(t, from, i) {
                assert(t.subrange(i, i + n) =~= s.subrange(i + 1, i + 1 + n));
                assert(search::occurs_at(s, from, i + 1));
            }
        }
        law_nothing_else_is_replaced(t, from, to);
        assert(seq![s[0]] + t =~= s);
    }
}

/// What has to hold of `seen`, `from` and `to` so that putting `to` in the
/// place of `from` cannot make a new `seen`: `to` neither holds `seen` nor ends
/// in one of its characters, and a tail of `seen` that `to` begins with is one
/// that `from` begins with as well.
pub open spec fn makes_no_new(seen: Seq<char>, from: Seq<char>, to: Seq<char>) -> bool {
    &&& to.len() >= seen.len() > 0
    &&& !search::contains_seq(to, seen)
    &&& !seen.contains(to.last())
    &&& forall|k: int|
        #![trigger seen.skip(k)]
        1 <= k < seen.len() && search::starts_with(to, seen.skip(k)) ==> search::starts_with(
            from,
            seen.skip(k),
        )
}

/// A tail of `seen` with which the replaced text begins is one with which the
/// text began before.
proof fn lemma_tail_was_there(
    s: Seq<char>,
    seen: Seq<char>,
    from: Seq<char>,
    to: Seq<char>,
    k: int,
)
    requires
        makes_no_new(seen, from, to),
        from.len() > 0,
        1 <= k <= seen.len(),
        search::starts_with(replaced(s, from, to), seen.skip(k)),
    ensures
        search::starts_with(s, seen.skip(k)),
    decreases s.len(),
{
    let g = seen.skip(k);
    if g.len() == 0 {
        assert(s.subrange(0, 0) =~= g);
    } else if s.len() == 0 {
    } else if search::starts_with(s, from) {
        let rest = replaced(s.skip(from.len() as int), from, to);
        let r = to + rest;
        assert(to.subrange(0, g.len() as int) =~= r.subrange(0, g.len() as int));
        assert(search::starts_with(to, g));
        assert(search::starts_with(from, g));
        assert(s.subrange(0, g.len() as int) =~= g) by {
            assert forall|i: int| 0 <= i < g.len() implies s[i] == g[i] by {
                assert(s.subrange(0, from.len() as int)[i] == from[i]);
                assert(from.subrange(0, g.len() as int)[i] == g[i]);
            }
        }
    } else {
        let t = s.drop_first();
        let rest = replaced(t, from, to);
        let r = seq![s[0]] + rest;
        assert(r.subrange(0, g.len() as int)[0] == g[0]);
        let h = seen.skip(k + 1);
        assert(h =~= g.drop_first());
        assert(rest.subrange(0, h.len() as int) =~= h) by {
            assert forall|i: int| 0 <= i < h.len() implies rest[i] == h[i] by {
                assert(r.subrange(0, g.len() as int)[i + 1] == g[i + 1]);
            }
        }
        lemma_tail_was_there(t, seen, from, to, k + 1);
        assert(s.subrange(0, g.len() as int) =~= g) by {
            assert forall|i: int| 0 <= i < g.len() implies s[i] == g[i] by {
                if i > 0 {
                    assert(t.subrange(0, h.len() as int)[i - 1] == h[i - 1]);
                }
            }
        }
    }
}

/// Replacing makes no occurrence of `seen`, where the text held none before or
/// where `seen` is what was replaced.
pub proof fn lemma_replace_leaves_none(
    s: Seq<char>,
    seen: Seq<char>,
    from: Seq<char>,
    to: Seq<char>,
)
    requires
        makes_no_new(seen, from, to),
        from.len() > 0,
        seen == from || !search::contains_seq(s, seen),
    ensures
        !search::contains_seq(replaced(s, from, to), seen),
    decreases s.len(),
{
    let r = replaced(s, from, to);
    if s.len() == 0 {
        assert forall|i: int| !search::occurs_at(r, seen, i) by {}
    } else {
        let found = search::starts_with(s, from);
        let step: int = if found {
            from.len() as int
        } else {
            1
        };
        let t = s.skip(step);
        assert(found || t =~= s.drop_first());
        let head = if found {
            to
        } else {
            seq![s[0]]
        };
        let rest = replaced(t, from, to);
        assert(r == head + rest);
        if seen != from {
            assert forall|i: int| !search::occurs_at(t, seen, i) by {
                if search::occurs_at(t, seen, i) {
                    assert(s.subrange(i + step, i + step + seen.len()) =~= t.subrange(
                        i,
                        i + seen.len(),
                    ));
                    assert(search::occurs_at(s, seen, i + step));
                }
            }
        }
        lemma_replace_leaves_none(t, seen, from, to);
        assert forall|i: int| !search::occurs_at(r, seen, i) by {
            if search::occurs_at(r, seen, i) {
                let n = seen.len() as int;
                let h = head.len() as int;
                if i >= h {
                    assert(rest.subrange(i - h, i - h + n) =~= r.subrange(i, i + n));
                    assert(search::occurs_at(rest, seen, i - h));
                } else if found {
                    if i + n <= h {
                        assert(to.subrange(i, i + n) =~= r.subrange(i, i + n));
                        assert(search::occurs_at(to, seen, i));
                    } else {
                        assert(r[h - 1] == to.last());
                        assert(r.subrange(i, i + n)[h - 1 - i] == to.last());
                        assert(seen[h - 1 - i] == to.last());
                    }
                } else {
                    assert(i == 0);
                    let g = seen.skip(1);
                    assert(rest.subrange(0, g.len() as int) =~= g) by {
                        assert forall|j: int| 0 <= j < g.len() implies rest[j] == g[j] by {
                            assert(r.subrange(0, n)[j + 1] == seen[j + 1]);
                        }
                    }
                    lemma_tail_was_there(t, seen, from, to, 1);
                    assert(s.subrange(0, n) =~= seen) by {
                        assert forall|j: int| 0 <= j < n implies s[j] == seen[j] by {
                            assert(r.subrange(0, n)[0] == seen[0]);
                            if j > 0 {
                                assert(t.subrange(0, g.len() as int)[j - 1] == g[j - 1]);
                            }
                        }
                    }
                    assert(search::occurs_at(s, seen, 0));
                }
            }
        }
    }
}

} // verus!
