//! Which rows are listed, and in which order.

use vstd::prelude::*;
use vstd::set_lib::*;

verus! {

/// Where a row belongs in a list: by its group, and within the group by its place.
/// The smaller comes first.
#[derive(Debug, Clone, Copy)]
pub struct Rank {
    pub group: u8,
    pub place: i64,
}

/// The place of a time in a list that begins with the latest.
pub open spec fn latest_first(at: i64) -> i64 {
    (-1 - at) as i64
}

/// The place of a time in a list that begins with the latest.
pub fn place_latest_first(at: i64) -> (r: i64)
    ensures
        r == latest_first(at),
        r == -1 - at,
{
    if at >= 0 {
        -at - 1
    } else {
        -(at + 1)
    }
}

/// The row `i` comes before the row `j`. Of rows with the same rank, the one that was
/// given first does.
pub open spec fn before(ranks: Seq<Rank>, i: int, j: int) -> bool {
    if ranks[i].group != ranks[j].group {
        ranks[i].group < ranks[j].group
    } else if ranks[i].place != ranks[j].place {
        ranks[i].place < ranks[j].place
    } else {
        i < j
    }
}

/// `order` names some of the first `n` rows, one before the other.
pub open spec fn in_order(order: Seq<usize>, ranks: Seq<Rank>, n: int) -> bool {
    &&& forall|k: int| 0 <= k < order.len() ==> #[trigger] order[k] < n
    &&& forall|k: int, l: int|
        0 <= k < l < order.len() ==> before(
            ranks,
            #[trigger] order[k] as int,
            #[trigger] order[l] as int,
        )
}

/// `order` names every row, one before the other.
pub open spec fn is_order(order: Seq<usize>, ranks: Seq<Rank>) -> bool {
    order.len() == ranks.len() && in_order(order, ranks, ranks.len() as int)
}

/// The items at some indices.
pub open spec fn picked<A>(items: Seq<A>, at: Seq<usize>) -> Seq<A> {
    at.map_values(|i: usize| items[i as int])
}

/// `r` is a part of the ordered list of `items`: what stands in it from `lo` up to
/// `hi`.
pub open spec fn is_part<A>(r: Seq<A>, items: Seq<A>, ranks: Seq<Rank>, lo: int, hi: int) -> bool {
    exists|order: Seq<usize>| #[trigger]
        is_order(order, ranks) && r == picked(items, order.subrange(lo, hi))
}

/// The order of the rows.
fn rank(ranks: &Vec<Rank>) -> (r: Vec<usize>)
    ensures
        is_order(r@, ranks@),
{
    let mut order: Vec<usize> = Vec::new();
    let mut i: usize = 0;
    while i < ranks.len()
        invariant
            i <= ranks@.len(),
            order@.len() == i,
            in_order(order@, ranks@, i as int),
        decreases ranks@.len() - i,
    {
        let new: Rank = ranks[i];
        let mut p: usize = order.len();
        while p > 0 && (new.group < ranks[order[p - 1]].group || (new.group == ranks[order[p
            - 1]].group && new.place < ranks[order[p - 1]].place))
            invariant
                p <= order@.len(),
                i < ranks@.len(),
                order@.len() == i,
                new == ranks@[i as int],
                in_order(order@, ranks@, i as int),
                forall|k: int|
                    p <= k < order@.len() ==> before(ranks@, i as int, #[trigger] order@[k] as int),
            decreases p,
        {
            p = p - 1;
        }
        let ghost old_order = order@;
        order.insert(p, i);
        proof {
            assert(order@ =~= old_order.insert(p as int, i));
            assert forall|k: int| 0 <= k < p implies before(
                ranks@,
                #[trigger] old_order[k] as int,
                i as int,
            ) by {
                if k < p - 1 {
                    assert(before(ranks@, old_order[k] as int, old_order[p - 1] as int));
                }
            }
            assert forall|k: int, l: int| 0 <= k < l < order@.len() implies before(
                ranks@,
                #[trigger] order@[k] as int,
                #[trigger] order@[l] as int,
            ) by {
                let a = if k < p {
                    k
                } else {
                    k - 1
                };
                let b = if l < p {
                    l
                } else {
                    l - 1
                };
                if k != p && l != p {
                    assert(before(ranks@, old_order[a] as int, old_order[b] as int));
                }
            }
        }
        i = i + 1;
    }
    order
}

/// Takes the items at some indices out of a vector.
fn pick<T>(items: Vec<T>, at: &Vec<usize>, lo: usize, hi: usize) -> (r: Vec<T>)
    requires
        lo <= hi <= at@.len(),
        forall|k: int| 0 <= k < at@.len() ==> #[trigger] at@[k] < items@.len(),
        forall|k: int, l: int|
            0 <= k < l < at@.len() ==> #[trigger] at@[k] != #[trigger] at@[l],
    ensures
        r@ == picked(items@, at@.subrange(lo as int, hi as int)),
{
    let ghost all = items@;
    let mut slots: Vec<Option<T>> = Vec::new();
    let mut rest: Vec<T> = items;
    // The last item is the first to leave.
    let mut turned: Vec<T> = Vec::new();
    while rest.len() > 0
        invariant
            rest@.len() + turned@.len() == all.len(),
            forall|k: int| 0 <= k < rest@.len() ==> #[trigger] rest@[k] == all[k],
            forall|k: int|
                0 <= k < turned@.len() ==> #[trigger] turned@[k] == all[all.len() - 1 - k],
        decreases rest@.len(),
    {
        if let Some(x) = rest.pop() {
            turned.push(x);
        }
    }
    while turned.len() > 0
        invariant
            slots@.len() + turned@.len() == all.len(),
            forall|k: int|
                0 <= k < turned@.len() ==> #[trigger] turned@[k] == all[all.len() - 1 - k],
            forall|k: int| 0 <= k < slots@.len() ==> #[trigger] slots@[k] == Some(all[k]),
        decreases turned@.len(),
    {
        if let Some(x) = turned.pop() {
            slots.push(Some(x));
        }
    }
    let mut out: Vec<T> = Vec::new();
    let mut k: usize = lo;
    while k < hi
        invariant
            lo <= k <= hi <= at@.len(),
            slots@.len() == all.len(),
            forall|j: int| 0 <= j < at@.len() ==> #[trigger] at@[j] < all.len(),
            forall|j: int, l: int|
                0 <= j < l < at@.len() ==> #[trigger] at@[j] != #[trigger] at@[l],
            forall|j: int|
                k <= j < at@.len() ==> slots@[#[trigger] at@[j] as int] == Some(
                    all[at@[j] as int],
                ),
            out@ == picked(all, at@.subrange(lo as int, k as int)),
        decreases hi - k,
    {
        let i: usize = at[k];
        let ghost before_taking = slots@;
        let taken: Option<T> = slots[i].take();
        assert(slots@ =~= before_taking.update(i as int, None));
        if let Some(x) = taken {
            out.push(x);
        }
        assert forall|j: int| k < j < at@.len() implies slots@[#[trigger] at@[j] as int] == Some(
            all[at@[j] as int],
        ) by {
            assert(at@[k as int] != at@[j]);
        }
        k = k + 1;
        assert(out@ =~= picked(all, at@.subrange(lo as int, k as int)));
    }
    out
}

/// A part of the ordered list of some items: what stands in it from `lo` up to `hi`.
pub fn part<T>(items: Vec<T>, ranks: &Vec<Rank>, lo: usize, hi: usize) -> (r: Vec<T>)
    requires
        ranks@.len() == items@.len(),
        lo <= hi <= items@.len(),
    ensures
        is_part(r@, items@, ranks@, lo as int, hi as int),
{
    let order: Vec<usize> = rank(ranks);
    proof {
        assert forall|k: int, l: int| 0 <= k < l < order@.len() implies #[trigger] order@[k]
            != #[trigger] order@[l] by {
            assert(before(ranks@, order@[k] as int, order@[l] as int));
        }
    }
    pick(items, &order, lo, hi)
}

/// Where a page of a list of `n` rows begins.
pub open spec fn page_start(offset: u32, n: nat) -> int {
    if offset <= n {
        offset as int
    } else {
        n as int
    }
}

/// Where a page of a list of `n` rows ends.
pub open spec fn page_end(limit: u32, offset: u32, n: nat) -> int {
    if offset + limit <= n {
        offset + limit
    } else {
        n as int
    }
}

/// A page of the ordered list of some items.
pub open spec fn is_page<A>(
    r: Seq<A>,
    items: Seq<A>,
    ranks: Seq<Rank>,
    limit: u32,
    offset: u32,
) -> bool {
    is_part(
        r,
        items,
        ranks,
        page_start(offset, items.len()),
        page_end(limit, offset, items.len()),
    )
}

/// A page of the ordered list of some items: at most `limit` of them, behind the
/// first `offset`.
pub fn page<T>(items: Vec<T>, ranks: &Vec<Rank>, limit: u32, offset: u32) -> (r: Vec<T>)
    requires
        ranks@.len() == items@.len(),
    ensures
        is_page(r@, items@, ranks@, limit, offset),
{
    let n: usize = items.len();
    let lo: usize = if offset as usize <= n {
        offset as usize
    } else {
        n
    };
    let hi: usize = if limit as usize <= n - lo {
        lo + limit as usize
    } else {
        n
    };
    part(items, ranks, lo, hi)
}

/// The items that are marked.
pub open spec fn selected<A>(items: Seq<A>, keep: Seq<bool>) -> Seq<A>
    recommends
        items.len() == keep.len(),
    decreases items.len(),
{
    if items.len() == 0 {
        Seq::empty()
    } else {
        let before_last = selected(items.drop_last(), keep.drop_last());
        if keep.last() {
            before_last.push(items.last())
        } else {
            before_last
        }
    }
}

/// The items that are marked, in their order.
pub fn select<T>(items: Vec<T>, keep: &Vec<bool>) -> (r: Vec<T>)
    requires
        keep@.len() == items@.len(),
    ensures
        r@ == selected(items@, keep@),
{
    let mut at: Vec<usize> = Vec::new();
    let mut i: usize = 0;
    while i < keep.len()
        invariant
            i <= keep@.len(),
            keep@.len() == items@.len(),
            forall|k: int| 0 <= k < at@.len() ==> #[trigger] at@[k] < i,
            forall|k: int, l: int|
                0 <= k < l < at@.len() ==> #[trigger] at@[k] < #[trigger] at@[l],
            picked(items@, at@) == selected(items@.take(i as int), keep@.take(i as int)),
        decreases keep@.len() - i,
    {
        let ghost found = at@;
        if keep[i] {
            at.push(i);
            assert(picked(items@, at@) =~= picked(items@, found).push(items@[i as int]));
        }
        proof {
            assert(items@.take(i + 1).drop_last() =~= items@.take(i as int));
            assert(keep@.take(i + 1).drop_last() =~= keep@.take(i as int));
        }
        i = i + 1;
    }
    proof {
        assert(items@.take(i as int) =~= items@);
        assert(keep@.take(i as int) =~= keep@);
        assert(at@.subrange(0, at@.len() as int) =~= at@);
    }
    let n: usize = at.len();
    pick(items, &at, 0, n)
}

/// The marked items are those with a property, where exactly those are marked.
pub proof fn lemma_selected_by<A>(items: Seq<A>, keep: Seq<bool>, p: spec_fn(A) -> bool)
    requires
        items.len() == keep.len(),
        forall|i: int| 0 <= i < items.len() ==> #[trigger] keep[i] == p(items[i]),
    ensures
        selected(items, keep) == items.filter(p),
    decreases items.len(),
{
    reveal(Seq::filter);
    if items.len() > 0 {
        lemma_selected_by(items.drop_last(), keep.drop_last(), p);
        assert(keep.last() == p(items.last()));
    } else {
        assert(items.filter(p) =~= Seq::empty());
    }
}

/// The items with a property are among the items.
pub proof fn lemma_filtered<A>(items: Seq<A>, p: spec_fn(A) -> bool, i: int)
    requires
        0 <= i < items.filter(p).len(),
    ensures
        items.contains(items.filter(p)[i]),
        p(items.filter(p)[i]),
    decreases items.len(),
{
    reveal(Seq::filter);
    let last = items.len() - 1;
    if i < items.drop_last().filter(p).len() {
        lemma_filtered(items.drop_last(), p, i);
        let x = items.drop_last().filter(p)[i];
        let k = items.drop_last().index_of(x);
        assert(items[k] == x);
    } else {
        assert(items[last] == items.filter(p)[i]);
    }
}

/// Every row stands exactly once in the ordered list.
pub proof fn law_every_row_is_listed_once(order: Seq<usize>, ranks: Seq<Rank>, i: int)
    requires
        is_order(order, ranks),
        0 <= i < ranks.len(),
    ensures
        exists|k: int| 0 <= k < order.len() && #[trigger] order[k] == i,
        forall|k: int, l: int|
            0 <= k < order.len() && 0 <= l < order.len() && #[trigger] order[k] == #[trigger] order[l]
                ==> k == l,
{
    assert forall|k: int, l: int|
        0 <= k < order.len() && 0 <= l < order.len() && #[trigger] order[k]
            == #[trigger] order[l] implies k == l by {
        if k < l {
            assert(before(ranks, order[k] as int, order[l] as int));
        } else if l < k {
            assert(before(ranks, order[l] as int, order[k] as int));
        }
    }
    let at = order.map_values(|x: usize| x as int);
    let all = set_int_range(0, ranks.len() as int);
    lemma_int_range(0, ranks.len() as int);
    assert forall|k: int, l: int| 0 <= k < at.len() && 0 <= l < at.len() && k != l implies at[k]
        != at[l] by {
        assert(order[k] != order[l]);
    }
    at.unique_seq_to_set();
    assert(at.to_set().subset_of(all)) by {
        assert forall|x: int| at.to_set().contains(x) implies all.contains(x) by {
            let k = choose|k: int| 0 <= k < at.len() && at[k] == x;
            assert(order[k] < ranks.len());
        }
    }
    lemma_subset_equality(at.to_set(), all);
    assert(at.to_set().contains(i));
    let k = choose|k: int| 0 <= k < at.len() && at[k] == i;
    assert(order[k] == i);
}

/// There is only one order of the rows.
pub proof fn law_order_is_unique(a: Seq<usize>, b: Seq<usize>, ranks: Seq<Rank>)
    requires
        is_order(a, ranks),
        is_order(b, ranks),
    ensures
        a == b,
{
    lemma_same_beginning(a, b, ranks, a.len());
    assert(a =~= b);
}

proof fn lemma_same_beginning(a: Seq<usize>, b: Seq<usize>, ranks: Seq<Rank>, n: nat)
    requires
        is_order(a, ranks),
        is_order(b, ranks),
        n <= a.len(),
    ensures
        forall|k: int| 0 <= k < n ==> a[k] == b[k],
    decreases n,
{
    if n > 0 {
        let k = n - 1;
        lemma_same_beginning(a, b, ranks, k as nat);
        law_every_row_is_listed_once(b, ranks, a[k] as int);
        law_every_row_is_listed_once(a, ranks, b[k] as int);
        let m = choose|m: int| 0 <= m < b.len() && #[trigger] b[m] == a[k];
        let l = choose|l: int| 0 <= l < a.len() && #[trigger] a[l] == b[k];
        if m < k {
            assert(a[m] == b[m]);
        } else if m > k {
            assert(before(ranks, b[k] as int, b[m] as int));
            if l < k {
                assert(a[l] == b[l]);
            } else if l > k {
                assert(before(ranks, a[k] as int, a[l] as int));
            }
        }
    }
}

/// A part of an ordered list has as many items as it has places, and each is one of
/// the given items.
pub proof fn lemma_place_in_part<A>(
    r: Seq<A>,
    items: Seq<A>,
    ranks: Seq<Rank>,
    lo: int,
    hi: int,
    k: int,
) -> (i: int)
    requires
        is_part(r, items, ranks, lo, hi),
        items.len() == ranks.len(),
        0 <= lo <= hi <= items.len(),
    ensures
        r.len() == hi - lo,
        0 <= k < r.len() ==> 0 <= i < items.len() && r[k] == items[i],
{
    let order = choose|order: Seq<usize>| #[trigger]
        is_order(order, ranks) && r == picked(items, order.subrange(lo, hi));
    order[lo + k] as int
}

/// Of two items in a part of an ordered list, the first comes before the second.
pub proof fn lemma_places_in_part<A>(
    r: Seq<A>,
    items: Seq<A>,
    ranks: Seq<Rank>,
    lo: int,
    hi: int,
    k: int,
    l: int,
) -> (at: (int, int))
    requires
        is_part(r, items, ranks, lo, hi),
        items.len() == ranks.len(),
        0 <= lo <= hi <= items.len(),
        0 <= k < l < hi - lo,
    ensures
        0 <= at.0 < items.len(),
        0 <= at.1 < items.len(),
        r.len() == hi - lo,
        r[k] == items[at.0],
        r[l] == items[at.1],
        before(ranks, at.0, at.1),
{
    let order = choose|order: Seq<usize>| #[trigger]
        is_order(order, ranks) && r == picked(items, order.subrange(lo, hi));
    (order[lo + k] as int, order[lo + l] as int)
}

/// A page holds as many rows as are asked for, as far as there are any behind the offset.
pub proof fn law_page_length<A>(
    r: Seq<A>,
    items: Seq<A>,
    ranks: Seq<Rank>,
    limit: u32,
    offset: u32,
)
    requires
        is_page(r, items, ranks, limit, offset),
        items.len() == ranks.len(),
    ensures
        r.len() == if offset >= items.len() {
            0
        } else if items.len() - offset <= limit {
            items.len() - offset
        } else {
            limit as int
        },
{
    let i = lemma_place_in_part(
        r,
        items,
        ranks,
        page_start(offset, items.len()),
        page_end(limit, offset, items.len()),
        0,
    );
}

/// Pages continue each other: a page and the one behind it are the page of both.
pub proof fn law_pages_continue<A>(
    a: Seq<A>,
    b: Seq<A>,
    both: Seq<A>,
    items: Seq<A>,
    ranks: Seq<Rank>,
    offset: u32,
    first: u32,
    second: u32,
)
    requires
        items.len() == ranks.len(),
        offset + first + second <= u32::MAX,
        is_page(a, items, ranks, first, offset),
        is_page(b, items, ranks, second, (offset + first) as u32),
        is_page(both, items, ranks, (first + second) as u32, offset),
    ensures
        both == a + b,
{
    let n = items.len();
    let mid = (offset + first) as u32;
    let sum = (first + second) as u32;
    let x = choose|o: Seq<usize>| #[trigger]
        is_order(o, ranks) && a == picked(
            items,
            o.subrange(page_start(offset, n), page_end(first, offset, n)),
        );
    let y = choose|o: Seq<usize>| #[trigger]
        is_order(o, ranks) && b == picked(
            items,
            o.subrange(page_start(mid, n), page_end(second, mid, n)),
        );
    let z = choose|o: Seq<usize>| #[trigger]
        is_order(o, ranks) && both == picked(
            items,
            o.subrange(page_start(offset, n), page_end(sum, offset, n)),
        );
    law_order_is_unique(x, y, ranks);
    law_order_is_unique(x, z, ranks);
    assert(both =~= a + b);
}

/// A page that is long enough holds every row.
pub proof fn law_long_page_holds_every_row<A>(
    r: Seq<A>,
    items: Seq<A>,
    ranks: Seq<Rank>,
    limit: u32,
    i: int,
)
    requires
        is_page(r, items, ranks, limit, 0),
        items.len() == ranks.len(),
        items.len() <= limit,
        0 <= i < items.len(),
    ensures
        r.len() == items.len(),
        r.contains(items[i]),
{
    let n = items.len();
    let o = choose|o: Seq<usize>| #[trigger]
        is_order(o, ranks) && r == picked(
            items,
            o.subrange(page_start(0, n), page_end(limit, 0, n)),
        );
    law_every_row_is_listed_once(o, ranks, i);
    let k = choose|k: int| 0 <= k < o.len() && #[trigger] o[k] == i;
    assert(r[k] == items[i]);
}

/// What comes before what: the lower group, in a group the lower place, and of rows with
/// the same rank the one that was given first. Of two rows one comes before the other.
pub proof fn law_what_comes_first(ranks: Seq<Rank>, i: int, j: int)
    requires
        i != j,
    ensures
        ranks[i].group < ranks[j].group ==> before(ranks, i, j),
        ranks[i].group == ranks[j].group && ranks[i].place < ranks[j].place ==> before(ranks, i, j),
        ranks[i] == ranks[j] && i < j ==> before(ranks, i, j),
        before(ranks, i, j) != before(ranks, j, i),
{
}

/// A later time has a lower place in a list that begins with the latest.
pub proof fn law_latest_first(a: i64, b: i64)
    ensures
        latest_first(a) < latest_first(b) <==> a > b,
{
}

/// A list without a limit holds every row, as many times as it is given.
pub proof fn law_whole_list_holds_every_row<A>(r: Seq<A>, items: Seq<A>, ranks: Seq<Rank>, i: int)
    requires
        is_part(r, items, ranks, 0, items.len() as int),
        items.len() == ranks.len(),
        0 <= i < items.len(),
    ensures
        r.len() == items.len(),
        r.contains(items[i]),
{
    let o = choose|o: Seq<usize>| #[trigger]
        is_order(o, ranks) && r == picked(items, o.subrange(0, items.len() as int));
    law_every_row_is_listed_once(o, ranks, i);
    let k = choose|k: int| 0 <= k < o.len() && #[trigger] o[k] == i;
    assert(r[k] == items[i]);
}

} // verus!
