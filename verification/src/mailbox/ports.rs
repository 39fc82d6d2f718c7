//! Ports for mailboxes. A configured range is searched upwards, past the ports
//! that the store or this process has claimed; each candidate is tried out by
//! binding it, so that a port is known before its listener starts.

use std::collections::HashSet;

use vstd::prelude::*;

use crate::error::Error;

verus! {

broadcast use vstd::std_specs::hash::group_hash_axioms;

/// Hands out the ports of a range.
#[derive(Debug)]
pub struct PortAllocator {
    pub range_lo: u16,
    pub range_hi: u16,
    /// The ports that were handed out and may not be in the store yet.
    pub reserved: HashSet<u16>,
}

/// `p` is the least port from `lo` to `hi` that `free` holds of.
pub open spec fn is_least(p: u16, lo: int, hi: int, free: spec_fn(u16) -> bool) -> bool {
    &&& lo <= p <= hi
    &&& free(p)
    &&& forall|q: u16| lo <= q < p ==> !#[trigger] free(q)
}

/// No port from `lo` to `hi` is free.
pub open spec fn none_free(lo: int, hi: int, free: spec_fn(u16) -> bool) -> bool {
    forall|q: u16| lo <= q <= hi ==> !#[trigger] free(q)
}

/// The ports that are not in a set.
pub open spec fn outside(taken: Set<u16>) -> spec_fn(u16) -> bool {
    |q: u16| !taken.contains(q)
}

/// Where the search goes on: at the start of the range, or behind the port that
/// could not be bound.
pub open spec fn search_from(start: u16, refused: Option<u16>) -> int {
    match refused {
        Some(p) => p + 1,
        None => start as int,
    }
}

/// The least of the ports from `from` to `hi` that is in neither set.
fn next_port(from: u32, hi: u16, taken: &HashSet<u16>, reserved: &HashSet<u16>) -> (r: Option<u16>)
    requires
        from <= 65536,
    ensures
        match r {
            Some(p) => is_least(p, from as int, hi as int, outside(taken@.union(reserved@))),
            None => none_free(from as int, hi as int, outside(taken@.union(reserved@))),
        },
{
    let ghost free = outside(taken@.union(reserved@));
    let mut p: u32 = from;
    while p <= hi as u32
        invariant
            from <= p <= 65536,
            free == outside(taken@.union(reserved@)),
            forall|q: u16| from <= q < p ==> !#[trigger] free(q),
        decreases 65537 - p,
    {
        let q: u16 = p as u16;
        if !taken.contains(&q) && !reserved.contains(&q) {
            assert(free(q));
            return Some(q);
        }
        p = p + 1;
    }
    None
}

impl PortAllocator {
    /// An allocator for the ports between `lo` and `hi`, both among them, in
    /// whatever order they are given.
    pub fn new(lo: u16, hi: u16) -> (r: Self)
        ensures
            r.range_lo <= r.range_hi,
            (r.range_lo == lo && r.range_hi == hi) || (r.range_lo == hi && r.range_hi == lo),
            r.reserved@ == Set::<u16>::empty(),
    {
        let (range_lo, range_hi) = if lo <= hi {
            (lo, hi)
        } else {
            (hi, lo)
        };
        PortAllocator { range_lo, range_hi, reserved: HashSet::new() }
    }

    /// The next port to try: the least of the range that neither the store nor
    /// this allocator has claimed, above the port that was tried last and could
    /// not be bound. The port that could be bound is claimed by `mark_reserved`.
    pub fn reserve(&self, db_ports: &HashSet<u16>, refused: Option<u16>) -> (r: Result<u16, Error>)
        ensures
            match r {
                Ok(p) => is_least(
                    p,
                    search_from(self.range_lo, refused),
                    self.range_hi as int,
                    outside(db_ports@.union(self.reserved@)),
                ),
                Err(e) => e is PortRangeExhausted && none_free(
                    search_from(self.range_lo, refused),
                    self.range_hi as int,
                    outside(db_ports@.union(self.reserved@)),
                ),
            },
    {
        let from: u32 = match refused {
            Some(p) => p as u32 + 1,
            None => self.range_lo as u32,
        };
        match next_port(from, self.range_hi, db_ports, &self.reserved) {
            Some(p) => Ok(p),
            None => Err(Error::PortRangeExhausted),
        }
    }

    /// Gives a port back.
    pub fn release(&mut self, port: u16)
        ensures
            final(self).reserved@ == old(self).reserved@.remove(port),
            final(self).range_lo == old(self).range_lo,
            final(self).range_hi == old(self).range_hi,
    {
        self.reserved.remove(&port);
    }

    /// Claims a port that was tried out.
    pub fn mark_reserved(&mut self, port: u16)
        ensures
            final(self).reserved@ == old(self).reserved@.insert(port),
            final(self).range_lo == old(self).range_lo,
            final(self).range_hi == old(self).range_hi,
    {
        self.reserved.insert(port);
    }
}

/// The lowest port that is suggested.
pub const FIRST_UNPRIVILEGED_PORT: u16 = 1025;

/// The least port that a search for a free port looks at.
pub open spec fn suggestion_start(start: u16) -> u16 {
    if start > FIRST_UNPRIVILEGED_PORT {
        start
    } else {
        FIRST_UNPRIVILEGED_PORT
    }
}

/// The next port to try for a suggestion: the least one from `start` up to 65535
/// that is not taken, above the port that was tried last and could not be bound.
/// Ports below 1025 are never suggested. A suggestion claims nothing.
pub fn find_free_port(start: u16, taken: &HashSet<u16>, refused: Option<u16>) -> (r: Result<
    u16,
    Error,
>)
    ensures
        match r {
            Ok(p) => is_least(
                p,
                search_from(suggestion_start(start), refused),
                65535,
                outside(taken@),
            ),
            Err(e) => e is PortRangeExhausted && none_free(
                search_from(suggestion_start(start), refused),
                65535,
                outside(taken@),
            ),
        },
{
    let from: u32 = match refused {
        Some(p) => p as u32 + 1,
        None => if start > FIRST_UNPRIVILEGED_PORT {
            start as u32
        } else {
            FIRST_UNPRIVILEGED_PORT as u32
        },
    };
    let none: HashSet<u16> = HashSet::new();
    assert(taken@.union(none@) =~= taken@);
    match next_port(from, 65535, taken, &none) {
        Some(p) => Ok(p),
        None => Err(Error::PortRangeExhausted),
    }
}

/// What a whole search gives when each candidate is tried and `can_bind` tells how
/// the trials end.
pub open spec fn search(
    from: int,
    hi: int,
    taken: Set<u16>,
    can_bind: spec_fn(u16) -> bool,
) -> Option<u16>
    decreases hi + 1 - from,
{
    if from > hi || from < 0 || hi > 65535 {
        None
    } else if !taken.contains(from as u16) && can_bind(from as u16) {
        Some(from as u16)
    } else {
        search(from + 1, hi, taken, can_bind)
    }
}

/// Trying the candidates one after the other, each above the one that was refused,
/// is the whole search: a candidate that can be bound is its result, and after one
/// that cannot be bound the search goes on above it.
pub proof fn law_search_by_candidates(
    from: int,
    hi: int,
    taken: Set<u16>,
    can_bind: spec_fn(u16) -> bool,
    p: u16,
)
    requires
        0 <= from,
        hi <= 65535,
    ensures
        is_least(p, from, hi, outside(taken)) ==> search(from, hi, taken, can_bind) == if can_bind(
            p,
        ) {
            Some(p)
        } else {
            search(p + 1, hi, taken, can_bind)
        },
        none_free(from, hi, outside(taken)) ==> search(from, hi, taken, can_bind) is None,
    decreases hi + 1 - from,
{
    if from <= hi {
        assert(outside(taken)(from as u16) == !taken.contains(from as u16));
        law_search_by_candidates(from + 1, hi, taken, can_bind, p);
        if is_least(p, from, hi, outside(taken)) && p != from {
            assert(!outside(taken)(from as u16));
            assert(is_least(p, from + 1, hi, outside(taken)));
        }
    }
}

/// The whole search finds the least port of the range that is not taken and can be
/// bound, and fails only where there is none.
pub proof fn law_search_finds_the_least(
    from: int,
    hi: int,
    taken: Set<u16>,
    can_bind: spec_fn(u16) -> bool,
)
    requires
        0 <= from,
        hi <= 65535,
    ensures
        match search(from, hi, taken, can_bind) {
            Some(p) => is_least(p, from, hi, |q: u16| !taken.contains(q) && can_bind(q)),
            None => none_free(from, hi, |q: u16| !taken.contains(q) && can_bind(q)),
        },
    decreases hi + 1 - from,
{
    if from <= hi {
        let free = |q: u16| !taken.contains(q) && can_bind(q);
        if !free(from as u16) {
            law_search_finds_the_least(from + 1, hi, taken, can_bind);
            match search(from, hi, taken, can_bind) {
                Some(p) => {
                    assert forall|q: u16| from <= q < p implies !#[trigger] free(q) by {
                        if q == from {
                            assert(q == from as u16);
                        }
                    }
                },
                None => {
                    assert forall|q: u16| from <= q <= hi implies !#[trigger] free(q) by {
                        if q == from {
                            assert(q == from as u16);
                        }
                    }
                },
            }
        }
    }
}

/// A candidate was claimed by no one; once claimed it is no candidate any more, and
/// releasing it leaves the claims as they were before.
pub proof fn law_no_port_twice(reserved: Set<u16>, db_ports: Set<u16>, p: u16, lo: int, hi: int)
    requires
        is_least(p, lo, hi, outside(db_ports.union(reserved))),
    ensures
        !reserved.contains(p),
        !db_ports.contains(p),
        forall|q: u16|
            is_least(q, lo, hi, outside(db_ports.union(reserved.insert(p)))) ==> q != p,
        reserved.insert(p).remove(p) == reserved,
{
    assert(outside(db_ports.union(reserved))(p));
    assert(!outside(db_ports.union(reserved.insert(p)))(p));
    assert(reserved.insert(p).remove(p) =~= reserved);
}

/// Suggestions start at the port that is asked for, but not below the first unprivileged
/// one, and behind a port that could not be bound.
pub proof fn law_where_the_search_starts(start: u16, p: u16)
    ensures
        start <= 1025 ==> suggestion_start(start) == 1025,
        start >= 1025 ==> suggestion_start(start) == start,
        search_from(start, None) == start,
        search_from(start, Some(p)) == p + 1,
{
}

/// The least free port: it lies in the range and no one has it, and every lower one of the
/// range is taken. Where there is none, all are.
pub proof fn law_least_free_port(p: u16, q: u16, lo: int, hi: int, taken: Set<u16>)
    ensures
        is_least(p, lo, hi, outside(taken)) ==> lo <= p <= hi && !taken.contains(p),
        is_least(p, lo, hi, outside(taken)) && lo <= q < p ==> taken.contains(q),
        none_free(lo, hi, outside(taken)) && lo <= q <= hi ==> taken.contains(q),
{
    if is_least(p, lo, hi, outside(taken)) {
        assert(outside(taken)(p));
        if lo <= q < p {
            assert(!outside(taken)(q));
        }
    }
    if none_free(lo, hi, outside(taken)) && lo <= q <= hi {
        assert(!outside(taken)(q));
    }
}

} // verus!
