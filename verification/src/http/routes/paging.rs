//! How many rows a list shows.

use vstd::prelude::*;

verus! {

/// The number of rows that is asked for, or `default` in its absence, and no more
/// than `most`.
pub open spec fn bounded(asked: Option<u32>, default: u32, most: u32) -> u32 {
    let n = match asked {
        Some(n) => n,
        None => default,
    };
    if n < most {
        n
    } else {
        most
    }
}

/// The number of rows that a list shows.
pub fn limit(asked: Option<u32>, default: u32, most: u32) -> (r: u32)
    ensures
        r == bounded(asked, default, most),
        r <= most,
{
    let n: u32 = match asked {
        Some(n) => n,
        None => default,
    };
    if n < most {
        n
    } else {
        most
    }
}

/// Where a list starts.
pub fn offset(asked: Option<u32>) -> (r: u32)
    ensures
        r == match asked {
            Some(n) => n,
            None => 0u32,
        },
{
    match asked {
        Some(n) => n,
        None => 0,
    }
}

/// A list shows what is asked for, or else the usual number, but never more than the most.
pub proof fn law_bounded(n: u32, default: u32, most: u32)
    ensures
        n <= most ==> bounded(Some(n), default, most) == n,
        n > most ==> bounded(Some(n), default, most) == most,
        default <= most ==> bounded(None, default, most) == default,
        bounded(None, default, most) <= most,
{
}

} // verus!
