//! The audit log.

use vstd::prelude::*;

use crate::http::routes::paging;

verus! {

/// The rows of the log that a request asks for: how many, and from where on.
pub fn list(limit: Option<u32>, offset: Option<u32>) -> (r: (u32, u32))
    ensures
        r.0 == paging::bounded(limit, 100, 1000),
        r.1 == match offset {
            Some(n) => n,
            None => 0u32,
        },
{
    (paging::limit(limit, 100, 1000), paging::offset(offset))
}

} // verus!
