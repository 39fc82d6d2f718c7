//! Waiting for an email.

use vstd::prelude::*;

use crate::matcher::EmailPredicate;

verus! {

/// What a request to wait asks with.
#[derive(Debug)]
pub struct WaitBody {
    pub predicate: EmailPredicate,
    pub timeout_seconds: Option<u32>,
}

/// For how many seconds a request waits: thirty, unless it says otherwise, and
/// between one and three hundred.
pub fn wait(body: &WaitBody) -> (r: u64)
    ensures
        r == match body.timeout_seconds {
            Some(s) => if s < 1 {
                1
            } else if s > 300 {
                300
            } else {
                s as int
            },
            None => 30,
        },
        1 <= r <= 300,
{
    let secs: u32 = match body.timeout_seconds {
        Some(s) => s,
        None => 30,
    };
    if secs < 1 {
        1
    } else if secs > 300 {
        300
    } else {
        secs as u64
    }
}

} // verus!
