//! Columns as they are read: a column that is absent, is null or has another type
//! is nothing.

use vstd::prelude::*;
use vstd::string::*;

use crate::text::chars;

verus! {

/// The text of a column, empty in its absence.
pub fn text(c: Option<String>) -> (r: String)
    ensures
        r@ == chars::or_empty(chars::opt_view(c)),
{
    match c {
        Some(s) => s,
        None => {
            let s = String::new();
            assert(s@ =~= Seq::empty());
            s
        },
    }
}

/// The number of a column, or a number in its absence.
pub open spec fn number_or(c: Option<i64>, default: i64) -> i64 {
    match c {
        Some(n) => n,
        None => default,
    }
}

/// The number of a column, or `default` in its absence.
pub fn number(c: Option<i64>, default: i64) -> (r: i64)
    ensures
        r == number_or(c, default),
{
    match c {
        Some(n) => n,
        None => default,
    }
}

/// The truth value of a column.
pub fn flag(c: Option<i64>, default: i64) -> (r: bool)
    ensures
        r == (number_or(c, default) != 0),
{
    number(c, default) != 0
}

/// A truth value as a column holds it.
pub open spec fn flag_number(b: bool) -> i64 {
    if b {
        1
    } else {
        0
    }
}

/// A truth value as a column holds it.
pub fn flag_column(b: bool) -> (r: i64)
    ensures
        r == flag_number(b),
{
    if b {
        1
    } else {
        0
    }
}

/// An unsigned number as a column holds it: the upper half of the range wraps to
/// the negative numbers.
pub open spec fn wrapped(n: u64) -> int {
    if n <= i64::MAX {
        n as int
    } else {
        n - 0x1_0000_0000_0000_0000
    }
}

/// An unsigned number as a column holds it.
pub fn wrap(n: u64) -> (r: i64)
    ensures
        r == wrapped(n),
{
    if n <= i64::MAX as u64 {
        n as i64
    } else {
        -((u64::MAX - n) as i64) - 1
    }
}

/// The unsigned number that a column holds.
pub open spec fn unwrapped(n: i64) -> int {
    if n >= 0 {
        n as int
    } else {
        n + 0x1_0000_0000_0000_0000
    }
}

/// The unsigned number that a column holds.
pub fn unwrap_number(n: i64) -> (r: u64)
    ensures
        r == unwrapped(n),
{
    if n >= 0 {
        n as u64
    } else {
        u64::MAX - (-(n + 1)) as u64
    }
}

/// The port that a column holds: the lowest sixteen bits.
pub open spec fn low_bits(n: i64) -> int {
    n as int % 65536
}

/// The port that a column holds.
pub fn port_number(n: i64) -> (r: u16)
    ensures
        r == low_bits(n),
{
    let u: u64 = unwrap_number(n);
    let r: u64 = u % 65536;
    assert(unwrapped(n) % 65536 == low_bits(n)) by {
        if n < 0 {
            assert((n + 0x1_0000_0000_0000_0000) % 65536 == n as int % 65536);
        }
    }
    r as u16
}

/// A port survives being stored.
pub proof fn law_ports_survive(p: u16)
    ensures
        low_bits(p as i64) == p,
{
}

/// An unsigned number survives being stored.
pub proof fn law_numbers_survive(n: u64, m: i64)
    requires
        m == wrapped(n),
    ensures
        unwrapped(m) == n,
{
}

/// How numbers and truth values are stored and read: numbers up to the largest signed one
/// as they are, larger ones on the negative side; a truth value as one or zero; a port out
/// of the lowest sixteen bits; a default in the absence of a column.
pub proof fn law_columns(n: u64, b: bool, m: i64, default: i64)
    ensures
        n <= i64::MAX ==> wrapped(n) == n,
        n > i64::MAX ==> wrapped(n) == n - u64::MAX - 1,
        flag_number(b) == 1 <==> b,
        flag_number(b) == 0 <==> !b,
        m >= 0 ==> unwrapped(m) == m,
        m < 0 ==> unwrapped(m) == m + u64::MAX + 1,
        0 <= low_bits(m) < 65536,
        (m - low_bits(m)) % 65536 == 0,
        number_or(Some(m), default) == m,
        number_or(None, default) == default,
{
}

} // verus!
