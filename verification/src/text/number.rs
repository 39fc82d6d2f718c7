//! Decimal numbers as text.

use vstd::prelude::*;
use vstd::string::*;

use crate::text::chars::chars_of;

verus! {

/// The decimal digit `d`.
pub open spec fn digit(d: nat) -> char {
    ((0x30 + d) as u32) as char
}

/// `n` in decimal, without leading zeros.
pub open spec fn decimal(n: nat) -> Seq<char>
    decreases n,
{
    if n < 10 {
        seq![digit(n)]
    } else {
        decimal(n / 10).push(digit(n % 10))
    }
}

/// A decimal digit.
pub open spec fn is_digit(c: char) -> bool {
    0x30 <= c as u32 <= 0x39
}

/// The number that a row of decimal digits writes.
pub open spec fn digits_value(s: Seq<char>) -> nat
    decreases s.len(),
{
    if s.len() == 0 {
        0
    } else {
        digits_value(s.drop_last()) * 10 + (s.last() as u32 - 0x30) as nat
    }
}

/// The digits of a number that may carry a plus sign.
pub open spec fn unsigned_digits(s: Seq<char>) -> Seq<char> {
    if s.len() > 0 && s[0] == '+' {
        s.drop_first()
    } else {
        s
    }
}

/// The unsigned 64-bit number that `s` writes: decimal digits, at least one,
/// with an optional plus sign in front.
pub open spec fn parsed_u64(s: Seq<char>) -> Option<u64> {
    let d = unsigned_digits(s);
    if d.len() > 0 && (forall|i: int| 0 <= i < d.len() ==> is_digit(#[trigger] d[i]))
        && digits_value(d) <= u64::MAX {
        Some(digits_value(d) as u64)
    } else {
        None
    }
}

/// The value of a row of digits does not shrink as digits are added.
proof fn lemma_digits_value_grows(s: Seq<char>, k: int)
    requires
        0 <= k <= s.len(),
        forall|i: int| 0 <= i < s.len() ==> is_digit(#[trigger] s[i]),
    ensures
        digits_value(s.take(k)) <= digits_value(s),
    decreases s.len(),
{
    if k < s.len() {
        let t = s.drop_last();
        lemma_digits_value_grows(t, k);
        assert(t.take(k) =~= s.take(k));
    } else {
        assert(s.take(k) =~= s);
    }
}

/// The unsigned 64-bit number that `s` writes, if it writes one.
pub fn parse_u64(s: &str) -> (r: Option<u64>)
    ensures
        r == parsed_u64(s@),
{
    let v: Vec<char> = chars_of(s);
    let lo: usize = if v.len() > 0 && v[0] == '+' {
        1
    } else {
        0
    };
    let ghost d = unsigned_digits(s@);
    assert(d =~= v@.skip(lo as int));
    if lo == v.len() {
        return None;
    }
    let mut n: u64 = 0;
    let mut i: usize = lo;
    while i < v.len()
        invariant
            lo <= i <= v@.len(),
            lo < v@.len(),
            d == unsigned_digits(s@),
            d == v@.skip(lo as int),
            forall|j: int| 0 <= j < i - lo ==> is_digit(#[trigger] d[j]),
            n == digits_value(d.take(i - lo)),
        decreases v@.len() - i,
    {
        let c: char = v[i];
        assert(c == d[i - lo]);
        if (c as u32) < 0x30 || c as u32 > 0x39 {
            assert(!is_digit(d[i - lo]));
            return None;
        }
        let k: u64 = (c as u32 - 0x30) as u64;
        assert(d.take(i + 1 - lo).drop_last() =~= d.take(i - lo));
        assert(digits_value(d.take(i + 1 - lo)) == n * 10 + k);
        if n > (u64::MAX - k) / 10 {
            assert(n * 10 + k > u64::MAX);
            proof {
                if forall|j: int| 0 <= j < d.len() ==> is_digit(#[trigger] d[j]) {
                    lemma_digits_value_grows(d, i + 1 - lo);
                }
            }
            return None;
        }
        n = n * 10 + k;
        i = i + 1;
    }
    assert(d.take(i - lo) =~= d);
    Some(n)
}

/// `n` in decimal.
pub fn to_decimal(n: u64) -> (r: String)
    ensures
        r@ == decimal(n as nat),
    decreases n,
{
    if n < 10 {
        let mut r = String::new();
        r.push((0x30u8 + n as u8) as char);
        assert(r@ =~= decimal(n as nat));
        r
    } else {
        let mut r: String = to_decimal(n / 10);
        r.push((0x30u8 + (n % 10) as u8) as char);
        r
    }
}

/// A written number is read back as it was.
pub proof fn law_decimal_parses(n: u64)
    ensures
        parsed_u64(decimal(n as nat)) == Some(n),
{
    lemma_decimal(n as nat);
    let d = decimal(n as nat);
    assert(is_digit(d[0]));
    assert(unsigned_digits(d) == d);
}

proof fn lemma_decimal(n: nat)
    ensures
        decimal(n).len() > 0,
        forall|i: int| 0 <= i < decimal(n).len() ==> is_digit(#[trigger] decimal(n)[i]),
        digits_value(decimal(n)) == n,
    decreases n,
{
    if n < 10 {
        assert(decimal(n).drop_last() =~= Seq::empty());
        assert(digits_value(Seq::<char>::empty()) == 0);
    } else {
        lemma_decimal(n / 10);
        let d = decimal(n);
        assert(d.drop_last() =~= decimal(n / 10));
        assert forall|i: int| 0 <= i < d.len() implies is_digit(#[trigger] d[i]) by {
            if i < d.len() - 1 {
                assert(d[i] == decimal(n / 10)[i]);
            }
        }
    }
}

/// A text is read as a number only where it is made of digits, at least one, behind an
/// optional plus sign; leading zeros do not matter, and every digit counts ten times what
/// it would count one place to the right.
pub proof fn law_digits_are_read(s: Seq<char>, d: char)
    ensures
        parsed_u64(s) matches Some(n) ==> {
            let t = if s.len() > 0 && s[0] == '+' {
                s.skip(1)
            } else {
                s
            };
            t.len() > 0 && forall|i: int| 0 <= i < t.len() ==> '0' <= #[trigger] t[i] <= '9'
        },
        parsed_u64(s) matches Some(n) ==> ('0' <= d <= '9' && n * 10 + (d as u32 - 0x30)
            <= u64::MAX ==> parsed_u64(s.push(d)) == Some(
            (n * 10 + (d as u32 - 0x30)) as u64,
        )),
        '0' <= d <= '9' ==> parsed_u64(seq![d]) == Some((d as u32 - 0x30) as u64),
        parsed_u64(Seq::empty()) is None,
{
    let t = unsigned_digits(s);
    if s.len() > 0 && s[0] == '+' {
        assert(s.skip(1) =~= t);
    }
    if parsed_u64(s) is Some {
        assert forall|i: int| 0 <= i < t.len() implies '0' <= #[trigger] t[i] <= '9' by {
            assert(is_digit(t[i]));
            lemma_digit_range(t[i]);
        }
        let u = unsigned_digits(s.push(d));
        assert(u =~= t.push(d));
        assert(u.drop_last() =~= t);
        if '0' <= d <= '9' {
            assert forall|i: int| 0 <= i < u.len() implies is_digit(#[trigger] u[i]) by {
                if i < t.len() {
                    assert(is_digit(t[i]));
                }
            }
        }
    }
    if '0' <= d <= '9' {
        let one = seq![d];
        assert(unsigned_digits(one) =~= one);
        assert(one.drop_last() =~= Seq::empty());
        assert(digits_value(Seq::<char>::empty()) == 0);
        assert(digits_value(one) == (d as u32 - 0x30) as nat);
    }
}

proof fn lemma_digit_range(c: char)
    ensures
        is_digit(c) == ('0' <= c <= '9'),
{
}

/// A number is written without leading zeros.
pub proof fn law_no_leading_zeros(n: nat)
    ensures
        decimal(n).len() > 0,
        n > 0 ==> decimal(n)[0] != '0',
        n == 0 ==> decimal(n) == seq!['0'],
    decreases n,
{
    if n >= 10 {
        law_no_leading_zeros(n / 10);
    }
}

} // verus!
