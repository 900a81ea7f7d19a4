//! Decimal rendering of indices in error reports.
use vstd::prelude::*;

verus! {

pub const DIGITS: &'static str = "0123456789";

/// The decimal digits of `n`, most significant first.
pub open spec fn decimal_spec(n: nat) -> Seq<char>
    decreases n,
{
    if n < 10 {
        DIGITS@.subrange(n as int, n + 1int)
    } else {
        decimal_spec(n / 10) + DIGITS@.subrange((n % 10) as int, (n % 10) + 1int)
    }
}

pub fn decimal(n: usize) -> (r: String)
    ensures
        r@ == decimal_spec(n as nat),
    decreases n,
{
    proof {
        reveal_strlit("0123456789");
    }
    if n < 10 {
        String::from_str(DIGITS.substring_char(n, n + 1))
    } else {
        let head = decimal(n / 10);
        head.concat(DIGITS.substring_char(n % 10, n % 10 + 1))
    }
}

} // verus!
