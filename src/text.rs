//! Decimal text of cell values and scores.
use vstd::prelude::*;

verus! {

/// The decimal digit character of `d` (for `d < 10`).
pub open spec fn digit_char(d: nat) -> char {
    (('0' as nat) + d) as char
}

/// Decimal representation of `n`, most significant digit first, no leading zeros.
pub open spec fn decimal(n: nat) -> Seq<char>
    decreases n,
{
    if n < 10 {
        seq![digit_char(n)]
    } else {
        decimal(n / 10).push(digit_char(n % 10))
    }
}

/// Relies on `u64::to_string` (through `ToString` for `Display`), which writes
/// the number in decimal without sign or padding.
#[verifier::external_body]
pub fn u64_text(n: u64) -> (r: String)
    ensures
        r@ == decimal(n as nat),
{
    n.to_string()
}

} // verus!
