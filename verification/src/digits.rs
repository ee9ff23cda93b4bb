//! Decimal rendering of integers as character sequences.

use vstd::prelude::*;

verus! {

/// The decimal digits of `n`, most significant first.
pub open spec fn spec_u64_digits(n: nat) -> Seq<char>
    decreases n,
{
    if n < 10 {
        seq![((48 + n) as u32) as char]
    } else {
        spec_u64_digits(n / 10).push(((48 + n % 10) as u32) as char)
    }
}

/// The decimal form of `v`, with a leading minus for negatives.
pub open spec fn spec_i64_digits(v: int) -> Seq<char> {
    if v < 0 {
        seq!['-'] + spec_u64_digits((-v) as nat)
    } else {
        spec_u64_digits(v as nat)
    }
}

/// The decimal digits of `n`, most significant first.
pub fn u64_digits(n: u64) -> (r: Vec<char>)
    ensures
        r@ == spec_u64_digits(n as nat),
    decreases n,
{
    if n < 10 {
        let c = (48 + n as u8) as char;
        let mut v: Vec<char> = Vec::new();
        v.push(c);
        proof {
            assert(v@ =~= spec_u64_digits(n as nat));
        }
        v
    } else {
        let mut v = u64_digits(n / 10);
        let c = (48 + (n % 10) as u8) as char;
        v.push(c);
        proof {
            assert(v@ =~= spec_u64_digits(n as nat));
        }
        v
    }
}

/// Every character that decimal rendering produces is an ASCII digit.
pub proof fn lemma_u64_digits_are_digits(n: nat)
    ensures
        forall|i: int|
            0 <= i < spec_u64_digits(n).len() ==> '0' <= #[trigger] spec_u64_digits(n)[i]
                && spec_u64_digits(n)[i] <= '9',
        spec_u64_digits(n).len() >= 1,
    decreases n,
{
    if n >= 10 {
        lemma_u64_digits_are_digits(n / 10);
    }
}

} // verus!
