//! Solutions and the matchers that compare a submitted answer against
//! them.
//!
//! The alphanumeric matcher normalizes both sides with Unicode NFKD,
//! keeps alphanumeric characters, uppercases them, and compares the
//! results. The number matcher normalizes with NFKC, keeps
//! alphanumeric characters and `-`, and compares as a signed 32-bit
//! integer.

use vstd::prelude::*;

use crate::chars::{alnum, chars_to_string, is_alphanumeric_char, uppercase, uppercase_char};
use crate::digits::{spec_i64_digits, u64_digits};
use unicode_normalization::UnicodeNormalization;

verus! {

/// The NFKD normalization of a non-ASCII-only character sequence.
pub uninterp spec fn nfkd_of(s: Seq<char>) -> Seq<char>;

/// The NFKC normalization of a character sequence.
pub uninterp spec fn nfkc_of(s: Seq<char>) -> Seq<char>;

/// Relies on unicode_normalization's nfkd: the Unicode NFKD
/// decomposition of the characters, which depends on them alone; the
/// empty sequence stays empty.
#[verifier::external_body]
fn nfkd_chars(s: &str) -> (r: Vec<char>)
    ensures
        r@ == nfkd_of(s@),
        s@.len() == 0 ==> r@.len() == 0,
{
    s.nfkd().collect()
}

/// Relies on unicode_normalization's nfkc: the Unicode NFKC
/// normalization of the characters, which depends on them alone; the
/// empty sequence stays empty.
#[verifier::external_body]
fn nfkc_chars(s: &str) -> (r: Vec<char>)
    ensures
        r@ == nfkc_of(s@),
        s@.len() == 0 ==> r@.len() == 0,
{
    s.nfkc().collect()
}

/// Keep the alphanumeric characters of `cs`, uppercased.
pub open spec fn norm_chars(cs: Seq<char>) -> Seq<char>
    decreases cs.len(),
{
    if cs.len() == 0 {
        Seq::empty()
    } else {
        if alnum(cs.first()) {
            uppercase(cs.first()) + norm_chars(cs.drop_first())
        } else {
            norm_chars(cs.drop_first())
        }
    }
}

/// The normal form an answer is compared in: NFKD, alphanumerics
/// kept, uppercased.
pub open spec fn spec_normalize(s: Seq<char>) -> Seq<char> {
    norm_chars(nfkd_of(s))
}

/// Keep the characters the number matcher reads: alphanumerics and
/// `-`.
pub open spec fn num_filter(cs: Seq<char>) -> Seq<char>
    decreases cs.len(),
{
    if cs.len() == 0 {
        Seq::empty()
    } else {
        if alnum(cs.first()) || cs.first() == '-' {
            seq![cs.first()] + num_filter(cs.drop_first())
        } else {
            num_filter(cs.drop_first())
        }
    }
}

/// Whether every character is an ASCII decimal digit.
pub open spec fn all_ascii_digits(cs: Seq<char>) -> bool {
    forall|i: int| 0 <= i < cs.len() ==> '0' <= #[trigger] cs[i] && cs[i] <= '9'
}

/// The value of a sequence of ASCII decimal digits.
pub open spec fn digits_val(cs: Seq<char>) -> int
    decreases cs.len(),
{
    if cs.len() == 0 {
        0
    } else {
        digits_val(cs.drop_last()) * 10 + (cs.last() as int - 48)
    }
}

/// How a signed 32-bit integer reads out of a character sequence: an
/// optional sign, then one or more ASCII digits, within range.
pub open spec fn spec_parse_i32(cs: Seq<char>) -> Option<i32> {
    let negative = cs.len() > 0 && cs.first() == '-';
    let ds = if cs.len() > 0 && (cs.first() == '-' || cs.first() == '+') {
        cs.drop_first()
    } else {
        cs
    };
    if ds.len() == 0 || !all_ascii_digits(ds) {
        None
    } else {
        let v = digits_val(ds);
        if negative {
            if -v >= i32::MIN {
                Some((-v) as i32)
            } else {
                None
            }
        } else {
            if v <= i32::MAX {
                Some(v as i32)
            } else {
                None
            }
        }
    }
}

/// Whether the number matcher accepts `a` as the number `b`.
pub open spec fn spec_numeric_equal(a: Seq<char>, b: i32) -> bool {
    match spec_parse_i32(num_filter(nfkc_of(a))) {
        Some(v) => v == b,
        None => false,
    }
}

/// A configured solution.
#[derive(Debug, Clone)]
pub enum Solution {
    Alphanumeric { solution: String },
    Number { solution: i32 },
}

/// Whether the answer `ans` matches the solution `s`.
pub open spec fn spec_check(s: Solution, ans: Seq<char>) -> bool {
    match s {
        Solution::Alphanumeric { solution } => spec_normalize(ans) == spec_normalize(solution@),
        Solution::Number { solution } => spec_numeric_equal(ans, solution),
    }
}

/// The canonical text of a solution: the configured string, or the
/// decimal form of the number.
pub open spec fn spec_canonical(s: Solution) -> Seq<char> {
    match s {
        Solution::Alphanumeric { solution } => solution@,
        Solution::Number { solution } => spec_i64_digits(solution as int),
    }
}

/// The normal form of `s`: NFKD, alphanumerics kept, uppercased.
#[verifier::loop_isolation(false)]
pub fn normalize(s: &str) -> (r: Vec<char>)
    ensures
        r@ == spec_normalize(s@),
{
    let cs = nfkd_chars(s);
    let ghost full = cs@;
    let mut out: Vec<char> = Vec::new();
    let mut i: usize = 0;
    proof {
        assert(full.skip(0) =~= full);
        assert(out@ + norm_chars(full) =~= norm_chars(full));
    }
    while i < cs.len()
        invariant
            full == cs@,
            i <= cs@.len(),
            norm_chars(full) == out@ + norm_chars(full.skip(i as int)),
        decreases cs@.len() - i,
    {
        let c = cs[i];
        proof {
            assert(full.skip(i as int).first() == full[i as int]);
            assert(full.skip(i as int).drop_first() =~= full.skip(i as int + 1));
        }
        if is_alphanumeric_char(c) {
            let ups = uppercase_char(c);
            let mut k: usize = 0;
            let ghost out0 = out@;
            while k < ups.len()
                invariant
                    k <= ups@.len(),
                    out@ == out0 + ups@.take(k as int),
                decreases ups@.len() - k,
            {
                out.push(ups[k]);
                k = k + 1;
                proof {
                    assert(out@ =~= out0 + ups@.take(k as int));
                }
            }
            proof {
                assert(ups@.take(ups@.len() as int) =~= ups@);
                assert(out@ =~= out0 + uppercase(full[i as int]));
                assert(out@ + norm_chars(full.skip(i as int + 1)) =~= out0 + (uppercase(
                    full[i as int],
                ) + norm_chars(full.skip(i as int + 1))));
            }
        }
        i = i + 1;
    }
    proof {
        assert(full.skip(full.len() as int) =~= Seq::<char>::empty());
        assert(out@ + norm_chars(Seq::<char>::empty()) =~= out@);
    }
    out
}

/// Whether two strings are equal after normalization.
#[verifier::loop_isolation(false)]
pub fn fuzzy_equal(a: &str, b: &str) -> (r: bool)
    ensures
        r == (spec_normalize(a@) == spec_normalize(b@)),
{
    let na = normalize(a);
    let nb = normalize(b);
    if na.len() != nb.len() {
        proof {
            assert(spec_normalize(a@) != spec_normalize(b@));
        }
        return false;
    }
    let mut i: usize = 0;
    while i < na.len()
        invariant
            na@ == spec_normalize(a@),
            nb@ == spec_normalize(b@),
            na@.len() == nb@.len(),
            i <= na@.len(),
            forall|k: int| 0 <= k < i ==> na@[k] == nb@[k],
        decreases na@.len() - i,
    {
        if na[i] != nb[i] {
            return false;
        }
        i = i + 1;
    }
    proof {
        assert(na@ =~= nb@);
    }
    true
}

/// The value of the digits read so far never shrinks as digits are
/// appended, and is never negative.
proof fn lemma_digits_val_monotone(ds: Seq<char>, i: int)
    requires
        all_ascii_digits(ds),
        0 <= i <= ds.len(),
    ensures
        digits_val(ds.take(i)) >= 0,
        digits_val(ds) >= digits_val(ds.take(i)),
    decreases ds.len() - i, ds.len(),
{
    if i == ds.len() {
        assert(ds.take(i) =~= ds);
        lemma_digits_val_nonneg(ds);
    } else {
        lemma_digits_val_monotone(ds, i + 1);
        lemma_digits_val_nonneg(ds.take(i));
        assert(ds.take(i + 1).drop_last() =~= ds.take(i));
        assert(digits_val(ds.take(i + 1)) == digits_val(ds.take(i)) * 10 + (ds[i] as int - 48));
    }
}

/// The value of a digit sequence is never negative.
proof fn lemma_digits_val_nonneg(ds: Seq<char>)
    requires
        all_ascii_digits(ds),
    ensures
        digits_val(ds) >= 0,
    decreases ds.len(),
{
    if ds.len() > 0 {
        assert(all_ascii_digits(ds.drop_last()));
        lemma_digits_val_nonneg(ds.drop_last());
    }
}

/// Read a signed 32-bit integer out of the characters, as
/// `i32::from_str` would.
#[verifier::loop_isolation(false)]
pub fn parse_i32_chars(cs: &Vec<char>) -> (r: Option<i32>)
    ensures
        r == spec_parse_i32(cs@),
{
    let ghost full = cs@;
    let mut start: usize = 0;
    let mut negative = false;
    if cs.len() > 0 && (cs[0] == '-' || cs[0] == '+') {
        negative = cs[0] == '-';
        start = 1;
    }
    let ghost ds = if full.len() > 0 && (full.first() == '-' || full.first() == '+') {
        full.drop_first()
    } else {
        full
    };
    proof {
        assert(ds =~= full.skip(start as int));
    }
    if cs.len() == start {
        return None;
    }
    let mut acc: u64 = 0;
    let mut i: usize = start;
    while i < cs.len()
        invariant
            full == cs@,
            ds == full.skip(start as int),
            start <= i <= full.len(),
            start < full.len(),
            acc <= 0x8000_0000,
            all_ascii_digits(ds.take(i - start)),
            acc == digits_val(ds.take(i - start)),
        decreases full.len() - i,
    {
        let c = cs[i];
        if !('0' <= c && c <= '9') {
            proof {
                assert(ds[i - start] == full[i as int]);
                assert(!all_ascii_digits(ds));
            }
            return None;
        }
        let d: u64 = c as u64 - 48;
        proof {
            assert(ds.take(i - start + 1).drop_last() =~= ds.take(i - start));
            assert(ds.take(i - start + 1).last() == full[i as int]);
        }
        if acc * 10 + d > 0x8000_0000 {
            proof {
                let k = i - start + 1;
                assert(all_ascii_digits(ds.take(k)));
                assert(digits_val(ds.take(k)) == acc * 10 + d);
                if all_ascii_digits(ds) {
                    lemma_digits_val_monotone_from(ds, k);
                    assert(digits_val(ds) >= digits_val(ds.take(k)));
                }
            }
            return None;
        }
        acc = acc * 10 + d;
        i = i + 1;
    }
    proof {
        assert(ds.take(full.len() - start) =~= ds);
    }
    if negative {
        Some((-(acc as i64)) as i32)
    } else {
        if acc > 0x7fff_ffff {
            return None;
        }
        Some(acc as i32)
    }
}

/// From a prefix of digits the whole digit sequence's value only
/// grows.
proof fn lemma_digits_val_monotone_from(ds: Seq<char>, i: int)
    requires
        all_ascii_digits(ds),
        0 <= i <= ds.len(),
    ensures
        digits_val(ds) >= digits_val(ds.take(i)),
{
    lemma_digits_val_monotone(ds, i);
}

/// Whether the number matcher accepts `a` as the number `b`.
#[verifier::loop_isolation(false)]
pub fn numberic_equal(a: &str, b: i32) -> (r: bool)
    ensures
        r == spec_numeric_equal(a@, b),
{
    let cs = nfkc_chars(a);
    let ghost full = cs@;
    let mut kept: Vec<char> = Vec::new();
    let mut i: usize = 0;
    proof {
        assert(full.skip(0) =~= full);
        assert(kept@ + num_filter(full) =~= num_filter(full));
    }
    while i < cs.len()
        invariant
            full == cs@,
            i <= full.len(),
            num_filter(full) == kept@ + num_filter(full.skip(i as int)),
        decreases full.len() - i,
    {
        let c = cs[i];
        proof {
            assert(full.skip(i as int).first() == full[i as int]);
            assert(full.skip(i as int).drop_first() =~= full.skip(i as int + 1));
        }
        if is_alphanumeric_char(c) || c == '-' {
            let ghost kept0 = kept@;
            kept.push(c);
            proof {
                assert(kept@ =~= kept0 + seq![full[i as int]]);
                assert(kept@ + num_filter(full.skip(i as int + 1)) =~= kept0 + (seq![
                    full[i as int],
                ] + num_filter(full.skip(i as int + 1))));
            }
        }
        i = i + 1;
    }
    proof {
        assert(full.skip(full.len() as int) =~= Seq::<char>::empty());
        assert(kept@ + num_filter(Seq::<char>::empty()) =~= kept@);
    }
    match parse_i32_chars(&kept) {
        Some(v) => v == b,
        None => false,
    }
}

impl Solution {
    /// Whether the answer `ans` matches this solution.
    pub fn check(&self, ans: &str) -> (r: bool)
        ensures
            r == spec_check(*self, ans@),
    {
        match self {
            Solution::Alphanumeric { solution } => fuzzy_equal(ans, solution.as_str()),
            Solution::Number { solution } => numberic_equal(ans, *solution),
        }
    }

    /// The canonical text of this solution.
    #[verifier::loop_isolation(false)]
    pub fn canonical(&self) -> (r: String)
        ensures
            r@ == spec_canonical(*self),
    {
        match self {
            Solution::Alphanumeric { solution } => solution.clone(),
            Solution::Number { solution } => {
                let v = *solution;
                let mut out: Vec<char> = Vec::new();
                let magnitude: u64 = if v < 0 {
                    out.push('-');
                    (-(v as i64)) as u64
                } else {
                    v as u64
                };
                let ds = u64_digits(magnitude);
                let mut k: usize = 0;
                let ghost out0 = out@;
                while k < ds.len()
                    invariant
                        k <= ds@.len(),
                        out@ == out0 + ds@.take(k as int),
                    decreases ds@.len() - k,
                {
                    out.push(ds[k]);
                    k = k + 1;
                    proof {
                        assert(out@ =~= out0 + ds@.take(k as int));
                    }
                }
                proof {
                    assert(ds@.take(ds@.len() as int) =~= ds@);
                    assert(out@ =~= spec_i64_digits(v as int));
                }
                chars_to_string(&out)
            },
        }
    }
}

} // verus!
