//! Character classification used by the tokenizer and the answer
//! matchers.
//!
//! The classes are fixed by Unicode. For ASCII they are written out,
//! so proofs can compute with them; outside ASCII each class is a
//! named, uninterpreted function whose value comes from the standard
//! library at run time.

use vstd::prelude::*;
use vstd::string::StrSliceExecFns;

verus! {

/// Whether the non-ASCII character `c` is whitespace.
pub uninterp spec fn ext_whitespace(c: char) -> bool;

/// Whether the non-ASCII character `c` is alphabetic.
pub uninterp spec fn ext_alphabetic(c: char) -> bool;

/// Whether the non-ASCII character `c` is alphanumeric.
pub uninterp spec fn ext_alphanumeric(c: char) -> bool;

/// The uppercase mapping of the non-ASCII character `c`.
pub uninterp spec fn ext_uppercase(c: char) -> Seq<char>;

/// Whether `c` is whitespace.
pub open spec fn wsp(c: char) -> bool {
    if (c as u32) < 128 {
        c == ' ' || c == '\t' || c == '\n' || c == '\r' || (c as u32) == 0x0B || (c as u32) == 0x0C
    } else {
        ext_whitespace(c)
    }
}

/// Whether `c` is alphabetic.
pub open spec fn alpha(c: char) -> bool {
    if (c as u32) < 128 {
        ('a' <= c && c <= 'z') || ('A' <= c && c <= 'Z')
    } else {
        ext_alphabetic(c)
    }
}

/// Whether `c` is alphanumeric.
pub open spec fn alnum(c: char) -> bool {
    if (c as u32) < 128 {
        ('a' <= c && c <= 'z') || ('A' <= c && c <= 'Z') || ('0' <= c && c <= '9')
    } else {
        ext_alphanumeric(c)
    }
}

/// The uppercase mapping of `c`: one or more characters.
pub open spec fn uppercase(c: char) -> Seq<char> {
    if (c as u32) < 128 {
        if 'a' <= c && c <= 'z' {
            seq![((c as u32) - 32) as char]
        } else {
            seq![c]
        }
    } else {
        ext_uppercase(c)
    }
}

/// Relies on char::is_whitespace, per the Unicode White_Space
/// property; within ASCII that is space, tab, and the four other
/// ASCII control whitespace characters.
#[verifier::external_body]
pub fn is_whitespace_char(c: char) -> (r: bool)
    ensures
        r == wsp(c),
        (c as u32) >= 128 ==> r == ext_whitespace(c),
{
    c.is_whitespace()
}

/// Relies on char::is_alphabetic, per the Unicode Alphabetic
/// property; within ASCII that is exactly the letters.
#[verifier::external_body]
pub fn is_alphabetic_char(c: char) -> (r: bool)
    ensures
        r == alpha(c),
        (c as u32) >= 128 ==> r == ext_alphabetic(c),
{
    c.is_alphabetic()
}

/// Relies on char::is_alphanumeric, the Alphabetic property plus the
/// Unicode number categories; within ASCII, letters and digits.
#[verifier::external_body]
pub fn is_alphanumeric_char(c: char) -> (r: bool)
    ensures
        r == alnum(c),
        (c as u32) >= 128 ==> r == ext_alphanumeric(c),
{
    c.is_alphanumeric()
}

/// Relies on char::to_uppercase, the Unicode uppercase mapping; an
/// ASCII character maps to the single character that shifts a small
/// letter to the corresponding capital and keeps anything else.
#[verifier::external_body]
pub fn uppercase_char(c: char) -> (r: Vec<char>)
    ensures
        r@ == uppercase(c),
        (c as u32) >= 128 ==> r@ == ext_uppercase(c),
{
    c.to_uppercase().collect()
}

/// Relies on String::from_iter: builds the string holding exactly
/// these characters in order.
#[verifier::external_body]
pub fn chars_to_string(v: &Vec<char>) -> (r: String)
    ensures
        r@ == v@,
{
    String::from_iter(v.iter().copied())
}

/// Whether two strings hold the same characters.
pub fn str_eq(a: &str, b: &str) -> (r: bool)
    ensures
        r == (a@ == b@),
{
    let na = a.unicode_len();
    let nb = b.unicode_len();
    if na != nb {
        proof {
            assert(a@ != b@);
        }
        return false;
    }
    let mut i: usize = 0;
    while i < na
        invariant
            na == a@.len(),
            na == b@.len(),
            i <= na,
            forall|k: int| 0 <= k < i ==> a@[k] == b@[k],
        decreases na - i,
    {
        if a.get_char(i) != b.get_char(i) {
            proof {
                assert(a@[i as int] != b@[i as int]);
            }
            return false;
        }
        i = i + 1;
    }
    proof {
        assert(a@ =~= b@);
    }
    true
}

/// The characters of `s` as a vector.
pub fn str_to_chars(s: &str) -> (r: Vec<char>)
    ensures
        r@ == s@,
{
    let n = s.unicode_len();
    let mut v: Vec<char> = Vec::new();
    let mut i: usize = 0;
    while i < n
        invariant
            n == s@.len(),
            i <= n,
            v@ == s@.subrange(0, i as int),
        decreases n - i,
    {
        let c = s.get_char(i);
        v.push(c);
        i = i + 1;
        proof {
            assert(v@ =~= s@.subrange(0, i as int));
        }
    }
    proof {
        assert(v@ =~= s@);
    }
    v
}

} // verus!
