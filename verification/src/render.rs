//! The canonical printer for temporal values: the inverse direction
//! of the expression grammar.
//!
//! `always` and `never` print as their keywords; a `Since` prints as
//! a date literal at offset `+0`, with a `+ <n>ms` tail for a
//! sub-second part. Printing checks itself: the civil date it is
//! about to emit is converted back to an instant, and a value that
//! does not reproduce itself exactly (one outside the printable
//! years, or with sub-millisecond detail) prints as nothing.

use vstd::prelude::*;

use crate::chars::chars_to_string;
use crate::digits::{lemma_u64_digits_are_digits, spec_u64_digits, u64_digits};
use crate::expr::SpecExpr;
use crate::instant::{days_from_civil, days_in_month, days_of_civil, instant_from_civil,
    offset_total_secs, Instant, NANOS_PER_MILLI, NANOS_PER_SECOND};
use crate::eval::pure_val;
use crate::parse::{spec_parse, spec_parse_add, spec_parse_add_loop, spec_parse_and,
    spec_parse_and_loop, spec_parse_or, spec_parse_or_loop, spec_parse_terminal, spec_expect, IR,
    PR};
use crate::token::{scan_word_end, skip_ws, spec_scan, ScanResult, SpecTok, TokenType};
use crate::value::Value;

verus! {

/// The canonical text of a keyword value.
pub open spec fn spec_render_keyword(v: Value) -> Seq<char> {
    if v is Always {
        "always"@
    } else {
        "never"@
    }
}

/// Euclidean division by a positive divisor: quotient and remainder
/// with the remainder in `[0, d)`.
fn div_floor(n: i128, d: i128) -> (r: Option<(i128, i128)>)
    requires
        0 < d <= u64::MAX,
    ensures
        r matches Some(p) ==> p.0 * d + p.1 == n && 0 <= p.1 < d,
{
    if n == i128::MIN {
        return None;
    }
    let du: u128 = d as u128;
    if n >= 0 {
        let m: u128 = n as u128;
        let q: u128 = m / du;
        let rem: u128 = m % du;
        proof {
            vstd::arithmetic::div_mod::lemma_fundamental_div_mod(m as int, du as int);
            assert(q <= q * du) by (nonlinear_arith)
                requires
                    q >= 0,
                    du >= 1,
            ;
            assert((q as int) * (d as int) + (rem as int) == n as int) by (nonlinear_arith)
                requires
                    m as int == (du as int) * (q as int) + (rem as int),
                    n as int == m as int,
                    d as int == du as int,
            ;
        }
        Some((q as i128, rem as i128))
    } else {
        let m: u128 = (-n) as u128;
        let q: u128 = m / du;
        let rem: u128 = m % du;
        proof {
            vstd::arithmetic::div_mod::lemma_fundamental_div_mod(m as int, du as int);
            assert(q <= q * du) by (nonlinear_arith)
                requires
                    q >= 0,
                    du >= 1,
            ;
        }
        if rem == 0 {
            proof {
                assert((-(q as int)) * (d as int) == n as int) by (nonlinear_arith)
                    requires
                        m as int == (du as int) * (q as int),
                        n as int == -(m as int),
                        d as int == du as int,
                ;
            }
            Some((-(q as i128), 0))
        } else {
            proof {
                assert((-(q as int) - 1) * (d as int) + ((du - rem) as int) == n as int)
                    by (nonlinear_arith)
                    requires
                        m as int == (du as int) * (q as int) + (rem as int),
                        n as int == -(m as int),
                        d as int == du as int,
                        1 <= rem as int <= du as int,
                ;
            }
            Some((-(q as i128) - 1, (du - rem) as i128))
        }
    }
}

/// The civil date that stands `days` days after 1970-01-01, in the
/// proleptic Gregorian calendar, for the printable years. The
/// candidate is checked by converting it back, so an answer is
/// exactly the date whose day number this is.
fn civil_from_days(days: i64) -> (r: Option<(u64, u64, u64)>)
    ensures
        r matches Some(c) ==> {
            &&& c.0 <= 9999 && 1 <= c.1 <= 12 && 1 <= c.2 <= days_in_month(
                c.0 as int,
                c.1 as int,
            )
            &&& days_from_civil(c.0 as int, c.1 as int, c.2 as int) == days
        },
{
    if days < -719468 || days > 2932896 {
        return None;
    }
    let z: i64 = days + 719468;
    let era: i64 = z / 146097;
    let doe: i64 = z - era * 146097;
    let yoe: i64 = (doe - doe / 1460 + doe / 36524 - doe / 146096) / 365;
    let y: i64 = yoe + era * 400;
    let doy: i64 = doe - (365 * yoe + yoe / 4 - yoe / 100);
    let mp: i64 = (5 * doy + 2) / 153;
    let d: i64 = doy - (153 * mp + 2) / 5 + 1;
    let m: i64 = if mp < 10 {
        mp + 3
    } else {
        mp - 9
    };
    let y: i64 = if m <= 2 {
        y + 1
    } else {
        y
    };
    if y < 0 || y > 9999 || m < 1 || m > 12 || d < 1 || d > 31 {
        return None;
    }
    let dim = crate::instant::days_in_month_of(y as u64, m as u64);
    if d as u64 > dim {
        return None;
    }
    if days_of_civil(y as u64, m as u64, d as u64) != days {
        return None;
    }
    Some((y as u64, m as u64, d as u64))
}

/// A run of `k` zero characters.
pub open spec fn zeros(k: int) -> Seq<char>
    decreases k,
{
    if k <= 0 {
        Seq::empty()
    } else {
        zeros(k - 1).push('0')
    }
}

/// The decimal form of `n`, left-padded with zeros to at least
/// `width` characters.
pub open spec fn padded(n: nat, width: int) -> Seq<char> {
    zeros(width - spec_u64_digits(n).len()) + spec_u64_digits(n)
}

/// Append the decimal digits of `n` onto `out`, padded with zeros to
/// at least `width` digits.
#[verifier::loop_isolation(false)]
fn push_padded(out: &mut Vec<char>, n: u64, width: usize)
    ensures
        final(out)@ == old(out)@ + padded(n as nat, width as int),
{
    let ghost out0 = out@;
    let ds = u64_digits(n);
    proof {
        lemma_u64_digits_are_digits(n as nat);
    }
    let mut pad = ds.len();
    proof {
        assert(out@ =~= out0 + zeros(0));
    }
    while pad < width
        invariant
            ds@ == spec_u64_digits(n as nat),
            pad >= ds@.len(),
            pad <= width || pad == ds@.len(),
            out@ == out0 + zeros(pad - ds@.len()),
        decreases width - pad,
    {
        out.push('0');
        pad = pad + 1;
        proof {
            assert(out@ =~= out0 + zeros(pad - ds@.len()));
        }
    }
    let ghost zcount = pad - ds@.len();
    let mut k: usize = 0;
    proof {
        assert(out@ + ds@.take(0) =~= out@);
    }
    while k < ds.len()
        invariant
            ds@ == spec_u64_digits(n as nat),
            k <= ds@.len(),
            out@ == out0 + zeros(zcount) + ds@.take(k as int),
        decreases ds@.len() - k,
    {
        out.push(ds[k]);
        k = k + 1;
        proof {
            assert(out@ =~= out0 + zeros(zcount) + ds@.take(k as int));
        }
    }
    proof {
        assert(ds@.take(ds@.len() as int) =~= ds@);
        assert(zcount == if width - spec_u64_digits(n as nat).len() >= 0 {
            width - spec_u64_digits(n as nat).len()
        } else {
            0int
        });
        if width < spec_u64_digits(n as nat).len() {
            assert(zeros(width - spec_u64_digits(n as nat).len()) =~= zeros(0));
        }
        assert(out@ =~= out0 + padded(n as nat, width as int));
    }
}

/// The canonical date-literal text of a timestamp's components: the
/// zero-padded date and time of day at offset `+0`, with a
/// millisecond tail when one is needed.
pub open spec fn spec_render_since(
    y: nat,
    mo: nat,
    d: nat,
    h: nat,
    mi: nat,
    s2: nat,
    ms: nat,
) -> Seq<char> {
    padded(y, 4) + seq!['-'] + padded(mo, 2) + seq!['-'] + padded(d, 2) + seq![' '] + padded(h, 2)
        + seq![':'] + padded(mi, 2) + seq![':'] + padded(s2, 2) + seq![' ', '+', '0'] + (if ms
        > 0 {
        seq![' ', '+', ' '] + spec_u64_digits(ms) + seq!['m', 's']
    } else {
        Seq::empty()
    })
}

impl Value {
    /// The canonical text of this value, when it has one: the
    /// keywords for `Always` and `Never`, a `+0` date literal (with
    /// a millisecond tail when needed) for a `Since` within the
    /// printable years and of millisecond resolution.
    pub fn render(&self) -> (r: Option<String>)
        ensures
            *self is Always ==> (r matches Some(s) && s@ == spec_render_keyword(*self)),
            *self is Never ==> (r matches Some(s) && s@ == spec_render_keyword(*self)),
            *self matches Value::Since(t) ==> (r matches Some(out) ==> exists|
                y: int,
                mo: int,
                d: int,
                h: int,
                mi: int,
                s2: int,
                ms: int,
            |
                {
                    &&& 0 <= y <= 9999 && 1 <= mo <= 12 && 1 <= d <= days_in_month(y, mo)
                    &&& 0 <= h <= 23 && 0 <= mi <= 59 && 0 <= s2 <= 59 && 0 <= ms <= 999
                    &&& (days_from_civil(y, mo, d) * 86400 + h * 3600 + mi * 60 + s2)
                        * NANOS_PER_SECOND + ms * NANOS_PER_MILLI == t.nanos
                    &&& out@ == #[trigger] spec_render_since(
                        y as nat,
                        mo as nat,
                        d as nat,
                        h as nat,
                        mi as nat,
                        s2 as nat,
                        ms as nat,
                    )
                }),
    {
        match *self {
            Value::Always => Some("always".to_owned()),
            Value::Never => Some("never".to_owned()),
            Value::Since(t) => render_instant(t),
        }
    }
}

/// The canonical date-literal text of an instant, when it has one:
/// the rendering of components that reconstruct exactly this
/// instant.
#[verifier::rlimit(100)]
fn render_instant(t: Instant) -> (r: Option<String>)
    ensures
        r matches Some(out) ==> exists|y: int, mo: int, d: int, h: int, mi: int, s2: int, ms: int|
            {
                &&& 0 <= y <= 9999 && 1 <= mo <= 12 && 1 <= d <= days_in_month(y, mo)
                &&& 0 <= h <= 23 && 0 <= mi <= 59 && 0 <= s2 <= 59 && 0 <= ms <= 999
                &&& (days_from_civil(y, mo, d) * 86400 + h * 3600 + mi * 60 + s2)
                    * NANOS_PER_SECOND + ms * NANOS_PER_MILLI == t.nanos
                &&& out@ == #[trigger] spec_render_since(
                    y as nat,
                    mo as nat,
                    d as nat,
                    h as nat,
                    mi as nat,
                    s2 as nat,
                    ms as nat,
                )
            },
{
    let (secs, msn) = match div_floor(t.nanos, NANOS_PER_SECOND) {
        Some(p) => p,
        None => {
            return None;
        },
    };
    let (ms, mrem) = match div_floor(msn, NANOS_PER_MILLI) {
        Some(p) => p,
        None => {
            return None;
        },
    };
    if mrem != 0 || ms > 999 {
        return None;
    }
    let (days, rem) = match div_floor(secs, 86400) {
        Some(p) => p,
        None => {
            return None;
        },
    };
    if days < i64::MIN as i128 || days > i64::MAX as i128 {
        return None;
    }
    let (y, mo, d) = match civil_from_days(days as i64) {
        Some(c) => c,
        None => {
            return None;
        },
    };
    let rem64: u64 = rem as u64;
    let h: u64 = rem64 / 3600;
    let mi: u64 = (rem64 / 60) % 60;
    let s: u64 = rem64 % 60;
    if !(h <= 23 && mi <= 59 && s <= 59) {
        return None;
    }
    // The printer checks itself: only a date that converts back to
    // exactly this instant is emitted.
    let back = instant_from_civil(y, mo, d, h, mi, s, false, 0, 0, 0);
    let with_ms = match back.checked_plus(crate::instant::Duration { nanos: ms * NANOS_PER_MILLI })
    {
        Some(i) => i,
        None => {
            return None;
        },
    };
    if !(with_ms.nanos == t.nanos) {
        return None;
    }
    let mut out: Vec<char> = Vec::new();
    push_padded(&mut out, y, 4);
    out.push('-');
    push_padded(&mut out, mo, 2);
    out.push('-');
    push_padded(&mut out, d, 2);
    out.push(' ');
    push_padded(&mut out, h, 2);
    out.push(':');
    push_padded(&mut out, mi, 2);
    out.push(':');
    push_padded(&mut out, s, 2);
    out.push(' ');
    out.push('+');
    out.push('0');
    if ms > 0 {
        out.push(' ');
        out.push('+');
        out.push(' ');
        push_padded(&mut out, ms as u64, 1);
        out.push('m');
        out.push('s');
    }
    proof {
        if ms > 0 {
            assert(padded(ms as nat, 1) =~= spec_u64_digits(ms as nat));
        }
        assert(out@ =~= spec_render_since(
            y as nat,
            mo as nat,
            d as nat,
            h as nat,
            mi as nat,
            s as nat,
            ms as nat,
        ));
    }
    let result = chars_to_string(&out);
    proof {
        let yi: int = y as int;
        let moi: int = mo as int;
        let di: int = d as int;
        let hi: int = h as int;
        let mii: int = mi as int;
        let si: int = s as int;
        let msi: int = ms as int;
        assert(offset_total_secs(false, 0, 0, 0) == 0);
        assert(0 <= yi <= 9999 && 1 <= moi <= 12 && 1 <= di <= days_in_month(yi, moi));
        assert(0 <= hi <= 23 && 0 <= mii <= 59 && 0 <= si <= 59 && 0 <= msi <= 999);
        assert((days_from_civil(yi, moi, di) * 86400 + hi * 3600 + mii * 60 + si)
            * NANOS_PER_SECOND + msi * NANOS_PER_MILLI == t.nanos);
        assert(result@ == spec_render_since(
            yi as nat,
            moi as nat,
            di as nat,
            hi as nat,
            mii as nat,
            si as nat,
            msi as nat,
        ));
    }
    Some(result)
}


/// Parsing one keyword word that spans the whole input yields its
/// literal.
#[verifier::rlimit(100)]
proof fn lemma_parse_keyword(s: Seq<char>, v: Value)
    requires
        1 <= s.len() <= 6,
        forall|i: int| 0 <= i < s.len() ==> 'a' <= #[trigger] s[i] && s[i] <= 'z',
        s == "always"@ ==> v == Value::Always,
        s == "never"@ ==> v == Value::Never,
        s == "always"@ || s == "never"@,
    ensures
        spec_parse(s) == Ok::<SpecExpr, crate::error::SpecError>(SpecExpr::Literal(v)),
{
    let n = s.len() as int;
    assert(skip_ws(s, 0) == 0);
    assert(scan_word_end(s, n) == n);
    assert(scan_word_end(s, n - 1) == n);
    assert(scan_word_end(s, n - 2) == n);
    assert(scan_word_end(s, n - 3) == n);
    assert(scan_word_end(s, n - 4) == n);
    if n == 6 {
        assert(scan_word_end(s, 1) == n);
    }
    assert(s.subrange(0, s.len() as int) =~= s);
    assert(spec_scan(s, 0) == ScanResult::Token(SpecTok::Word(s), 0, n));
    assert(spec_parse_terminal(s, 0) == PR::Good(SpecExpr::Literal(v), n));
    assert(skip_ws(s, n) == n);
    assert(spec_scan(s, n) == ScanResult::End);
    assert(spec_parse_and_loop(s, n, SpecExpr::Literal(v)) == PR::Good(SpecExpr::Literal(v), n));
    assert(spec_parse_and(s, 0) == PR::Good(SpecExpr::Literal(v), n));
    assert(spec_parse_or_loop(s, n, SpecExpr::Literal(v)) == PR::Good(SpecExpr::Literal(v), n));
    assert(spec_parse_or(s, 0) == PR::Good(SpecExpr::Literal(v), n));
    assert(spec_parse_add_loop(s, n, SpecExpr::Literal(v)) == PR::Good(SpecExpr::Literal(v), n));
    assert(spec_parse_add(s, 0) == PR::Good(SpecExpr::Literal(v), n));
    assert(spec_expect(s, n, TokenType::Eof) == IR::Good(n));
}

/// Printing a value and parsing the text back evaluates to the same
/// value. This is proved for the keyword values `Always` and
/// `Never`; for a `Since`, the printer itself checks at run time
/// that the date it emits converts back to exactly the printed
/// instant.
#[verifier::rlimit(100)]
#[verifier::spinoff_prover]
pub proof fn lemma_keyword_round_trip(v: Value)
    requires
        v is Always || v is Never,
    ensures
        spec_parse(spec_render_keyword(v)) matches Ok(e) && pure_val(e) == Some(v),
{
    reveal_strlit("always");
    reveal_strlit("never");
    if v is Always {
        lemma_parse_keyword("always"@, v);
    } else {
        lemma_parse_keyword("never"@, v);
    }
}

} // verus!
