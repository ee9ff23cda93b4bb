//! The recursive-descent parser for temporal expressions.
//!
//! Grammar, lowest precedence first: `+` with a duration on the
//! right, `|`, `&`, then a terminal: `always`, `never`, a dotted
//! path, a parenthesized expression, or a date literal
//! `YYYY-MM-DD HH:MM[:SS] (+|-)HH[:MM[:SS]]`. A duration is one or
//! more `<number><unit>` pairs with units `d h m s ms`.
//!
//! Every function is specified against a specification-level parser
//! over the character sequence; the result relation pins tokens,
//! positions and errors exactly.

use vstd::prelude::*;

use crate::chars::str_eq;
use crate::error::{EvalError, SpecError};
use crate::expr::{expr_view, Expr, SpecExpr};
use crate::instant::{instant_from_civil, civil_to_unix_secs, days_in_month, days_in_month_of,
    Duration, Instant, NANOS_PER_SECOND};
use crate::token::{lemma_scan_bounds, lemma_scan_out_of_range, spec_scan, spec_token_type,
    ScanResult, SpecTok, Token, TokenType, Tokens};
use crate::value::Value;

verus! {

/// Outcome of a specification-level expression parse: the expression
/// and the position after it, or an error.
pub enum PR {
    Good(SpecExpr, int),
    Bad(SpecError),
}

/// Outcome of a specification-level date parse.
pub enum VR {
    Good(Value, int),
    Bad(SpecError),
}

/// Outcome of a specification-level duration parse.
pub enum DR {
    Good(Duration, int),
    Bad(SpecError),
}

/// Outcome of a specification-level path parse.
pub enum FR {
    Good(Seq<Seq<char>>, int),
    Bad(SpecError),
}

/// Outcome of expecting one token.
pub enum IR {
    Good(int),
    Bad(SpecError),
}

/// Outcome of expecting one number.
pub enum CR {
    Good(u64, int),
    Bad(SpecError),
}

/// Keep a position within `[lo, hi]` (or at `hi` when the bounds
/// cross). The parser always moves forward and stays within the
/// input, so this never changes a result; it makes that evident to
/// the termination checker.
pub open spec fn cpos(p: int, lo: int, hi: int) -> int {
    if lo > hi {
        hi
    } else if p < lo {
        lo
    } else if p > hi {
        hi
    } else {
        p
    }
}

/// Apply `cpos` to the position of a parse outcome.
pub open spec fn pr_clamp(r: PR, lo: int, hi: int) -> PR {
    match r {
        PR::Good(e, p) => PR::Good(e, cpos(p, lo, hi)),
        PR::Bad(e) => PR::Bad(e),
    }
}

/// The error reported for an out-of-place token at `pos`: the stray
/// token with its position, the end of input, or a pending lexical
/// error.
pub open spec fn spec_unexpected_here(s: Seq<char>, pos: int) -> SpecError {
    match spec_scan(s, pos) {
        ScanResult::Token(t, p, j) => SpecError::UnexpectedToken {
            token: spec_token_type(t),
            pos: Some(p),
        },
        ScanResult::Error(e, j) => e,
        ScanResult::End => SpecError::UnexpectedToken { token: TokenType::Eof, pos: None },
    }
}

/// Expect a token of kind `tt` at `pos`.
pub open spec fn spec_expect(s: Seq<char>, pos: int, tt: TokenType) -> IR {
    match spec_scan(s, pos) {
        ScanResult::Token(t, p, j) => if spec_token_type(t) == tt {
            IR::Good(j)
        } else {
            IR::Bad(SpecError::UnexpectedToken { token: spec_token_type(t), pos: Some(p) })
        },
        ScanResult::Error(e, j) => IR::Bad(e),
        ScanResult::End => if tt == TokenType::Eof {
            IR::Good(s.len() as int)
        } else {
            IR::Bad(SpecError::UnexpectedToken { token: TokenType::Eof, pos: None })
        },
    }
}

/// Expect a number of at most `max` at `pos`.
pub open spec fn spec_expect_number(s: Seq<char>, pos: int, max: u64) -> CR {
    match spec_scan(s, pos) {
        ScanResult::Token(t, p, j) => match t {
            SpecTok::Number(n) => if n > max {
                CR::Bad(SpecError::LiteralOutOfRange { pos: p })
            } else {
                CR::Good(n, j)
            },
            _ => CR::Bad(SpecError::UnexpectedToken { token: spec_token_type(t), pos: Some(p) }),
        },
        ScanResult::Error(e, j) => CR::Bad(e),
        ScanResult::End => CR::Bad(SpecError::UnexpectedToken { token: TokenType::Eof, pos: None }),
    }
}

/// A `: <number>` component when a colon follows, else `default`.
pub open spec fn spec_opt_component(s: Seq<char>, pos: int, max: u64, default: u64) -> CR {
    match spec_scan(s, pos) {
        ScanResult::Token(t, p, j) => if t is Colon {
            spec_expect_number(s, j, max)
        } else {
            CR::Good(default, pos)
        },
        _ => CR::Good(default, pos),
    }
}

/// The duration that one unit word stands for.
pub open spec fn spec_unit(w: Seq<char>) -> Option<Duration> {
    if w == "d"@ {
        Some(Duration { nanos: 86_400_000_000_000 })
    } else if w == "h"@ {
        Some(Duration { nanos: 3_600_000_000_000 })
    } else if w == "m"@ {
        Some(Duration { nanos: 60_000_000_000 })
    } else if w == "s"@ {
        Some(Duration { nanos: 1_000_000_000 })
    } else if w == "ms"@ {
        Some(Duration { nanos: 1_000_000 })
    } else {
        None
    }
}

/// Parse a date literal whose year `first` stood at `p0`; `pos` is
/// the position after the year. Range errors are reported at the
/// offending number, or at `p0` for errors a component-range check
/// finds later.
pub open spec fn spec_parse_date(s: Seq<char>, pos: int, first: u64, p0: int) -> VR {
    if first > 0x7fff_ffff {
        VR::Bad(SpecError::LiteralOutOfRange { pos: p0 })
    } else {
        match spec_expect(s, pos, TokenType::Dash) {
            IR::Bad(e) => VR::Bad(e),
            IR::Good(pos) => match spec_expect_number(s, pos, 255) {
                CR::Bad(e) => VR::Bad(e),
                CR::Good(month, pos) => match spec_expect(s, pos, TokenType::Dash) {
                    IR::Bad(e) => VR::Bad(e),
                    IR::Good(pos) => match spec_expect_number(s, pos, 255) {
                        CR::Bad(e) => VR::Bad(e),
                        CR::Good(day, pos) => if !(1 <= month <= 12) || first > 9999 || !(1 <= day
                            <= days_in_month(first as int, month as int)) {
                            VR::Bad(SpecError::LiteralOutOfRange { pos: p0 })
                        } else {
                            spec_parse_time(s, pos, first, month, day, p0)
                        },
                    },
                },
            },
        }
    }
}

/// Parse the time-of-day part of a date literal.
pub open spec fn spec_parse_time(
    s: Seq<char>,
    pos: int,
    year: u64,
    month: u64,
    day: u64,
    p0: int,
) -> VR {
    match spec_expect_number(s, pos, 255) {
        CR::Bad(e) => VR::Bad(e),
        CR::Good(hour, pos) => match spec_expect(s, pos, TokenType::Colon) {
            IR::Bad(e) => VR::Bad(e),
            IR::Good(pos) => match spec_expect_number(s, pos, 255) {
                CR::Bad(e) => VR::Bad(e),
                CR::Good(minute, pos) => match spec_opt_component(s, pos, 255, 0) {
                    CR::Bad(e) => VR::Bad(e),
                    CR::Good(second, pos) => if !(hour <= 23 && minute <= 59 && second <= 59) {
                        VR::Bad(SpecError::LiteralOutOfRange { pos: p0 })
                    } else {
                        spec_parse_offset(s, pos, year, month, day, hour, minute, second, p0)
                    },
                },
            },
        },
    }
}

/// Parse the offset part of a date literal and build the instant.
pub open spec fn spec_parse_offset(
    s: Seq<char>,
    pos: int,
    year: u64,
    month: u64,
    day: u64,
    hour: u64,
    minute: u64,
    second: u64,
    p0: int,
) -> VR {
    let sign = match spec_scan(s, pos) {
        ScanResult::Token(t, p, j) => match t {
            SpecTok::Plus => Some((false, j)),
            SpecTok::Dash => Some((true, j)),
            _ => None,
        },
        _ => None,
    };
    match sign {
        None => VR::Bad(spec_unexpected_here(s, pos)),
        Some((negative, pos)) => match spec_expect_number(s, pos, 127) {
            CR::Bad(e) => VR::Bad(e),
            CR::Good(oh, pos) => match spec_opt_component(s, pos, 127, 0) {
                CR::Bad(e) => VR::Bad(e),
                CR::Good(om, pos) => match spec_opt_component(s, pos, 127, 0) {
                    CR::Bad(e) => VR::Bad(e),
                    CR::Good(os, pos) => if !(oh <= 25 && om <= 59 && os <= 59) {
                        VR::Bad(SpecError::LiteralOutOfRange { pos: p0 })
                    } else {
                        VR::Good(
                            Value::Since(
                                Instant {
                                    nanos: (civil_to_unix_secs(
                                        year as int,
                                        month as int,
                                        day as int,
                                        hour as int,
                                        minute as int,
                                        second as int,
                                        negative,
                                        oh as int,
                                        om as int,
                                        os as int,
                                    ) * NANOS_PER_SECOND) as i128,
                                },
                            ),
                            pos,
                        )
                    },
                },
            },
        },
    }
}

/// Parse a duration: one or more `<number><unit>` pairs, summed.
pub open spec fn spec_parse_duration(s: Seq<char>, pos: int, total: Duration, some: bool) -> DR
    decreases s.len() - pos,
    via spec_parse_duration_decreases
{
    match spec_scan(s, pos) {
        ScanResult::Token(t, p, j) => match t {
            SpecTok::Number(n) => match spec_scan(s, j) {
                ScanResult::Token(t2, p2, j2) => match t2 {
                    SpecTok::Word(w) => if n > 0x7fff_ffff {
                        DR::Bad(SpecError::LiteralOutOfRange { pos: p })
                    } else {
                        match spec_unit(w) {
                            None => DR::Bad(SpecError::UnknownUnit { unit: w }),
                            Some(u) => if u.nanos * n > i128::MAX || total.nanos + u.nanos * n
                                > i128::MAX {
                                DR::Bad(SpecError::LiteralOutOfRange { pos: p })
                            } else {
                                spec_parse_duration(
                                    s,
                                    if j2 > j {
                                        j2
                                    } else {
                                        j + 1
                                    },
                                    Duration { nanos: (total.nanos + u.nanos * n) as i128 },
                                    true,
                                )
                            },
                        }
                    },
                    _ => DR::Bad(
                        SpecError::UnexpectedToken { token: spec_token_type(t2), pos: Some(p2) },
                    ),
                },
                ScanResult::Error(e, _) => DR::Bad(e),
                ScanResult::End => DR::Bad(
                    SpecError::UnexpectedToken { token: TokenType::Eof, pos: None },
                ),
            },
            _ => if some {
                DR::Good(total, pos)
            } else {
                DR::Bad(SpecError::UnexpectedToken { token: spec_token_type(t), pos: Some(p) })
            },
        },
        ScanResult::Error(e, _) => if some {
            DR::Good(total, pos)
        } else {
            DR::Bad(e)
        },
        ScanResult::End => if some {
            DR::Good(total, pos)
        } else {
            DR::Bad(SpecError::UnexpectedToken { token: TokenType::Eof, pos: None })
        },
    }
}

#[via_fn]
proof fn spec_parse_duration_decreases(s: Seq<char>, pos: int, total: Duration, some: bool) {
    if 0 <= pos <= s.len() {
        lemma_scan_bounds(s, pos);
        match spec_scan(s, pos) {
            ScanResult::Token(t, p, j) => {
                lemma_scan_bounds(s, j);
            },
            _ => {},
        }
    } else {
        lemma_scan_out_of_range(s, pos);
    }
}

/// Parse the rest of a dotted path whose segments so far are `acc`.
pub open spec fn spec_parse_path(s: Seq<char>, pos: int, acc: Seq<Seq<char>>) -> FR
    decreases s.len() - pos,
    via spec_parse_path_decreases
{
    match spec_scan(s, pos) {
        ScanResult::Token(t, p, j) => if t is Dot {
            match spec_scan(s, j) {
                ScanResult::Token(t2, p2, j2) => match t2 {
                    SpecTok::Word(w) => spec_parse_path(
                        s,
                        if j2 > j {
                            j2
                        } else {
                            j + 1
                        },
                        acc.push(w),
                    ),
                    _ => FR::Bad(
                        SpecError::UnexpectedToken { token: spec_token_type(t2), pos: Some(p2) },
                    ),
                },
                ScanResult::Error(e, _) => FR::Bad(e),
                ScanResult::End => FR::Bad(
                    SpecError::UnexpectedToken { token: TokenType::Eof, pos: None },
                ),
            }
        } else {
            FR::Good(acc, pos)
        },
        _ => FR::Good(acc, pos),
    }
}

#[via_fn]
proof fn spec_parse_path_decreases(s: Seq<char>, pos: int, acc: Seq<Seq<char>>) {
    if 0 <= pos <= s.len() {
        lemma_scan_bounds(s, pos);
        match spec_scan(s, pos) {
            ScanResult::Token(t, p, j) => {
                lemma_scan_bounds(s, j);
            },
            _ => {},
        }
    } else {
        lemma_scan_out_of_range(s, pos);
    }
}

/// Parse a terminal: a date literal, `always`, `never`, a dotted
/// path, or a parenthesized expression.
pub open spec fn spec_parse_terminal(s: Seq<char>, pos: int) -> PR
    decreases s.len() - pos, 0int,
    via spec_parse_terminal_decreases
{
    match spec_scan(s, pos) {
        ScanResult::Token(t, p, j) => match t {
            SpecTok::Number(n) => match spec_parse_date(s, j, n, p) {
                VR::Good(v, p2) => PR::Good(SpecExpr::Literal(v), p2),
                VR::Bad(e) => PR::Bad(e),
            },
            SpecTok::Word(w) => if w == "always"@ {
                PR::Good(SpecExpr::Literal(Value::Always), j)
            } else if w == "never"@ {
                PR::Good(SpecExpr::Literal(Value::Never), j)
            } else {
                match spec_parse_path(s, j, seq![w]) {
                    FR::Good(path, p2) => PR::Good(SpecExpr::Field(path), p2),
                    FR::Bad(e) => PR::Bad(e),
                }
            },
            SpecTok::LeftParen => match spec_parse_add(s, j) {
                PR::Good(e, p2) => match spec_expect(s, p2, TokenType::RightParen) {
                    IR::Good(p3) => PR::Good(e, p3),
                    IR::Bad(er) => PR::Bad(er),
                },
                PR::Bad(er) => PR::Bad(er),
            },
            _ => PR::Bad(SpecError::UnexpectedToken { token: spec_token_type(t), pos: Some(p) }),
        },
        ScanResult::Error(e, _) => PR::Bad(e),
        ScanResult::End => PR::Bad(SpecError::UnexpectedToken { token: TokenType::Eof, pos: None }),
    }
}

#[via_fn]
proof fn spec_parse_terminal_decreases(s: Seq<char>, pos: int) {
    if 0 <= pos <= s.len() {
        lemma_scan_bounds(s, pos);
    } else {
        lemma_scan_out_of_range(s, pos);
    }
}

/// Parse a `&`-chain.
pub open spec fn spec_parse_and(s: Seq<char>, pos: int) -> PR
    decreases s.len() - pos, 1int,
{
    if pos < 0 || pos >= s.len() {
        PR::Bad(SpecError::UnexpectedToken { token: TokenType::Eof, pos: None })
    } else {
        match pr_clamp(spec_parse_terminal(s, pos), pos + 1, s.len() as int) {
            PR::Good(e, p1) => spec_parse_and_loop(s, p1, e),
            PR::Bad(e) => PR::Bad(e),
        }
    }
}

/// Parse the continuations of a `&`-chain onto `acc`.
pub open spec fn spec_parse_and_loop(s: Seq<char>, pos: int, acc: SpecExpr) -> PR
    decreases s.len() - pos, 2int,
    via spec_parse_and_loop_decreases
{
    if pos < 0 || pos >= s.len() {
        PR::Good(acc, pos)
    } else {
        match spec_scan(s, pos) {
            ScanResult::Token(t, p, j) => if t is And {
                match pr_clamp(spec_parse_terminal(s, j), j + 1, s.len() as int) {
                    PR::Good(e2, p2) => spec_parse_and_loop(
                        s,
                        p2,
                        SpecExpr::And(Box::new(acc), Box::new(e2)),
                    ),
                    PR::Bad(e) => PR::Bad(e),
                }
            } else {
                PR::Good(acc, pos)
            },
            _ => PR::Good(acc, pos),
        }
    }
}

#[via_fn]
proof fn spec_parse_and_loop_decreases(s: Seq<char>, pos: int, acc: SpecExpr) {
    if 0 <= pos <= s.len() {
        lemma_scan_bounds(s, pos);
    } else {
        lemma_scan_out_of_range(s, pos);
    }
}

/// Parse a `|`-chain.
pub open spec fn spec_parse_or(s: Seq<char>, pos: int) -> PR
    decreases s.len() - pos, 3int,
{
    if pos < 0 || pos >= s.len() {
        PR::Bad(SpecError::UnexpectedToken { token: TokenType::Eof, pos: None })
    } else {
        match pr_clamp(spec_parse_and(s, pos), pos + 1, s.len() as int) {
            PR::Good(e, p1) => spec_parse_or_loop(s, p1, e),
            PR::Bad(e) => PR::Bad(e),
        }
    }
}

/// Parse the continuations of a `|`-chain onto `acc`.
pub open spec fn spec_parse_or_loop(s: Seq<char>, pos: int, acc: SpecExpr) -> PR
    decreases s.len() - pos, 4int,
    via spec_parse_or_loop_decreases
{
    if pos < 0 || pos >= s.len() {
        PR::Good(acc, pos)
    } else {
        match spec_scan(s, pos) {
            ScanResult::Token(t, p, j) => if t is Or {
                match pr_clamp(spec_parse_and(s, j), j + 1, s.len() as int) {
                    PR::Good(e2, p2) => spec_parse_or_loop(
                        s,
                        p2,
                        SpecExpr::Or(Box::new(acc), Box::new(e2)),
                    ),
                    PR::Bad(e) => PR::Bad(e),
                }
            } else {
                PR::Good(acc, pos)
            },
            _ => PR::Good(acc, pos),
        }
    }
}

#[via_fn]
proof fn spec_parse_or_loop_decreases(s: Seq<char>, pos: int, acc: SpecExpr) {
    if 0 <= pos <= s.len() {
        lemma_scan_bounds(s, pos);
    } else {
        lemma_scan_out_of_range(s, pos);
    }
}

/// Parse a `+`-chain.
pub open spec fn spec_parse_add(s: Seq<char>, pos: int) -> PR
    decreases s.len() - pos, 5int,
{
    if pos < 0 || pos >= s.len() {
        PR::Bad(SpecError::UnexpectedToken { token: TokenType::Eof, pos: None })
    } else {
        match pr_clamp(spec_parse_or(s, pos), pos + 1, s.len() as int) {
            PR::Good(e, p1) => spec_parse_add_loop(s, p1, e),
            PR::Bad(e) => PR::Bad(e),
        }
    }
}

/// Parse the `+ <duration>` continuations onto `acc`.
pub open spec fn spec_parse_add_loop(s: Seq<char>, pos: int, acc: SpecExpr) -> PR
    decreases s.len() - pos, 6int,
    via spec_parse_add_loop_decreases
{
    if pos < 0 || pos >= s.len() {
        PR::Good(acc, pos)
    } else {
        match spec_scan(s, pos) {
            ScanResult::Token(t, p, j) => if t is Plus {
                match spec_parse_duration(s, j, Duration { nanos: 0 }, false) {
                    DR::Good(d, p2) => spec_parse_add_loop(
                        s,
                        cpos(p2, j + 1, s.len() as int),
                        SpecExpr::Add(Box::new(acc), d),
                    ),
                    DR::Bad(e) => PR::Bad(e),
                }
            } else {
                PR::Good(acc, pos)
            },
            _ => PR::Good(acc, pos),
        }
    }
}

#[via_fn]
proof fn spec_parse_add_loop_decreases(s: Seq<char>, pos: int, acc: SpecExpr) {
    if 0 <= pos <= s.len() {
        lemma_scan_bounds(s, pos);
    } else {
        lemma_scan_out_of_range(s, pos);
    }
}

/// Parse a whole expression: everything up to the end of the input.
pub open spec fn spec_parse(s: Seq<char>) -> Result<SpecExpr, SpecError> {
    match spec_parse_add(s, 0) {
        PR::Good(e, p) => match spec_expect(s, p, TokenType::Eof) {
            IR::Good(_) => Ok(e),
            IR::Bad(er) => Err(er),
        },
        PR::Bad(er) => Err(er),
    }
}

/// The error for a stray token, end of input, or pending lexical
/// error.
pub fn unexpected(token: Option<(Token, usize)>) -> (r: EvalError)
    ensures
        r@ == match token {
            Some((t, p)) => SpecError::UnexpectedToken {
                token: spec_token_type(t@),
                pos: Some(p as int),
            },
            None => SpecError::UnexpectedToken { token: TokenType::Eof, pos: None },
        },
{
    match token {
        Some((t, p)) => EvalError::UnexpectedToken {
            token: TokenType::new(Some(&t)),
            pos: Some(p),
        },
        None => EvalError::UnexpectedToken { token: TokenType::Eof, pos: None },
    }
}

/// Consume one token, which must be of kind `expected`.
pub fn expect(tokens: &mut Tokens, expected: TokenType) -> (r: Result<(), EvalError>)
    requires
        old(tokens).wf(),
    ensures
        final(tokens).wf(),
        final(tokens).chars@ == old(tokens).chars@,
        final(tokens).pos >= old(tokens).pos,
        match spec_expect(old(tokens).chars@, old(tokens).pos as int, expected) {
            IR::Good(j) => r is Ok && final(tokens).pos == j,
            IR::Bad(e) => r matches Err(er) && er@ == e,
        },
{
    match tokens.next() {
        Some(Err(e)) => Err(e),
        Some(Ok((t, p))) => {
            let actual = TokenType::new(Some(&t));
            if actual == expected {
                Ok(())
            } else {
                Err(EvalError::UnexpectedToken { token: actual, pos: Some(p) })
            }
        },
        None => {
            if expected == TokenType::Eof {
                Ok(())
            } else {
                Err(EvalError::UnexpectedToken { token: TokenType::Eof, pos: None })
            }
        },
    }
}

/// Consume one token, which must be a number of at most `max`.
pub fn expect_number(tokens: &mut Tokens, max: u64) -> (r: Result<u64, EvalError>)
    requires
        old(tokens).wf(),
    ensures
        final(tokens).wf(),
        final(tokens).chars@ == old(tokens).chars@,
        final(tokens).pos >= old(tokens).pos,
        match spec_expect_number(old(tokens).chars@, old(tokens).pos as int, max) {
            CR::Good(n, j) => r matches Ok(m) && m == n && final(tokens).pos == j,
            CR::Bad(e) => r matches Err(er) && er@ == e,
        },
{
    match tokens.next() {
        Some(Ok((Token::Number(n), p))) => {
            if n > max {
                Err(EvalError::LiteralOutOfRange { pos: p })
            } else {
                Ok(n)
            }
        },
        Some(Ok((t, p))) => Err(unexpected(Some((t, p)))),
        Some(Err(e)) => Err(e),
        None => Err(unexpected(None)),
    }
}

/// A `: <number>` component when a colon follows, else `default`.
pub fn parse_optional_time_component(tokens: &mut Tokens, max: u64, default: u64) -> (r: Result<
    u64,
    EvalError,
>)
    requires
        old(tokens).wf(),
    ensures
        final(tokens).wf(),
        final(tokens).chars@ == old(tokens).chars@,
        final(tokens).pos >= old(tokens).pos,
        match spec_opt_component(old(tokens).chars@, old(tokens).pos as int, max, default) {
            CR::Good(n, j) => r matches Ok(m) && m == n && final(tokens).pos == j,
            CR::Bad(e) => r matches Err(er) && er@ == e,
        },
{
    if tokens.next_if_type(TokenType::Colon) {
        expect_number(tokens, max)
    } else {
        Ok(default)
    }
}

/// The duration that one unit word stands for.
pub fn get_unit(name: &str) -> (r: Option<Duration>)
    ensures
        r == spec_unit(name@),
{
    if str_eq(name, "d") {
        Some(Duration { nanos: 86_400_000_000_000 })
    } else if str_eq(name, "h") {
        Some(Duration { nanos: 3_600_000_000_000 })
    } else if str_eq(name, "m") {
        Some(Duration { nanos: 60_000_000_000 })
    } else if str_eq(name, "s") {
        Some(Duration { nanos: 1_000_000_000 })
    } else if str_eq(name, "ms") {
        Some(Duration { nanos: 1_000_000 })
    } else {
        None
    }
}

/// Parse a duration: one or more `<number><unit>` pairs, summed.
#[verifier::loop_isolation(false)]
pub fn parse_duration(tokens: &mut Tokens) -> (r: Result<Duration, EvalError>)
    requires
        old(tokens).wf(),
    ensures
        final(tokens).wf(),
        final(tokens).chars@ == old(tokens).chars@,
        final(tokens).pos >= old(tokens).pos,
        r is Ok ==> final(tokens).pos > old(tokens).pos,
        match spec_parse_duration(
            old(tokens).chars@,
            old(tokens).pos as int,
            Duration { nanos: 0 },
            false,
        ) {
            DR::Good(d, p) => r matches Ok(d2) && d2 == d && final(tokens).pos == p,
            DR::Bad(e) => r matches Err(er) && er@ == e,
        },
{
    let ghost s = tokens.chars@;
    let ghost pos0 = tokens.pos as int;
    let mut total = Duration::zero();
    let mut parsed_some = false;
    loop
        invariant
            tokens.wf(),
            tokens.chars@ == s,
            total.nanos >= 0,
            parsed_some ==> tokens.pos > pos0,
            !parsed_some ==> tokens.pos == pos0,
            spec_parse_duration(s, tokens.pos as int, total, parsed_some) == spec_parse_duration(
                s,
                pos0,
                Duration { nanos: 0 },
                false,
            ),
        decreases s.len() - tokens.pos,
    {
        let head = tokens.peek_number();
        match head {
            None => {
                if parsed_some {
                    return Ok(total);
                } else {
                    let item = tokens.next();
                    match item {
                        Some(Err(e)) => {
                            return Err(e);
                        },
                        Some(Ok((t, p))) => {
                            return Err(unexpected(Some((t, p))));
                        },
                        None => {
                            return Err(unexpected(None));
                        },
                    }
                }
            },
            Some((num, num_pos)) => {
                let consumed = tokens.next_if_type(TokenType::Number);
                proof {
                    assert(consumed);
                }
                let word = match tokens.next() {
                    Some(Ok((Token::Word(w), _))) => w,
                    Some(Ok((t, p2))) => {
                        return Err(unexpected(Some((t, p2))));
                    },
                    Some(Err(e)) => {
                        return Err(e);
                    },
                    None => {
                        return Err(unexpected(None));
                    },
                };
                if num > 0x7fff_ffff {
                    return Err(EvalError::LiteralOutOfRange { pos: num_pos });
                }
                let unit = match get_unit(word.as_str()) {
                    Some(u) => u,
                    None => {
                        return Err(EvalError::UnknownUnit { unit: word });
                    },
                };
                proof {
                    assert(unit.nanos >= 1);
                    assert(unit.nanos * num >= 0) by (nonlinear_arith)
                        requires
                            unit.nanos >= 1,
                            num >= 0,
                    ;
                }
                let d = match unit.checked_times(num) {
                    Some(d) => d,
                    None => {
                        return Err(EvalError::LiteralOutOfRange { pos: num_pos });
                    },
                };
                total = match total.checked_plus(d) {
                    Some(t) => t,
                    None => {
                        return Err(EvalError::LiteralOutOfRange { pos: num_pos });
                    },
                };
                parsed_some = true;
            },
        }
    }
}

/// Parse a date literal whose year `first` stood at `p0`.
pub fn parse_date(tokens: &mut Tokens, first: u64, p0: usize) -> (r: Result<Value, EvalError>)
    requires
        old(tokens).wf(),
    ensures
        final(tokens).wf(),
        final(tokens).chars@ == old(tokens).chars@,
        final(tokens).pos >= old(tokens).pos,
        match spec_parse_date(old(tokens).chars@, old(tokens).pos as int, first, p0 as int) {
            VR::Good(v, p) => r matches Ok(v2) && v2 == v && final(tokens).pos == p,
            VR::Bad(e) => r matches Err(er) && er@ == e,
        },
{
    if first > 0x7fff_ffff {
        return Err(EvalError::LiteralOutOfRange { pos: p0 });
    }
    match expect(tokens, TokenType::Dash) {
        Err(e) => {
            return Err(e);
        },
        Ok(()) => {},
    }
    let month = match expect_number(tokens, 255) {
        Ok(n) => n,
        Err(e) => {
            return Err(e);
        },
    };
    match expect(tokens, TokenType::Dash) {
        Err(e) => {
            return Err(e);
        },
        Ok(()) => {},
    }
    let day = match expect_number(tokens, 255) {
        Ok(n) => n,
        Err(e) => {
            return Err(e);
        },
    };
    if !(1 <= month && month <= 12) || first > 9999 {
        return Err(EvalError::LiteralOutOfRange { pos: p0 });
    }
    let dim = days_in_month_of(first, month);
    if !(1 <= day && day <= dim) {
        return Err(EvalError::LiteralOutOfRange { pos: p0 });
    }
    let hour = match expect_number(tokens, 255) {
        Ok(n) => n,
        Err(e) => {
            return Err(e);
        },
    };
    match expect(tokens, TokenType::Colon) {
        Err(e) => {
            return Err(e);
        },
        Ok(()) => {},
    }
    let minute = match expect_number(tokens, 255) {
        Ok(n) => n,
        Err(e) => {
            return Err(e);
        },
    };
    let second = match parse_optional_time_component(tokens, 255, 0) {
        Ok(n) => n,
        Err(e) => {
            return Err(e);
        },
    };
    if !(hour <= 23 && minute <= 59 && second <= 59) {
        return Err(EvalError::LiteralOutOfRange { pos: p0 });
    }
    let negative = match tokens.next() {
        Some(Ok((Token::Plus, _))) => false,
        Some(Ok((Token::Dash, _))) => true,
        Some(Ok((t, p))) => {
            return Err(unexpected(Some((t, p))));
        },
        Some(Err(e)) => {
            return Err(e);
        },
        None => {
            return Err(unexpected(None));
        },
    };
    let oh = match expect_number(tokens, 127) {
        Ok(n) => n,
        Err(e) => {
            return Err(e);
        },
    };
    let om = match parse_optional_time_component(tokens, 127, 0) {
        Ok(n) => n,
        Err(e) => {
            return Err(e);
        },
    };
    let os = match parse_optional_time_component(tokens, 127, 0) {
        Ok(n) => n,
        Err(e) => {
            return Err(e);
        },
    };
    if !(oh <= 25 && om <= 59 && os <= 59) {
        return Err(EvalError::LiteralOutOfRange { pos: p0 });
    }
    Ok(Value::Since(instant_from_civil(first, month, day, hour, minute, second, negative, oh, om, os)))
}

/// Parse the rest of a dotted path whose first segment is `first`.
#[verifier::loop_isolation(false)]
pub fn parse_path(tokens: &mut Tokens, first: String) -> (r: Result<Vec<String>, EvalError>)
    requires
        old(tokens).wf(),
    ensures
        final(tokens).wf(),
        final(tokens).chars@ == old(tokens).chars@,
        final(tokens).pos >= old(tokens).pos,
        match spec_parse_path(old(tokens).chars@, old(tokens).pos as int, seq![first@]) {
            FR::Good(path, p) => r matches Ok(v) && v.deep_view() == path && final(tokens).pos
                == p,
            FR::Bad(e) => r matches Err(er) && er@ == e,
        },
{
    let ghost s = tokens.chars@;
    let ghost pos0 = tokens.pos as int;
    let mut path: Vec<String> = Vec::new();
    path.push(first);
    proof {
        assert(path.deep_view() =~= seq![first@]);
    }
    loop
        invariant
            tokens.wf(),
            tokens.chars@ == s,
            tokens.pos >= pos0,
            spec_parse_path(s, tokens.pos as int, path.deep_view()) == spec_parse_path(
                s,
                pos0,
                seq![first@],
            ),
        decreases s.len() - tokens.pos,
    {
        if tokens.next_if_type(TokenType::Dot) {
            let ghost before = path.deep_view();
            match tokens.next() {
                Some(Ok((Token::Word(w), _))) => {
                    let ghost wv = w@;
                    path.push(w);
                    proof {
                        assert(path.deep_view() =~= before.push(wv));
                    }
                },
                Some(Ok((t, p))) => {
                    return Err(unexpected(Some((t, p))));
                },
                Some(Err(e)) => {
                    return Err(e);
                },
                None => {
                    return Err(unexpected(None));
                },
            }
        } else {
            return Ok(path);
        }
    }
}

/// Parse a terminal: a date literal, `always`, `never`, a dotted
/// path, or a parenthesized expression.
pub fn parse_terminal(tokens: &mut Tokens) -> (r: Result<Expr, EvalError>)
    requires
        old(tokens).wf(),
    ensures
        final(tokens).wf(),
        final(tokens).chars@ == old(tokens).chars@,
        final(tokens).pos >= old(tokens).pos,
        r is Ok ==> final(tokens).pos > old(tokens).pos,
        match spec_parse_terminal(old(tokens).chars@, old(tokens).pos as int) {
            PR::Good(se, p) => r matches Ok(e) && expr_view(e) == se && final(tokens).pos == p,
            PR::Bad(e) => r matches Err(er) && er@ == e,
        },
    decreases old(tokens).chars@.len() - old(tokens).pos, 0int,
{
    match tokens.next() {
        Some(Ok((Token::Number(n), p))) => match parse_date(tokens, n, p) {
            Ok(v) => Ok(Expr::Literal { value: v }),
            Err(e) => Err(e),
        },
        Some(Ok((Token::Word(w), _))) => {
            if str_eq(w.as_str(), "always") {
                Ok(Expr::Literal { value: Value::Always })
            } else if str_eq(w.as_str(), "never") {
                Ok(Expr::Literal { value: Value::Never })
            } else {
                match parse_path(tokens, w) {
                    Ok(path) => Ok(Expr::Field { path }),
                    Err(e) => Err(e),
                }
            }
        },
        Some(Ok((Token::LeftParen, _))) => {
            let inner = match parse_add(tokens) {
                Ok(e) => e,
                Err(er) => {
                    return Err(er);
                },
            };
            match expect(tokens, TokenType::RightParen) {
                Ok(()) => Ok(inner),
                Err(er) => Err(er),
            }
        },
        Some(Ok((t, p))) => Err(unexpected(Some((t, p)))),
        Some(Err(e)) => Err(e),
        None => Err(unexpected(None)),
    }
}

/// Parse a `&`-chain.
#[verifier::loop_isolation(false)]
pub fn parse_and(tokens: &mut Tokens) -> (r: Result<Expr, EvalError>)
    requires
        old(tokens).wf(),
    ensures
        final(tokens).wf(),
        final(tokens).chars@ == old(tokens).chars@,
        final(tokens).pos >= old(tokens).pos,
        r is Ok ==> final(tokens).pos > old(tokens).pos,
        match spec_parse_and(old(tokens).chars@, old(tokens).pos as int) {
            PR::Good(se, p) => r matches Ok(e) && expr_view(e) == se && final(tokens).pos == p,
            PR::Bad(e) => r matches Err(er) && er@ == e,
        },
    decreases old(tokens).chars@.len() - old(tokens).pos, 1int,
{
    let ghost s = tokens.chars@;
    let ghost pos0 = tokens.pos as int;
    let mut expr = match parse_terminal(tokens) {
        Ok(e) => e,
        Err(er) => {
            return Err(er);
        },
    };
    loop
        invariant
            tokens.wf(),
            tokens.chars@ == s,
            tokens.pos > pos0,
            spec_parse_and_loop(s, tokens.pos as int, expr_view(expr)) == spec_parse_and(s, pos0),
        decreases s.len() - tokens.pos,
    {
        if tokens.next_if_type(TokenType::And) {
            let right = match parse_terminal(tokens) {
                Ok(e) => e,
                Err(er) => {
                    return Err(er);
                },
            };
            expr = Expr::And { left: Box::new(expr), right: Box::new(right) };
        } else {
            return Ok(expr);
        }
    }
}

/// Parse a `|`-chain.
#[verifier::loop_isolation(false)]
pub fn parse_or(tokens: &mut Tokens) -> (r: Result<Expr, EvalError>)
    requires
        old(tokens).wf(),
    ensures
        final(tokens).wf(),
        final(tokens).chars@ == old(tokens).chars@,
        final(tokens).pos >= old(tokens).pos,
        r is Ok ==> final(tokens).pos > old(tokens).pos,
        match spec_parse_or(old(tokens).chars@, old(tokens).pos as int) {
            PR::Good(se, p) => r matches Ok(e) && expr_view(e) == se && final(tokens).pos == p,
            PR::Bad(e) => r matches Err(er) && er@ == e,
        },
    decreases old(tokens).chars@.len() - old(tokens).pos, 3int,
{
    let ghost s = tokens.chars@;
    let ghost pos0 = tokens.pos as int;
    let mut expr = match parse_and(tokens) {
        Ok(e) => e,
        Err(er) => {
            return Err(er);
        },
    };
    loop
        invariant
            tokens.wf(),
            tokens.chars@ == s,
            tokens.pos > pos0,
            spec_parse_or_loop(s, tokens.pos as int, expr_view(expr)) == spec_parse_or(s, pos0),
        decreases s.len() - tokens.pos,
    {
        if tokens.next_if_type(TokenType::Or) {
            let right = match parse_and(tokens) {
                Ok(e) => e,
                Err(er) => {
                    return Err(er);
                },
            };
            expr = Expr::Or { left: Box::new(expr), right: Box::new(right) };
        } else {
            return Ok(expr);
        }
    }
}

/// Parse a `+`-chain.
#[verifier::loop_isolation(false)]
pub fn parse_add(tokens: &mut Tokens) -> (r: Result<Expr, EvalError>)
    requires
        old(tokens).wf(),
    ensures
        final(tokens).wf(),
        final(tokens).chars@ == old(tokens).chars@,
        final(tokens).pos >= old(tokens).pos,
        r is Ok ==> final(tokens).pos > old(tokens).pos,
        match spec_parse_add(old(tokens).chars@, old(tokens).pos as int) {
            PR::Good(se, p) => r matches Ok(e) && expr_view(e) == se && final(tokens).pos == p,
            PR::Bad(e) => r matches Err(er) && er@ == e,
        },
    decreases old(tokens).chars@.len() - old(tokens).pos, 5int,
{
    let ghost s = tokens.chars@;
    let ghost pos0 = tokens.pos as int;
    let mut expr = match parse_or(tokens) {
        Ok(e) => e,
        Err(er) => {
            return Err(er);
        },
    };
    loop
        invariant
            tokens.wf(),
            tokens.chars@ == s,
            tokens.pos > pos0,
            spec_parse_add_loop(s, tokens.pos as int, expr_view(expr)) == spec_parse_add(s, pos0),
        decreases s.len() - tokens.pos,
    {
        if tokens.next_if_type(TokenType::Plus) {
            let duration = match parse_duration(tokens) {
                Ok(d) => d,
                Err(er) => {
                    return Err(er);
                },
            };
            expr = Expr::Add { value: Box::new(expr), duration };
        } else {
            return Ok(expr);
        }
    }
}

/// Parse a whole temporal expression.
pub fn parse(string: &str) -> (r: Result<Expr, EvalError>)
    ensures
        match spec_parse(string@) {
            Ok(se) => r matches Ok(e) && expr_view(e) == se,
            Err(sp) => r matches Err(er) && er@ == sp,
        },
{
    let mut tokens = Tokens::new(string);
    let expr = match parse_add(&mut tokens) {
        Ok(e) => e,
        Err(er) => {
            return Err(er);
        },
    };
    match expect(&mut tokens, TokenType::Eof) {
        Ok(()) => Ok(expr),
        Err(er) => Err(er),
    }
}

} // verus!
