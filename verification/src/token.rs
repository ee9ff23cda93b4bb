//! The tokenizer for temporal expressions.
//!
//! Tokens are words, unsigned decimal numbers (`_` allowed between
//! digits), and single-character punctuation. Whitespace separates
//! tokens. The stream is lazy: a bad character is reported only when
//! the parser reaches it.

use vstd::prelude::*;

use crate::chars::{alnum, alpha, is_alphabetic_char, is_alphanumeric_char, is_whitespace_char,
    wsp, chars_to_string, str_to_chars};
use crate::error::{EvalError, SpecError};

verus! {

/// One token of a temporal expression.
#[derive(Debug, Clone)]
pub enum Token {
    Word(String),
    Number(u64),
    And,
    Or,
    Plus,
    Dash,
    Colon,
    Dot,
    LeftParen,
    RightParen,
}

/// Specification-level form of a token, over character sequences.
pub enum SpecTok {
    Word(Seq<char>),
    Number(u64),
    And,
    Or,
    Plus,
    Dash,
    Colon,
    Dot,
    LeftParen,
    RightParen,
}

impl View for Token {
    type V = SpecTok;

    open spec fn view(&self) -> SpecTok {
        match self {
            Token::Word(w) => SpecTok::Word(w@),
            Token::Number(n) => SpecTok::Number(*n),
            Token::And => SpecTok::And,
            Token::Or => SpecTok::Or,
            Token::Plus => SpecTok::Plus,
            Token::Dash => SpecTok::Dash,
            Token::Colon => SpecTok::Colon,
            Token::Dot => SpecTok::Dot,
            Token::LeftParen => SpecTok::LeftParen,
            Token::RightParen => SpecTok::RightParen,
        }
    }
}

/// The kind of a token, with `Eof` for the end of the stream.
#[derive(Debug, Clone, Copy, PartialEq, Eq, Hash, Structural)]
pub enum TokenType {
    Word,
    Number,
    And,
    Or,
    Plus,
    Dash,
    Colon,
    Dot,
    LeftParen,
    RightParen,
    Eof,
}

/// The kind of a specification-level token.
pub open spec fn spec_token_type(t: SpecTok) -> TokenType {
    match t {
        SpecTok::Word(_) => TokenType::Word,
        SpecTok::Number(_) => TokenType::Number,
        SpecTok::And => TokenType::And,
        SpecTok::Or => TokenType::Or,
        SpecTok::Plus => TokenType::Plus,
        SpecTok::Dash => TokenType::Dash,
        SpecTok::Colon => TokenType::Colon,
        SpecTok::Dot => TokenType::Dot,
        SpecTok::LeftParen => TokenType::LeftParen,
        SpecTok::RightParen => TokenType::RightParen,
    }
}

impl TokenType {
    /// The kind of `token`, or `Eof` for `None`.
    pub fn new(token: Option<&Token>) -> (r: TokenType)
        ensures
            r == match token {
                Some(t) => spec_token_type(t@),
                None => TokenType::Eof,
            },
    {
        match token {
            Some(Token::Word(_)) => TokenType::Word,
            Some(Token::Number(_)) => TokenType::Number,
            Some(Token::And) => TokenType::And,
            Some(Token::Or) => TokenType::Or,
            Some(Token::Plus) => TokenType::Plus,
            Some(Token::Dash) => TokenType::Dash,
            Some(Token::Colon) => TokenType::Colon,
            Some(Token::Dot) => TokenType::Dot,
            Some(Token::LeftParen) => TokenType::LeftParen,
            Some(Token::RightParen) => TokenType::RightParen,
            None => TokenType::Eof,
        }
    }

    /// A short description of the kind, for error messages.
    pub fn describe(&self) -> (r: &'static str)
    {
        match *self {
            TokenType::Word => "word",
            TokenType::Number => "number",
            TokenType::And => "'&'",
            TokenType::Or => "'|'",
            TokenType::Plus => "'+'",
            TokenType::Dash => "'-'",
            TokenType::Colon => "':'",
            TokenType::Dot => "'.'",
            TokenType::LeftParen => "'('",
            TokenType::RightParen => "')'",
            TokenType::Eof => "EOF",
        }
    }
}

/// The first index at or after `i` that holds a non-whitespace
/// character, or the length of `s`.
pub open spec fn skip_ws(s: Seq<char>, i: int) -> int
    decreases s.len() - i,
{
    if i < 0 || i >= s.len() {
        s.len() as int
    } else if wsp(s[i]) {
        skip_ws(s, i + 1)
    } else {
        i
    }
}

/// Outcome of scanning the remaining digits of a number: the index
/// after the number and its value, or the index after the digit on
/// which the value stopped fitting in 64 bits.
pub enum NumScan {
    Done(int, u64),
    Overflow(int),
}

/// Scan digits (and ignored `_` separators) from `i`, accumulating
/// onto `acc`.
pub open spec fn scan_number(s: Seq<char>, i: int, acc: u64) -> NumScan
    decreases s.len() - i,
{
    if i < 0 || i >= s.len() {
        NumScan::Done(if i < 0 { i } else { s.len() as int }, acc)
    } else if '0' <= s[i] && s[i] <= '9' {
        let v = (s[i] as u64) - ('0' as u64);
        if acc * 10 + v > u64::MAX {
            NumScan::Overflow(i + 1)
        } else {
            scan_number(s, i + 1, (acc * 10 + v) as u64)
        }
    } else if s[i] == '_' {
        scan_number(s, i + 1, acc)
    } else {
        NumScan::Done(i, acc)
    }
}

/// The first index at or after `i` where a word ends: a character
/// that is not alphanumeric, `-` or `_`, or the length of `s`.
pub open spec fn scan_word_end(s: Seq<char>, i: int) -> int
    decreases s.len() - i,
{
    if i < 0 || i >= s.len() {
        s.len() as int
    } else if alnum(s[i]) || s[i] == '-' || s[i] == '_' {
        scan_word_end(s, i + 1)
    } else {
        i
    }
}

/// Outcome of one scanning step: a token with its position and the
/// position after it, an error with the position after it, or the end
/// of the input.
pub enum ScanResult {
    Token(SpecTok, int, int),
    Error(SpecError, int),
    End,
}

/// Scan one token starting at `pos`.
pub open spec fn spec_scan(s: Seq<char>, pos: int) -> ScanResult {
    let i = skip_ws(s, pos);
    if i >= s.len() {
        ScanResult::End
    } else {
        let c = s[i];
        if '0' <= c && c <= '9' {
            match scan_number(s, i + 1, ((c as u64) - ('0' as u64)) as u64) {
                NumScan::Done(j, n) => ScanResult::Token(SpecTok::Number(n), i, j),
                NumScan::Overflow(j) => ScanResult::Error(
                    SpecError::LiteralOutOfRange { pos: i },
                    j,
                ),
            }
        } else if alpha(c) || c == '_' {
            let j = scan_word_end(s, i + 1);
            ScanResult::Token(SpecTok::Word(s.subrange(i, j)), i, j)
        } else if c == '|' {
            ScanResult::Token(SpecTok::Or, i, i + 1)
        } else if c == '&' {
            ScanResult::Token(SpecTok::And, i, i + 1)
        } else if c == '+' {
            ScanResult::Token(SpecTok::Plus, i, i + 1)
        } else if c == '-' {
            ScanResult::Token(SpecTok::Dash, i, i + 1)
        } else if c == ':' {
            ScanResult::Token(SpecTok::Colon, i, i + 1)
        } else if c == '.' {
            ScanResult::Token(SpecTok::Dot, i, i + 1)
        } else if c == '(' {
            ScanResult::Token(SpecTok::LeftParen, i, i + 1)
        } else if c == ')' {
            ScanResult::Token(SpecTok::RightParen, i, i + 1)
        } else {
            ScanResult::Error(SpecError::UnknownChar { ch: c }, i + 1)
        }
    }
}

/// Skipping whitespace stays within the input.
pub proof fn lemma_skip_ws_bounds(s: Seq<char>, i: int)
    requires
        0 <= i <= s.len(),
    ensures
        i <= skip_ws(s, i) <= s.len(),
    decreases s.len() - i,
{
    if i < s.len() && wsp(s[i]) {
        lemma_skip_ws_bounds(s, i + 1);
    }
}

/// Scanning a number stays within the input.
pub proof fn lemma_scan_number_bounds(s: Seq<char>, i: int, acc: u64)
    requires
        0 <= i <= s.len(),
    ensures
        match scan_number(s, i, acc) {
            NumScan::Done(j, _) => i <= j <= s.len(),
            NumScan::Overflow(j) => i < j <= s.len(),
        },
    decreases s.len() - i,
{
    if i < s.len() {
        if '0' <= s[i] && s[i] <= '9' {
            let v = (s[i] as u64) - ('0' as u64);
            if !(acc * 10 + v > u64::MAX) {
                lemma_scan_number_bounds(s, i + 1, (acc * 10 + v) as u64);
            }
        } else if s[i] == '_' {
            lemma_scan_number_bounds(s, i + 1, acc);
        }
    }
}

/// Scanning a word stays within the input.
pub proof fn lemma_scan_word_bounds(s: Seq<char>, i: int)
    requires
        0 <= i <= s.len(),
    ensures
        i <= scan_word_end(s, i) <= s.len(),
    decreases s.len() - i,
{
    if i < s.len() && (alnum(s[i]) || s[i] == '-' || s[i] == '_') {
        lemma_scan_word_bounds(s, i + 1);
    }
}

/// One scanning step stays within the input and, when it yields
/// something, consumes at least one character.
pub proof fn lemma_scan_bounds(s: Seq<char>, pos: int)
    requires
        0 <= pos <= s.len(),
    ensures
        match spec_scan(s, pos) {
            ScanResult::Token(t, p, j) => pos <= p < j <= s.len(),
            ScanResult::Error(e, j) => pos < j <= s.len(),
            ScanResult::End => true,
        },
    decreases s.len() - pos,
{
    lemma_skip_ws_bounds(s, pos);
    let i = skip_ws(s, pos);
    if i < s.len() {
        let c = s[i];
        if '0' <= c && c <= '9' {
            lemma_scan_number_bounds(s, i + 1, ((c as u64) - ('0' as u64)) as u64);
        } else if alpha(c) || c == '_' {
            lemma_scan_word_bounds(s, i + 1);
        }
    }
}

/// A scanning step outside the input yields `End`.
pub proof fn lemma_scan_out_of_range(s: Seq<char>, pos: int)
    requires
        pos < 0 || pos > s.len(),
    ensures
        spec_scan(s, pos) == ScanResult::End,
{
}

/// What `Tokens::next` leaves behind, given the input and the
/// position it started from: the returned item and the new position
/// follow `spec_scan`.
pub open spec fn scan_post(
    s: Seq<char>,
    pos: int,
    r: Option<Result<(Token, usize), EvalError>>,
    new_pos: int,
) -> bool {
    match spec_scan(s, pos) {
        ScanResult::Token(t, p, j) => {
            &&& r matches Some(Ok((tok, pp))) && tok@ == t && pp == p
            &&& new_pos == j
        },
        ScanResult::Error(e, j) => {
            &&& r matches Some(Err(er)) && er@ == e
            &&& new_pos == j
        },
        ScanResult::End => r is None && new_pos == s.len(),
    }
}

/// A lazy token stream over the characters of an expression.
pub struct Tokens {
    pub chars: Vec<char>,
    pub pos: usize,
}

impl Tokens {
    /// The stream is within bounds of its input.
    pub open spec fn wf(&self) -> bool {
        self.pos <= self.chars@.len()
    }

    /// A stream over the characters of `string`, at the start.
    pub fn new(string: &str) -> (r: Tokens)
        ensures
            r.chars@ == string@,
            r.pos == 0,
            r.wf(),
    {
        Tokens { chars: str_to_chars(string), pos: 0 }
    }

    /// Scan the rest of a number whose digits so far have value `first`.
    #[verifier::loop_isolation(false)]
    fn parse_number(&mut self, first: u64, start: usize) -> (r: Result<Token, EvalError>)
        requires
            old(self).wf(),
        ensures
            final(self).wf(),
            final(self).chars@ == old(self).chars@,
            final(self).pos >= old(self).pos,
            match scan_number(old(self).chars@, old(self).pos as int, first) {
                NumScan::Done(j, n) => r matches Ok(t) && t@ == SpecTok::Number(n) && final(self).pos == j,
                NumScan::Overflow(j) => {
                    &&& r matches Err(e) && e@ == (SpecError::LiteralOutOfRange {
                        pos: start as int,
                    })
                    &&& final(self).pos == j
                },
            },
    {
        let ghost s = self.chars@;
        let ghost pos0 = self.pos as int;
        let mut acc: u64 = first;
        loop
            invariant
                self.chars@ == s,
                self.wf(),
                pos0 <= self.pos,
                scan_number(s, self.pos as int, acc) == scan_number(s, pos0, first),
            decreases s.len() - self.pos,
        {
            if self.pos >= self.chars.len() {
                return Ok(Token::Number(acc));
            }
            let c = self.chars[self.pos];
            if '0' <= c && c <= '9' {
                let v: u64 = c as u64 - '0' as u64;
                let next = match acc.checked_mul(10) {
                    Some(m) => m.checked_add(v),
                    None => None,
                };
                match next {
                    Some(m) => {
                        self.pos = self.pos + 1;
                        acc = m;
                    },
                    None => {
                        self.pos = self.pos + 1;
                        return Err(EvalError::LiteralOutOfRange { pos: start });
                    },
                }
            } else if c == '_' {
                self.pos = self.pos + 1;
            } else {
                return Ok(Token::Number(acc));
            }
        }
    }

    /// Scan the rest of a word whose first character stands at `start`.
    #[verifier::loop_isolation(false)]
    fn parse_word(&mut self, start: usize) -> (r: Token)
        requires
            old(self).wf(),
            start < old(self).pos,
        ensures
            final(self).wf(),
            final(self).chars@ == old(self).chars@,
            final(self).pos >= old(self).pos,
            final(self).pos == scan_word_end(old(self).chars@, old(self).pos as int),
            r@ == SpecTok::Word(old(self).chars@.subrange(start as int, final(self).pos as int)),
    {
        let ghost s = self.chars@;
        let ghost pos0 = self.pos as int;
        let mut word: Vec<char> = Vec::new();
        let mut i: usize = start;
        while i < self.pos
            invariant
                self.chars@ == s,
                self.wf(),
                start <= i <= self.pos,
                word@ == s.subrange(start as int, i as int),
            decreases self.pos - i,
        {
            word.push(self.chars[i]);
            i = i + 1;
            proof {
                assert(word@ =~= s.subrange(start as int, i as int));
            }
        }
        loop
            invariant
                self.chars@ == s,
                self.wf(),
                pos0 <= self.pos,
                scan_word_end(s, self.pos as int) == scan_word_end(s, pos0),
                word@ == s.subrange(start as int, self.pos as int),
            decreases s.len() - self.pos,
        {
            if self.pos >= self.chars.len() {
                break;
            }
            let c = self.chars[self.pos];
            if is_alphanumeric_char(c) || c == '-' || c == '_' {
                word.push(c);
                self.pos = self.pos + 1;
                proof {
                    assert(word@ =~= s.subrange(start as int, self.pos as int));
                }
            } else {
                break;
            }
        }
        Token::Word(chars_to_string(&word))
    }

    /// The next token, an error, or `None` at the end of the input.
    #[verifier::loop_isolation(false)]
    pub fn next(&mut self) -> (r: Option<Result<(Token, usize), EvalError>>)
        requires
            old(self).wf(),
        ensures
            final(self).wf(),
            final(self).chars@ == old(self).chars@,
            final(self).pos >= old(self).pos,
            r is Some ==> final(self).pos > old(self).pos,
            scan_post(old(self).chars@, old(self).pos as int, r, final(self).pos as int),
    {
        let ghost s = self.chars@;
        let ghost pos0 = self.pos as int;
        while self.pos < self.chars.len() && is_whitespace_char(self.chars[self.pos])
            invariant
                self.chars@ == s,
                self.wf(),
                pos0 <= self.pos,
                skip_ws(s, self.pos as int) == skip_ws(s, pos0),
            decreases s.len() - self.pos,
        {
            self.pos = self.pos + 1;
        }
        if self.pos >= self.chars.len() {
            return None;
        }
        let start = self.pos;
        let c = self.chars[start];
        if '0' <= c && c <= '9' {
            self.pos = self.pos + 1;
            match self.parse_number(c as u64 - '0' as u64, start) {
                Ok(t) => Some(Ok((t, start))),
                Err(e) => Some(Err(e)),
            }
        } else if is_alphabetic_char(c) || c == '_' {
            self.pos = self.pos + 1;
            let t = self.parse_word(start);
            Some(Ok((t, start)))
        } else if c == '|' {
            self.pos = self.pos + 1;
            Some(Ok((Token::Or, start)))
        } else if c == '&' {
            self.pos = self.pos + 1;
            Some(Ok((Token::And, start)))
        } else if c == '+' {
            self.pos = self.pos + 1;
            Some(Ok((Token::Plus, start)))
        } else if c == '-' {
            self.pos = self.pos + 1;
            Some(Ok((Token::Dash, start)))
        } else if c == ':' {
            self.pos = self.pos + 1;
            Some(Ok((Token::Colon, start)))
        } else if c == '.' {
            self.pos = self.pos + 1;
            Some(Ok((Token::Dot, start)))
        } else if c == '(' {
            self.pos = self.pos + 1;
            Some(Ok((Token::LeftParen, start)))
        } else if c == ')' {
            self.pos = self.pos + 1;
            Some(Ok((Token::RightParen, start)))
        } else {
            self.pos = self.pos + 1;
            Some(Err(EvalError::UnknownChar { ch: c }))
        }
    }

    /// Consume the next token when it is a token of kind `tt`;
    /// otherwise leave the stream as it stands.
    pub fn next_if_type(&mut self, tt: TokenType) -> (r: bool)
        requires
            old(self).wf(),
            tt != TokenType::Eof,
        ensures
            final(self).wf(),
            final(self).chars@ == old(self).chars@,
            final(self).pos >= old(self).pos,
            match spec_scan(old(self).chars@, old(self).pos as int) {
                ScanResult::Token(t, p, j) => if spec_token_type(t) == tt {
                    r && final(self).pos == j
                } else {
                    !r && final(self).pos == old(self).pos
                },
                _ => !r && final(self).pos == old(self).pos,
            },
    {
        let save = self.pos;
        let item = self.next();
        let matched = match &item {
            Some(Ok((t, _))) => TokenType::new(Some(t)) == tt,
            _ => false,
        };
        if !matched {
            self.pos = save;
        }
        matched
    }

    /// The value and position of the next token when it is a number,
    /// without consuming anything.
    pub fn peek_number(&mut self) -> (r: Option<(u64, usize)>)
        requires
            old(self).wf(),
        ensures
            final(self).wf(),
            final(self).chars@ == old(self).chars@,
            final(self).pos == old(self).pos,
            match spec_scan(old(self).chars@, old(self).pos as int) {
                ScanResult::Token(t, p, j) => match t {
                    SpecTok::Number(n) => r matches Some(x) && x.0 == n && x.1 as int == p,
                    _ => r is None,
                },
                _ => r is None,
            },
    {
        let save = self.pos;
        let item = self.next();
        self.pos = save;
        match item {
            Some(Ok((Token::Number(n), p))) => Some((n, p)),
            _ => None,
        }
    }
}

} // verus!
