//! Session tokens and the types of the login and request-auth
//! surface.
//!
//! A token is 16 random bytes from a cryptographically secure
//! source, carried on the wire as 22 characters of unpadded URL-safe
//! Base64.

use vstd::prelude::*;

use base64::Engine;

verus! {

/// How many random bytes a session token holds.
pub const SESSION_BYTES: usize = 16;

/// The unpadded URL-safe Base64 form of a byte sequence.
pub uninterp spec fn b64url_of(bytes: Seq<u8>) -> Seq<char>;

/// Relies on base64's URL_SAFE_NO_PAD engine: encodes the bytes
/// without padding, four characters per three bytes, so 22
/// characters for 16 bytes.
#[verifier::external_body]
fn b64_encode16(bytes: &[u8; 16]) -> (r: String)
    ensures
        r@ == b64url_of(bytes@),
        r@.len() == 22,
{
    base64::engine::general_purpose::URL_SAFE_NO_PAD.encode(bytes)
}

/// Relies on base64's URL_SAFE_NO_PAD engine: decoding rejects
/// padding and nonzero trailing bits, so it accepts exactly the
/// canonical encodings and inverts the encoder: the encoding of any
/// 16 bytes decodes back to exactly those bytes.
#[verifier::external_body]
fn b64_decode16(s: &str) -> (r: Result<[u8; 16], ParseSessionError>)
    ensures
        r matches Ok(v) ==> s@ == b64url_of(v@) && (forall|b: Seq<u8>|
            b.len() == 16 && s@ == b64url_of(b) ==> b == v@),
        r is Err ==> forall|b: Seq<u8>| !(b.len() == 16 && s@ == b64url_of(b)),
{
    match base64::engine::general_purpose::URL_SAFE_NO_PAD.decode(s) {
        Ok(v) => match <[u8; 16]>::try_from(v) {
            Ok(a) => Ok(a),
            Err(_) => Err(ParseSessionError::BadLength),
        },
        Err(_) => Err(ParseSessionError::InvalidBase64),
    }
}

/// Relies on getrandom::fill: 16 bytes from the system's secure
/// random source; nothing is promised of their value.
#[verifier::external_body]
fn random_bytes16() -> (r: Option<[u8; 16]>)
{
    let mut buf = [0u8; 16];
    match getrandom::fill(&mut buf) {
        Ok(()) => Some(buf),
        Err(_) => None,
    }
}

/// Why a token string could not be read.
#[derive(Debug, Clone, Copy, PartialEq, Eq, Structural)]
pub enum ParseSessionError {
    InvalidBase64,
    BadLength,
}

/// An opaque session token.
#[derive(Debug, Clone, Copy, PartialEq, Eq)]
pub struct SessionToken(pub [u8; 16]);

impl SessionToken {
    /// A fresh random token, or `None` when the system's random
    /// source fails.
    pub fn new() -> (r: Option<SessionToken>) {
        match random_bytes16() {
            Some(bytes) => Some(SessionToken(bytes)),
            None => None,
        }
    }

    /// The token's wire form: 22 characters of unpadded URL-safe
    /// Base64.
    pub fn to_string(&self) -> (r: String)
        ensures
            r@ == b64url_of(self.0@),
            r@.len() == 22,
    {
        b64_encode16(&self.0)
    }

    /// Read a token back from its wire form: the input must be the
    /// canonical encoding of 16 bytes, and the encoding of any token
    /// reads back as exactly that token.
    pub fn from_str(s: &str) -> (r: Result<SessionToken, ParseSessionError>)
        ensures
            r matches Ok(t) ==> s@ == b64url_of(t.0@) && (forall|b: Seq<u8>|
                b.len() == 16 && s@ == b64url_of(b) ==> b == t.0@),
            r is Err ==> forall|b: Seq<u8>| !(b.len() == 16 && s@ == b64url_of(b)),
    {
        match b64_decode16(s) {
            Ok(bytes) => Ok(SessionToken(bytes)),
            Err(e) => Err(e),
        }
    }
}

/// An authenticated session: which game and team the caller is.
#[derive(Debug, Clone, Copy, PartialEq, Eq, Structural)]
pub struct Session {
    pub game: u128,
    pub team: u128,
}

/// The game as shown to a logged-in team.
#[derive(Debug, Clone)]
pub struct GameInfo {
    pub name: String,
}

/// The team as shown to itself.
#[derive(Debug, Clone)]
pub struct TeamInfo {
    pub name: String,
    pub game: GameInfo,
}

/// A login request: the team's access code.
#[derive(Debug, Clone)]
pub struct LoginRequest {
    pub access_code: String,
}

/// The answer to a login request.
#[derive(Debug)]
pub enum LoginResponse {
    IncorrectCode,
    Success { token: SessionToken, team: TeamInfo },
}

/// Why a request's session could not be established.
#[derive(Debug, Clone, Copy, PartialEq, Eq, Structural)]
pub enum SessionError {
    NoAuthHeader,
    MalformedToken,
    InvalidToken,
}

impl SessionError {
    /// The structured reason sent with the refusal.
    pub fn reason(&self) -> (r: &'static str)
        ensures
            self is NoAuthHeader ==> r@ == "no-auth-header"@,
            self is MalformedToken ==> r@ == "malformed-token"@,
            self is InvalidToken ==> r@ == "invalid-token"@,
    {
        match self {
            SessionError::NoAuthHeader => "no-auth-header",
            SessionError::MalformedToken => "malformed-token",
            SessionError::InvalidToken => "invalid-token",
        }
    }
}

/// Why a token could not be taken from the request's headers.
#[derive(Debug, Clone, Copy, PartialEq, Eq, Structural)]
pub enum SessionTokenExtractError {
    NoAuthHeader,
    MalformedToken,
}

/// Why a forwarded client address could not be read.
#[derive(Debug, Clone, Copy, PartialEq, Eq, Structural)]
pub enum RealIpError {
    NoHeader,
    MalformedHeader,
    NoFor,
}

/// The messages of the invalidation channel: a whole game changed,
/// or one team's state did.
#[derive(Debug, Clone, Copy, PartialEq, Eq, Structural)]
pub enum InvalidateMessage {
    Game { game: u128 },
    Team { game: u128, team: u128 },
}

/// Where the invalidation listener routes a message: either every
/// session of a game, or the sessions of one team.
#[derive(Debug, Clone, Copy, PartialEq, Eq, Structural)]
pub enum InvalidateTarget {
    Game { game: u128 },
    Team { game: u128, team: u128 },
}

/// Route one invalidation message to its fan-out target.
pub fn route_invalidation(m: InvalidateMessage) -> (r: InvalidateTarget)
    ensures
        m matches InvalidateMessage::Game { game } ==> r == (InvalidateTarget::Game { game }),
        m matches InvalidateMessage::Team { game, team } ==> r == (InvalidateTarget::Team {
            game,
            team,
        }),
{
    match m {
        InvalidateMessage::Game { game } => InvalidateTarget::Game { game },
        InvalidateMessage::Team { game, team } => InvalidateTarget::Team { game, team },
    }
}

} // verus!
