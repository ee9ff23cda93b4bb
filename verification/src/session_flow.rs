//! The sync session's protocol decisions: what one WebSocket event
//! means before authentication and while live.
//!
//! The surrounding loop performs the transport work; these functions
//! decide, exactly and totally, how each event advances the session.

use vstd::prelude::*;

use crate::session::SessionToken;

verus! {

/// A parsed client message.
#[derive(Debug, Clone, Copy)]
pub enum ClientMessage {
    Auth { token: SessionToken, compress: bool },
    Ping,
}

/// One event while waiting for authentication.
#[derive(Debug, Clone, Copy)]
pub enum AuthEvent {
    /// A parseable client message arrived.
    Message(ClientMessage),
    /// A text frame arrived that is no message.
    Malformed,
    /// A non-text frame arrived.
    OtherFrame,
    /// The client closed the stream.
    Closed,
}

/// What to do with an event while waiting for authentication.
#[derive(Debug, Clone, Copy)]
pub enum AuthStep {
    /// Authentication received: look the token up and go live.
    Authenticate { token: SessionToken, compress: bool },
    /// Answer the ping and keep waiting.
    SendPong,
    /// Tell the client its message was malformed, then close.
    SendMalformedAndClose,
    /// Ignore the frame and keep waiting.
    Ignore,
    /// The session is over.
    Close,
}

/// Decide one pre-authentication step.
pub fn wait_auth_step(e: AuthEvent) -> (r: AuthStep)
    ensures
        e matches AuthEvent::Message(ClientMessage::Auth { token, compress }) ==> r
            == (AuthStep::Authenticate { token, compress }),
        e matches AuthEvent::Message(ClientMessage::Ping) ==> r is SendPong,
        e is Malformed ==> r is SendMalformedAndClose,
        e is OtherFrame ==> r is Ignore,
        e is Closed ==> r is Close,
{
    match e {
        AuthEvent::Message(ClientMessage::Auth { token, compress }) => AuthStep::Authenticate {
            token,
            compress,
        },
        AuthEvent::Message(ClientMessage::Ping) => AuthStep::SendPong,
        AuthEvent::Malformed => AuthStep::SendMalformedAndClose,
        AuthEvent::OtherFrame => AuthStep::Ignore,
        AuthEvent::Closed => AuthStep::Close,
    }
}

/// How current the session's last render still is.
#[derive(Debug, Clone, Copy, PartialEq, Eq, Structural)]
pub enum Validity {
    /// Nothing calls for work.
    Valid,
    /// The staleness deadline passed: re-render from held state.
    Expired,
    /// An invalidation arrived: reload from storage, then re-render.
    StateChanged,
}

/// One event while live.
#[derive(Debug, Clone, Copy)]
pub enum LiveEvent {
    /// A parseable client message arrived.
    Message(ClientMessage),
    /// A text frame arrived that is no message.
    Malformed,
    /// A non-text frame arrived.
    OtherFrame,
    /// The client closed the stream.
    Closed,
    /// An invalidation signal fired.
    Invalidated,
    /// The broadcast lagged: signals were lost, but the next real
    /// one or the deadline will catch the session up.
    Lagged,
    /// The broadcast channel closed.
    ChannelClosed,
    /// The staleness deadline fired.
    Deadline,
}

/// What to do with an event while live.
#[derive(Debug, Clone, Copy)]
pub enum LiveStep {
    /// Keep going, with this view validity.
    Continue { validity: Validity, reply_pong: bool },
    /// Tell the client its message was malformed, then close.
    SendMalformedAndClose,
    /// The session is over.
    Terminate,
}

/// Decide one live step. A repeated authentication is ignored, lag
/// is treated as still valid, and only an invalidation forces a
/// reload from storage.
pub fn live_step(e: LiveEvent) -> (r: LiveStep)
    ensures
        e matches LiveEvent::Message(ClientMessage::Auth { .. }) ==> r == (LiveStep::Continue {
            validity: Validity::Valid,
            reply_pong: false,
        }),
        e matches LiveEvent::Message(ClientMessage::Ping) ==> r == (LiveStep::Continue {
            validity: Validity::Valid,
            reply_pong: true,
        }),
        e is Malformed ==> r is SendMalformedAndClose,
        e is OtherFrame ==> r == (LiveStep::Continue {
            validity: Validity::Valid,
            reply_pong: false,
        }),
        e is Closed ==> r is Terminate,
        e is Invalidated ==> r == (LiveStep::Continue {
            validity: Validity::StateChanged,
            reply_pong: false,
        }),
        e is Lagged ==> r == (LiveStep::Continue {
            validity: Validity::Valid,
            reply_pong: false,
        }),
        e is ChannelClosed ==> r is Terminate,
        e is Deadline ==> r == (LiveStep::Continue {
            validity: Validity::Expired,
            reply_pong: false,
        }),
{
    match e {
        LiveEvent::Message(ClientMessage::Auth { .. }) => LiveStep::Continue {
            validity: Validity::Valid,
            reply_pong: false,
        },
        LiveEvent::Message(ClientMessage::Ping) => LiveStep::Continue {
            validity: Validity::Valid,
            reply_pong: true,
        },
        LiveEvent::Malformed => LiveStep::SendMalformedAndClose,
        LiveEvent::OtherFrame => LiveStep::Continue {
            validity: Validity::Valid,
            reply_pong: false,
        },
        LiveEvent::Closed => LiveStep::Terminate,
        LiveEvent::Invalidated => LiveStep::Continue {
            validity: Validity::StateChanged,
            reply_pong: false,
        },
        LiveEvent::Lagged => LiveStep::Continue {
            validity: Validity::Valid,
            reply_pong: false,
        },
        LiveEvent::ChannelClosed => LiveStep::Terminate,
        LiveEvent::Deadline => LiveStep::Continue {
            validity: Validity::Expired,
            reply_pong: false,
        },
    }
}

/// How long to sleep towards a deadline this many milliseconds away:
/// bounded between ten milliseconds and ten seconds, so that clock
/// changes cannot starve the session.
pub fn sleep_chunk_millis(remaining: u64) -> (r: u64)
    ensures
        r == if remaining > 10_000 {
            10_000u64
        } else if remaining < 10 {
            10u64
        } else {
            remaining
        },
{
    if remaining > 10_000 {
        10_000
    } else if remaining < 10 {
        10
    } else {
        remaining
    }
}

} // verus!
