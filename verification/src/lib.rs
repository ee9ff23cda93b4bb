//! Core engine of a realtime puzzle-hunt server.
//!
//! Widgets are configured with temporal expressions (`always`, `never`,
//! date literals, references to other widgets) that evaluate to a
//! temporal value: always true, true since some instant, or never true.
//! On top of that sit a memoizing cross-widget resolver, the widget
//! state machines, a view renderer with staleness tracking and deltas,
//! the action pipeline's retry policy, and the invalidation fan-out
//! bookkeeping.

pub mod action;
pub mod channel_book;
pub mod chars;
pub mod digits;
pub mod error;
pub mod eval;
pub mod expr;
pub mod game;
pub mod instant;
pub mod parse;
pub mod pipeline;
pub mod render;
pub mod session;
pub mod session_flow;
pub mod solution;
pub mod text;
pub mod toast;
pub mod token;
pub mod value;
pub mod view;
pub mod view_context;
pub mod widget;
