//! The Countdown widget: shows a target time until it passes.

use vstd::prelude::*;

use crate::expr::ExprText;
use crate::instant::Instant;
use crate::text::Text;

verus! {

/// Configuration of a countdown.
#[derive(Debug, Clone)]
pub struct Config {
    pub name: Option<String>,
    pub details: Text,
    pub time: ExprText,
    pub visible: ExprText,
    pub done_text: String,
}

/// A countdown has no per-team state.
#[derive(Debug, Clone)]
pub struct State {}

/// What the countdown currently shows.
#[derive(Debug, Clone)]
pub enum CountdownValue {
    Unknown,
    Time { time: Instant },
    Done { text: String },
}

/// A countdown as rendered.
#[derive(Debug, Clone)]
pub struct View {
    pub name: Option<String>,
    pub details: Vec<String>,
    pub value: CountdownValue,
}

impl Config {
    /// The (empty) default state.
    pub fn default_state(&self) -> (r: State) {
        State {  }
    }
}

impl View {
    /// A countdown moves to the end of the list once it is done.
    pub fn obsolete(&self) -> (r: bool)
        ensures
            r == (self.value is Done),
    {
        match self.value {
            CountdownValue::Done { .. } => true,
            _ => false,
        }
    }
}

} // verus!
