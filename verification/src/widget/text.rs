//! The Text widget: static content with visibility control.

use vstd::prelude::*;

use crate::expr::ExprText;

verus! {

/// Configuration of a text widget.
#[derive(Debug, Clone)]
pub struct Config {
    pub heading: Option<String>,
    pub content: Vec<String>,
    pub visible: ExprText,
    pub obsolete: ExprText,
}

/// A text widget has no per-team state.
#[derive(Debug, Clone)]
pub struct State {}

/// A text widget as rendered.
#[derive(Debug, Clone)]
pub struct View {
    pub heading: Option<String>,
    pub content: Vec<String>,
    pub obsolete: bool,
}

impl Config {
    /// The (empty) default state.
    pub fn default_state(&self) -> (r: State) {
        State {  }
    }
}

impl View {
    /// A text view moves to the end of the list once obsolete.
    pub fn obsolete(&self) -> (r: bool)
        ensures
            r == self.obsolete,
    {
        self.obsolete
    }
}

} // verus!
