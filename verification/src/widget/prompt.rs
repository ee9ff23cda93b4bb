//! The Prompt widget: a puzzle with solutions and hints.

use vstd::prelude::*;
use vstd::prelude::View as ViewRel;

use crate::expr::ExprText;
use crate::instant::{Duration, Instant};
use crate::solution::Solution;
use crate::text::Text;

verus! {

/// Presentation strings of a prompt.
#[derive(Debug, Clone)]
pub struct Style {
    pub name: String,
    pub prompt: String,
    pub submit_button: Option<String>,
}

/// One configured hint.
#[derive(Debug, Clone)]
pub struct HintConfig {
    pub ident: String,
    pub name: String,
    pub content: Vec<String>,
    pub available: ExprText,
    pub visible: ExprText,
    pub take_button: Option<String>,
    pub on_hint_taken: Option<String>,
}

/// Configuration of a prompt.
#[derive(Debug, Clone)]
pub struct Config {
    pub style: Style,
    pub details: Text,
    pub solutions: Vec<Solution>,
    pub visible: ExprText,
    pub disabled: ExprText,
    pub hints: Vec<HintConfig>,
    pub on_solution_correct: Option<String>,
    pub on_solution_incorrect: Option<String>,
    pub solution_exclusion_group: Option<String>,
}

/// How and when a prompt was solved.
#[derive(Debug, Clone)]
pub struct SolutionDetails {
    pub time: Instant,
    pub canonical_text: String,
}

/// Per-team state of a prompt: whether it is solved and which hints
/// were taken when.
#[derive(Debug, Clone)]
pub struct State {
    pub solved: Option<SolutionDetails>,
    pub hints: Vec<(String, Instant)>,
}

/// What one hint looks like to the team.
#[derive(Debug, Clone)]
pub enum HintStateView {
    Unknown,
    Future { time: Instant },
    Available { button: Option<String> },
    Taken { content: Vec<String> },
}

/// One hint as rendered.
#[derive(Debug, Clone)]
pub struct HintView {
    pub ident: String,
    pub name: String,
    pub state: HintStateView,
}

/// The solving-time summary of a prompt.
#[derive(Debug, Clone)]
pub enum TimeView {
    Solving { since: Instant },
    Solved { after: Duration },
}

/// A prompt as rendered for one team at one instant.
#[derive(Debug, Clone)]
pub struct View {
    pub style: Style,
    pub details: Vec<String>,
    pub disabled: bool,
    pub solution: Option<String>,
    pub hints: Vec<HintView>,
    pub time: Option<TimeView>,
}

impl Config {
    /// The state of a team that has not interacted with the prompt.
    pub fn default_state(&self) -> (r: State)
        ensures
            r.solved is None,
            r.hints@.len() == 0,
    {
        State { solved: None, hints: Vec::new() }
    }
}

impl View {
    /// A prompt view moves to the end of the list once disabled.
    pub fn obsolete(&self) -> (r: bool)
        ensures
            r == self.disabled,
    {
        self.disabled
    }
}

} // verus!
