//! Errors raised while parsing and evaluating temporal expressions.

use vstd::prelude::*;

use crate::token::TokenType;

verus! {

/// Specification-level form of an evaluation error, over character
/// sequences.
pub enum SpecError {
    UnknownPath { path: Seq<Seq<char>> },
    CircularDependency { path: Seq<Seq<char>> },
    UnknownChar { ch: char },
    UnexpectedToken { token: TokenType, pos: Option<int> },
    LiteralOutOfRange { pos: int },
    UnknownUnit { unit: Seq<char> },
}

/// An error from parsing or evaluating a temporal expression.
///
/// `UnknownPath` and `CircularDependency` name the dotted path as a
/// list of segments; positions are character indices into the source.
#[derive(Debug, Clone)]
pub enum EvalError {
    UnknownPath { path: Vec<String> },
    CircularDependency { path: Vec<String> },
    UnknownChar { ch: char },
    UnexpectedToken { token: TokenType, pos: Option<usize> },
    LiteralOutOfRange { pos: usize },
    UnknownUnit { unit: String },
}

/// A stored widget state does not match the kind of the current
/// configuration.
#[derive(Debug, Clone, Copy, PartialEq, Eq, Structural, Default)]
pub struct StateMismatchError {}

/// Why an action could not be carried out.
#[derive(Debug, Clone)]
pub enum ActionError {
    /// The addressed widget does not exist.
    UnknownIdent,
    /// The widget does not accept this kind of action.
    WidgetMismatch,
    /// The action cannot currently be sent to the widget.
    NotPossible,
    /// Evaluating a configured expression failed.
    Eval(EvalError),
}

impl View for EvalError {
    type V = SpecError;

    open spec fn view(&self) -> SpecError {
        match self {
            EvalError::UnknownPath { path } => SpecError::UnknownPath { path: path.deep_view() },
            EvalError::CircularDependency { path } => SpecError::CircularDependency {
                path: path.deep_view(),
            },
            EvalError::UnknownChar { ch } => SpecError::UnknownChar { ch: *ch },
            EvalError::UnexpectedToken { token, pos } => SpecError::UnexpectedToken {
                token: *token,
                pos: match pos {
                    Some(p) => Some(*p as int),
                    None => None,
                },
            },
            EvalError::LiteralOutOfRange { pos } => SpecError::LiteralOutOfRange { pos: *pos as int },
            EvalError::UnknownUnit { unit } => SpecError::UnknownUnit { unit: unit@ },
        }
    }
}

} // verus!
