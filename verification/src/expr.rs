//! The abstract syntax of temporal expressions.

use vstd::prelude::*;

use crate::instant::Duration;
use crate::value::Value;

verus! {

/// A parsed temporal expression.
#[derive(Debug)]
pub enum Expr {
    /// A literal value: `always`, `never`, or a date.
    Literal { value: Value },
    /// A dotted path referring to another widget's property.
    Field { path: Vec<String> },
    /// Conjunction `left & right`.
    And { left: Box<Expr>, right: Box<Expr> },
    /// Disjunction `left | right`.
    Or { left: Box<Expr>, right: Box<Expr> },
    /// `value + duration`.
    Add { value: Box<Expr>, duration: Duration },
}

/// Specification-level form of an expression, over character
/// sequences.
pub enum SpecExpr {
    Literal(Value),
    Field(Seq<Seq<char>>),
    And(Box<SpecExpr>, Box<SpecExpr>),
    Or(Box<SpecExpr>, Box<SpecExpr>),
    Add(Box<SpecExpr>, Duration),
}

/// The source text of a temporal expression, as stored in widget
/// configuration. It is parsed each time it is evaluated.
#[derive(Debug, Clone)]
pub struct ExprText {
    pub text: String,
}

impl ExprText {
    /// The expression that never holds.
    pub fn never() -> (r: ExprText)
        ensures
            r.text@ == "never"@,
    {
        ExprText { text: "never".to_owned() }
    }

    /// The expression that always holds.
    pub fn always() -> (r: ExprText)
        ensures
            r.text@ == "always"@,
    {
        ExprText { text: "always".to_owned() }
    }

    /// An expression from its source text.
    pub fn new(text: String) -> (r: ExprText)
        ensures
            r.text@ == text@,
    {
        ExprText { text }
    }
}

/// The specification-level form of `e`.
pub open spec fn expr_view(e: Expr) -> SpecExpr
    decreases e,
{
    match e {
        Expr::Literal { value } => SpecExpr::Literal(value),
        Expr::Field { path } => SpecExpr::Field(path.deep_view()),
        Expr::And { left, right } => SpecExpr::And(
            Box::new(expr_view(*left)),
            Box::new(expr_view(*right)),
        ),
        Expr::Or { left, right } => SpecExpr::Or(
            Box::new(expr_view(*left)),
            Box::new(expr_view(*right)),
        ),
        Expr::Add { value, duration } => SpecExpr::Add(Box::new(expr_view(*value)), duration),
    }
}

} // verus!
