//! Configurable paragraphs of widget detail text, each optionally
//! guarded by a pair of temporal expressions.

use vstd::prelude::*;

use crate::expr::ExprText;

verus! {

/// A paragraph that is always shown.
#[derive(Debug, Clone)]
pub struct SimpleParagraph {
    pub text: String,
}

/// A paragraph shown while `show` holds and `hide` does not.
#[derive(Debug, Clone)]
pub struct ConditionalParagraph {
    pub text: String,
    pub show: ExprText,
    pub hide: ExprText,
}

/// One paragraph of detail text.
#[derive(Debug, Clone)]
pub enum Paragraph {
    Simple(SimpleParagraph),
    Conditional(ConditionalParagraph),
}

/// A block of detail text.
#[derive(Debug, Clone)]
pub struct Text {
    pub paragraphs: Vec<Paragraph>,
}

impl Text {
    /// A block with no paragraphs.
    pub fn empty() -> (r: Text)
        ensures
            r.paragraphs@.len() == 0,
    {
        Text { paragraphs: Vec::new() }
    }
}

} // verus!
