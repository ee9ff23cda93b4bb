//! Transient user-visible messages attached to action results.

use vstd::prelude::*;

verus! {

/// The content of a toast: one of the fixed messages, or a custom
/// text configured on the widget.
#[derive(Debug, Clone)]
pub enum Message {
    Custom(String),
    SolutionCorrect,
    SolutionIncorrect,
    HintTaken,
}

/// The visual class of a toast.
#[derive(Debug, Clone, Copy, PartialEq, Eq, Structural)]
pub enum ToastType {
    Danger,
    Warning,
    Success,
}

/// A transient user-visible message.
#[derive(Debug, Clone)]
pub struct Toast {
    pub message: Message,
    pub class: ToastType,
}

impl Toast {
    /// A toast from its content and class.
    pub fn new(message: Message, class: ToastType) -> (r: Toast)
        ensures
            r.message == message,
            r.class == class,
    {
        Toast { message, class }
    }
}

} // verus!
