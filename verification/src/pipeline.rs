//! The action pipeline's decisions: how one attempt's outcome maps
//! to a response, a bounded retry, or a surfaced error; and the
//! server's error taxonomy.
//!
//! The pipeline attempts at most one transaction plus one retry per
//! table entry; the delays total just under half a second.

use vstd::prelude::*;

use crate::error::{ActionError, EvalError, StateMismatchError};
use crate::toast::Toast;

verus! {

/// What the caller is told about a submitted action.
#[derive(Debug)]
pub enum SubmissionResponse {
    Success { toast: Option<Toast> },
    NotPossible,
    DispatchFailed,
}

/// How a database error relates to the retry policy.
#[derive(Debug, Clone, Copy, PartialEq, Eq, Structural)]
pub enum DbErrorClass {
    Serialization,
    Deadlock,
    Other,
}

/// A database error as the pipeline sees it.
#[derive(Debug, Clone)]
pub struct DbError {
    pub class: DbErrorClass,
    pub message: String,
}

/// What one transaction attempt came to.
#[derive(Debug)]
pub enum AttemptOutcome {
    /// The transaction committed, with the widget's toast.
    Committed(Option<Toast>),
    /// The widget refused the action.
    Refused(ActionError),
    /// A stored state did not match its configuration's kind.
    BadState(StateMismatchError),
    /// The database failed.
    Db(DbError),
}

/// What the pipeline does next.
#[derive(Debug)]
pub enum Decision {
    /// Answer the caller.
    Respond(SubmissionResponse),
    /// Sleep this many milliseconds and run another attempt.
    RetryAfterMillis(u64),
    /// Surface an evaluation error.
    FailEval(EvalError),
    /// Surface the state mismatch.
    FailState,
    /// Surface the database error.
    FailDb(DbError),
}

/// How many retries the table allows.
pub const RETRY_COUNT: usize = 6;

/// The delay before retry number `i`, in milliseconds.
pub open spec fn spec_retry_delay(i: int) -> u64 {
    if i == 0 {
        0
    } else if i == 1 {
        16
    } else if i == 2 {
        32
    } else if i == 3 {
        64
    } else if i == 4 {
        128
    } else {
        256
    }
}

/// The sum of the first `n` retry delays, in milliseconds.
pub open spec fn spec_delay_sum(n: int) -> int
    decreases n,
{
    if n <= 0 {
        0
    } else {
        spec_delay_sum(n - 1) + spec_retry_delay(n - 1)
    }
}

/// The delay before retry number `attempt`, or `None` once the table
/// is exhausted.
pub fn retry_delay_millis(attempt: usize) -> (r: Option<u64>)
    ensures
        attempt < RETRY_COUNT ==> r == Some(spec_retry_delay(attempt as int)),
        attempt >= RETRY_COUNT ==> r is None,
{
    if attempt == 0 {
        Some(0)
    } else if attempt == 1 {
        Some(16)
    } else if attempt == 2 {
        Some(32)
    } else if attempt == 3 {
        Some(64)
    } else if attempt == 4 {
        Some(128)
    } else if attempt == 5 {
        Some(256)
    } else {
        None
    }
}

/// What `decide` answers for an outcome at retry number `attempt`.
pub open spec fn spec_decide(o: AttemptOutcome, attempt: int) -> Decision {
    match o {
        AttemptOutcome::Committed(toast) => Decision::Respond(
            SubmissionResponse::Success { toast },
        ),
        AttemptOutcome::Refused(e) => match e {
            ActionError::NotPossible => Decision::Respond(SubmissionResponse::NotPossible),
            ActionError::UnknownIdent => Decision::Respond(SubmissionResponse::DispatchFailed),
            ActionError::WidgetMismatch => Decision::Respond(SubmissionResponse::DispatchFailed),
            ActionError::Eval(err) => Decision::FailEval(err),
        },
        AttemptOutcome::BadState(_) => Decision::FailState,
        AttemptOutcome::Db(e) => if (e.class is Serialization || e.class is Deadlock) && attempt
            < RETRY_COUNT {
            Decision::RetryAfterMillis(spec_retry_delay(attempt))
        } else {
            Decision::FailDb(e)
        },
    }
}

/// Decide what the pipeline does after an attempt: answer, retry
/// after the table's delay, or surface the error. Only a
/// serialization or deadlock failure retries, and only while the
/// table lasts.
pub fn decide(o: AttemptOutcome, attempt: usize) -> (r: Decision)
    ensures
        r == spec_decide(o, attempt as int),
{
    match o {
        AttemptOutcome::Committed(toast) => Decision::Respond(
            SubmissionResponse::Success { toast },
        ),
        AttemptOutcome::Refused(e) => match e {
            ActionError::NotPossible => Decision::Respond(SubmissionResponse::NotPossible),
            ActionError::UnknownIdent => Decision::Respond(SubmissionResponse::DispatchFailed),
            ActionError::WidgetMismatch => Decision::Respond(SubmissionResponse::DispatchFailed),
            ActionError::Eval(err) => Decision::FailEval(err),
        },
        AttemptOutcome::BadState(_) => Decision::FailState,
        AttemptOutcome::Db(e) => {
            let retryable = match e.class {
                DbErrorClass::Serialization => true,
                DbErrorClass::Deadlock => true,
                DbErrorClass::Other => false,
            };
            if retryable && attempt < RETRY_COUNT {
                match retry_delay_millis(attempt) {
                    Some(d) => Decision::RetryAfterMillis(d),
                    None => Decision::FailDb(e),
                }
            } else {
                Decision::FailDb(e)
            }
        },
    }
}

/// The pipeline terminates: no outcome asks for a retry once the
/// table is exhausted, so there are at most `1 + RETRY_COUNT`
/// attempts, and the delays slept before them total 496
/// milliseconds.
pub proof fn lemma_retry_termination(o: AttemptOutcome, attempt: int)
    ensures
        attempt >= RETRY_COUNT ==> !(spec_decide(o, attempt) is RetryAfterMillis),
        spec_delay_sum(RETRY_COUNT as int) == 496,
{
    assert(spec_delay_sum(6) == 496) by {
        reveal_with_fuel(spec_delay_sum, 7);
    }
}

/// Why a per-team state could not be loaded.
#[derive(Debug)]
pub enum LoadStateError {
    Database(DbError),
    StateMismatch(StateMismatchError),
}

/// An internal server error.
#[derive(Debug)]
pub enum InternalError {
    Database(DbError),
    Pool,
    BadStateType(StateMismatchError),
    Eval(EvalError),
}

/// The public reason reported for an internal error.
#[derive(Debug, Clone, Copy, PartialEq, Eq, Structural)]
pub enum InternalErrorType {
    Database,
    Config,
}

impl InternalError {
    /// The public reason for this error: storage trouble, or a bad
    /// game configuration.
    pub fn public_type(&self) -> (r: InternalErrorType)
        ensures
            r == match self {
                InternalError::Database(_) => InternalErrorType::Database,
                InternalError::Pool => InternalErrorType::Database,
                InternalError::BadStateType(_) => InternalErrorType::Config,
                InternalError::Eval(_) => InternalErrorType::Config,
            },
    {
        match self {
            InternalError::Database(_) => InternalErrorType::Database,
            InternalError::Pool => InternalErrorType::Database,
            InternalError::BadStateType(_) => InternalErrorType::Config,
            InternalError::Eval(_) => InternalErrorType::Config,
        }
    }
}

/// A structured error answer.
#[derive(Debug)]
pub struct ErrorResponse<E> {
    pub reason: E,
}

impl<E> ErrorResponse<E> {
    /// An answer holding this reason.
    pub fn new(error: E) -> (r: ErrorResponse<E>)
        ensures
            r.reason == error,
    {
        ErrorResponse { reason: error }
    }
}

} // verus!
