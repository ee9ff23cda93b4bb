//! Evaluation in view context: a clock that remembers the earliest
//! future instant at which any answer it gave would change.

use vstd::prelude::*;

use crate::error::EvalError;
use crate::eval::{pure_text, Cache, Environment};
use crate::expr::ExprText;
use crate::instant::Instant;
use crate::value::{spec_to_bool, Value};

verus! {

/// A clock for one render: answers "does this value hold now?" and
/// records the earliest future instant at which such an answer would
/// flip.
pub struct TimeTracker {
    pub current: Instant,
    pub next_change: Option<Instant>,
    pub consulted: Ghost<Seq<Value>>,
}

/// The tracker's invariant: `next_change` is the earliest future
/// flip among the values consulted so far, and absent when none of
/// them flips in the future.
pub open spec fn tracker_wf(t: TimeTracker) -> bool {
    match t.next_change {
        Some(nc) => {
            &&& nc.nanos > t.current.nanos
            &&& exists|i: int|
                0 <= i < t.consulted@.len() && t.consulted@[i] == Value::Since(nc)
            &&& forall|i: int|
                0 <= i < t.consulted@.len() ==> match #[trigger] t.consulted@[i] {
                    Value::Since(u) => u.nanos > t.current.nanos ==> nc.nanos <= u.nanos,
                    _ => true,
                }
        },
        None => forall|i: int|
            0 <= i < t.consulted@.len() ==> match #[trigger] t.consulted@[i] {
                Value::Since(u) => u.nanos <= t.current.nanos,
                _ => true,
            },
    }
}

impl TimeTracker {
    /// A tracker for a render happening at `time`.
    pub fn new(time: Instant) -> (r: TimeTracker)
        ensures
            r.current == time,
            r.next_change is None,
            r.consulted@.len() == 0,
            tracker_wf(r),
    {
        TimeTracker { current: time, next_change: None, consulted: Ghost(Seq::empty()) }
    }

    /// Whether `time` holds now, recording the flip instant when the
    /// answer is a `no` that will later become a `yes`.
    pub fn after(&mut self, time: Value) -> (r: bool)
        requires
            tracker_wf(*old(self)),
        ensures
            tracker_wf(*final(self)),
            final(self).current == old(self).current,
            final(self).consulted@ == old(self).consulted@.push(time),
            r == spec_to_bool(time, old(self).current),
    {
        proof {
            self.consulted@ = self.consulted@.push(time);
        }
        match time {
            Value::Always => {
                proof {
                    lemma_push_non_future(*old(self), *self, time);
                }
                true
            },
            Value::Never => {
                proof {
                    lemma_push_non_future(*old(self), *self, time);
                }
                false
            },
            Value::Since(t) => {
                if self.current.nanos >= t.nanos {
                    proof {
                        lemma_push_non_future(*old(self), *self, time);
                    }
                    true
                } else {
                    self.record_change(t);
                    proof {
                        lemma_push_future(*old(self), *self, t);
                    }
                    false
                }
            },
        }
    }

    /// Record a future instant at which an answer would flip,
    /// keeping the earliest.
    fn record_change(&mut self, time: Instant)
        ensures
            final(self).current == old(self).current,
            final(self).consulted == old(self).consulted,
            final(self).next_change == Some(
                match old(self).next_change {
                    Some(c) => if c.nanos <= time.nanos {
                        c
                    } else {
                        time
                    },
                    None => time,
                },
            ),
    {
        match self.next_change {
            Some(c) => {
                if !(c.nanos <= time.nanos) {
                    self.next_change = Some(time);
                }
            },
            None => {
                self.next_change = Some(time);
            },
        }
    }

    /// The earliest future instant at which any answer given so far
    /// would change, if one exists.
    pub fn valid_until(&self) -> (r: Option<Instant>)
        ensures
            r == self.next_change,
    {
        self.next_change
    }
}

/// Consulting a value that does not flip in the future keeps the
/// tracker's invariant without touching the recorded change.
proof fn lemma_push_non_future(t0: TimeTracker, t1: TimeTracker, v: Value)
    requires
        tracker_wf(t0),
        t1.current == t0.current,
        t1.next_change == t0.next_change,
        t1.consulted@ == t0.consulted@.push(v),
        match v {
            Value::Since(u) => u.nanos <= t0.current.nanos,
            _ => true,
        },
    ensures
        tracker_wf(t1),
{
    let n = t0.consulted@.len() as int;
    assert(t1.consulted@[n] == v);
    assert(forall|i: int| 0 <= i < n ==> t1.consulted@[i] == t0.consulted@[i]);
    match t1.next_change {
        Some(nc) => {
            let w = choose|i: int|
                0 <= i < t0.consulted@.len() && t0.consulted@[i] == Value::Since(nc);
            assert(t1.consulted@[w] == Value::Since(nc));
        },
        None => {},
    }
}

/// Consulting a value that flips at the future instant `u` keeps the
/// invariant once `u` is folded into the recorded change.
proof fn lemma_push_future(t0: TimeTracker, t1: TimeTracker, u: Instant)
    requires
        tracker_wf(t0),
        t1.current == t0.current,
        t1.consulted@ == t0.consulted@.push(Value::Since(u)),
        u.nanos > t0.current.nanos,
        t1.next_change == Some(
            match t0.next_change {
                Some(c) => if c.nanos <= u.nanos {
                    c
                } else {
                    u
                },
                None => u,
            },
        ),
    ensures
        tracker_wf(t1),
{
    let n = t0.consulted@.len() as int;
    assert(t1.consulted@[n] == Value::Since(u));
    assert(forall|i: int| 0 <= i < n ==> t1.consulted@[i] == t0.consulted@[i]);
    match t0.next_change {
        Some(c) => {
            if c.nanos <= u.nanos {
                let w = choose|i: int|
                    0 <= i < t0.consulted@.len() && t0.consulted@[i] == Value::Since(c);
                assert(t1.consulted@[w] == Value::Since(c));
            } else {
                assert(t1.consulted@[n] == Value::Since(u));
            }
        },
        None => {
            assert(t1.consulted@[n] == Value::Since(u));
        },
    }
}

/// Within one render, every consulted value keeps its answer at any
/// instant from the render time up to, but excluding, the recorded
/// next change; with no recorded change, at any later instant.
pub proof fn lemma_valid_until_sound(t: TimeTracker, i: int, at: Instant)
    requires
        tracker_wf(t),
        0 <= i < t.consulted@.len(),
        at.nanos >= t.current.nanos,
        match t.next_change {
            Some(nc) => at.nanos < nc.nanos,
            None => true,
        },
    ensures
        spec_to_bool(t.consulted@[i], at) == spec_to_bool(t.consulted@[i], t.current),
{
}

/// Evaluation against a game for rendering: expression results are
/// reduced to booleans through the tracking clock.
#[derive(Debug)]
pub struct ViewContext<'a> {
    pub env: Environment<'a>,
}

impl<'a> ViewContext<'a> {
    /// A view context over an environment.
    pub fn new(env: Environment<'a>) -> (r: ViewContext<'a>)
        ensures
            r.env == env,
    {
        ViewContext { env }
    }

    /// Evaluate an expression and ask whether it holds now,
    /// recording any future flip. An expression that reads no field
    /// gives its literal answer.
    pub fn eval(
        &self,
        cache: &mut Cache,
        tracker: &mut TimeTracker,
        expr: &ExprText,
    ) -> (r: Result<bool, EvalError>)
        requires
            tracker_wf(*old(tracker)),
        ensures
            tracker_wf(*final(tracker)),
            final(tracker).current == old(tracker).current,
            pure_text(*expr) matches Some(v) ==> r == Ok::<bool, EvalError>(
                spec_to_bool(v, old(tracker).current),
            ),
    {
        match self.env.eval(cache, expr) {
            Ok(v) => Ok(tracker.after(v)),
            Err(e) => Err(e),
        }
    }
}

} // verus!
