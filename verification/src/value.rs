//! Temporal values: the universe in which widget expressions evaluate.
//!
//! A value is `Always`, `Since(t)`, or `Never`, totally ordered as
//! `Always < Since(t1) < Since(t2) < Never` for `t1 < t2`. Conjunction
//! is the maximum in this order and disjunction the minimum.

use vstd::prelude::*;

use crate::instant::{Duration, Instant};

verus! {

/// A temporal value: true from the start, true since an instant, or
/// never true.
#[derive(Debug, Clone, Copy, PartialEq, Eq, Hash, Structural)]
pub enum Value {
    Always,
    Since(Instant),
    Never,
}

/// The total order on temporal values.
pub open spec fn value_le(a: Value, b: Value) -> bool {
    match (a, b) {
        (Value::Always, _) => true,
        (_, Value::Never) => true,
        (Value::Since(t), Value::Since(u)) => t.nanos <= u.nanos,
        (Value::Since(_), Value::Always) => false,
        (Value::Never, _) => false,
    }
}

/// Conjunction: the later of the two values.
pub open spec fn spec_and(a: Value, b: Value) -> Value {
    if value_le(a, b) {
        b
    } else {
        a
    }
}

/// Disjunction: the earlier of the two values.
pub open spec fn spec_or(a: Value, b: Value) -> Value {
    if value_le(a, b) {
        a
    } else {
        b
    }
}

/// Addition of a duration: shifts `Since`, saturating to `Never` on
/// overflow, and leaves `Always` and `Never` unchanged.
pub open spec fn spec_plus(a: Value, d: Duration) -> Value {
    match a {
        Value::Since(t) => if t.nanos + d.nanos <= i128::MAX && t.nanos + d.nanos >= i128::MIN {
            Value::Since(Instant { nanos: (t.nanos + d.nanos) as i128 })
        } else {
            Value::Never
        },
        other => other,
    }
}

/// Whether the value holds at instant `at`.
pub open spec fn spec_to_bool(a: Value, at: Instant) -> bool {
    match a {
        Value::Always => true,
        Value::Since(t) => at.nanos >= t.nanos,
        Value::Never => false,
    }
}

impl Value {
    /// Conjunction of two temporal values.
    pub fn and(self, other: Value) -> (r: Value)
        ensures
            r == spec_and(self, other),
    {
        match (self, other) {
            (Value::Always, b) => b,
            (a, Value::Always) => a,
            (Value::Never, _) => Value::Never,
            (_, Value::Never) => Value::Never,
            (Value::Since(t), Value::Since(u)) => if t.nanos <= u.nanos {
                Value::Since(u)
            } else {
                Value::Since(t)
            },
        }
    }

    /// Disjunction of two temporal values.
    pub fn or(self, other: Value) -> (r: Value)
        ensures
            r == spec_or(self, other),
    {
        match (self, other) {
            (Value::Never, b) => b,
            (a, Value::Never) => a,
            (Value::Always, _) => Value::Always,
            (_, Value::Always) => Value::Always,
            (Value::Since(t), Value::Since(u)) => if t.nanos <= u.nanos {
                Value::Since(t)
            } else {
                Value::Since(u)
            },
        }
    }

    /// Shift the value later by `d`; an instant that no longer fits
    /// becomes `Never`.
    pub fn plus(self, d: Duration) -> (r: Value)
        ensures
            r == spec_plus(self, d),
    {
        match self {
            Value::Since(t) => match t.checked_plus(d) {
                Some(u) => Value::Since(u),
                None => Value::Never,
            },
            other => other,
        }
    }

    /// Whether the value holds at instant `at`.
    pub fn to_bool(&self, at: Instant) -> (r: bool)
        ensures
            r == spec_to_bool(*self, at),
    {
        match *self {
            Value::Always => true,
            Value::Since(t) => at.nanos >= t.nanos,
            Value::Never => false,
        }
    }
}

/// Conjunction and disjunction are commutative.
pub proof fn lemma_and_or_commutative(a: Value, b: Value)
    ensures
        spec_and(a, b) == spec_and(b, a),
        spec_or(a, b) == spec_or(b, a),
{
}

/// Conjunction distributes over disjunction.
pub proof fn lemma_and_distributes_over_or(a: Value, b: Value, c: Value)
    ensures
        spec_and(a, spec_or(b, c)) == spec_or(spec_and(a, b), spec_and(a, c)),
{
}

/// `Always` is the identity of conjunction and `Never` the identity of
/// disjunction.
pub proof fn lemma_identities(a: Value)
    ensures
        spec_and(Value::Always, a) == a,
        spec_and(a, Value::Always) == a,
        spec_or(Value::Never, a) == a,
        spec_or(a, Value::Never) == a,
{
}

/// Adding two durations one after the other equals adding their sum,
/// for spans whose sum fits the representation.
pub proof fn lemma_plus_associative(a: Value, d: Duration, e: Duration)
    requires
        d.nanos >= 0,
        e.nanos >= 0,
        d.nanos + e.nanos <= i128::MAX,
    ensures
        spec_plus(spec_plus(a, d), e) == spec_plus(
            a,
            Duration { nanos: (d.nanos + e.nanos) as i128 },
        ),
{
}

} // verus!
