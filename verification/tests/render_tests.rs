//! The canonical printer, round-tripped through the parser.

use flumox::error::EvalError;
use flumox::eval::{Cache, Environment};
use flumox::expr::ExprText;
use flumox::game::GameState;
use flumox::instant::Instant;
use flumox::value::Value;

fn eval(expr: &str) -> Result<Value, EvalError> {
    let game = GameState::empty();
    let env = Environment::new(&game, "w");
    let mut cache = Cache::new();
    env.eval(&mut cache, &ExprText::new(expr.to_string()))
}

fn round_trips(v: Value) {
    let text = v.render().expect("value should have a canonical text");
    let back = eval(&text).expect("canonical text should parse");
    assert_eq!(back, v);
}

#[test]
fn keywords_round_trip() {
    assert_eq!(Value::Always.render().unwrap(), "always");
    assert_eq!(Value::Never.render().unwrap(), "never");
    round_trips(Value::Always);
    round_trips(Value::Never);
}

#[test]
fn dates_round_trip() {
    round_trips(Value::Since(Instant { nanos: 0 }));
    round_trips(Value::Since(Instant { nanos: 946684800000000000 }));
    round_trips(Value::Since(Instant { nanos: 662122800000000000 }));
    round_trips(Value::Since(Instant { nanos: 946778584000000000 }));
    round_trips(Value::Since(Instant { nanos: -86400000000000 }));
    round_trips(Value::Since(Instant { nanos: 946684801500000000 }));
}

#[test]
fn epoch_prints_canonically() {
    let text = Value::Since(Instant { nanos: 0 }).render().unwrap();
    assert_eq!(text, "1970-01-01 00:00:00 +0");
}

#[test]
fn milliseconds_print_as_a_tail() {
    let text = Value::Since(Instant { nanos: 1500000000 }).render().unwrap();
    assert_eq!(text, "1970-01-01 00:00:01 +0 + 500ms");
}

#[test]
fn sub_millisecond_instants_have_no_canonical_text() {
    assert!(Value::Since(Instant { nanos: 1 }).render().is_none());
}

#[test]
fn far_future_instants_have_no_canonical_text() {
    assert!(Value::Since(Instant { nanos: i128::MAX }).render().is_none());
}
