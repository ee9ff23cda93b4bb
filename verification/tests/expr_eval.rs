//! Evaluating temporal expressions without any widget references.

use flumox::error::EvalError;
use flumox::eval::{Cache, Environment};
use flumox::expr::ExprText;
use flumox::game::GameState;
use flumox::instant::Instant;
use flumox::value::Value;

fn eval(expr: &str) -> Result<Value, EvalError> {
    let game = GameState::empty();
    let env = Environment::new(&game, "w");
    let mut cache = Cache::new();
    env.eval(&mut cache, &ExprText::new(expr.to_string()))
}

fn since(nanos: i128) -> Value {
    Value::Since(Instant { nanos })
}

#[test]
fn literal_date() {
    let value = eval("1990-12-25 12:00 +1").unwrap();
    assert_eq!(value, since(662122800000000000));
}

#[test]
fn literal_always() {
    let value = eval("always").unwrap();
    assert_eq!(value, Value::Always);
}

#[test]
fn literal_never() {
    let value = eval("never").unwrap();
    assert_eq!(value, Value::Never);
}

#[test]
fn or_never_always() {
    let value = eval("never | always").unwrap();
    assert_eq!(value, Value::Always);
}

#[test]
fn or_never_date() {
    let value = eval("never | 2000-01-01 00:00 +0").unwrap();
    assert_eq!(value, since(946684800000000000));
}

#[test]
fn or_always_date() {
    let value = eval("always | 2000-01-01 00:00 +0").unwrap();
    assert_eq!(value, Value::Always);
}

#[test]
fn or_date_date() {
    let value = eval("2000-01-01 00:00:00 +0 | 2000-01-01 00:00:01 +0").unwrap();
    assert_eq!(value, since(946684800000000000));
}

#[test]
fn and_never_always() {
    let value = eval("never & always").unwrap();
    assert_eq!(value, Value::Never);
}

#[test]
fn and_never_date() {
    let value = eval("never & 2000-01-01 00:00 +0").unwrap();
    assert_eq!(value, Value::Never);
}

#[test]
fn and_always_date() {
    let value = eval("always & 2000-01-01 00:00 +0").unwrap();
    assert_eq!(value, since(946684800000000000));
}

#[test]
fn and_date_date() {
    let value = eval("2000-01-01 00:00:00 +0 & 2000-01-01 00:00:01 +0").unwrap();
    assert_eq!(value, since(946684801000000000));
}

#[test]
fn and_timezones() {
    let value = eval("2000-01-01 00:00 +0 & 2000-01-01 00:00 -1").unwrap();
    assert_eq!(value, since(946688400000000000));
}

#[test]
fn add_never() {
    let value = eval("never + 1 h").unwrap();
    assert_eq!(value, Value::Never);
}

#[test]
fn add_always() {
    let value = eval("always + 1 h").unwrap();
    assert_eq!(value, Value::Always);
}

#[test]
fn add_date() {
    let value = eval("2000-01-01 00:00 +0 + 1d 2h 3m 4s").unwrap();
    assert_eq!(value, since(946778584000000000));
}

#[test]
fn parens_one() {
    let value = eval("never & (never | always)").unwrap();
    assert_eq!(value, Value::Never);
}

#[test]
fn parens_two() {
    let value = eval("(never & never) | always").unwrap();
    assert_eq!(value, Value::Always);
}

#[test]
fn whole_date_duration_chain() {
    let value = eval("2000-01-01 12:00 +0 + 1d 2h 3m 4s").unwrap();
    assert_eq!(value, since(946821784000000000));
}

#[test]
fn seconds_and_milliseconds() {
    let value = eval("2000-01-01 00:00 +0 + 1s 500ms").unwrap();
    assert_eq!(value, since(946684801500000000));
}

#[test]
fn underscores_in_numbers() {
    let value = eval("2_000-01-01 00:00 +0").unwrap();
    assert_eq!(value, since(946684800000000000));
}

#[test]
fn unicode() {
    // A non-ASCII word tokenizes as a path reference; on a game
    // without widgets it reports the unknown path.
    let err = eval("\u{e1} ").unwrap_err();
    match err {
        EvalError::UnknownPath { path } => {
            assert_eq!(path.len(), 1);
            assert_eq!(path[0], "\u{e1}");
        }
        other => panic!("unexpected error: {:?}", other),
    }
}

#[test]
fn unicode_continue() {
    let err = eval("\u{e1}\u{e1} | b").unwrap_err();
    match err {
        EvalError::UnknownPath { path } => {
            assert_eq!(path.len(), 1);
            assert_eq!(path[0], "\u{e1}\u{e1}");
        }
        other => panic!("unexpected error: {:?}", other),
    }
}

#[test]
fn unknown_char_reported() {
    let err = eval("always $").unwrap_err();
    assert!(matches!(err, EvalError::UnknownChar { ch: '$' }));
}

#[test]
fn unexpected_token_reported() {
    let err = eval("always never").unwrap_err();
    assert!(matches!(err, EvalError::UnexpectedToken { pos: Some(7), .. }));
}

#[test]
fn unknown_unit_reported() {
    let err = eval("always + 3 weeks").unwrap_err();
    match err {
        EvalError::UnknownUnit { unit } => assert_eq!(unit, "weeks"),
        other => panic!("unexpected error: {:?}", other),
    }
}

#[test]
fn out_of_range_date_reported() {
    let err = eval("2000-13-01 00:00 +0").unwrap_err();
    assert!(matches!(err, EvalError::LiteralOutOfRange { pos: 0 }));
}

#[test]
fn out_of_range_day_reported() {
    let err = eval("2001-02-29 00:00 +0").unwrap_err();
    assert!(matches!(err, EvalError::LiteralOutOfRange { pos: 0 }));
}

#[test]
fn leap_day_accepted() {
    let value = eval("2000-02-29 00:00 +0").unwrap();
    assert_eq!(value, since(951782400000000000));
}
