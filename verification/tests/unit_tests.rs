//! Unit checks: the value algebra, matchers, tokens, sessions, the
//! retry policy, and state assembly.

use flumox::action::ActionEffect;
use flumox::error::{ActionError, StateMismatchError};
use flumox::expr::ExprText;
use flumox::game::{assemble_game, Attributes, WidgetRow};
use flumox::instant::{instant_from_civil, Duration, Instant};
use flumox::pipeline::{
    decide, retry_delay_millis, AttemptOutcome, DbError, DbErrorClass, Decision, ErrorResponse,
    InternalError, InternalErrorType, SubmissionResponse,
};
use flumox::session::{
    route_invalidation, InvalidateMessage, InvalidateTarget, ParseSessionError, SessionToken,
};
use flumox::session_flow::sleep_chunk_millis;
use flumox::solution::{fuzzy_equal, normalize, numberic_equal, Solution};
use flumox::text::Text;
use flumox::toast::{Message, Toast, ToastType};
use flumox::token::{Token, TokenType, Tokens};
use flumox::value::Value;
use flumox::widget::{prompt, Config, State};

fn since(nanos: i128) -> Value {
    Value::Since(Instant { nanos })
}

#[test]
fn conjunction_takes_the_later_value() {
    assert_eq!(Value::Always.and(since(5)), since(5));
    assert_eq!(since(5).and(since(9)), since(9));
    assert_eq!(since(5).and(Value::Never), Value::Never);
    assert_eq!(Value::Always.and(Value::Never), Value::Never);
}

#[test]
fn disjunction_takes_the_earlier_value() {
    assert_eq!(Value::Never.or(since(5)), since(5));
    assert_eq!(since(5).or(since(9)), since(5));
    assert_eq!(since(5).or(Value::Always), Value::Always);
}

#[test]
fn operators_commute_on_samples() {
    let samples = [Value::Always, since(3), since(7), Value::Never];
    for a in samples {
        for b in samples {
            assert_eq!(a.and(b), b.and(a));
            assert_eq!(a.or(b), b.or(a));
            for c in samples {
                assert_eq!(a.and(b.or(c)), a.and(b).or(a.and(c)));
            }
        }
        assert_eq!(Value::Always.and(a), a);
        assert_eq!(Value::Never.or(a), a);
    }
}

#[test]
fn addition_shifts_and_saturates() {
    let d = Duration { nanos: 10 };
    assert_eq!(since(5).plus(d), since(15));
    assert_eq!(Value::Always.plus(d), Value::Always);
    assert_eq!(Value::Never.plus(d), Value::Never);
    assert_eq!(
        since(i128::MAX).plus(Duration { nanos: 1 }),
        Value::Never
    );
}

#[test]
fn addition_associates_on_samples() {
    let d = Duration { nanos: 10 };
    let e = Duration { nanos: 32 };
    let sum = Duration { nanos: 42 };
    for a in [Value::Always, since(3), Value::Never] {
        assert_eq!(a.plus(d).plus(e), a.plus(sum));
    }
}

#[test]
fn to_bool_compares_against_now() {
    assert!(Value::Always.to_bool(Instant { nanos: 0 }));
    assert!(!Value::Never.to_bool(Instant { nanos: 0 }));
    assert!(since(5).to_bool(Instant { nanos: 5 }));
    assert!(!since(5).to_bool(Instant { nanos: 4 }));
}

#[test]
fn civil_conversion_hits_known_instants() {
    let epoch = instant_from_civil(1970, 1, 1, 0, 0, 0, false, 0, 0, 0);
    assert_eq!(epoch.nanos, 0);
    let y2k = instant_from_civil(2000, 1, 1, 0, 0, 0, false, 0, 0, 0);
    assert_eq!(y2k.nanos, 946684800000000000);
    let offset = instant_from_civil(1990, 12, 25, 12, 0, 0, false, 1, 0, 0);
    assert_eq!(offset.nanos, 662122800000000000);
    let negative = instant_from_civil(2000, 1, 1, 0, 0, 0, true, 1, 0, 0);
    assert_eq!(negative.nanos, 946688400000000000);
}

#[test]
fn normalization_keeps_alphanumerics_uppercased() {
    let n: String = normalize("a b-C1!").into_iter().collect();
    assert_eq!(n, "ABC1");
    assert!(fuzzy_equal("\u{e1}", "A"));
    assert!(fuzzy_equal("Hello, World!", "hello world"));
    assert!(!fuzzy_equal("one", "two"));
}

#[test]
fn number_matcher_parses_filtered_digits() {
    assert!(numberic_equal("42", 42));
    assert!(numberic_equal(" 4 2 ", 42));
    assert!(numberic_equal("-17", -17));
    assert!(!numberic_equal("43", 42));
    assert!(!numberic_equal("", 42));
    assert!(!numberic_equal("fortytwo", 42));
}

#[test]
fn solution_check_and_canonical() {
    let alpha = Solution::Alphanumeric { solution: String::from("Rust") };
    assert!(alpha.check("rust"));
    assert!(!alpha.check("trust"));
    assert_eq!(alpha.canonical(), "Rust");

    let number = Solution::Number { solution: -12 };
    assert!(number.check("-12"));
    assert!(!number.check("12"));
    assert_eq!(number.canonical(), "-12");
    assert_eq!(Solution::Number { solution: 305 }.canonical(), "305");
}

#[test]
fn token_stream_walks_the_input() {
    let mut tokens = Tokens::new("always & (x.y + 2h)");
    let kinds: Vec<TokenType> = std::iter::from_fn(|| {
        tokens.next().map(|item| TokenType::new(Some(&item.unwrap().0)))
    })
    .collect();
    assert_eq!(
        kinds,
        vec![
            TokenType::Word,
            TokenType::And,
            TokenType::LeftParen,
            TokenType::Word,
            TokenType::Dot,
            TokenType::Word,
            TokenType::Plus,
            TokenType::Number,
            TokenType::Word,
            TokenType::RightParen,
        ]
    );
    assert_eq!(TokenType::new(None), TokenType::Eof);
}

#[test]
fn number_tokens_allow_separators() {
    let mut tokens = Tokens::new("1_024");
    match tokens.next() {
        Some(Ok((Token::Number(n), 0))) => assert_eq!(n, 1024),
        other => panic!("unexpected token: {:?}", other),
    }
    assert!(tokens.next().is_none());
}

#[test]
fn session_token_round_trips() {
    let token = SessionToken([7u8; 16]);
    let text = token.to_string();
    assert_eq!(text.chars().count(), 22);
    let back = SessionToken::from_str(&text).unwrap();
    assert_eq!(back, token);
}

#[test]
fn session_token_rejects_bad_input() {
    assert_eq!(
        SessionToken::from_str("!!!not base64!!!").unwrap_err(),
        ParseSessionError::InvalidBase64
    );
    assert_eq!(
        SessionToken::from_str("AAAA").unwrap_err(),
        ParseSessionError::BadLength
    );
}

#[test]
fn fresh_tokens_differ() {
    let a = SessionToken::new().unwrap();
    let b = SessionToken::new().unwrap();
    assert_ne!(a, b);
}

#[test]
fn retry_table_is_bounded() {
    assert_eq!(retry_delay_millis(0), Some(0));
    assert_eq!(retry_delay_millis(1), Some(16));
    assert_eq!(retry_delay_millis(5), Some(256));
    assert_eq!(retry_delay_millis(6), None);
    let total: u64 = (0..6).map(|i| retry_delay_millis(i).unwrap()).sum();
    assert_eq!(total, 496);
}

fn db_error(class: DbErrorClass) -> DbError {
    DbError { class, message: String::from("boom") }
}

#[test]
fn pipeline_decisions() {
    let d = decide(AttemptOutcome::Committed(None), 0);
    assert!(matches!(
        d,
        Decision::Respond(SubmissionResponse::Success { toast: None })
    ));
    let d = decide(AttemptOutcome::Refused(ActionError::NotPossible), 0);
    assert!(matches!(d, Decision::Respond(SubmissionResponse::NotPossible)));
    let d = decide(AttemptOutcome::Refused(ActionError::UnknownIdent), 0);
    assert!(matches!(d, Decision::Respond(SubmissionResponse::DispatchFailed)));
    let d = decide(AttemptOutcome::Refused(ActionError::WidgetMismatch), 0);
    assert!(matches!(d, Decision::Respond(SubmissionResponse::DispatchFailed)));
    let d = decide(AttemptOutcome::BadState(StateMismatchError {}), 3);
    assert!(matches!(d, Decision::FailState));

    let d = decide(AttemptOutcome::Db(db_error(DbErrorClass::Serialization)), 0);
    assert!(matches!(d, Decision::RetryAfterMillis(0)));
    let d = decide(AttemptOutcome::Db(db_error(DbErrorClass::Deadlock)), 5);
    assert!(matches!(d, Decision::RetryAfterMillis(256)));
    let d = decide(AttemptOutcome::Db(db_error(DbErrorClass::Serialization)), 6);
    assert!(matches!(d, Decision::FailDb(_)));
    let d = decide(AttemptOutcome::Db(db_error(DbErrorClass::Other)), 0);
    assert!(matches!(d, Decision::FailDb(_)));
}

#[test]
fn internal_errors_map_to_public_reasons() {
    assert_eq!(
        InternalError::Database(db_error(DbErrorClass::Other)).public_type(),
        InternalErrorType::Database
    );
    assert_eq!(InternalError::Pool.public_type(), InternalErrorType::Database);
    assert_eq!(
        InternalError::BadStateType(StateMismatchError {}).public_type(),
        InternalErrorType::Config
    );
    let response = ErrorResponse::new(InternalErrorType::Config);
    assert_eq!(response.reason, InternalErrorType::Config);
}

#[test]
fn invalidations_route_by_scope() {
    assert_eq!(
        route_invalidation(InvalidateMessage::Game { game: 9 }),
        InvalidateTarget::Game { game: 9 }
    );
    assert_eq!(
        route_invalidation(InvalidateMessage::Team { game: 9, team: 4 }),
        InvalidateTarget::Team { game: 9, team: 4 }
    );
}

#[test]
fn sleep_chunks_are_clamped() {
    assert_eq!(sleep_chunk_millis(5), 10);
    assert_eq!(sleep_chunk_millis(500), 500);
    assert_eq!(sleep_chunk_millis(60_000), 10_000);
}

fn sample_prompt_config() -> Config {
    Config::Prompt(Box::new(prompt::Config {
        style: prompt::Style {
            name: String::from("n"),
            prompt: String::from("p"),
            submit_button: None,
        },
        details: Text::empty(),
        solutions: Vec::new(),
        visible: ExprText::always(),
        disabled: ExprText::never(),
        hints: Vec::new(),
        on_solution_correct: None,
        on_solution_incorrect: None,
        solution_exclusion_group: None,
    }))
}

#[test]
fn assembly_pairs_states_and_rejects_mismatches() {
    let rows = vec![
        WidgetRow {
            id: 1,
            ident: String::from("a"),
            config: sample_prompt_config(),
            state: None,
        },
        WidgetRow {
            id: 2,
            ident: String::from("b"),
            config: sample_prompt_config(),
            state: Some(State::Prompt(Box::new(prompt::State {
                solved: None,
                hints: Vec::new(),
            }))),
        },
    ];
    let (game, meta) = assemble_game(rows, Attributes::empty()).unwrap();
    assert_eq!(game.instances.len(), 2);
    assert_eq!(meta, vec![(String::from("a"), 1), (String::from("b"), 2)]);

    let bad = vec![WidgetRow {
        id: 1,
        ident: String::from("a"),
        config: sample_prompt_config(),
        state: Some(State::Text(Box::new(flumox::widget::text::State {}))),
    }];
    assert!(assemble_game(bad, Attributes::empty()).is_err());
}

#[test]
fn action_effect_helpers() {
    let toast = Toast::new(Message::HintTaken, ToastType::Success);
    let effect: ActionEffect<u32> = ActionEffect::with_toast(toast);
    assert!(effect.new_state.is_none());
    assert!(matches!(
        effect.toast.as_ref().unwrap().message,
        Message::HintTaken
    ));

    let effect = ActionEffect::new(Some(7u32), None);
    let mapped = effect.map(|v| v + 1);
    assert_eq!(mapped.new_state, Some(8));
    assert!(mapped.toast.is_none());
}
