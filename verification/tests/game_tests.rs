//! Cross-widget scenarios: resolution, cycles, actions, rendering
//! and deltas.

use flumox::action::{Action, ActionContext, Answer, Hint};
use flumox::error::{ActionError, EvalError};
use flumox::eval::{Cache, Environment};
use flumox::expr::ExprText;
use flumox::game::{Attributes, GameState};
use flumox::instant::Instant;
use flumox::solution::Solution;
use flumox::text::Text;
use flumox::toast::Message;
use flumox::value::Value;
use flumox::view::{apply, delta, eq_view, render};
use flumox::widget::{prompt, text, Instance};

fn style() -> prompt::Style {
    prompt::Style {
        name: String::from("name"),
        prompt: String::from("prompt"),
        submit_button: None,
    }
}

fn prompt_config(visible: &str) -> prompt::Config {
    prompt::Config {
        style: style(),
        details: Text::empty(),
        solutions: Vec::new(),
        visible: ExprText::new(String::from(visible)),
        disabled: ExprText::never(),
        hints: Vec::new(),
        on_solution_correct: None,
        on_solution_incorrect: None,
        solution_exclusion_group: None,
    }
}

fn unsolved() -> prompt::State {
    prompt::State { solved: None, hints: Vec::new() }
}

fn solved_at(nanos: i128, canonical: &str) -> prompt::State {
    prompt::State {
        solved: Some(prompt::SolutionDetails {
            time: Instant { nanos },
            canonical_text: String::from(canonical),
        }),
        hints: Vec::new(),
    }
}

fn instance(config: prompt::Config, state: prompt::State) -> Instance {
    Instance::Prompt(Box::new(config), Box::new(state))
}

fn game(widgets: Vec<(&str, Instance)>) -> GameState {
    GameState {
        instances: widgets
            .into_iter()
            .map(|(ident, inst)| (String::from(ident), inst))
            .collect(),
        team: Attributes::empty(),
    }
}

#[test]
fn cross_widget_resolution() {
    let g = game(vec![
        (
            "a",
            instance(
                prompt_config("2023-01-01 12:00 +2"),
                solved_at(1672568760000000000, "X"),
            ),
        ),
        (
            "b",
            instance(prompt_config("(a.visible + 5m) | a.solved"), unsolved()),
        ),
        (
            "c",
            instance(
                prompt_config("(a.solved & b.solved) | 2023-01-01 20:00 +2"),
                unsolved(),
            ),
        ),
    ]);
    let env = Environment::new(&g, "c");
    let mut cache = Cache::new();
    let value = env
        .resolve(&mut cache, &vec![String::from("c"), String::from("visible")])
        .unwrap();
    assert_eq!(value, Value::Since(Instant { nanos: 1672596000000000000 }));

    let value = env
        .resolve(&mut cache, &vec![String::from("b"), String::from("visible")])
        .unwrap();
    assert_eq!(value, Value::Since(Instant { nanos: 1672567500000000000 }));
}

#[test]
fn resolution_is_order_independent() {
    let build = || {
        game(vec![
            (
                "a",
                instance(
                    prompt_config("2023-01-01 12:00 +2"),
                    solved_at(1672568760000000000, "X"),
                ),
            ),
            (
                "b",
                instance(prompt_config("(a.visible + 5m) | a.solved"), unsolved()),
            ),
            (
                "c",
                instance(
                    prompt_config("(a.solved & b.solved) | 2023-01-01 20:00 +2"),
                    unsolved(),
                ),
            ),
        ])
    };
    let g1 = build();
    let env1 = Environment::new(&g1, "c");
    let mut cache1 = Cache::new();
    let direct = env1
        .resolve(&mut cache1, &vec![String::from("c"), String::from("visible")])
        .unwrap();

    let g2 = build();
    let env2 = Environment::new(&g2, "c");
    let mut cache2 = Cache::new();
    let _ = env2
        .resolve(&mut cache2, &vec![String::from("b"), String::from("visible")])
        .unwrap();
    let _ = env2
        .resolve(&mut cache2, &vec![String::from("a"), String::from("solved")])
        .unwrap();
    let after_warmup = env2
        .resolve(&mut cache2, &vec![String::from("c"), String::from("visible")])
        .unwrap();

    assert_eq!(direct, after_warmup);
}

#[test]
fn reference_cycle_is_reported() {
    let g = game(vec![
        ("x", instance(prompt_config("y.visible"), unsolved())),
        ("y", instance(prompt_config("x.visible"), unsolved())),
    ]);
    let env = Environment::new(&g, "x");
    let mut cache = Cache::new();
    let err = env
        .resolve(&mut cache, &vec![String::from("x"), String::from("visible")])
        .unwrap_err();
    match err {
        EvalError::CircularDependency { path } => {
            assert_eq!(path, vec![String::from("x"), String::from("visible")]);
        }
        other => panic!("unexpected error: {:?}", other),
    }
}

#[test]
fn this_substitution() {
    let g = game(vec![(
        "w",
        instance(prompt_config("always"), solved_at(50, "S")),
    )]);
    let env = Environment::new(&g, "w");
    let mut cache = Cache::new();
    let value = env
        .eval(&mut cache, &ExprText::new(String::from("this.solved")))
        .unwrap();
    assert_eq!(value, Value::Since(Instant { nanos: 50 }));
}

fn submit_ctx<'a>(g: &'a GameState, ident: &'a str, nanos: i128) -> ActionContext<'a> {
    ActionContext::new(Environment::new(g, ident), Instant { nanos })
}

#[test]
fn normalized_answer_is_accepted() {
    let mut config = prompt_config("always");
    config.solutions = vec![Solution::Alphanumeric { solution: String::from("A") }];
    let g = game(vec![("p", instance(config.clone(), unsolved()))]);
    let ctx = submit_ctx(&g, "p", 1000);
    let mut cache = Cache::new();
    let state = unsolved();
    let effect = config
        .submit_answer(&state, &Answer { answer: String::from("\u{e1}") }, &mut cache, &ctx)
        .unwrap();
    let new_state = effect.new_state.expect("state should be updated");
    let details = new_state.solved.expect("should be solved");
    assert_eq!(details.canonical_text, "A");
    assert_eq!(details.time.nanos, 1000);
    assert!(matches!(effect.toast.unwrap().message, Message::SolutionCorrect));
}

#[test]
fn exclusion_group_refuses_claimed_answer() {
    let mut first = prompt_config("always");
    first.solutions = vec![Solution::Alphanumeric { solution: String::from("FOO") }];
    first.solution_exclusion_group = Some(String::from("g"));
    let mut second = prompt_config("always");
    second.solutions = vec![Solution::Alphanumeric { solution: String::from("FOO") }];
    second.solution_exclusion_group = Some(String::from("g"));

    let g = game(vec![
        ("p1", instance(first, solved_at(10, "FOO"))),
        ("p2", instance(second.clone(), unsolved())),
    ]);
    let ctx = submit_ctx(&g, "p2", 1000);
    let mut cache = Cache::new();
    let state = unsolved();
    let effect = second
        .submit_answer(&state, &Answer { answer: String::from("foo") }, &mut cache, &ctx)
        .unwrap();
    assert!(effect.new_state.is_none());
    assert!(matches!(effect.toast.unwrap().message, Message::SolutionIncorrect));
}

#[test]
fn solved_prompt_refuses_submissions() {
    let mut config = prompt_config("always");
    config.solutions = vec![Solution::Alphanumeric { solution: String::from("A") }];
    let state = solved_at(10, "A");
    let g = game(vec![("p", instance(config.clone(), state.clone()))]);
    let ctx = submit_ctx(&g, "p", 1000);
    let mut cache = Cache::new();
    let err = config
        .submit_answer(&state, &Answer { answer: String::from("A") }, &mut cache, &ctx)
        .unwrap_err();
    assert!(matches!(err, ActionError::NotPossible));
}

fn hinted_config() -> prompt::Config {
    let mut config = prompt_config("always");
    config.hints = vec![prompt::HintConfig {
        ident: String::from("h1"),
        name: String::from("first hint"),
        content: vec![String::from("the hint text")],
        available: ExprText::always(),
        visible: ExprText::always(),
        take_button: None,
        on_hint_taken: None,
    }];
    config
}

#[test]
fn taking_a_hint_records_it_once() {
    let config = hinted_config();
    let g = game(vec![("p", instance(config.clone(), unsolved()))]);
    let ctx = submit_ctx(&g, "p", 1000);
    let mut cache = Cache::new();
    let state = unsolved();
    let effect = config
        .take_hint(&state, &Hint { ident: String::from("h1") }, &mut cache, &ctx)
        .unwrap();
    let new_state = effect.new_state.expect("state should be updated");
    assert_eq!(new_state.hints.len(), 1);
    assert_eq!(new_state.hints[0].0, "h1");
    assert_eq!(new_state.hints[0].1.nanos, 1000);
    assert!(new_state.solved.is_none());
    assert!(matches!(effect.toast.unwrap().message, Message::HintTaken));

    let mut cache = Cache::new();
    let err = config
        .take_hint(&new_state, &Hint { ident: String::from("h1") }, &mut cache, &ctx)
        .unwrap_err();
    assert!(matches!(err, ActionError::NotPossible));
}

#[test]
fn unknown_hint_is_reported() {
    let config = hinted_config();
    let g = game(vec![("p", instance(config.clone(), unsolved()))]);
    let ctx = submit_ctx(&g, "p", 1000);
    let mut cache = Cache::new();
    let state = unsolved();
    let err = config
        .take_hint(&state, &Hint { ident: String::from("nope") }, &mut cache, &ctx)
        .unwrap_err();
    assert!(matches!(err, ActionError::UnknownIdent));
}

#[test]
fn dispatch_refuses_wrong_widget_kind() {
    let text_widget = Instance::Text(
        Box::new(text::Config {
            heading: None,
            content: Vec::new(),
            visible: ExprText::always(),
            obsolete: ExprText::never(),
        }),
        Box::new(text::State {}),
    );
    let g = game(vec![]);
    let ctx = submit_ctx(&g, "t", 1000);
    let mut cache = Cache::new();
    let err = text_widget
        .submit(
            &mut cache,
            &Action::Answer(Answer { answer: String::from("x") }),
            &ctx,
        )
        .unwrap_err();
    assert!(matches!(err, ActionError::WidgetMismatch));
}

fn meta_for(g: &GameState) -> Vec<(String, u128)> {
    g.instances
        .iter()
        .enumerate()
        .map(|(i, (ident, _))| (ident.clone(), i as u128 + 1))
        .collect()
}

#[test]
fn render_orders_obsolete_last_and_delta_round_trips() {
    let stale_text = Instance::Text(
        Box::new(text::Config {
            heading: Some(String::from("old")),
            content: vec![String::from("done")],
            visible: ExprText::always(),
            obsolete: ExprText::always(),
        }),
        Box::new(text::State {}),
    );
    let fresh_text = Instance::Text(
        Box::new(text::Config {
            heading: Some(String::from("new")),
            content: vec![String::from("ongoing")],
            visible: ExprText::always(),
            obsolete: ExprText::never(),
        }),
        Box::new(text::State {}),
    );
    let g = game(vec![("stale", stale_text), ("fresh", fresh_text)]);
    let meta = meta_for(&g);
    let result = render(&g, &meta, Instant { nanos: 0 }).unwrap();
    assert_eq!(result.widgets.len(), 2);
    assert_eq!(result.widgets[0].id, 2);
    assert_eq!(result.widgets[1].id, 1);
    assert_eq!(result.valid_until, None);

    let empty = Vec::new();
    let d = delta(&result.widgets, &empty);
    assert_eq!(d.len(), 2);
    assert!(d.iter().all(|e| e.view.is_some()));
    let rebuilt = apply(&empty, &d).expect("delta against nothing applies");
    assert_eq!(rebuilt.len(), result.widgets.len());
    for (a, b) in rebuilt.iter().zip(result.widgets.iter()) {
        assert_eq!(a.id, b.id);
        assert!(eq_view(&a.view, &b.view));
    }

    let d2 = delta(&result.widgets, &result.widgets);
    assert!(d2.iter().all(|e| e.view.is_none()));
    let rebuilt2 = apply(&result.widgets, &d2).expect("unchanged delta applies");
    for (a, b) in rebuilt2.iter().zip(result.widgets.iter()) {
        assert!(eq_view(&a.view, &b.view));
    }
}

#[test]
fn valid_until_tracks_future_visibility() {
    let later = 1672596000000000000;
    let g = game(vec![
        ("w", instance(prompt_config("2023-01-01 20:00 +2"), unsolved())),
        ("v", instance(prompt_config("always"), unsolved())),
    ]);
    let meta = meta_for(&g);
    let now = Instant { nanos: 1672567200000000000 };
    let result = render(&g, &meta, now).unwrap();
    assert_eq!(result.widgets.len(), 1);
    assert_eq!(result.valid_until, Some(Instant { nanos: later }));

    let after = render(&g, &meta, Instant { nanos: later }).unwrap();
    assert_eq!(after.widgets.len(), 2);
}
