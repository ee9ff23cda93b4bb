//! Actions a team can submit to a widget, and what they do to the
//! widget's state.
//!
//! Once a prompt is solved it stays solved: a solved prompt is no
//! longer active, so any further submission is refused, and taking a
//! hint never touches `solved`. The set of taken hints only grows.

use vstd::prelude::*;
use vstd::prelude::View as ViewRel;

use crate::error::{ActionError, EvalError};
use crate::eval::{hint_lookup, pure_text, Cache, Environment};
use crate::expr::ExprText;
use crate::instant::Instant;
use crate::solution::{spec_canonical, spec_check, Solution};
use crate::toast::{Message, Toast, ToastType};
use crate::value::spec_to_bool;
use crate::widget::{prompt, Instance, State};
use crate::chars::str_eq;

verus! {

/// An answer submission.
#[derive(Debug, Clone)]
pub struct Answer {
    pub answer: String,
}

/// A request to take a hint.
#[derive(Debug, Clone)]
pub struct Hint {
    pub ident: String,
}

/// An action a team can submit.
#[derive(Debug, Clone)]
pub enum Action {
    Answer(Answer),
    Hint(Hint),
}

/// What an accepted action does: an optional new state to store and
/// an optional toast to show.
#[derive(Debug)]
pub struct ActionEffect<S> {
    pub new_state: Option<S>,
    pub toast: Option<Toast>,
}

impl<S> ActionEffect<S> {
    /// Apply `op` to the new state, if any.
    pub fn map<N, F: FnOnce(S) -> N>(self, op: F) -> (r: ActionEffect<N>)
        requires
            self.new_state matches Some(s) ==> op.requires((s,)),
        ensures
            r.toast == self.toast,
            self.new_state is None ==> r.new_state is None,
            self.new_state matches Some(s) ==> r.new_state matches Some(n) && op.ensures(
                (s,),
                n,
            ),
    {
        ActionEffect {
            new_state: match self.new_state {
                Some(s) => Some(op(s)),
                None => None,
            },
            toast: self.toast,
        }
    }

    /// An effect from its parts.
    pub fn new(state: Option<S>, toast: Option<Toast>) -> (r: ActionEffect<S>)
        ensures
            r.new_state == state,
            r.toast == toast,
    {
        ActionEffect { new_state: state, toast }
    }

    /// An effect that only shows a toast.
    pub fn with_toast(toast: Toast) -> (r: ActionEffect<S>)
        ensures
            r.new_state is None,
            r.toast == Some(toast),
    {
        ActionEffect { new_state: None, toast: Some(toast) }
    }
}

/// Evaluation against a game at the instant an action arrived.
#[derive(Debug)]
pub struct ActionContext<'a> {
    pub env: Environment<'a>,
    pub time: Instant,
}

impl<'a> ActionContext<'a> {
    /// A context from an environment and the action's instant.
    pub fn new(env: Environment<'a>, time: Instant) -> (r: ActionContext<'a>)
        ensures
            r.env == env,
            r.time == time,
    {
        ActionContext { env, time }
    }

    /// Evaluate an expression and ask whether it holds at the
    /// action's instant. An expression that reads no field gives its
    /// literal answer.
    pub fn eval(&self, cache: &mut Cache, expr: &ExprText) -> (r: Result<bool, EvalError>)
        ensures
            pure_text(*expr) matches Some(v) ==> r == Ok::<bool, EvalError>(
                spec_to_bool(v, self.time),
            ),
    {
        match self.env.eval(cache, expr) {
            Ok(v) => Ok(v.to_bool(self.time)),
            Err(e) => Err(e),
        }
    }
}

/// Whether `i` is the first solution in the list that the answer
/// matches.
pub open spec fn is_first_match(sols: Seq<Solution>, ans: Seq<char>, i: int) -> bool {
    &&& 0 <= i < sols.len()
    &&& spec_check(sols[i], ans)
    &&& forall|k: int| 0 <= k < i ==> !spec_check(#[trigger] sols[k], ans)
}

/// Whether no configured solution matches the answer.
pub open spec fn no_match(sols: Seq<Solution>, ans: Seq<char>) -> bool {
    forall|k: int| 0 <= k < sols.len() ==> !spec_check(#[trigger] sols[k], ans)
}

/// Whether `t` is the toast a refused answer shows: the configured
/// override or the stock message, in danger class.
pub open spec fn incorrect_toast(c: prompt::Config, t: Toast) -> bool {
    &&& t.class is Danger
    &&& match c.on_solution_incorrect {
        Some(m) => t.message matches Message::Custom(x) && x@ == m@,
        None => t.message is SolutionIncorrect,
    }
}

/// Whether `t` is the toast an accepted answer shows.
pub open spec fn correct_toast(c: prompt::Config, t: Toast) -> bool {
    &&& t.class is Success
    &&& match c.on_solution_correct {
        Some(m) => t.message matches Message::Custom(x) && x@ == m@,
        None => t.message is SolutionCorrect,
    }
}

/// Whether `t` is the toast a taken hint shows.
pub open spec fn hint_toast(h: prompt::HintConfig, t: Toast) -> bool {
    &&& t.class is Success
    &&& match h.on_hint_taken {
        Some(m) => t.message matches Message::Custom(x) && x@ == m@,
        None => t.message is HintTaken,
    }
}

/// The canonical texts already claimed in an exclusion group: those
/// of every solved prompt whose group equals `group`, in game order.
pub open spec fn spec_banned(instances: Seq<(String, Instance)>, group: Seq<char>) -> Seq<
    Seq<char>,
>
    decreases instances.len(),
{
    if instances.len() == 0 {
        Seq::empty()
    } else {
        let head: Seq<Seq<char>> = match instances.first().1 {
            Instance::Prompt(c, st) => match (c.solution_exclusion_group, st.solved) {
                (Some(g), Some(d)) => if g@ == group {
                    seq![d.canonical_text@]
                } else {
                    Seq::empty()
                },
                _ => Seq::empty(),
            },
            _ => Seq::empty(),
        };
        head + spec_banned(instances.drop_first(), group)
    }
}

/// The claimed canonical texts this prompt's group excludes; none
/// without a group.
pub open spec fn spec_banned_for(c: prompt::Config, instances: Seq<(String, Instance)>) -> Seq<
    Seq<char>,
> {
    match c.solution_exclusion_group {
        Some(g) => spec_banned(instances, g@),
        None => Seq::empty(),
    }
}

/// What submitting an answer to an active prompt comes to: no match
/// or a claimed canonical text refuse with the incorrect toast and
/// no state change; the first match otherwise solves the prompt at
/// the action's instant with that solution's canonical text.
pub open spec fn answer_post(
    c: prompt::Config,
    s: prompt::State,
    banned: Seq<Seq<char>>,
    ans: Seq<char>,
    time: Instant,
    eff: ActionEffect<prompt::State>,
) -> bool {
    if no_match(c.solutions@, ans) {
        &&& eff.new_state is None
        &&& eff.toast matches Some(t) && incorrect_toast(c, t)
    } else {
        exists|i: int|
            is_first_match(c.solutions@, ans, i) && ({
                let canon = spec_canonical(c.solutions@[i]);
                if banned.contains(canon) {
                    &&& eff.new_state is None
                    &&& eff.toast matches Some(t) && incorrect_toast(c, t)
                } else {
                    &&& eff.new_state matches Some(ns) && ns.solved matches Some(d) && d.time
                        == time && d.canonical_text@ == canon && ns.hints@ == s.hints@
                    &&& eff.toast matches Some(t) && correct_toast(c, t)
                }
            })
    }
}

/// The index of the first solution the answer matches, if any.
#[verifier::loop_isolation(false)]
fn find_solution(sols: &Vec<Solution>, ans: &str) -> (r: Option<usize>)
    ensures
        match r {
            Some(i) => is_first_match(sols@, ans@, i as int),
            None => forall|k: int| 0 <= k < sols@.len() ==> !spec_check(#[trigger] sols@[k], ans@),
        },
{
    let mut i: usize = 0;
    while i < sols.len()
        invariant
            i <= sols@.len(),
            forall|k: int| 0 <= k < i ==> !spec_check(#[trigger] sols@[k], ans@),
        decreases sols@.len() - i,
    {
        if sols[i].check(ans) {
            return Some(i);
        }
        i = i + 1;
    }
    None
}

/// Whether the list contains a string with these characters.
#[verifier::loop_isolation(false)]
fn contains_str(list: &Vec<String>, needle: &str) -> (r: bool)
    ensures
        r == (exists|k: int| 0 <= k < list@.len() && #[trigger] list@[k]@ == needle@),
{
    let mut i: usize = 0;
    while i < list.len()
        invariant
            i <= list@.len(),
            forall|k: int| 0 <= k < i ==> #[trigger] list@[k]@ != needle@,
        decreases list@.len() - i,
    {
        if str_eq(list[i].as_str(), needle) {
            return true;
        }
        i = i + 1;
    }
    false
}

/// The canonical texts already claimed by solved prompts in the same
/// exclusion group.
#[verifier::loop_isolation(false)]
fn banned_texts(game_instances: &Vec<(String, Instance)>, group: &String) -> (r: Vec<String>)
    ensures
        r.deep_view() == spec_banned(game_instances@, group@),
{
    let ghost all = game_instances@;
    let mut banned: Vec<String> = Vec::new();
    let mut i: usize = 0;
    proof {
        assert(all.skip(0) =~= all);
        assert(banned.deep_view() + spec_banned(all, group@) =~= spec_banned(all, group@));
    }
    while i < game_instances.len()
        invariant
            i <= all.len(),
            spec_banned(all, group@) == banned.deep_view() + spec_banned(
                all.skip(i as int),
                group@,
            ),
        decreases game_instances@.len() - i,
    {
        proof {
            assert(all.skip(i as int).first() == all[i as int]);
            assert(all.skip(i as int).drop_first() =~= all.skip(i as int + 1));
        }
        match &game_instances[i].1 {
            Instance::Prompt(other_c, other_s) => {
                let same_group = match &other_c.solution_exclusion_group {
                    Some(g) => str_eq(g.as_str(), group.as_str()),
                    None => false,
                };
                if same_group {
                    match &other_s.solved {
                        Some(details) => {
                            let ghost before = banned.deep_view();
                            banned.push(details.canonical_text.clone());
                            proof {
                                assert(banned.deep_view() =~= before.push(
                                    details.canonical_text@,
                                ));
                                assert(before.push(details.canonical_text@) + spec_banned(
                                    all.skip(i as int + 1),
                                    group@,
                                ) =~= before + (seq![details.canonical_text@] + spec_banned(
                                    all.skip(i as int + 1),
                                    group@,
                                )));
                            }
                        },
                        None => {},
                    }
                }
            },
            _ => {},
        }
        i = i + 1;
    }
    proof {
        assert(all.skip(all.len() as int) =~= Seq::<(String, Instance)>::empty());
        assert(banned.deep_view() + spec_banned(Seq::empty(), group@) =~= banned.deep_view());
    }
    banned
}

/// Whether `j` is the first configured hint with this ident.
pub open spec fn is_first_hint(hs: Seq<prompt::HintConfig>, id: Seq<char>, j: int) -> bool {
    &&& 0 <= j < hs.len()
    &&& hs[j].ident@ == id
    &&& forall|k: int| 0 <= k < j ==> #[trigger] hs[k].ident@ != id
}

/// What taking a hint on an active prompt comes to when it is
/// accepted: the hint exists, was untaken, and is appended with the
/// action's instant; the toast is the hint's override or the stock
/// message.
pub open spec fn take_post(
    c: prompt::Config,
    s: prompt::State,
    ident: String,
    time: Instant,
    eff: ActionEffect<prompt::State>,
) -> bool {
    &&& exists|j: int| is_first_hint(c.hints@, ident@, j)
    &&& hint_lookup(s.hints@, ident@) is None
    &&& eff.new_state matches Some(ns) && ns.solved == s.solved && ns.hints@ == s.hints@.push(
        (ident, time),
    )
    &&& eff.toast matches Some(t) && (forall|j: int|
        is_first_hint(c.hints@, ident@, j) ==> hint_toast(#[trigger] c.hints@[j], t))
}

/// Whether no two taken-hint entries share an ident.
pub open spec fn hints_unique(hs: Seq<(String, Instant)>) -> bool {
    forall|a: int, b: int| 0 <= a < b < hs.len() ==> #[trigger] hs[a].0@ != #[trigger] hs[b].0@
}

/// A missing lookup means no entry holds the ident.
pub proof fn lemma_hint_lookup_none(hs: Seq<(String, Instant)>, id: Seq<char>)
    ensures
        hint_lookup(hs, id) is None ==> forall|k: int|
            0 <= k < hs.len() ==> #[trigger] hs[k].0@ != id,
    decreases hs.len(),
{
    if hs.len() > 0 {
        lemma_hint_lookup_none(hs.drop_first(), id);
        if hint_lookup(hs, id) is None {
            assert forall|k: int| 0 <= k < hs.len() implies #[trigger] hs[k].0@ != id by {
                if k > 0 {
                    assert(hs[k] == hs.drop_first()[k - 1]);
                }
            }
        }
    }
}

/// One prompt state extends another without ever un-solving or
/// dropping a taken hint.
pub open spec fn state_monotone(older: prompt::State, newer: prompt::State) -> bool {
    &&& older.solved is Some ==> newer.solved == older.solved
    &&& newer.hints@.len() >= older.hints@.len()
    &&& forall|i: int| 0 <= i < older.hints@.len() ==> newer.hints@[i] == older.hints@[i]
}

impl prompt::Config {
    /// Whether the prompt accepts actions: visible, not yet solved,
    /// not disabled.
    fn active(
        &self,
        state: &prompt::State,
        cache: &mut Cache,
        ctx: &ActionContext,
    ) -> (r: Result<bool, EvalError>)
        ensures
            state.solved is Some ==> (r matches Ok(b) && b == false) || r is Err,
            pure_text(self.visible) matches Some(vv) ==> pure_text(self.disabled) matches Some(
                dv,
            ) ==> r == Ok::<bool, EvalError>(
                spec_to_bool(vv, ctx.time) && state.solved is None && !spec_to_bool(dv, ctx.time),
            ),
    {
        let visible = match ctx.eval(cache, &self.visible) {
            Ok(b) => b,
            Err(e) => {
                return Err(e);
            },
        };
        let disabled = match ctx.eval(cache, &self.disabled) {
            Ok(b) => b,
            Err(e) => {
                return Err(e);
            },
        };
        Ok(visible && state.solved.is_none() && !disabled)
    }

    /// Submit an answer. An inactive prompt (solved ones included)
    /// refuses. On acceptance the state becomes solved at the
    /// action's instant with the matched solution's canonical text,
    /// and the taken hints are untouched.
    pub fn submit_answer(
        &self,
        state: &prompt::State,
        action: &Answer,
        cache: &mut Cache,
        ctx: &ActionContext,
    ) -> (r: Result<ActionEffect<prompt::State>, ActionError>)
        ensures
            state.solved is Some ==> (r matches Err(e) && (e is NotPossible || e is Eval)),
            r matches Err(e) ==> (e is NotPossible || e is Eval),
            r matches Ok(eff) ==> answer_post(
                *self,
                *state,
                spec_banned_for(*self, ctx.env.game.instances@),
                action.answer@,
                ctx.time,
                eff,
            ),
            r matches Ok(eff) ==> eff.new_state matches Some(ns) ==> {
                &&& state.solved is None
                &&& ns.solved matches Some(d) && d.time == ctx.time && (exists|i: int|
                    is_first_match(self.solutions@, action.answer@, i) && d.canonical_text@
                        == spec_canonical(self.solutions@[i]))
                &&& ns.hints@ == state.hints@
                &&& state_monotone(*state, ns)
            },
            pure_text(self.visible) matches Some(vv) ==> pure_text(self.disabled) matches Some(
                dv,
            ) ==> {
                let active = spec_to_bool(vv, ctx.time) && state.solved is None && !spec_to_bool(
                    dv,
                    ctx.time,
                );
                &&& (r is Ok <==> active)
                &&& (!active ==> (r matches Err(e) && e is NotPossible))
            },
    {
        let is_active = match self.active(state, cache, ctx) {
            Ok(b) => b,
            Err(e) => {
                return Err(ActionError::Eval(e));
            },
        };
        if !is_active {
            return Err(ActionError::NotPossible);
        }
        let banned: Vec<String> = match &self.solution_exclusion_group {
            Some(group) => banned_texts(&ctx.env.game.instances, group),
            None => Vec::new(),
        };
        proof {
            assert(banned.deep_view() =~= spec_banned_for(
                *self,
                ctx.env.game.instances@,
            ));
        }
        let ghost banned_spec = spec_banned_for(*self, ctx.env.game.instances@);
        match find_solution(&self.solutions, action.answer.as_str()) {
            Some(i) => {
                let canonical_text = self.solutions[i].canonical();
                proof {
                    assert(forall|k: int|
                        0 <= k < banned@.len() ==> banned.deep_view()[k] == #[trigger] banned@[k]@);
                }
                if contains_str(&banned, canonical_text.as_str()) {
                    proof {
                        assert(banned_spec.contains(spec_canonical(self.solutions@[i as int])));
                    }
                    return Ok(ActionEffect::with_toast(Toast {
                        message: match &self.on_solution_incorrect {
                            Some(m) => Message::Custom(m.clone()),
                            None => Message::SolutionIncorrect,
                        },
                        class: ToastType::Danger,
                    }));
                }
                proof {
                    assert(is_first_match(self.solutions@, action.answer@, i as int)
                        && canonical_text@ == spec_canonical(self.solutions@[i as int]));
                    assert(!banned_spec.contains(spec_canonical(self.solutions@[i as int])));
                }
                let new_state = prompt::State {
                    solved: Some(
                        prompt::SolutionDetails { time: ctx.time, canonical_text },
                    ),
                    hints: clone_hints(&state.hints),
                };
                Ok(ActionEffect::new(
                    Some(new_state),
                    Some(Toast {
                        message: match &self.on_solution_correct {
                            Some(m) => Message::Custom(m.clone()),
                            None => Message::SolutionCorrect,
                        },
                        class: ToastType::Success,
                    }),
                ))
            },
            None => Ok(ActionEffect::with_toast(Toast {
                message: match &self.on_solution_incorrect {
                    Some(m) => Message::Custom(m.clone()),
                    None => Message::SolutionIncorrect,
                },
                class: ToastType::Danger,
            })),
        }
    }

    /// Take a hint. The hint must exist, be visible and available at
    /// the action's instant, and not be taken yet; the prompt must be
    /// active. On acceptance the hint and the action's instant are
    /// appended to the taken list and nothing else changes.
    #[verifier::rlimit(100)]
    #[verifier::spinoff_prover]
    pub fn take_hint(
        &self,
        state: &prompt::State,
        action: &Hint,
        cache: &mut Cache,
        ctx: &ActionContext,
    ) -> (r: Result<ActionEffect<prompt::State>, ActionError>)
        ensures
            state.solved is Some ==> (r matches Err(e) && (e is NotPossible || e is Eval)),
            r matches Err(e) ==> (e is NotPossible || e is Eval || e is UnknownIdent),
            r matches Err(e) ==> e is UnknownIdent ==> forall|k: int|
                0 <= k < self.hints@.len() ==> #[trigger] self.hints@[k].ident@
                    != action.ident@,
            r matches Ok(eff) ==> take_post(*self, *state, action.ident, ctx.time, eff),
            r matches Ok(eff) ==> eff.new_state matches Some(ns) ==> state_monotone(*state, ns),
            r matches Ok(eff) ==> eff.new_state matches Some(ns) ==> (hints_unique(state.hints@)
                ==> hints_unique(ns.hints@)),
            pure_text(self.visible) matches Some(vv) ==> pure_text(self.disabled) matches Some(
                dv,
            ) ==> {
                let active = spec_to_bool(vv, ctx.time) && state.solved is None && !spec_to_bool(
                    dv,
                    ctx.time,
                );
                &&& (!active ==> (r matches Err(e) && e is NotPossible))
                &&& (active ==> (forall|j: int|
                    is_first_hint(self.hints@, action.ident@, j) ==> (pure_text(
                        #[trigger] self.hints@[j].visible,
                    ) matches Some(hv) ==> pure_text(self.hints@[j].available) matches Some(ha)
                        ==> ((r is Ok <==> (spec_to_bool(hv, ctx.time) && spec_to_bool(
                        ha,
                        ctx.time,
                    ) && hint_lookup(state.hints@, action.ident@) is None)) && (r matches Err(e)
                        ==> e is NotPossible)))))
            },
    {
        let is_active = match self.active(state, cache, ctx) {
            Ok(b) => b,
            Err(e) => {
                return Err(ActionError::Eval(e));
            },
        };
        if !is_active {
            return Err(ActionError::NotPossible);
        }
        let hint_index = match find_hint_config(&self.hints, &action.ident) {
            Some(i) => i,
            None => {
                return Err(ActionError::UnknownIdent);
            },
        };
        let visible = match ctx.eval(cache, &self.hints[hint_index].visible) {
            Ok(b) => b,
            Err(e) => {
                return Err(ActionError::Eval(e));
            },
        };
        let available = match ctx.eval(cache, &self.hints[hint_index].available) {
            Ok(b) => b,
            Err(e) => {
                return Err(ActionError::Eval(e));
            },
        };
        if !visible || !available {
            return Err(ActionError::NotPossible);
        }
        match crate::eval::find_hint_time(&state.hints, &action.ident) {
            Some(_) => {
                return Err(ActionError::NotPossible);
            },
            None => {},
        }
        let mut hints = clone_hints(&state.hints);
        let ghost before = hints@;
        hints.push((action.ident.clone(), ctx.time));
        proof {
            assert(hints@ =~= state.hints@.push((action.ident, ctx.time)));
            lemma_hint_lookup_none(state.hints@, action.ident@);
            if hints_unique(state.hints@) {
                assert forall|a: int, b: int|
                    0 <= a < b < hints@.len() implies #[trigger] hints@[a].0@
                    != #[trigger] hints@[b].0@ by {
                    if b < hints@.len() - 1 {
                        assert(hints@[a] == state.hints@[a]);
                        assert(hints@[b] == state.hints@[b]);
                    } else {
                        assert(hints@[a] == state.hints@[a]);
                        assert(hints@[b].0@ == action.ident@);
                    }
                }
            }
        }
        Ok(ActionEffect::new(
            Some(prompt::State { solved: clone_solved(&state.solved), hints }),
            Some(Toast {
                message: match &self.hints[hint_index].on_hint_taken {
                    Some(m) => Message::Custom(m.clone()),
                    None => Message::HintTaken,
                },
                class: ToastType::Success,
            }),
        ))
    }
}

/// The index of the first configured hint with this ident, if any.
#[verifier::loop_isolation(false)]
fn find_hint_config(hints: &Vec<prompt::HintConfig>, ident: &String) -> (r: Option<usize>)
    ensures
        match r {
            Some(i) => is_first_hint(hints@, ident@, i as int),
            None => forall|k: int|
                0 <= k < hints@.len() ==> #[trigger] hints@[k].ident@ != ident@,
        },
{
    let mut i: usize = 0;
    while i < hints.len()
        invariant
            i <= hints@.len(),
            forall|k: int| 0 <= k < i ==> #[trigger] hints@[k].ident@ != ident@,
        decreases hints@.len() - i,
    {
        if str_eq(hints[i].ident.as_str(), ident.as_str()) {
            return Some(i);
        }
        i = i + 1;
    }
    None
}

/// An exact copy of a taken-hints list.
#[verifier::loop_isolation(false)]
fn clone_hints(hints: &Vec<(String, Instant)>) -> (r: Vec<(String, Instant)>)
    ensures
        r@ == hints@,
{
    let mut out: Vec<(String, Instant)> = Vec::new();
    let mut i: usize = 0;
    while i < hints.len()
        invariant
            i <= hints@.len(),
            out@ == hints@.take(i as int),
        decreases hints@.len() - i,
    {
        out.push((hints[i].0.clone(), hints[i].1));
        i = i + 1;
        proof {
            assert(out@ =~= hints@.take(i as int));
        }
    }
    proof {
        assert(hints@.take(hints@.len() as int) =~= hints@);
    }
    out
}

/// An exact copy of the solved details.
fn clone_solved(solved: &Option<prompt::SolutionDetails>) -> (r: Option<prompt::SolutionDetails>)
    ensures
        r == *solved,
{
    match solved {
        Some(d) => Some(
            prompt::SolutionDetails { time: d.time, canonical_text: d.canonical_text.clone() },
        ),
        None => None,
    }
}

/// A dispatched effect with its widget-level state unwrapped to the
/// prompt's, for relating the dispatcher to the prompt handlers.
pub open spec fn unwrap_effect(eff: ActionEffect<State>) -> ActionEffect<prompt::State> {
    ActionEffect {
        new_state: match eff.new_state {
            Some(State::Prompt(ns)) => Some(*ns),
            _ => None,
        },
        toast: eff.toast,
    }
}

impl Instance {
    /// Dispatch an action to the widget. Only prompts accept
    /// actions, and an accepted action's outcome is exactly the
    /// prompt handler's, with the new state wrapped; it never
    /// un-solves the prompt and never drops a taken hint.
    pub fn submit(
        &self,
        cache: &mut Cache,
        action: &Action,
        ctx: &ActionContext,
    ) -> (r: Result<ActionEffect<State>, ActionError>)
        ensures
            !(self is Prompt) ==> (r matches Err(e) && e is WidgetMismatch),
            self is Prompt ==> (r matches Err(e) ==> !(e is WidgetMismatch)),
            r matches Ok(eff) ==> eff.new_state matches Some(ws) ==> ws is Prompt,
            self matches Instance::Prompt(c, s) ==> (action matches Action::Answer(a) ==> (r
                matches Ok(eff) ==> answer_post(
                **c,
                **s,
                spec_banned_for(**c, ctx.env.game.instances@),
                a.answer@,
                ctx.time,
                unwrap_effect(eff),
            ))),
            self matches Instance::Prompt(c, s) ==> (action matches Action::Hint(h) ==> (r
                matches Ok(eff) ==> take_post(**c, **s, h.ident, ctx.time, unwrap_effect(eff)))),
            r matches Ok(eff) ==> eff.new_state matches Some(ws) ==> (self matches
                Instance::Prompt(c, s) && ws matches State::Prompt(ns) && state_monotone(
                **s,
                *ns,
            )),
    {
        match (self, action) {
            (Instance::Prompt(config, state), Action::Answer(answer)) => {
                match config.submit_answer(state, answer, cache, ctx) {
                    Ok(eff) => Ok(ActionEffect {
                        new_state: match eff.new_state {
                            Some(ns) => Some(State::Prompt(Box::new(ns))),
                            None => None,
                        },
                        toast: eff.toast,
                    }),
                    Err(e) => Err(e),
                }
            },
            (Instance::Prompt(config, state), Action::Hint(hint)) => {
                match config.take_hint(state, hint, cache, ctx) {
                    Ok(eff) => Ok(ActionEffect {
                        new_state: match eff.new_state {
                            Some(ns) => Some(State::Prompt(Box::new(ns))),
                            None => None,
                        },
                        toast: eff.toast,
                    }),
                    Err(e) => Err(e),
                }
            },
            _ => Err(ActionError::WidgetMismatch),
        }
    }
}

} // verus!
