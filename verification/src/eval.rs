//! The memoizing cross-widget resolver and expression evaluation.
//!
//! A widget property is addressed by a dotted path; its first
//! segment (after substituting `this`) names a widget or `team`, the
//! rest a property. Evaluation shares a memo table across one
//! top-level call: a path being evaluated is marked with a sentinel,
//! and meeting the sentinel again is a circular dependency. On
//! failure the sentinel stays for the rest of the top-level call, on
//! purpose, so a retried lookup cannot paper over a cycle.
//!
//! Termination of the resolver is proved against the finite set of
//! paths that the game's configuration can mention: every recursive
//! step either answers from the memo table or permanently claims one
//! unclaimed such path.

use vstd::prelude::*;

use crate::error::{EvalError, SpecError};
use crate::expr::{expr_view, Expr, ExprText, SpecExpr};
use crate::game::GameState;
use crate::instant::Instant;
use crate::parse::{parse, spec_parse};
use crate::text::Paragraph;
use crate::value::{spec_and, spec_or, spec_plus, Value};
use crate::widget::{countdown, prompt, text, Instance};
use crate::chars::str_eq;

verus! {

broadcast use vstd::set::group_set_axioms;

/// One memoized outcome: a sentinel for a path currently on the
/// evaluation stack, or a finished value.
#[derive(Debug, Clone, Copy)]
pub enum EvaluationState {
    Evaluating,
    Evaluated(Value),
}

/// The memo table shared by one top-level evaluation.
#[derive(Debug)]
pub struct Cache {
    pub entries: Vec<(Vec<String>, EvaluationState)>,
}

impl Cache {
    /// An empty memo table.
    pub fn new() -> (r: Cache)
        ensures
            r.entries@.len() == 0,
    {
        Cache { entries: Vec::new() }
    }
}

/// The set of keys a memo table holds.
pub open spec fn cache_keys(s: Seq<(Vec<String>, EvaluationState)>) -> Set<Seq<Seq<char>>>
    decreases s.len(),
{
    if s.len() == 0 {
        Set::empty()
    } else {
        cache_keys(s.drop_last()).insert(s.last().0.deep_view())
    }
}

/// The entry stored under a key: the latest one pushed.
pub open spec fn cache_get(s: Seq<(Vec<String>, EvaluationState)>, k: Seq<Seq<char>>) -> Option<
    EvaluationState,
>
    decreases s.len(),
{
    if s.len() == 0 {
        None
    } else if s.last().0.deep_view() == k {
        Some(s.last().1)
    } else {
        cache_get(s.drop_last(), k)
    }
}

/// The key set of a memo table is finite.
pub proof fn lemma_cache_keys_finite(s: Seq<(Vec<String>, EvaluationState)>)
    ensures
        cache_keys(s).finite(),
    decreases s.len(),
{
    if s.len() > 0 {
        lemma_cache_keys_finite(s.drop_last());
    }
}

/// A key has an entry exactly when it is in the key set.
pub proof fn lemma_cache_get_in_keys(s: Seq<(Vec<String>, EvaluationState)>, k: Seq<Seq<char>>)
    ensures
        (cache_get(s, k) is Some) == cache_keys(s).contains(k),
    decreases s.len(),
{
    if s.len() > 0 {
        lemma_cache_get_in_keys(s.drop_last(), k);
    }
}

/// What pushing one entry does to lookups and to the key set.
pub proof fn lemma_cache_push(
    s: Seq<(Vec<String>, EvaluationState)>,
    e: (Vec<String>, EvaluationState),
)
    ensures
        cache_get(s.push(e), e.0.deep_view()) == Some(e.1),
        forall|k: Seq<Seq<char>>|
            k != e.0.deep_view() ==> cache_get(s.push(e), k) == cache_get(s, k),
        cache_keys(s.push(e)) =~= cache_keys(s).insert(e.0.deep_view()),
{
    assert(s.push(e).drop_last() =~= s);
    assert(s.push(e).last() == e);
}

/// The fully qualified form of a path: a leading `this` is replaced
/// by the owner's ident.
pub open spec fn qualify(path: Seq<Seq<char>>, owner: Seq<char>) -> Seq<Seq<char>> {
    if path.len() > 0 && path[0] == "this"@ {
        seq![owner] + path.drop_first()
    } else {
        path
    }
}

/// The qualified paths an expression can look up when evaluated for
/// `owner`.
pub open spec fn qfields(e: SpecExpr, owner: Seq<char>) -> Set<Seq<Seq<char>>>
    decreases e,
{
    match e {
        SpecExpr::Literal(_) => Set::empty(),
        SpecExpr::Field(p) => Set::empty().insert(qualify(p, owner)),
        SpecExpr::And(a, b) => qfields(*a, owner).union(qfields(*b, owner)),
        SpecExpr::Or(a, b) => qfields(*a, owner).union(qfields(*b, owner)),
        SpecExpr::Add(a, _) => qfields(*a, owner),
    }
}

/// The qualified paths of an expression's source text; none when it
/// does not parse.
#[verifier::opaque]
pub open spec fn text_qfields(t: ExprText, owner: Seq<char>) -> Set<Seq<Seq<char>>> {
    match spec_parse(t.text@) {
        Ok(e) => qfields(e, owner),
        Err(_) => Set::empty(),
    }
}

/// The qualified paths of an expression are finitely many.
pub proof fn lemma_qfields_finite(e: SpecExpr, owner: Seq<char>)
    ensures
        qfields(e, owner).finite(),
    decreases e,
{
    match e {
        SpecExpr::Literal(_) => {},
        SpecExpr::Field(_) => {},
        SpecExpr::And(a, b) => {
            lemma_qfields_finite(*a, owner);
            lemma_qfields_finite(*b, owner);
        },
        SpecExpr::Or(a, b) => {
            lemma_qfields_finite(*a, owner);
            lemma_qfields_finite(*b, owner);
        },
        SpecExpr::Add(a, _) => {
            lemma_qfields_finite(*a, owner);
        },
    }
}

/// The qualified paths of an expression's source text are finitely
/// many.
pub proof fn lemma_text_qfields_finite(t: ExprText, owner: Seq<char>)
    ensures
        text_qfields(t, owner).finite(),
{
    reveal(text_qfields);
    match spec_parse(t.text@) {
        Ok(e) => {
            lemma_qfields_finite(e, owner);
        },
        Err(_) => {},
    }
}

/// The qualified paths of a sequence of paragraphs.
pub open spec fn paras_qfields(ps: Seq<Paragraph>, owner: Seq<char>) -> Set<Seq<Seq<char>>>
    decreases ps.len(),
{
    if ps.len() == 0 {
        Set::empty()
    } else {
        let head = match ps.first() {
            Paragraph::Simple(_) => Set::empty(),
            Paragraph::Conditional(c) => text_qfields(c.show, owner).union(
                text_qfields(c.hide, owner),
            ),
        };
        head.union(paras_qfields(ps.drop_first(), owner))
    }
}

/// The qualified paths of a sequence of hints.
pub open spec fn hints_qfields(hs: Seq<prompt::HintConfig>, owner: Seq<char>) -> Set<
    Seq<Seq<char>>,
>
    decreases hs.len(),
{
    if hs.len() == 0 {
        Set::empty()
    } else {
        text_qfields(hs.first().available, owner).union(
            text_qfields(hs.first().visible, owner),
        ).union(hints_qfields(hs.drop_first(), owner))
    }
}

/// The qualified paths a prompt's configuration can mention.
pub open spec fn prompt_qfields(c: prompt::Config, owner: Seq<char>) -> Set<Seq<Seq<char>>> {
    text_qfields(c.visible, owner).union(text_qfields(c.disabled, owner)).union(
        hints_qfields(c.hints@, owner),
    ).union(paras_qfields(c.details.paragraphs@, owner))
}

/// The qualified paths a text widget's configuration can mention.
pub open spec fn textw_qfields(c: text::Config, owner: Seq<char>) -> Set<Seq<Seq<char>>> {
    text_qfields(c.visible, owner).union(text_qfields(c.obsolete, owner))
}

/// The qualified paths a countdown's configuration can mention.
pub open spec fn countdown_qfields(c: countdown::Config, owner: Seq<char>) -> Set<Seq<Seq<char>>> {
    text_qfields(c.visible, owner).union(text_qfields(c.time, owner)).union(
        paras_qfields(c.details.paragraphs@, owner),
    )
}

/// The qualified paths one instance's configuration can mention.
pub open spec fn instance_qfields(i: Instance, owner: Seq<char>) -> Set<Seq<Seq<char>>> {
    match i {
        Instance::Prompt(c, _) => prompt_qfields(*c, owner),
        Instance::Text(c, _) => textw_qfields(*c, owner),
        Instance::Countdown(c, _) => countdown_qfields(*c, owner),
    }
}

/// The qualified paths all widgets can mention.
pub open spec fn widgets_qfields(ws: Seq<(String, Instance)>) -> Set<Seq<Seq<char>>>
    decreases ws.len(),
{
    if ws.len() == 0 {
        Set::empty()
    } else {
        instance_qfields(ws.first().1, ws.first().0@).union(widgets_qfields(ws.drop_first()))
    }
}

/// The qualified paths the team attributes can mention.
pub open spec fn attrs_qfields(es: Seq<(String, ExprText)>) -> Set<Seq<Seq<char>>>
    decreases es.len(),
{
    if es.len() == 0 {
        Set::empty()
    } else {
        text_qfields(es.first().1, "team"@).union(attrs_qfields(es.drop_first()))
    }
}

/// Every qualified path the game's configuration can mention.
pub open spec fn univ(g: GameState) -> Set<Seq<Seq<char>>> {
    widgets_qfields(g.instances@).union(attrs_qfields(g.team.entries@))
}

/// The paths of a sequence of paragraphs are finitely many, and each
/// paragraph's are among them.
pub proof fn lemma_paras_qfields(ps: Seq<Paragraph>, owner: Seq<char>)
    ensures
        paras_qfields(ps, owner).finite(),
        forall|i: int|
            0 <= i < ps.len() ==> (match #[trigger] ps[i] {
                Paragraph::Simple(_) => true,
                Paragraph::Conditional(c) => text_qfields(c.show, owner).subset_of(
                    paras_qfields(ps, owner),
                ) && text_qfields(c.hide, owner).subset_of(paras_qfields(ps, owner)),
            }),
    decreases ps.len(),
{
    if ps.len() > 0 {
        match ps.first() {
            Paragraph::Simple(_) => {},
            Paragraph::Conditional(c) => {
                lemma_text_qfields_finite(c.show, owner);
                lemma_text_qfields_finite(c.hide, owner);
            },
        }
        lemma_paras_qfields(ps.drop_first(), owner);
        assert forall|i: int| 0 <= i < ps.len() implies (match #[trigger] ps[i] {
            Paragraph::Simple(_) => true,
            Paragraph::Conditional(c) => text_qfields(c.show, owner).subset_of(
                paras_qfields(ps, owner),
            ) && text_qfields(c.hide, owner).subset_of(paras_qfields(ps, owner)),
        }) by {
            if i > 0 {
                assert(ps[i] == ps.drop_first()[i - 1]);
            }
        }
    }
}

/// The paths of a sequence of hints are finitely many, and each
/// hint's are among them.
#[verifier::rlimit(100)]
pub proof fn lemma_hints_qfields(hs: Seq<prompt::HintConfig>, owner: Seq<char>)
    ensures
        hints_qfields(hs, owner).finite(),
        forall|i: int|
            0 <= i < hs.len() ==> text_qfields(#[trigger] hs[i].available, owner).subset_of(
                hints_qfields(hs, owner),
            ) && text_qfields(hs[i].visible, owner).subset_of(hints_qfields(hs, owner)),
    decreases hs.len(),
{
    if hs.len() > 0 {
        lemma_text_qfields_finite(hs.first().available, owner);
        lemma_text_qfields_finite(hs.first().visible, owner);
        lemma_hints_qfields(hs.drop_first(), owner);
        assert forall|i: int|
            0 <= i < hs.len() implies text_qfields(#[trigger] hs[i].available, owner).subset_of(
            hints_qfields(hs, owner),
        ) && text_qfields(hs[i].visible, owner).subset_of(hints_qfields(hs, owner)) by {
            if i > 0 {
                assert(hs[i] == hs.drop_first()[i - 1]);
            }
        }
    }
}

/// An instance's paths are finitely many.
pub proof fn lemma_instance_qfields_finite(i: Instance, owner: Seq<char>)
    ensures
        instance_qfields(i, owner).finite(),
{
    match i {
        Instance::Prompt(c, _) => {
            lemma_text_qfields_finite(c.visible, owner);
            lemma_text_qfields_finite(c.disabled, owner);
            lemma_hints_qfields(c.hints@, owner);
            lemma_paras_qfields(c.details.paragraphs@, owner);
        },
        Instance::Text(c, _) => {
            lemma_text_qfields_finite(c.visible, owner);
            lemma_text_qfields_finite(c.obsolete, owner);
        },
        Instance::Countdown(c, _) => {
            lemma_text_qfields_finite(c.visible, owner);
            lemma_text_qfields_finite(c.time, owner);
            lemma_paras_qfields(c.details.paragraphs@, owner);
        },
    }
}

/// The widgets' paths are finitely many, and each widget's are among
/// them.
#[verifier::rlimit(100)]
pub proof fn lemma_widgets_qfields(ws: Seq<(String, Instance)>)
    ensures
        widgets_qfields(ws).finite(),
        forall|i: int|
            0 <= i < ws.len() ==> instance_qfields(#[trigger] ws[i].1, ws[i].0@).subset_of(
                widgets_qfields(ws),
            ),
    decreases ws.len(),
{
    if ws.len() > 0 {
        lemma_instance_qfields_finite(ws.first().1, ws.first().0@);
        lemma_widgets_qfields(ws.drop_first());
        assert forall|i: int|
            0 <= i < ws.len() implies instance_qfields(#[trigger] ws[i].1, ws[i].0@).subset_of(
            widgets_qfields(ws),
        ) by {
            if i > 0 {
                assert(ws[i] == ws.drop_first()[i - 1]);
            }
        }
    }
}

/// The attributes' paths are finitely many, and each attribute's are
/// among them.
pub proof fn lemma_attrs_qfields(es: Seq<(String, ExprText)>)
    ensures
        attrs_qfields(es).finite(),
        forall|i: int|
            0 <= i < es.len() ==> text_qfields(#[trigger] es[i].1, "team"@).subset_of(
                attrs_qfields(es),
            ),
    decreases es.len(),
{
    if es.len() > 0 {
        lemma_text_qfields_finite(es.first().1, "team"@);
        lemma_attrs_qfields(es.drop_first());
        assert forall|i: int|
            0 <= i < es.len() implies text_qfields(#[trigger] es[i].1, "team"@).subset_of(
            attrs_qfields(es),
        ) by {
            if i > 0 {
                assert(es[i] == es.drop_first()[i - 1]);
            }
        }
    }
}

/// The game's mentionable paths are finitely many.
pub proof fn lemma_univ_finite(g: GameState)
    ensures
        univ(g).finite(),
{
    lemma_widgets_qfields(g.instances@);
    lemma_attrs_qfields(g.team.entries@);
}

/// The keys one evaluation may claim: what the game can mention,
/// plus what the top-level call asked about.
pub open spec fn allowed_keys(g: GameState, extra: Set<Seq<Seq<char>>>) -> Set<Seq<Seq<char>>> {
    univ(g).union(extra)
}

/// How many allowed keys the memo table has not yet claimed. Every
/// step of the resolver that recurses claims one, so this bounds the
/// evaluation.
pub open spec fn eval_measure(g: GameState, extra: Set<Seq<Seq<char>>>, c: Seq<
    (Vec<String>, EvaluationState),
>) -> nat {
    allowed_keys(g, extra).difference(cache_keys(c)).len()
}

/// A growing memo table never raises the measure.
pub proof fn lemma_measure_le(
    g: GameState,
    extra: Set<Seq<Seq<char>>>,
    c1: Seq<(Vec<String>, EvaluationState)>,
    c2: Seq<(Vec<String>, EvaluationState)>,
)
    requires
        extra.finite(),
        cache_keys(c1).subset_of(cache_keys(c2)),
    ensures
        eval_measure(g, extra, c2) <= eval_measure(g, extra, c1),
{
    lemma_univ_finite(g);
    let a = allowed_keys(g, extra);
    assert(a.difference(cache_keys(c2)).subset_of(a.difference(cache_keys(c1))));
    vstd::set_lib::lemma_len_subset(a.difference(cache_keys(c2)), a.difference(cache_keys(c1)));
}

/// Claiming an unclaimed allowed key lowers the measure.
pub proof fn lemma_measure_insert(
    g: GameState,
    extra: Set<Seq<Seq<char>>>,
    c: Seq<(Vec<String>, EvaluationState)>,
    e: (Vec<String>, EvaluationState),
)
    requires
        extra.finite(),
        allowed_keys(g, extra).contains(e.0.deep_view()),
        !cache_keys(c).contains(e.0.deep_view()),
    ensures
        eval_measure(g, extra, c.push(e)) < eval_measure(g, extra, c),
{
    lemma_univ_finite(g);
    lemma_cache_keys_finite(c);
    lemma_cache_push(c, e);
    let a = allowed_keys(g, extra);
    let kv = e.0.deep_view();
    assert(a.difference(cache_keys(c.push(e))) =~= a.difference(cache_keys(c)).remove(kv));
    assert(a.difference(cache_keys(c)).contains(kv));
    vstd::set_lib::lemma_len_subset(a.difference(cache_keys(c)), a);
}

/// The height of an expression, for structural recursion alongside
/// the measure.
pub open spec fn expr_height(e: SpecExpr) -> nat
    decreases e,
{
    match e {
        SpecExpr::Literal(_) => 0,
        SpecExpr::Field(_) => 0,
        SpecExpr::And(a, b) => 1 + if expr_height(*a) >= expr_height(*b) {
            expr_height(*a)
        } else {
            expr_height(*b)
        },
        SpecExpr::Or(a, b) => 1 + if expr_height(*a) >= expr_height(*b) {
            expr_height(*a)
        } else {
            expr_height(*b)
        },
        SpecExpr::Add(a, _) => 1 + expr_height(*a),
    }
}

/// What an expression's source text evaluates to when it parses and
/// reads no field; `None` otherwise.
#[verifier::opaque]
pub open spec fn pure_text(t: ExprText) -> Option<Value> {
    match spec_parse(t.text@) {
        Ok(e) => pure_val(e),
        Err(_) => None,
    }
}

/// What a field-free expression evaluates to; `None` when it reads a
/// field.
pub open spec fn pure_val(e: SpecExpr) -> Option<Value>
    decreases e,
{
    match e {
        SpecExpr::Literal(v) => Some(v),
        SpecExpr::Field(_) => None,
        SpecExpr::And(a, b) => match (pure_val(*a), pure_val(*b)) {
            (Some(x), Some(y)) => Some(spec_and(x, y)),
            _ => None,
        },
        SpecExpr::Or(a, b) => match (pure_val(*a), pure_val(*b)) {
            (Some(x), Some(y)) => Some(spec_or(x, y)),
            _ => None,
        },
        SpecExpr::Add(a, d) => match pure_val(*a) {
            Some(x) => Some(spec_plus(x, d)),
            None => None,
        },
    }
}


/// The first instance stored under this ident, if any.
pub open spec fn first_instance(ws: Seq<(String, Instance)>, module: Seq<char>) -> Option<
    Instance,
>
    decreases ws.len(),
{
    if ws.len() == 0 {
        None
    } else if ws.first().0@ == module {
        Some(ws.first().1)
    } else {
        first_instance(ws.drop_first(), module)
    }
}

/// The first configured hint with this ident, if any.
pub open spec fn first_hint(hs: Seq<prompt::HintConfig>, id: Seq<char>) -> Option<
    prompt::HintConfig,
>
    decreases hs.len(),
{
    if hs.len() == 0 {
        None
    } else if hs.first().ident@ == id {
        Some(hs.first())
    } else {
        first_hint(hs.drop_first(), id)
    }
}

/// The first team attribute with this name, if any.
pub open spec fn first_attr(es: Seq<(String, ExprText)>, name: Seq<char>) -> Option<ExprText>
    decreases es.len(),
{
    if es.len() == 0 {
        None
    } else if es.first().0@ == name {
        Some(es.first().1)
    } else {
        first_attr(es.drop_first(), name)
    }
}

/// The error a resolution answers for a path nothing answers.
pub open spec fn unknown_path_err(key: Seq<Seq<char>>, r: Result<Value, EvalError>) -> bool {
    r matches Err(e) && e@ == (SpecError::UnknownPath { path: key })
}

/// What resolving a prompt's property answers: `solved` and
/// `hint.<ident>.taken` from the state; `visible`, `disabled` and
/// the per-hint expressions by evaluation (pinned when the
/// expression reads no field); anything else is an unknown path.
pub open spec fn prompt_resolution_post(
    c: prompt::Config,
    st: prompt::State,
    sub: Seq<Seq<char>>,
    key: Seq<Seq<char>>,
    r: Result<Value, EvalError>,
) -> bool {
    if sub.len() == 1 && sub[0] == "solved"@ {
        r == Ok::<Value, EvalError>(
            match st.solved {
                Some(d) => Value::Since(d.time),
                None => Value::Never,
            },
        )
    } else if sub.len() == 1 && sub[0] == "visible"@ {
        pure_text(c.visible) matches Some(v) ==> r == Ok::<Value, EvalError>(v)
    } else if sub.len() == 1 && sub[0] == "disabled"@ {
        pure_text(c.disabled) matches Some(v) ==> r == Ok::<Value, EvalError>(v)
    } else if sub.len() == 3 && sub[0] == "hint"@ && sub[2] == "available"@ {
        match first_hint(c.hints@, sub[1]) {
            None => unknown_path_err(key, r),
            Some(h) => pure_text(h.available) matches Some(v) ==> r == Ok::<Value, EvalError>(v),
        }
    } else if sub.len() == 3 && sub[0] == "hint"@ && sub[2] == "visible"@ {
        match first_hint(c.hints@, sub[1]) {
            None => unknown_path_err(key, r),
            Some(h) => pure_text(h.visible) matches Some(v) ==> r == Ok::<Value, EvalError>(v),
        }
    } else if sub.len() == 3 && sub[0] == "hint"@ && sub[2] == "taken"@ {
        r == Ok::<Value, EvalError>(
            match hint_lookup(st.hints@, sub[1]) {
                Some(t) => Value::Since(t),
                None => Value::Never,
            },
        )
    } else {
        unknown_path_err(key, r)
    }
}

/// What resolving a text widget's property answers.
pub open spec fn text_resolution_post(
    c: text::Config,
    sub: Seq<Seq<char>>,
    key: Seq<Seq<char>>,
    r: Result<Value, EvalError>,
) -> bool {
    if sub.len() == 1 && sub[0] == "visible"@ {
        pure_text(c.visible) matches Some(v) ==> r == Ok::<Value, EvalError>(v)
    } else if sub.len() == 1 && sub[0] == "obsolete"@ {
        pure_text(c.obsolete) matches Some(v) ==> r == Ok::<Value, EvalError>(v)
    } else {
        unknown_path_err(key, r)
    }
}

/// What resolving a countdown's property answers.
pub open spec fn countdown_resolution_post(
    c: countdown::Config,
    sub: Seq<Seq<char>>,
    key: Seq<Seq<char>>,
    r: Result<Value, EvalError>,
) -> bool {
    if sub.len() == 1 && sub[0] == "visible"@ {
        pure_text(c.visible) matches Some(v) ==> r == Ok::<Value, EvalError>(v)
    } else if sub.len() == 1 && sub[0] == "time"@ {
        pure_text(c.time) matches Some(v) ==> r == Ok::<Value, EvalError>(v)
    } else {
        unknown_path_err(key, r)
    }
}

/// What resolving `team.<name>` answers: the named attribute's
/// expression evaluated (pinned when it reads no field); a missing
/// attribute or a longer path is an unknown path.
pub open spec fn team_resolution_post(
    g: GameState,
    sub: Seq<Seq<char>>,
    key: Seq<Seq<char>>,
    r: Result<Value, EvalError>,
) -> bool {
    if sub.len() != 1 {
        unknown_path_err(key, r)
    } else {
        match first_attr(g.team.entries@, sub[0]) {
            None => unknown_path_err(key, r),
            Some(t) => pure_text(t) matches Some(v) ==> r == Ok::<Value, EvalError>(v),
        }
    }
}

/// What resolving a key answers, by where its first segment leads:
/// the team attributes, the first widget under that ident, or an
/// unknown path.
pub open spec fn resolution_post(
    g: GameState,
    module: Seq<char>,
    sub: Seq<Seq<char>>,
    key: Seq<Seq<char>>,
    r: Result<Value, EvalError>,
) -> bool {
    if module == "team"@ {
        team_resolution_post(g, sub, key, r)
    } else {
        match first_instance(g.instances@, module) {
            None => unknown_path_err(key, r),
            Some(inst) => match inst {
                Instance::Prompt(c, st) => prompt_resolution_post(*c, *st, sub, key, r),
                Instance::Text(c, _) => text_resolution_post(*c, sub, key, r),
                Instance::Countdown(c, _) => countdown_resolution_post(*c, sub, key, r),
            },
        }
    }
}

/// The widget (or `team`) a path's first segment addresses, after
/// `this` substitution.
pub open spec fn resolved_module(p: Seq<Seq<char>>, this: Seq<char>) -> Seq<char> {
    if p[0] == "this"@ {
        this
    } else {
        p[0]
    }
}

/// A growing memo table that also keeps every sentinel in place.
pub open spec fn cache_extends(
    c1: Seq<(Vec<String>, EvaluationState)>,
    c2: Seq<(Vec<String>, EvaluationState)>,
) -> bool {
    &&& cache_keys(c1).subset_of(cache_keys(c2))
    &&& forall|k: Seq<Seq<char>>|
        cache_get(c1, k) == Some(EvaluationState::Evaluating) ==> cache_get(c2, k) == Some(
            EvaluationState::Evaluating,
        )
}

/// Whether two keys hold the same path.
#[verifier::loop_isolation(false)]
fn keys_eq(a: &Vec<String>, b: &Vec<String>) -> (r: bool)
    ensures
        r == (a.deep_view() == b.deep_view()),
{
    if a.len() != b.len() {
        proof {
            assert(a.deep_view().len() == a@.len());
            assert(b.deep_view().len() == b@.len());
        }
        return false;
    }
    let mut i: usize = 0;
    while i < a.len()
        invariant
            i <= a@.len(),
            a@.len() == b@.len(),
            forall|k: int| 0 <= k < i ==> a.deep_view()[k] == b.deep_view()[k],
        decreases a@.len() - i,
    {
        if !(a[i] == b[i]) {
            proof {
                assert(a.deep_view()[i as int] == a@[i as int]@);
                assert(b.deep_view()[i as int] == b@[i as int]@);
            }
            return false;
        }
        proof {
            assert(a.deep_view()[i as int] == a@[i as int]@);
            assert(b.deep_view()[i as int] == b@[i as int]@);
        }
        i = i + 1;
    }
    proof {
        assert(a.deep_view() =~= b.deep_view());
    }
    true
}

/// A copy of a key.
#[verifier::loop_isolation(false)]
fn clone_key(key: &Vec<String>) -> (r: Vec<String>)
    ensures
        r.deep_view() == key.deep_view(),
{
    let mut out: Vec<String> = Vec::new();
    let mut i: usize = 0;
    while i < key.len()
        invariant
            i <= key@.len(),
            out@.len() == i,
            forall|k: int| 0 <= k < i ==> out.deep_view()[k] == key.deep_view()[k],
        decreases key@.len() - i,
    {
        out.push(key[i].clone());
        i = i + 1;
    }
    proof {
        assert(out.deep_view() =~= key.deep_view());
    }
    out
}

/// The entry stored under `key`, scanning from the latest.
#[verifier::loop_isolation(false)]
fn lookup_cache(cache: &Cache, key: &Vec<String>) -> (r: Option<EvaluationState>)
    ensures
        r == cache_get(cache.entries@, key.deep_view()),
{
    let ghost es = cache.entries@;
    let ghost kv = key.deep_view();
    let mut i: usize = cache.entries.len();
    proof {
        assert(es.take(es.len() as int) =~= es);
    }
    while i > 0
        invariant
            i <= es.len(),
            es == cache.entries@,
            cache_get(es, kv) == cache_get(es.take(i as int), kv),
        decreases i,
    {
        i = i - 1;
        proof {
            assert(es.take(i as int + 1).drop_last() =~= es.take(i as int));
            assert(es.take(i as int + 1).last() == es[i as int]);
        }
        if keys_eq(&cache.entries[i].0, key) {
            return Some(cache.entries[i].1);
        }
    }
    None
}

/// Build the key `module` followed by `path[start..]`.
#[verifier::loop_isolation(false)]
fn build_key(module: &String, path: &Vec<String>, start: usize) -> (r: Vec<String>)
    requires
        start <= path@.len(),
    ensures
        r.deep_view() == seq![module@] + path.deep_view().skip(start as int),
{
    let mut key: Vec<String> = Vec::new();
    key.push(module.clone());
    proof {
        assert(key.deep_view() =~= seq![module@] + path.deep_view().subrange(
            start as int,
            start as int,
        ));
    }
    let mut i: usize = start;
    while i < path.len()
        invariant
            start <= i <= path@.len(),
            key.deep_view() == seq![module@] + path.deep_view().subrange(start as int, i as int),
        decreases path@.len() - i,
    {
        let seg = path[i].clone();
        let ghost sv = seg@;
        let ghost before = key.deep_view();
        key.push(seg);
        i = i + 1;
        proof {
            assert(sv == path.deep_view()[i - 1]);
            assert(key.deep_view() =~= before.push(sv));
            assert(key.deep_view() =~= seq![module@] + path.deep_view().subrange(
                start as int,
                i as int,
            ));
        }
    }
    proof {
        assert(path.deep_view().subrange(start as int, path.deep_view().len() as int)
            =~= path.deep_view().skip(start as int));
    }
    key
}

/// The index of the first hint with this ident, if any.
#[verifier::loop_isolation(false)]
fn find_hint(hints: &Vec<prompt::HintConfig>, ident: &String) -> (r: Option<usize>)
    ensures
        match r {
            Some(i) => i < hints@.len() && hints@[i as int].ident@ == ident@ && first_hint(
                hints@,
                ident@,
            ) == Some(hints@[i as int]),
            None => first_hint(hints@, ident@) is None,
        },
{
    let mut i: usize = 0;
    while i < hints.len()
        invariant
            i <= hints@.len(),
            forall|k: int| 0 <= k < i ==> #[trigger] hints@[k].ident@ != ident@,
        decreases hints@.len() - i,
    {
        if str_eq(hints[i].ident.as_str(), ident.as_str()) {
            proof {
                lemma_first_hint_at(hints@, ident@, i as int);
            }
            return Some(i);
        }
        i = i + 1;
    }
    proof {
        lemma_first_hint_none(hints@, ident@);
    }
    None
}

/// The instant stored under an ident in a hint-time list: the first
/// match.
pub open spec fn hint_lookup(hs: Seq<(String, Instant)>, id: Seq<char>) -> Option<Instant>
    decreases hs.len(),
{
    if hs.len() == 0 {
        None
    } else if hs.first().0@ == id {
        Some(hs.first().1)
    } else {
        hint_lookup(hs.drop_first(), id)
    }
}

/// The time a hint was taken, if it was.
#[verifier::loop_isolation(false)]
pub fn find_hint_time(hints: &Vec<(String, Instant)>, ident: &String) -> (r: Option<Instant>)
    ensures
        r == hint_lookup(hints@, ident@),
{
    let ghost hs = hints@;
    let mut i: usize = 0;
    proof {
        assert(hs.skip(0) =~= hs);
    }
    while i < hints.len()
        invariant
            i <= hs.len(),
            hs == hints@,
            hint_lookup(hs, ident@) == hint_lookup(hs.skip(i as int), ident@),
        decreases hs.len() - i,
    {
        proof {
            assert(hs.skip(i as int).first() == hs[i as int]);
            assert(hs.skip(i as int).drop_first() =~= hs.skip(i as int + 1));
        }
        if str_eq(hints[i].0.as_str(), ident.as_str()) {
            return Some(hints[i].1);
        }
        i = i + 1;
    }
    proof {
        assert(hs.skip(hs.len() as int) =~= Seq::<(String, Instant)>::empty());
    }
    None
}

/// An index whose earlier entries all miss is the first match.
proof fn lemma_first_instance_at(ws: Seq<(String, Instance)>, module: Seq<char>, i: int)
    requires
        0 <= i < ws.len(),
        ws[i].0@ == module,
        forall|k: int| 0 <= k < i ==> #[trigger] ws[k].0@ != module,
    ensures
        first_instance(ws, module) == Some(ws[i].1),
    decreases i,
{
    if i > 0 {
        assert forall|k: int|
            0 <= k < i - 1 implies #[trigger] ws.drop_first()[k].0@ != module by {
            assert(ws.drop_first()[k] == ws[k + 1]);
        }
        assert(ws.drop_first()[i - 1] == ws[i]);
        lemma_first_instance_at(ws.drop_first(), module, i - 1);
    }
}

/// When every entry misses, there is no first match.
proof fn lemma_first_instance_none(ws: Seq<(String, Instance)>, module: Seq<char>)
    requires
        forall|k: int| 0 <= k < ws.len() ==> #[trigger] ws[k].0@ != module,
    ensures
        first_instance(ws, module) is None,
    decreases ws.len(),
{
    if ws.len() > 0 {
        assert(ws[0].0@ != module);
        assert forall|k: int|
            0 <= k < ws.drop_first().len() implies #[trigger] ws.drop_first()[k].0@ != module by {
            assert(ws.drop_first()[k] == ws[k + 1]);
        }
        lemma_first_instance_none(ws.drop_first(), module);
    }
}

/// An index whose earlier hints all miss is the first hint.
proof fn lemma_first_hint_at(hs: Seq<prompt::HintConfig>, id: Seq<char>, i: int)
    requires
        0 <= i < hs.len(),
        hs[i].ident@ == id,
        forall|k: int| 0 <= k < i ==> #[trigger] hs[k].ident@ != id,
    ensures
        first_hint(hs, id) == Some(hs[i]),
    decreases i,
{
    if i > 0 {
        assert forall|k: int|
            0 <= k < i - 1 implies #[trigger] hs.drop_first()[k].ident@ != id by {
            assert(hs.drop_first()[k] == hs[k + 1]);
        }
        assert(hs.drop_first()[i - 1] == hs[i]);
        lemma_first_hint_at(hs.drop_first(), id, i - 1);
    }
}

/// When every hint misses, there is no first hint.
proof fn lemma_first_hint_none(hs: Seq<prompt::HintConfig>, id: Seq<char>)
    requires
        forall|k: int| 0 <= k < hs.len() ==> #[trigger] hs[k].ident@ != id,
    ensures
        first_hint(hs, id) is None,
    decreases hs.len(),
{
    if hs.len() > 0 {
        assert(hs[0].ident@ != id);
        assert forall|k: int|
            0 <= k < hs.drop_first().len() implies #[trigger] hs.drop_first()[k].ident@ != id by {
            assert(hs.drop_first()[k] == hs[k + 1]);
        }
        lemma_first_hint_none(hs.drop_first(), id);
    }
}

/// An index whose earlier attributes all miss is the first.
proof fn lemma_first_attr_at(es: Seq<(String, ExprText)>, name: Seq<char>, i: int)
    requires
        0 <= i < es.len(),
        es[i].0@ == name,
        forall|k: int| 0 <= k < i ==> #[trigger] es[k].0@ != name,
    ensures
        first_attr(es, name) == Some(es[i].1),
    decreases i,
{
    if i > 0 {
        assert forall|k: int|
            0 <= k < i - 1 implies #[trigger] es.drop_first()[k].0@ != name by {
            assert(es.drop_first()[k] == es[k + 1]);
        }
        assert(es.drop_first()[i - 1] == es[i]);
        lemma_first_attr_at(es.drop_first(), name, i - 1);
    }
}

/// When every attribute misses, there is no first.
proof fn lemma_first_attr_none(es: Seq<(String, ExprText)>, name: Seq<char>)
    requires
        forall|k: int| 0 <= k < es.len() ==> #[trigger] es[k].0@ != name,
    ensures
        first_attr(es, name) is None,
    decreases es.len(),
{
    if es.len() > 0 {
        assert(es[0].0@ != name);
        assert forall|k: int|
            0 <= k < es.drop_first().len() implies #[trigger] es.drop_first()[k].0@ != name by {
            assert(es.drop_first()[k] == es[k + 1]);
        }
        lemma_first_attr_none(es.drop_first(), name);
    }
}

/// The first instance stored under this ident, if any.
#[verifier::loop_isolation(false)]
fn find_instance<'a>(instances: &'a Vec<(String, Instance)>, module: &String) -> (r: Option<
    &'a Instance,
>)
    ensures
        match r {
            Some(inst) => first_instance(instances@, module@) == Some(*inst) && (exists|k: int|
                0 <= k < instances@.len() && #[trigger] instances@[k].1 == *inst
                    && instances@[k].0@ == module@),
            None => first_instance(instances@, module@) is None,
        },
{
    let mut i: usize = 0;
    while i < instances.len()
        invariant
            i <= instances@.len(),
            forall|k: int| 0 <= k < i ==> #[trigger] instances@[k].0@ != module@,
        decreases instances@.len() - i,
    {
        if str_eq(instances[i].0.as_str(), module.as_str()) {
            proof {
                lemma_first_instance_at(instances@, module@, i as int);
            }
            return Some(&instances[i].1);
        }
        i = i + 1;
    }
    proof {
        lemma_first_instance_none(instances@, module@);
    }
    None
}

/// Evaluate an expression's source text for the widget `this`.
fn eval_text(
    game: &GameState,
    this: &String,
    cache: &mut Cache,
    Ghost(extra): Ghost<Set<Seq<Seq<char>>>>,
    expr: &ExprText,
) -> (r: Result<Value, EvalError>)
    requires
        extra.finite(),
        text_qfields(*expr, this@).subset_of(allowed_keys(*game, extra)),
    ensures
        cache_extends(old(cache).entries@, final(cache).entries@),
        match spec_parse(expr.text@) {
            Ok(ast) => pure_val(ast) matches Some(v) ==> r == Ok::<Value, EvalError>(v),
            Err(er) => r matches Err(x) && x@ == er,
        },
    decreases eval_measure(*game, extra, cache.entries@), 3int, 0int,
{
    match parse(expr.text.as_str()) {
        Err(e) => Err(e),
        Ok(ast) => {
            proof {
                reveal(text_qfields);
            }
            eval_ast(game, this, cache, Ghost(extra), &ast)
        },
    }
}

/// Evaluate a parsed expression for the widget `this`.
fn eval_ast(
    game: &GameState,
    this: &String,
    cache: &mut Cache,
    Ghost(extra): Ghost<Set<Seq<Seq<char>>>>,
    e: &Expr,
) -> (r: Result<Value, EvalError>)
    requires
        extra.finite(),
        qfields(expr_view(*e), this@).subset_of(allowed_keys(*game, extra)),
    ensures
        cache_extends(old(cache).entries@, final(cache).entries@),
        pure_val(expr_view(*e)) matches Some(v) ==> r == Ok::<Value, EvalError>(v),
    decreases eval_measure(*game, extra, cache.entries@), 2int, expr_height(expr_view(*e)),
{
    match e {
        Expr::Literal { value } => Ok(*value),
        Expr::Field { path } => resolve_field(game, this, cache, Ghost(extra), path),
        Expr::And { left, right } => {
            let ghost pre = cache.entries@;
            let l = match eval_ast(game, this, cache, Ghost(extra), left) {
                Ok(v) => v,
                Err(er) => {
                    return Err(er);
                },
            };
            proof {
                lemma_measure_le(*game, extra, pre, cache.entries@);
            }
            let rv = match eval_ast(game, this, cache, Ghost(extra), right) {
                Ok(v) => v,
                Err(er) => {
                    return Err(er);
                },
            };
            Ok(l.and(rv))
        },
        Expr::Or { left, right } => {
            let ghost pre = cache.entries@;
            let l = match eval_ast(game, this, cache, Ghost(extra), left) {
                Ok(v) => v,
                Err(er) => {
                    return Err(er);
                },
            };
            proof {
                lemma_measure_le(*game, extra, pre, cache.entries@);
            }
            let rv = match eval_ast(game, this, cache, Ghost(extra), right) {
                Ok(v) => v,
                Err(er) => {
                    return Err(er);
                },
            };
            Ok(l.or(rv))
        },
        Expr::Add { value, duration } => {
            let v = match eval_ast(game, this, cache, Ghost(extra), value) {
                Ok(v) => v,
                Err(er) => {
                    return Err(er);
                },
            };
            Ok(v.plus(*duration))
        },
    }
}

/// Resolve a field path: substitute `this` and look the key up.
fn resolve_field(
    game: &GameState,
    this: &String,
    cache: &mut Cache,
    Ghost(extra): Ghost<Set<Seq<Seq<char>>>>,
    path: &Vec<String>,
) -> (r: Result<Value, EvalError>)
    requires
        extra.finite(),
        path@.len() > 0 ==> allowed_keys(*game, extra).contains(
            qualify(path.deep_view(), this@),
        ),
    ensures
        cache_extends(old(cache).entries@, final(cache).entries@),
    decreases eval_measure(*game, extra, cache.entries@), 1int, 0int,
{
    if path.len() == 0 {
        return Err(EvalError::UnknownPath { path: Vec::new() });
    }
    proof {
        assert(path.deep_view().len() == path@.len());
        assert(path.deep_view()[0] == path@[0]@);
    }
    let module: String = if str_eq(path[0].as_str(), "this") {
        this.clone()
    } else {
        path[0].clone()
    };
    proof {
        assert(seq![module@] + path.deep_view().skip(1) =~= qualify(path.deep_view(), this@));
    }
    resolve_cached(game, &module, path, 1, cache, Ghost(extra))
}

/// Look a fully qualified key up in the memo table; on a miss, mark
/// it as being evaluated, resolve it, and record the result.
fn resolve_cached(
    game: &GameState,
    module: &String,
    path: &Vec<String>,
    start: usize,
    cache: &mut Cache,
    Ghost(extra): Ghost<Set<Seq<Seq<char>>>>,
) -> (r: Result<Value, EvalError>)
    requires
        extra.finite(),
        start <= path@.len(),
        allowed_keys(*game, extra).contains(
            seq![module@] + path.deep_view().skip(start as int),
        ),
    ensures
        cache_extends(old(cache).entries@, final(cache).entries@),
        ({
            let k = seq![module@] + path.deep_view().skip(start as int);
            match cache_get(old(cache).entries@, k) {
                Some(EvaluationState::Evaluating) => {
                    &&& r matches Err(e) && e@ == (SpecError::CircularDependency { path: k })
                    &&& final(cache).entries@ == old(cache).entries@
                },
                Some(EvaluationState::Evaluated(v)) => r == Ok::<Value, EvalError>(v)
                    && final(cache).entries@ == old(cache).entries@,
                None => {
                    &&& (r matches Ok(v) ==> cache_get(final(cache).entries@, k) == Some(
                        EvaluationState::Evaluated(v),
                    ))
                    &&& (r is Err ==> cache_get(final(cache).entries@, k) == Some(
                        EvaluationState::Evaluating,
                    ))
                    &&& resolution_post(
                        *game,
                        module@,
                        path.deep_view().skip(start as int),
                        k,
                        r,
                    )
                },
            }
        }),
    decreases eval_measure(*game, extra, cache.entries@), 0int, 0int,
{
    let key = build_key(module, path, start);
    let ghost kv = key.deep_view();
    match lookup_cache(cache, &key) {
        Some(EvaluationState::Evaluating) => Err(EvalError::CircularDependency { path: key }),
        Some(EvaluationState::Evaluated(v)) => Ok(v),
        None => {
            let ghost pre = cache.entries@;
            proof {
                lemma_cache_get_in_keys(pre, kv);
                lemma_measure_insert(*game, extra, pre, (key, EvaluationState::Evaluating));
                lemma_cache_push(pre, (key, EvaluationState::Evaluating));
            }
            let key_b = build_key(module, path, start);
            cache.entries.push((key, EvaluationState::Evaluating));
            let ghost mid = cache.entries@;
            let res = resolve_raw(game, module, path, start, &key_b, cache, Ghost(extra));
            match res {
                Ok(v) => {
                    let key_c = build_key(module, path, start);
                    let ghost pre2 = cache.entries@;
                    proof {
                        lemma_cache_push(pre2, (key_c, EvaluationState::Evaluated(v)));
                        lemma_cache_get_in_keys(pre2, kv);
                    }
                    cache.entries.push((key_c, EvaluationState::Evaluated(v)));
                    Ok(v)
                },
                Err(e) => Err(e),
            }
        },
    }
}

/// Resolve a key by asking the team attributes or the addressed
/// widget.
fn resolve_raw(
    game: &GameState,
    module: &String,
    path: &Vec<String>,
    start: usize,
    key: &Vec<String>,
    cache: &mut Cache,
    Ghost(extra): Ghost<Set<Seq<Seq<char>>>>,
) -> (r: Result<Value, EvalError>)
    requires
        extra.finite(),
        start <= path@.len(),
    ensures
        cache_extends(old(cache).entries@, final(cache).entries@),
        resolution_post(
            *game,
            module@,
            path.deep_view().skip(start as int),
            key.deep_view(),
            r,
        ),
    decreases eval_measure(*game, extra, cache.entries@), 6int, 0int,
{
    if str_eq(module.as_str(), "team") {
        proof {
            lemma_attrs_qfields(game.team.entries@);
        }
        attributes_resolve(game, module, path, start, key, cache, Ghost(extra))
    } else {
        match find_instance(&game.instances, module) {
            None => Err(EvalError::UnknownPath { path: clone_key(key) }),
            Some(inst) => instance_resolve(game, inst, module, path, start, key, cache, Ghost(extra)),
        }
    }
}

/// Resolve a key against a widget instance.
fn instance_resolve(
    game: &GameState,
    inst: &Instance,
    module: &String,
    path: &Vec<String>,
    start: usize,
    key: &Vec<String>,
    cache: &mut Cache,
    Ghost(extra): Ghost<Set<Seq<Seq<char>>>>,
) -> (r: Result<Value, EvalError>)
    requires
        extra.finite(),
        start <= path@.len(),
        exists|k: int|
            0 <= k < game.instances@.len() && #[trigger] game.instances@[k].1 == *inst
                && game.instances@[k].0@ == module@,
    ensures
        cache_extends(old(cache).entries@, final(cache).entries@),
        match *inst {
            Instance::Prompt(c, st) => prompt_resolution_post(
                *c,
                *st,
                path.deep_view().skip(start as int),
                key.deep_view(),
                r,
            ),
            Instance::Text(c, _) => text_resolution_post(
                *c,
                path.deep_view().skip(start as int),
                key.deep_view(),
                r,
            ),
            Instance::Countdown(c, _) => countdown_resolution_post(
                *c,
                path.deep_view().skip(start as int),
                key.deep_view(),
                r,
            ),
        },
    decreases eval_measure(*game, extra, cache.entries@), 5int, 0int,
{
    proof {
        let k = choose|k: int|
            0 <= k < game.instances@.len() && #[trigger] game.instances@[k].1 == *inst
                && game.instances@[k].0@ == module@;
        lemma_widgets_qfields(game.instances@);
        assert(instance_qfields(*inst, module@).subset_of(widgets_qfields(game.instances@)));
    }
    match inst {
        Instance::Prompt(c, s) => prompt_resolve(
            game,
            c,
            s,
            module,
            path,
            start,
            key,
            cache,
            Ghost(extra),
        ),
        Instance::Text(c, _) => textw_resolve(game, c, module, path, start, key, cache, Ghost(extra)),
        Instance::Countdown(c, _) => countdown_resolve(
            game,
            c,
            module,
            path,
            start,
            key,
            cache,
            Ghost(extra),
        ),
    }
}

/// Resolve a prompt's properties: `solved`, `visible`, `disabled`,
/// and the per-hint `available`, `visible` and `taken`.
#[verifier::rlimit(100)]
fn prompt_resolve(
    game: &GameState,
    c: &prompt::Config,
    s: &prompt::State,
    module: &String,
    path: &Vec<String>,
    start: usize,
    key: &Vec<String>,
    cache: &mut Cache,
    Ghost(extra): Ghost<Set<Seq<Seq<char>>>>,
) -> (r: Result<Value, EvalError>)
    requires
        extra.finite(),
        start <= path@.len(),
        prompt_qfields(*c, module@).subset_of(allowed_keys(*game, extra)),
    ensures
        cache_extends(old(cache).entries@, final(cache).entries@),
        prompt_resolution_post(
            *c,
            *s,
            path.deep_view().skip(start as int),
            key.deep_view(),
            r,
        ),
    decreases eval_measure(*game, extra, cache.entries@), 4int, 0int,
{
    let n = path.len() - start;
    proof {
        reveal(pure_text);
        reveal_strlit("solved");
        reveal_strlit("visible");
        reveal_strlit("disabled");
        reveal_strlit("hint");
        reveal_strlit("available");
        reveal_strlit("taken");
        assert("available"@.len() == 9);
        assert("visible"@.len() == 7);
        assert("taken"@.len() == 5);
        assert("solved"@.len() == 6);
        assert("disabled"@.len() == 8);
        assert("hint"@.len() == 4);
        assert(path.deep_view().skip(start as int).len() == path@.len() - start);
        assert forall|j: int|
            0 <= j < path@.len() - start implies #[trigger] path.deep_view().skip(
            start as int,
        )[j] == path@[start + j]@ by {
            assert(path.deep_view().skip(start as int)[j] == path.deep_view()[start + j]);
        }
        if n == 1 {
            assert(path.deep_view().skip(start as int) =~= seq![path@[start as int]@]);
        }
    }
    if n == 1 {
        let seg = &path[start];
        if str_eq(seg.as_str(), "solved") {
            match &s.solved {
                Some(d) => Ok(Value::Since(d.time)),
                None => Ok(Value::Never),
            }
        } else if str_eq(seg.as_str(), "visible") {
            eval_text(game, module, cache, Ghost(extra), &c.visible)
        } else if str_eq(seg.as_str(), "disabled") {
            eval_text(game, module, cache, Ghost(extra), &c.disabled)
        } else {
            Err(EvalError::UnknownPath { path: clone_key(key) })
        }
    } else if n == 3 && str_eq(path[start].as_str(), "hint") {
        let hint_ident = &path[start + 1];
        let prop = &path[start + 2];
        if str_eq(prop.as_str(), "available") {
            match find_hint(&c.hints, hint_ident) {
                Some(i) => {
                    proof {
                        lemma_hints_qfields(c.hints@, module@);
                    }
                    eval_text(game, module, cache, Ghost(extra), &c.hints[i].available)
                },
                None => Err(EvalError::UnknownPath { path: clone_key(key) }),
            }
        } else if str_eq(prop.as_str(), "visible") {
            match find_hint(&c.hints, hint_ident) {
                Some(i) => {
                    proof {
                        lemma_hints_qfields(c.hints@, module@);
                        assert(text_qfields(c.hints@[i as int].available, module@).subset_of(
                            hints_qfields(c.hints@, module@),
                        ));
                    }
                    eval_text(game, module, cache, Ghost(extra), &c.hints[i].visible)
                },
                None => Err(EvalError::UnknownPath { path: clone_key(key) }),
            }
        } else if str_eq(prop.as_str(), "taken") {
            match find_hint_time(&s.hints, hint_ident) {
                Some(t) => Ok(Value::Since(t)),
                None => Ok(Value::Never),
            }
        } else {
            Err(EvalError::UnknownPath { path: clone_key(key) })
        }
    } else {
        Err(EvalError::UnknownPath { path: clone_key(key) })
    }
}

/// Resolve a text widget's properties.
fn textw_resolve(
    game: &GameState,
    c: &text::Config,
    module: &String,
    path: &Vec<String>,
    start: usize,
    key: &Vec<String>,
    cache: &mut Cache,
    Ghost(extra): Ghost<Set<Seq<Seq<char>>>>,
) -> (r: Result<Value, EvalError>)
    requires
        extra.finite(),
        start <= path@.len(),
        textw_qfields(*c, module@).subset_of(allowed_keys(*game, extra)),
    ensures
        cache_extends(old(cache).entries@, final(cache).entries@),
        text_resolution_post(*c, path.deep_view().skip(start as int), key.deep_view(), r),
    decreases eval_measure(*game, extra, cache.entries@), 4int, 0int,
{
    let n = path.len() - start;
    proof {
        reveal(pure_text);
        reveal_strlit("visible");
        reveal_strlit("obsolete");
        assert("visible"@.len() == 7);
        assert("obsolete"@.len() == 8);
        assert(path.deep_view().skip(start as int).len() == path@.len() - start);
        assert forall|j: int|
            0 <= j < path@.len() - start implies #[trigger] path.deep_view().skip(
            start as int,
        )[j] == path@[start + j]@ by {
            assert(path.deep_view().skip(start as int)[j] == path.deep_view()[start + j]);
        }
    }
    if n == 1 && str_eq(path[start].as_str(), "visible") {
        eval_text(game, module, cache, Ghost(extra), &c.visible)
    } else if n == 1 && str_eq(path[start].as_str(), "obsolete") {
        eval_text(game, module, cache, Ghost(extra), &c.obsolete)
    } else {
        Err(EvalError::UnknownPath { path: clone_key(key) })
    }
}

/// Resolve a countdown's properties.
fn countdown_resolve(
    game: &GameState,
    c: &countdown::Config,
    module: &String,
    path: &Vec<String>,
    start: usize,
    key: &Vec<String>,
    cache: &mut Cache,
    Ghost(extra): Ghost<Set<Seq<Seq<char>>>>,
) -> (r: Result<Value, EvalError>)
    requires
        extra.finite(),
        start <= path@.len(),
        countdown_qfields(*c, module@).subset_of(allowed_keys(*game, extra)),
    ensures
        cache_extends(old(cache).entries@, final(cache).entries@),
        countdown_resolution_post(
            *c,
            path.deep_view().skip(start as int),
            key.deep_view(),
            r,
        ),
    decreases eval_measure(*game, extra, cache.entries@), 4int, 0int,
{
    let n = path.len() - start;
    proof {
        reveal(pure_text);
        reveal_strlit("visible");
        reveal_strlit("time");
        assert("visible"@.len() == 7);
        assert("time"@.len() == 4);
        assert(path.deep_view().skip(start as int).len() == path@.len() - start);
        assert forall|j: int|
            0 <= j < path@.len() - start implies #[trigger] path.deep_view().skip(
            start as int,
        )[j] == path@[start + j]@ by {
            assert(path.deep_view().skip(start as int)[j] == path.deep_view()[start + j]);
        }
    }
    if n == 1 && str_eq(path[start].as_str(), "visible") {
        eval_text(game, module, cache, Ghost(extra), &c.visible)
    } else if n == 1 && str_eq(path[start].as_str(), "time") {
        eval_text(game, module, cache, Ghost(extra), &c.time)
    } else {
        Err(EvalError::UnknownPath { path: clone_key(key) })
    }
}

/// The index of the first attribute with this name, if any.
#[verifier::loop_isolation(false)]
fn find_attr(entries: &Vec<(String, ExprText)>, name: &String) -> (r: Option<usize>)
    ensures
        match r {
            Some(i) => i < entries@.len() && first_attr(entries@, name@) == Some(
                entries@[i as int].1,
            ),
            None => first_attr(entries@, name@) is None,
        },
{
    let mut i: usize = 0;
    while i < entries.len()
        invariant
            i <= entries@.len(),
            forall|k: int| 0 <= k < i ==> #[trigger] entries@[k].0@ != name@,
        decreases entries@.len() - i,
    {
        if str_eq(entries[i].0.as_str(), name.as_str()) {
            proof {
                lemma_first_attr_at(entries@, name@, i as int);
            }
            return Some(i);
        }
        i = i + 1;
    }
    proof {
        lemma_first_attr_none(entries@, name@);
    }
    None
}

/// Resolve a `team.<name>` attribute.
fn attributes_resolve(
    game: &GameState,
    module: &String,
    path: &Vec<String>,
    start: usize,
    key: &Vec<String>,
    cache: &mut Cache,
    Ghost(extra): Ghost<Set<Seq<Seq<char>>>>,
) -> (r: Result<Value, EvalError>)
    requires
        extra.finite(),
        start <= path@.len(),
        module@ == "team"@,
        attrs_qfields(game.team.entries@).subset_of(allowed_keys(*game, extra)),
    ensures
        cache_extends(old(cache).entries@, final(cache).entries@),
        team_resolution_post(
            *game,
            path.deep_view().skip(start as int),
            key.deep_view(),
            r,
        ),
    decreases eval_measure(*game, extra, cache.entries@), 4int, 0int,
{
    proof {
        reveal(pure_text);
        assert(path.deep_view().skip(start as int).len() == path@.len() - start);
        assert forall|j: int|
            0 <= j < path@.len() - start implies #[trigger] path.deep_view().skip(
            start as int,
        )[j] == path@[start + j]@ by {
            assert(path.deep_view().skip(start as int)[j] == path.deep_view()[start + j]);
        }
    }
    if path.len() - start != 1 {
        return Err(EvalError::UnknownPath { path: clone_key(key) });
    }
    match find_attr(&game.team.entries, &path[start]) {
        None => Err(EvalError::UnknownPath { path: clone_key(key) }),
        Some(i) => {
            proof {
                lemma_attrs_qfields(game.team.entries@);
            }
            eval_text(game, module, cache, Ghost(extra), &game.team.entries[i].1)
        },
    }
}

/// An evaluation context: the game being read and the ident of the
/// widget whose expression is being evaluated.
#[derive(Debug)]
pub struct Environment<'a> {
    pub game: &'a GameState,
    pub this: &'a str,
}

impl<'a> Environment<'a> {
    /// The environment for evaluating `this`'s expressions.
    pub fn new(game: &'a GameState, this: &'a str) -> (r: Environment<'a>)
        ensures
            r.game == game,
            r.this@ == this@,
    {
        Environment { game, this }
    }

    /// Evaluate an expression's source text. A field-free expression
    /// evaluates to its literal value; a parse error is returned
    /// exactly as the parser reports it.
    pub fn eval(&self, cache: &mut Cache, expr: &ExprText) -> (r: Result<Value, EvalError>)
        ensures
            match spec_parse(expr.text@) {
                Ok(ast) => pure_val(ast) matches Some(v) ==> r == Ok::<Value, EvalError>(v),
                Err(er) => r matches Err(x) && x@ == er,
            },
            pure_text(*expr) matches Some(v) ==> r == Ok::<Value, EvalError>(v),
    {
        proof {
            reveal(pure_text);
        }
        let this_s: String = self.this.to_owned();
        let ghost extra = text_qfields(*expr, this_s@);
        proof {
            lemma_text_qfields_finite(*expr, this_s@);
            assert(text_qfields(*expr, this_s@).subset_of(
                allowed_keys(*self.game, extra),
            ));
        }
        eval_text(self.game, &this_s, cache, Ghost(extra), expr)
    }

    /// Resolve a dotted path. A path whose qualified form is being
    /// evaluated further up the stack fails as a circular dependency;
    /// a memoized path answers from the memo table; otherwise the
    /// widget (or the team attributes) is asked and the result is
    /// memoized. After a failure the sentinel stays in place for the
    /// rest of this top-level evaluation.
    pub fn resolve(&self, cache: &mut Cache, path: &Vec<String>) -> (r: Result<Value, EvalError>)
        ensures
            path@.len() == 0 ==> (r matches Err(e) && e@ == (SpecError::UnknownPath {
                path: Seq::empty(),
            }) && final(cache).entries@ == old(cache).entries@),
            path@.len() > 0 ==> ({
                let k = qualify(path.deep_view(), self.this@);
                match cache_get(old(cache).entries@, k) {
                    Some(EvaluationState::Evaluating) => {
                        &&& r matches Err(e) && e@ == (SpecError::CircularDependency { path: k })
                        &&& final(cache).entries@ == old(cache).entries@
                    },
                    Some(EvaluationState::Evaluated(v)) => r == Ok::<Value, EvalError>(v)
                        && final(cache).entries@ == old(cache).entries@,
                    None => {
                        &&& (r matches Ok(v) ==> cache_get(final(cache).entries@, k) == Some(
                            EvaluationState::Evaluated(v),
                        ))
                        &&& (r is Err ==> cache_get(final(cache).entries@, k) == Some(
                            EvaluationState::Evaluating,
                        ))
                        &&& resolution_post(
                            *self.game,
                            resolved_module(path.deep_view(), self.this@),
                            path.deep_view().drop_first(),
                            k,
                            r,
                        )
                    },
                }
            }),
    {
        let this_s: String = self.this.to_owned();
        let ghost extra = if path@.len() > 0 {
            Set::empty().insert(qualify(path.deep_view(), this_s@))
        } else {
            Set::<Seq<Seq<char>>>::empty()
        };
        if path.len() == 0 {
            let empty_path: Vec<String> = Vec::new();
            proof {
                assert(empty_path.deep_view() =~= Seq::<Seq<char>>::empty());
            }
            return Err(EvalError::UnknownPath { path: empty_path });
        }
        proof {
            assert(path.deep_view().len() == path@.len());
            assert(path.deep_view()[0] == path@[0]@);
        }
        let module: String = if str_eq(path[0].as_str(), "this") {
            this_s.clone()
        } else {
            path[0].clone()
        };
        proof {
            assert(seq![module@] + path.deep_view().skip(1) =~= qualify(
                path.deep_view(),
                this_s@,
            ));
            assert(path.deep_view().skip(1) =~= path.deep_view().drop_first());
            assert(module@ == resolved_module(path.deep_view(), self.this@));
        }
        resolve_cached(self.game, &module, path, 1, cache, Ghost(extra))
    }
}

} // verus!
