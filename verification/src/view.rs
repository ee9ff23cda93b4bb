//! Rendering: per-widget views, the ordered per-team view list with
//! its staleness instant, and deltas against a previously sent list.

use vstd::prelude::*;
use vstd::prelude::View as ViewRel;

use crate::error::EvalError;
use crate::eval::{pure_text, Cache, Environment};
use crate::instant::{Duration, Instant};
use crate::game::GameState;
use crate::text::{Paragraph, Text};
use crate::value::{spec_to_bool, Value};
use crate::view_context::{tracker_wf, TimeTracker, ViewContext};
use crate::widget::{countdown, prompt, spec_obsolete, text, Instance, View};
use crate::chars::str_eq;

verus! {

/// Whether every paragraph is unconditional.
pub open spec fn all_simple(ps: Seq<Paragraph>) -> bool {
    forall|i: int| 0 <= i < ps.len() ==> #[trigger] ps[i] is Simple
}

/// Whether every conditional paragraph's expressions read no field.
pub open spec fn paras_pure(ps: Seq<Paragraph>) -> bool {
    forall|i: int|
        0 <= i < ps.len() ==> match #[trigger] ps[i] {
            Paragraph::Simple(_) => true,
            Paragraph::Conditional(c) => pure_text(c.show) is Some && pure_text(c.hide) is Some,
        }
}

/// The texts shown at `now` from paragraphs whose expressions read
/// no field: every simple paragraph, and every conditional one
/// whose `show` holds and `hide` does not.
pub open spec fn shown_texts(ps: Seq<Paragraph>, now: Instant) -> Seq<Seq<char>>
    decreases ps.len(),
{
    if ps.len() == 0 {
        Seq::empty()
    } else {
        (match ps.first() {
            Paragraph::Simple(p) => seq![p.text@],
            Paragraph::Conditional(c) => match (pure_text(c.show), pure_text(c.hide)) {
                (Some(sv), Some(hv)) => if spec_to_bool(sv, now) && !spec_to_bool(hv, now) {
                    seq![c.text@]
                } else {
                    Seq::empty()
                },
                _ => Seq::empty(),
            },
        }) + shown_texts(ps.drop_first(), now)
    }
}

/// The texts of a run of unconditional paragraphs, in order.
pub open spec fn simple_texts(ps: Seq<Paragraph>) -> Seq<Seq<char>>
    decreases ps.len(),
{
    if ps.len() == 0 {
        Seq::empty()
    } else {
        (match ps.first() {
            Paragraph::Simple(p) => seq![p.text@],
            Paragraph::Conditional(_) => Seq::empty(),
        }) + simple_texts(ps.drop_first())
    }
}

impl Text {
    /// The paragraphs currently shown: every simple paragraph, and
    /// every conditional one whose `show` holds and `hide` does not.
    /// When every expression reads no field, the shown lines are
    /// exactly `shown_texts` at the render instant.
    pub fn render(
        &self,
        ctx: &ViewContext,
        cache: &mut Cache,
        tracker: &mut TimeTracker,
    ) -> (r: Result<Vec<String>, EvalError>)
        requires
            tracker_wf(*old(tracker)),
        ensures
            tracker_wf(*final(tracker)),
            final(tracker).current == old(tracker).current,
            r matches Ok(out) ==> out@.len() <= self.paragraphs@.len(),
            all_simple(self.paragraphs@) ==> (r matches Ok(out) && out.deep_view()
                == simple_texts(self.paragraphs@)),
            paras_pure(self.paragraphs@) ==> (r matches Ok(out) && out.deep_view()
                == shown_texts(self.paragraphs@, old(tracker).current)),
    {
        let ghost ps = self.paragraphs@;
        let mut result: Vec<String> = Vec::new();
        let mut i: usize = 0;
        proof {
            assert(ps.skip(0) =~= ps);
            assert(result.deep_view() + simple_texts(ps) =~= simple_texts(ps));
            assert(result.deep_view() + shown_texts(ps, old(tracker).current) =~= shown_texts(
                ps,
                old(tracker).current,
            ));
        }
        while i < self.paragraphs.len()
            invariant
                ps == self.paragraphs@,
                i <= ps.len(),
                tracker_wf(*tracker),
                tracker.current == old(tracker).current,
                result@.len() <= i,
                all_simple(ps) ==> simple_texts(ps) == result.deep_view() + simple_texts(
                    ps.skip(i as int),
                ),
                paras_pure(ps) ==> shown_texts(ps, old(tracker).current) == result.deep_view()
                    + shown_texts(ps.skip(i as int), old(tracker).current),
            decreases self.paragraphs@.len() - i,
        {
            proof {
                assert(ps.skip(i as int).first() == ps[i as int]);
                assert(ps.skip(i as int).drop_first() =~= ps.skip(i as int + 1));
            }
            match &self.paragraphs[i] {
                Paragraph::Simple(p) => {
                    let ghost before = result.deep_view();
                    result.push(p.text.clone());
                    proof {
                        assert(result.deep_view() =~= before.push(p.text@));
                        if all_simple(ps) {
                            assert(before.push(p.text@) + simple_texts(ps.skip(i as int + 1))
                                =~= before + (seq![p.text@] + simple_texts(
                                ps.skip(i as int + 1),
                            )));
                        }
                        if paras_pure(ps) {
                            assert(before.push(p.text@) + shown_texts(
                                ps.skip(i as int + 1),
                                old(tracker).current,
                            ) =~= before + (seq![p.text@] + shown_texts(
                                ps.skip(i as int + 1),
                                old(tracker).current,
                            )));
                        }
                    }
                },
                Paragraph::Conditional(p) => {
                    let show = match ctx.eval(cache, tracker, &p.show) {
                        Ok(b) => b,
                        Err(e) => {
                            return Err(e);
                        },
                    };
                    let hide = match ctx.eval(cache, tracker, &p.hide) {
                        Ok(b) => b,
                        Err(e) => {
                            return Err(e);
                        },
                    };
                    if show && !hide {
                        let ghost before = result.deep_view();
                        result.push(p.text.clone());
                        proof {
                            assert(result.deep_view() =~= before.push(p.text@));
                            if paras_pure(ps) {
                                assert(before.push(p.text@) + shown_texts(
                                    ps.skip(i as int + 1),
                                    old(tracker).current,
                                ) =~= before + (seq![p.text@] + shown_texts(
                                    ps.skip(i as int + 1),
                                    old(tracker).current,
                                )));
                            }
                        }
                    }
                },
            }
            i = i + 1;
        }
        proof {
            assert(ps.skip(ps.len() as int) =~= Seq::<Paragraph>::empty());
            if all_simple(ps) {
                assert(result.deep_view() + simple_texts(Seq::empty()) =~= result.deep_view());
            }
            if paras_pure(ps) {
                assert(result.deep_view() + shown_texts(Seq::empty(), old(tracker).current)
                    =~= result.deep_view());
            }
        }
        Ok(result)
    }
}

/// A copy of a string list.
#[verifier::loop_isolation(false)]
fn clone_strings(list: &Vec<String>) -> (r: Vec<String>)
    ensures
        r.deep_view() == list.deep_view(),
{
    let mut out: Vec<String> = Vec::new();
    let mut i: usize = 0;
    while i < list.len()
        invariant
            i <= list@.len(),
            out@.len() == i,
            forall|k: int| 0 <= k < i ==> out.deep_view()[k] == list.deep_view()[k],
        decreases list@.len() - i,
    {
        out.push(list[i].clone());
        i = i + 1;
    }
    proof {
        assert(out.deep_view() =~= list.deep_view());
    }
    out
}

/// Whether a rendered hint shows a configured hint as taken.
pub open spec fn hint_taken_view(h: prompt::HintConfig, hv: prompt::HintView) -> bool {
    &&& hv.ident@ == h.ident@
    &&& hv.name@ == h.name@
    &&& hv.state matches prompt::HintStateView::Taken { content } && content.deep_view()
        == h.content.deep_view()
}

/// Whether every hint's expressions read no field.
pub open spec fn hints_all_pure(hs: Seq<prompt::HintConfig>) -> bool {
    forall|i: int|
        0 <= i < hs.len() ==> pure_text(#[trigger] hs[i].visible) is Some && pure_text(
            hs[i].available,
        ) is Some
}

/// The hints a visible unsolved prompt lists at `now`, in config
/// order: those whose field-free `visible` expression holds.
pub open spec fn shown_hint_cfgs(hs: Seq<prompt::HintConfig>, now: Instant) -> Seq<
    prompt::HintConfig,
>
    decreases hs.len(),
{
    if hs.len() == 0 {
        Seq::empty()
    } else {
        (match pure_text(hs.first().visible) {
            Some(hv) => if spec_to_bool(hv, now) {
                seq![hs.first()]
            } else {
                Seq::empty()
            },
            None => Seq::empty(),
        }) + shown_hint_cfgs(hs.drop_first(), now)
    }
}

/// Appending one hint extends the shown list by that hint exactly
/// when its visibility holds.
proof fn lemma_shown_hint_cfgs_push(hs: Seq<prompt::HintConfig>, h: prompt::HintConfig, now: Instant)
    ensures
        shown_hint_cfgs(hs.push(h), now) == shown_hint_cfgs(hs, now) + (match pure_text(
            h.visible,
        ) {
            Some(hv) => if spec_to_bool(hv, now) {
                seq![h]
            } else {
                Seq::<prompt::HintConfig>::empty()
            },
            None => Seq::<prompt::HintConfig>::empty(),
        }),
    decreases hs.len(),
{
    if hs.len() == 0 {
        assert(hs.push(h).drop_first() =~= hs);
        assert(hs.push(h).first() == h);
        assert(shown_hint_cfgs(Seq::empty(), now) =~= Seq::<prompt::HintConfig>::empty());
        assert(shown_hint_cfgs(hs.push(h), now) =~= (match pure_text(h.visible) {
            Some(hv) => if spec_to_bool(hv, now) {
                seq![h]
            } else {
                Seq::<prompt::HintConfig>::empty()
            },
            None => Seq::<prompt::HintConfig>::empty(),
        }));
    } else {
        assert(hs.push(h).first() == hs.first());
        assert(hs.push(h).drop_first() =~= hs.drop_first().push(h));
        lemma_shown_hint_cfgs_push(hs.drop_first(), h, now);
        assert(shown_hint_cfgs(hs.push(h), now) =~= shown_hint_cfgs(hs, now) + (match pure_text(
            h.visible,
        ) {
            Some(hv) => if spec_to_bool(hv, now) {
                seq![h]
            } else {
                Seq::<prompt::HintConfig>::empty()
            },
            None => Seq::<prompt::HintConfig>::empty(),
        }));
    }
}

/// Whether a rendered hint is what this configured hint shows for
/// an unsolved prompt.
pub open spec fn hint_view_for(
    h: prompt::HintConfig,
    st: prompt::State,
    now: Instant,
    hv: prompt::HintView,
) -> bool {
    &&& hv.ident@ == h.ident@
    &&& hv.name@ == h.name@
    &&& (pure_text(h.available) matches Some(av) ==> hint_unsolved_state(h, st, av, now, hv.state))
}

/// Whether every expression a prompt's view evaluates reads no
/// field.
pub open spec fn prompt_view_pure(c: prompt::Config) -> bool {
    &&& pure_text(c.visible) is Some
    &&& pure_text(c.disabled) is Some
    &&& paras_pure(c.details.paragraphs@)
    &&& hints_all_pure(c.hints@)
}

/// What one visible hint of an unsolved prompt shows, by its taken
/// state and availability.
pub open spec fn hint_unsolved_state(
    h: prompt::HintConfig,
    st: prompt::State,
    av: Value,
    now: Instant,
    shown: prompt::HintStateView,
) -> bool {
    if crate::eval::hint_lookup(st.hints@, h.ident@) is Some {
        shown matches prompt::HintStateView::Taken { content } && content.deep_view()
            == h.content.deep_view()
    } else {
        match av {
            Value::Always => shown matches prompt::HintStateView::Available { button } && button
                == h.take_button,
            Value::Since(t) => if spec_to_bool(av, now) {
                shown matches prompt::HintStateView::Available { button } && button
                    == h.take_button
            } else {
                shown == (prompt::HintStateView::Future { time: t })
            },
            Value::Never => shown is Unknown,
        }
    }
}

/// How one visible hint shows: taken once the prompt is solved or
/// the hint was taken, else by its availability now.
fn hint_view_of(
    hint: &prompt::HintConfig,
    solved: bool,
    state: &prompt::State,
    ctx: &ViewContext,
    cache: &mut Cache,
    tracker: &mut TimeTracker,
) -> (r: Result<prompt::HintView, EvalError>)
    requires
        tracker_wf(*old(tracker)),
    ensures
        tracker_wf(*final(tracker)),
        final(tracker).current == old(tracker).current,
        solved ==> (r matches Ok(v) && hint_taken_view(*hint, v)),
        r matches Ok(v) ==> v.ident@ == hint.ident@ && v.name@ == hint.name@,
        !solved ==> (pure_text(hint.available) matches Some(av) ==> (r matches Ok(v)
            && hint_unsolved_state(*hint, *state, av, old(tracker).current, v.state))),
        pure_text(hint.available) is Some ==> r is Ok,
{
    let taken = match crate::eval::find_hint_time(&state.hints, &hint.ident) {
        Some(_) => true,
        None => false,
    };
    let hint_state = if solved || taken {
        prompt::HintStateView::Taken { content: clone_strings(&hint.content) }
    } else {
        let available_time = match ctx.env.eval(cache, &hint.available) {
            Ok(v) => v,
            Err(e) => {
                return Err(e);
            },
        };
        match available_time {
            Value::Always => prompt::HintStateView::Available {
                button: clone_opt_string(&hint.take_button),
            },
            Value::Since(t) => {
                if tracker.after(available_time) {
                    prompt::HintStateView::Available {
                        button: clone_opt_string(&hint.take_button),
                    }
                } else {
                    prompt::HintStateView::Future { time: t }
                }
            },
            Value::Never => prompt::HintStateView::Unknown,
        }
    };
    Ok(
        prompt::HintView {
            ident: hint.ident.clone(),
            name: hint.name.clone(),
            state: hint_state,
        },
    )
}

impl prompt::Config {
    /// What one team sees of this prompt now: nothing while not
    /// visible; otherwise the details, hint states, and a solving or
    /// solved time summary. A solved prompt is always disabled and
    /// lists each hint with its content. For literal visibility and
    /// disabledness expressions the contract fixes the visibility
    /// test, the flags, the solution text and the time summary.
    #[verifier::rlimit(100)]
    #[verifier::spinoff_prover]
    pub fn view(
        &self,
        state: &prompt::State,
        ctx: &ViewContext,
        cache: &mut Cache,
        tracker: &mut TimeTracker,
    ) -> (r: Result<Option<prompt::View>, EvalError>)
        requires
            tracker_wf(*old(tracker)),
        ensures
            tracker_wf(*final(tracker)),
            final(tracker).current == old(tracker).current,
            r matches Ok(view) ==> view matches Some(v) ==> (state.solved is Some ==> v.disabled),
            pure_text(self.visible) matches Some(vv) ==> pure_text(self.disabled) matches Some(
                dv,
            ) ==> {
                let now = old(tracker).current;
                &&& (!spec_to_bool(vv, now) ==> r == Ok::<Option<prompt::View>, EvalError>(None))
                &&& (spec_to_bool(vv, now) ==> !(r == Ok::<Option<prompt::View>, EvalError>(
                    None,
                )))
                &&& (r matches Ok(view) ==> (view is Some ==> spec_to_bool(vv, now)))
                &&& (prompt_view_pure(*self) ==> r is Ok)
                &&& (r matches Ok(view) ==> view matches Some(v) ==> {
                    &&& (paras_pure(self.details.paragraphs@) ==> v.details.deep_view()
                        == shown_texts(self.details.paragraphs@, now))
                    &&& v.disabled == (state.solved is Some || spec_to_bool(dv, now))
                    &&& style_eq(v.style, self.style)
                    &&& match state.solved {
                        Some(d) => v.solution matches Some(x) && x@ == d.canonical_text@,
                        None => v.solution is None,
                    }
                    &&& match (vv, state.solved) {
                        (Value::Since(t0), None) => v.time == Some(
                            prompt::TimeView::Solving { since: t0 },
                        ),
                        (Value::Since(t0), Some(det)) => v.time matches Some(tw) && (tw matches
                            prompt::TimeView::Solved { after } && (det.time.nanos - t0.nanos
                            <= i128::MAX && det.time.nanos - t0.nanos >= i128::MIN
                            ==> after.nanos == det.time.nanos - t0.nanos)),
                        _ => v.time is None,
                    }
                    &&& (state.solved is Some ==> (v.hints@.len() == self.hints@.len() && (forall|
                        j: int,
                    |
                        0 <= j < self.hints@.len() ==> hint_taken_view(
                            self.hints@[j],
                            #[trigger] v.hints@[j],
                        ))))
                    &&& (state.solved is None && hints_all_pure(self.hints@) ==> ({
                        let shown = shown_hint_cfgs(self.hints@, now);
                        &&& v.hints@.len() == shown.len()
                        &&& forall|j: int|
                            0 <= j < shown.len() ==> hint_view_for(
                                #[trigger] shown[j],
                                *state,
                                now,
                                v.hints@[j],
                            )
                    }))
                })
            },
    {
        let visible_since = match ctx.env.eval(cache, &self.visible) {
            Ok(v) => v,
            Err(e) => {
                return Err(e);
            },
        };
        let visible = tracker.after(visible_since);
        let disabled = match ctx.eval(cache, tracker, &self.disabled) {
            Ok(b) => b,
            Err(e) => {
                return Err(e);
            },
        };
        if !visible {
            return Ok(None);
        }
        let solved = state.solved.is_some();
        let mut hints: Vec<prompt::HintView> = Vec::new();
        let mut i: usize = 0;
        while i < self.hints.len()
            invariant
                i <= self.hints@.len(),
                tracker_wf(*tracker),
                tracker.current == old(tracker).current,
                solved == (state.solved is Some),
                pure_text(self.visible) matches Some(vv2) ==> spec_to_bool(
                    vv2,
                    old(tracker).current,
                ),
                solved ==> (hints@.len() == i && (forall|j: int|
                    0 <= j < i ==> hint_taken_view(self.hints@[j], #[trigger] hints@[j]))),
                !solved && hints_all_pure(self.hints@) ==> ({
                    let shown = shown_hint_cfgs(self.hints@.take(i as int), old(tracker).current);
                    &&& hints@.len() == shown.len()
                    &&& forall|j: int|
                        0 <= j < shown.len() ==> hint_view_for(
                            #[trigger] shown[j],
                            *state,
                            old(tracker).current,
                            hints@[j],
                        )
                }),
            decreases self.hints@.len() - i,
        {
            let hint = &self.hints[i];
            let hint_visible = if solved {
                true
            } else {
                match ctx.eval(cache, tracker, &hint.visible) {
                    Ok(b) => b,
                    Err(e) => {
                        return Err(e);
                    },
                }
            };
            if hint_visible {
                let view = match hint_view_of(hint, solved, state, ctx, cache, tracker) {
                    Ok(v) => v,
                    Err(e) => {
                        return Err(e);
                    },
                };
                let ghost before_h = hints@;
                hints.push(view);
                proof {
                    if solved {
                        assert(hints@ =~= before_h.push(hints@.last()));
                    }
                    if !solved && hints_all_pure(self.hints@) {
                        assert(self.hints@.take(i as int + 1) =~= self.hints@.take(
                            i as int,
                        ).push(self.hints@[i as int]));
                        lemma_shown_hint_cfgs_push(
                            self.hints@.take(i as int),
                            self.hints@[i as int],
                            old(tracker).current,
                        );
                        assert(hints@ =~= before_h.push(hints@.last()));
                    }
                }
            } else {
                proof {
                    if !solved && hints_all_pure(self.hints@) {
                        assert(self.hints@.take(i as int + 1) =~= self.hints@.take(
                            i as int,
                        ).push(self.hints@[i as int]));
                        lemma_shown_hint_cfgs_push(
                            self.hints@.take(i as int),
                            self.hints@[i as int],
                            old(tracker).current,
                        );
                    }
                }
            }
            i = i + 1;
        }
        proof {
            assert(self.hints@.take(self.hints@.len() as int) =~= self.hints@);
        }
        let time: Option<prompt::TimeView> = match (visible_since, &state.solved) {
            (Value::Since(since), None) => Some(prompt::TimeView::Solving { since }),
            (Value::Since(since), Some(details)) => Some(
                prompt::TimeView::Solved { after: saturating_diff(details.time, since) },
            ),
            _ => None,
        };
        let details = match self.details.render(ctx, cache, tracker) {
            Ok(d) => d,
            Err(e) => {
                return Err(e);
            },
        };
        Ok(
            Some(
                prompt::View {
                    style: prompt::Style {
                        name: self.style.name.clone(),
                        prompt: self.style.prompt.clone(),
                        submit_button: clone_opt_string(&self.style.submit_button),
                    },
                    details,
                    disabled: solved || disabled,
                    solution: match &state.solved {
                        Some(d) => Some(d.canonical_text.clone()),
                        None => None,
                    },
                    hints,
                    time,
                },
            ),
        )
    }
}

/// The span from `since` to `until`, clamped at the representation's
/// edge when it does not fit.
fn saturating_diff(until: Instant, since: Instant) -> (r: Duration)
    ensures
        until.nanos - since.nanos <= i128::MAX && until.nanos - since.nanos >= i128::MIN
            ==> r.nanos == until.nanos - since.nanos,
{
    match until.nanos.checked_sub(since.nanos) {
        Some(n) => Duration { nanos: n },
        None => {
            if until.nanos >= 0 {
                Duration { nanos: i128::MAX }
            } else {
                Duration { nanos: i128::MIN }
            }
        },
    }
}

/// A copy of an optional string.
fn clone_opt_string(s: &Option<String>) -> (r: Option<String>)
    ensures
        r == *s,
{
    match s {
        Some(x) => Some(x.clone()),
        None => None,
    }
}

impl text::Config {
    /// What one team sees of this text widget now: its heading and
    /// content while `visible` holds, marked obsolete per its
    /// `obsolete` expression. With field-free expressions the
    /// outcome is exact: shown iff `visible` holds now, with the
    /// configured heading and content and the literal obsoleteness.
    pub fn view(
        &self,
        _state: &text::State,
        ctx: &ViewContext,
        cache: &mut Cache,
        tracker: &mut TimeTracker,
    ) -> (r: Result<Option<text::View>, EvalError>)
        requires
            tracker_wf(*old(tracker)),
        ensures
            tracker_wf(*final(tracker)),
            final(tracker).current == old(tracker).current,
            pure_text(self.visible) matches Some(vv) ==> pure_text(self.obsolete) matches Some(
                ov,
            ) ==> {
                let now = old(tracker).current;
                &&& r matches Ok(view)
                &&& (r matches Ok(view) ==> (view is Some <==> spec_to_bool(vv, now)))
                &&& (r matches Ok(view) ==> view matches Some(v) ==> (v.heading == self.heading
                    && v.content.deep_view() == self.content.deep_view() && v.obsolete
                    == spec_to_bool(ov, now)))
            },
    {
        let visible = match ctx.eval(cache, tracker, &self.visible) {
            Ok(b) => b,
            Err(e) => {
                return Err(e);
            },
        };
        let obsolete = match ctx.eval(cache, tracker, &self.obsolete) {
            Ok(b) => b,
            Err(e) => {
                return Err(e);
            },
        };
        if visible {
            Ok(
                Some(
                    text::View {
                        heading: clone_opt_string(&self.heading),
                        content: clone_strings(&self.content),
                        obsolete,
                    },
                ),
            )
        } else {
            Ok(None)
        }
    }
}

impl countdown::Config {
    /// What one team sees of this countdown now: done text once the
    /// target has passed, the target instant before it, unknown when
    /// the target never comes. With field-free expressions the
    /// outcome is exact.
    pub fn view(
        &self,
        _state: &countdown::State,
        ctx: &ViewContext,
        cache: &mut Cache,
        tracker: &mut TimeTracker,
    ) -> (r: Result<Option<countdown::View>, EvalError>)
        requires
            tracker_wf(*old(tracker)),
        ensures
            tracker_wf(*final(tracker)),
            final(tracker).current == old(tracker).current,
            pure_text(self.visible) matches Some(vv) ==> {
                let now = old(tracker).current;
                &&& (!spec_to_bool(vv, now) ==> r == Ok::<Option<countdown::View>, EvalError>(
                    None,
                ))
                &&& (spec_to_bool(vv, now) ==> !(r == Ok::<Option<countdown::View>, EvalError>(
                    None,
                )))
                &&& (pure_text(self.time) is Some && paras_pure(self.details.paragraphs@)
                    ==> r is Ok)
                &&& (r matches Ok(view) ==> view matches Some(v) ==> (paras_pure(
                    self.details.paragraphs@,
                ) ==> v.details.deep_view() == shown_texts(self.details.paragraphs@, now)))
                &&& (r matches Ok(view) ==> view matches Some(v) ==> (v.name == self.name && (
                pure_text(self.time) matches Some(tv) ==> match tv {
                    Value::Always => v.value matches countdown::CountdownValue::Done { text }
                        && text@ == self.done_text@,
                    Value::Since(t) => if spec_to_bool(tv, now) {
                        v.value matches countdown::CountdownValue::Done { text } && text@
                            == self.done_text@
                    } else {
                        v.value == (countdown::CountdownValue::Time { time: t })
                    },
                    Value::Never => v.value is Unknown,
                })))
            },
    {
        let visible = match ctx.eval(cache, tracker, &self.visible) {
            Ok(b) => b,
            Err(e) => {
                return Err(e);
            },
        };
        if !visible {
            return Ok(None);
        }
        let time = match ctx.env.eval(cache, &self.time) {
            Ok(v) => v,
            Err(e) => {
                return Err(e);
            },
        };
        let value = match time {
            Value::Always => countdown::CountdownValue::Done { text: self.done_text.clone() },
            Value::Since(t) => {
                if tracker.after(time) {
                    countdown::CountdownValue::Done { text: self.done_text.clone() }
                } else {
                    countdown::CountdownValue::Time { time: t }
                }
            },
            Value::Never => countdown::CountdownValue::Unknown,
        };
        let details = match self.details.render(ctx, cache, tracker) {
            Ok(d) => d,
            Err(e) => {
                return Err(e);
            },
        };
        Ok(Some(countdown::View { name: clone_opt_string(&self.name), details, value }))
    }
}

impl Instance {
    /// What one team sees of this widget now, if anything: the
    /// widget's own view, wrapped under its kind. With field-free
    /// visibility expressions, something is shown exactly while
    /// `visible` holds.
    pub fn view(
        &self,
        ctx: &ViewContext,
        cache: &mut Cache,
        tracker: &mut TimeTracker,
    ) -> (r: Result<Option<View>, EvalError>)
        requires
            tracker_wf(*old(tracker)),
        ensures
            tracker_wf(*final(tracker)),
            final(tracker).current == old(tracker).current,
            r matches Ok(ov) ==> ov matches Some(w) ==> match (self, w) {
                (Instance::Prompt(_, _), View::Prompt(_)) => true,
                (Instance::Text(_, _), View::Text(_)) => true,
                (Instance::Countdown(_, _), View::Countdown(_)) => true,
                _ => false,
            },
            self matches Instance::Prompt(c, s) ==> (pure_text(c.visible) matches Some(vv) ==> (
            pure_text(c.disabled) matches Some(dv) ==> {
                let now = old(tracker).current;
                &&& (!spec_to_bool(vv, now) ==> r == Ok::<Option<View>, EvalError>(None))
                &&& (spec_to_bool(vv, now) ==> !(r == Ok::<Option<View>, EvalError>(None)))
                &&& (r matches Ok(ov) ==> ov matches Some(w) ==> spec_obsolete(w) == (s.solved
                    is Some || spec_to_bool(dv, now)))
            })),
            self matches Instance::Text(c, _) ==> (pure_text(c.visible) matches Some(vv) ==> (
            pure_text(c.obsolete) matches Some(ov2) ==> {
                let now = old(tracker).current;
                &&& (!spec_to_bool(vv, now) ==> r == Ok::<Option<View>, EvalError>(None))
                &&& (spec_to_bool(vv, now) ==> !(r == Ok::<Option<View>, EvalError>(None)))
                &&& (r matches Ok(ov) ==> ov matches Some(w) ==> spec_obsolete(w) == spec_to_bool(
                    ov2,
                    now,
                ))
            })),
            self matches Instance::Countdown(c, _) ==> (pure_text(c.visible) matches Some(vv)
                ==> {
                let now = old(tracker).current;
                &&& (!spec_to_bool(vv, now) ==> r == Ok::<Option<View>, EvalError>(None))
                &&& (spec_to_bool(vv, now) ==> !(r == Ok::<Option<View>, EvalError>(None)))
                &&& (pure_text(c.time) matches Some(tv) ==> (r matches Ok(ov) ==> ov matches Some(
                    w,
                ) ==> spec_obsolete(w) == spec_to_bool(tv, now)))
            }),
    {
        match self {
            Instance::Prompt(c, s) => match c.view(s, ctx, cache, tracker) {
                Ok(Some(v)) => Ok(Some(View::Prompt(Box::new(v)))),
                Ok(None) => Ok(None),
                Err(e) => Err(e),
            },
            Instance::Text(c, s) => match c.view(s, ctx, cache, tracker) {
                Ok(Some(v)) => Ok(Some(View::Text(Box::new(v)))),
                Ok(None) => Ok(None),
                Err(e) => Err(e),
            },
            Instance::Countdown(c, s) => match c.view(s, ctx, cache, tracker) {
                Ok(Some(v)) => Ok(Some(View::Countdown(Box::new(v)))),
                Ok(None) => Ok(None),
                Err(e) => Err(e),
            },
        }
    }
}

/// One rendered widget together with its id.
#[derive(Debug)]
pub struct WidgetInstance {
    pub view: View,
    pub id: u128,
}

/// A full render: the ordered views and the earliest future instant
/// at which rendering again could differ.
pub struct RenderResult {
    pub widgets: Vec<WidgetInstance>,
    pub valid_until: Option<Instant>,
}

/// Render every widget of the game at `time`: visible widgets in the
/// game's order, stably moving obsolete ones to the end. Every
/// emitted id is the metadata's id for some widget, and a widget
/// that its field-free expressions make certainly visible is
/// emitted.
#[verifier::loop_isolation(false)]
pub fn render(game: &GameState, meta: &Vec<(String, u128)>, time: Instant) -> (r: Result<
    RenderResult,
    EvalError,
>)
    ensures
        r matches Ok(res) ==> forall|i: int, j: int|
            0 <= i < j < res.widgets@.len() ==> !(spec_obsolete(#[trigger] res.widgets@[i].view)
                && !spec_obsolete(#[trigger] res.widgets@[j].view)),
        r matches Ok(res) ==> res.widgets@.len() <= game.instances@.len(),
        r matches Ok(res) ==> ((exists|i: int|
            0 <= i < game.instances@.len() && surely_visible(
                #[trigger] game.instances@[i].1,
                time,
            )) ==> res.widgets@.len() > 0),
        r matches Ok(res) ==> (game_placement_pure(game.instances@) ==> ({
            let fresh_l = fresh_insts(game.instances@, time);
            let stale_l = stale_insts(game.instances@, time);
            &&& res.widgets@.len() == fresh_l.len() + stale_l.len()
            &&& (forall|k: int|
                0 <= k < fresh_l.len() ==> carries_meta_id(
                    meta@,
                    fresh_l[k].0,
                    #[trigger] res.widgets@[k],
                ))
            &&& (forall|k: int|
                0 <= k < stale_l.len() ==> carries_meta_id(
                    meta@,
                    stale_l[k].0,
                    #[trigger] res.widgets@[fresh_l.len() + k],
                ))
        })),
{
    let mut cache = Cache::new();
    let mut tracker = TimeTracker::new(time);
    let mut fresh: Vec<WidgetInstance> = Vec::new();
    let mut stale: Vec<WidgetInstance> = Vec::new();
    let mut i: usize = 0;
    while i < game.instances.len()
        invariant
            i <= game.instances@.len(),
            tracker.current == time,
            tracker_wf(tracker),
            forall|k: int| 0 <= k < fresh@.len() ==> !spec_obsolete(#[trigger] fresh@[k].view),
            forall|k: int| 0 <= k < stale@.len() ==> spec_obsolete(#[trigger] stale@[k].view),
            fresh@.len() + stale@.len() <= i,
            (exists|t: int|
                0 <= t < i && surely_visible(#[trigger] game.instances@[t].1, time))
                ==> fresh@.len() + stale@.len() > 0,
            game_placement_pure(game.instances@) ==> ({
                let fresh_l = fresh_insts(game.instances@.take(i as int), time);
                let stale_l = stale_insts(game.instances@.take(i as int), time);
                &&& fresh@.len() == fresh_l.len()
                &&& stale@.len() == stale_l.len()
                &&& (forall|k: int|
                    0 <= k < fresh_l.len() ==> carries_meta_id(
                        meta@,
                        fresh_l[k].0,
                        #[trigger] fresh@[k],
                    ))
                &&& (forall|k: int|
                    0 <= k < stale_l.len() ==> carries_meta_id(
                        meta@,
                        stale_l[k].0,
                        #[trigger] stale@[k],
                    ))
            }),
        decreases game.instances@.len() - i,
    {
        let ghost take_step = game.instances@.take(i as int + 1);
        proof {
            assert(take_step =~= game.instances@.take(i as int).push(
                game.instances@[i as int],
            ));
            lemma_insts_push(
                game.instances@.take(i as int),
                game.instances@[i as int],
                time,
            );
        }
        let ident = &game.instances[i].0;
        let env = Environment::new(game, ident.as_str());
        let ctx = ViewContext::new(env);
        match game.instances[i].1.view(&ctx, &mut cache, &mut tracker) {
            Err(e) => {
                return Err(e);
            },
            Ok(None) => {
                proof {
                    assert(!surely_visible(game.instances@[i as int].1, time));
                    if game_placement_pure(game.instances@) {
                        assert(instance_placement_pure(game.instances@[i as int].1));
                        assert(!inst_visible(game.instances@[i as int].1, time));
                    }
                }
            },
            Ok(Some(view)) => {
                let id = match find_meta(meta, ident) {
                    Some(id) => id,
                    None => {
                        let mut missing: Vec<String> = Vec::new();
                        missing.push(ident.clone());
                        return Err(EvalError::UnknownPath { path: missing });
                    },
                };
                proof {
                    if game_placement_pure(game.instances@) {
                        assert(instance_placement_pure(game.instances@[i as int].1));
                        assert(inst_visible(game.instances@[i as int].1, time));
                    }
                }
                let obsolete = view.obsolete();
                let item = WidgetInstance { view, id };
                proof {
                    if game_placement_pure(game.instances@) {
                        assert(obsolete == inst_obsolete(game.instances@[i as int].1, time));
                        assert(carries_meta_id(meta@, game.instances@[i as int].0, item));
                    }
                }
                if obsolete {
                    stale.push(item);
                } else {
                    fresh.push(item);
                }
            },
        }
        i = i + 1;
    }
    proof {
        assert(game.instances@.take(game.instances@.len() as int) =~= game.instances@);
    }
    let ghost fresh_snapshot = fresh@;
    let ghost stale_snapshot = stale@;
    let mut widgets = fresh;
    let ghost fresh_len = widgets@.len() as int;
    proof {
        assert(stale@.skip(0) =~= stale@);
        assert(widgets@ =~= fresh_snapshot + stale_snapshot.take(0));
    }
    while stale.len() > 0
        invariant
            0 <= fresh_len <= widgets@.len(),
            forall|t: int| 0 <= t < fresh_len ==> !spec_obsolete(#[trigger] widgets@[t].view),
            forall|t: int|
                fresh_len <= t < widgets@.len() ==> spec_obsolete(#[trigger] widgets@[t].view),
            forall|t: int| 0 <= t < stale@.len() ==> spec_obsolete(#[trigger] stale@[t].view),
            widgets@.len() + stale@.len() <= game.instances@.len(),
            widgets@.len() == fresh_len + (stale_snapshot.len() - stale@.len()),
            widgets@ == fresh_snapshot + stale_snapshot.take(
                stale_snapshot.len() - stale@.len(),
            ),
            stale@ == stale_snapshot.skip(stale_snapshot.len() - stale@.len()),
            ((exists|t: int|
                0 <= t < game.instances@.len() && surely_visible(
                    #[trigger] game.instances@[t].1,
                    time,
                )) ==> widgets@.len() + stale@.len() > 0),
        decreases stale@.len(),
    {
        let ghost moved = stale_snapshot.len() - stale@.len();
        proof {
            assert(stale_snapshot.skip(moved).first() == stale_snapshot[moved]);
            assert(stale_snapshot.skip(moved).drop_first() =~= stale_snapshot.skip(moved + 1));
        }
        let item = stale.remove(0);
        widgets.push(item);
        proof {
            assert(stale_snapshot.take(moved + 1) =~= stale_snapshot.take(moved).push(
                stale_snapshot[moved],
            ));
            assert(widgets@ =~= fresh_snapshot + stale_snapshot.take(moved + 1));
        }
    }
    proof {
        assert(stale_snapshot.take(stale_snapshot.len() as int) =~= stale_snapshot);
        assert(widgets@ =~= fresh_snapshot + stale_snapshot);
    }
    Ok(RenderResult { widgets, valid_until: tracker.valid_until() })
}


/// The id recorded for an ident: the first metadata entry's.
pub open spec fn spec_meta_id(meta: Seq<(String, u128)>, ident: Seq<char>) -> Option<u128>
    decreases meta.len(),
{
    if meta.len() == 0 {
        None
    } else if meta.first().0@ == ident {
        Some(meta.first().1)
    } else {
        spec_meta_id(meta.drop_first(), ident)
    }
}

/// Whether a widget is certainly shown at `now`: its controlling
/// expressions read no fields and `visible` holds.
pub open spec fn surely_visible(inst: Instance, now: Instant) -> bool {
    match inst {
        Instance::Prompt(c, _) => pure_text(c.visible) matches Some(vv) && pure_text(c.disabled)
            is Some && spec_to_bool(vv, now),
        Instance::Text(c, _) => pure_text(c.visible) matches Some(vv) && pure_text(c.obsolete)
            is Some && spec_to_bool(vv, now),
        Instance::Countdown(c, _) => pure_text(c.visible) matches Some(vv) && spec_to_bool(
            vv,
            now,
        ),
    }
}

/// Whether every expression deciding an instance's emission and
/// placement reads no field: its visibility and, for the flags that
/// order the output, its disabledness, obsoleteness or target time.
pub open spec fn instance_placement_pure(inst: Instance) -> bool {
    match inst {
        Instance::Prompt(c, _) => pure_text(c.visible) is Some && pure_text(c.disabled) is Some,
        Instance::Text(c, _) => pure_text(c.visible) is Some && pure_text(c.obsolete) is Some,
        Instance::Countdown(c, _) => pure_text(c.visible) is Some && pure_text(c.time) is Some,
    }
}

/// Whether every widget's placement expressions read no field.
pub open spec fn game_placement_pure(ws: Seq<(String, Instance)>) -> bool {
    forall|i: int| 0 <= i < ws.len() ==> instance_placement_pure(#[trigger] ws[i].1)
}

/// Whether a placement-pure instance is shown at `now`.
pub open spec fn inst_visible(inst: Instance, now: Instant) -> bool {
    match inst {
        Instance::Prompt(c, _) => pure_text(c.visible) matches Some(v) && spec_to_bool(v, now),
        Instance::Text(c, _) => pure_text(c.visible) matches Some(v) && spec_to_bool(v, now),
        Instance::Countdown(c, _) => pure_text(c.visible) matches Some(v) && spec_to_bool(v, now),
    }
}

/// Whether a placement-pure instance's view sorts to the end at
/// `now`.
pub open spec fn inst_obsolete(inst: Instance, now: Instant) -> bool {
    match inst {
        Instance::Prompt(c, st) => st.solved is Some || (pure_text(c.disabled) matches Some(v)
            && spec_to_bool(v, now)),
        Instance::Text(c, _) => pure_text(c.obsolete) matches Some(v) && spec_to_bool(v, now),
        Instance::Countdown(c, _) => pure_text(c.time) matches Some(v) && spec_to_bool(v, now),
    }
}

/// The widgets a render of a placement-pure game emits before the
/// obsolete ones: visible and not obsolete, in game order.
pub open spec fn fresh_insts(ws: Seq<(String, Instance)>, now: Instant) -> Seq<(String, Instance)>
    decreases ws.len(),
{
    if ws.len() == 0 {
        Seq::empty()
    } else {
        (if inst_visible(ws.first().1, now) && !inst_obsolete(ws.first().1, now) {
            seq![ws.first()]
        } else {
            Seq::empty()
        }) + fresh_insts(ws.drop_first(), now)
    }
}

/// The obsolete widgets a render of a placement-pure game emits
/// after the fresh ones, in game order.
pub open spec fn stale_insts(ws: Seq<(String, Instance)>, now: Instant) -> Seq<(String, Instance)>
    decreases ws.len(),
{
    if ws.len() == 0 {
        Seq::empty()
    } else {
        (if inst_visible(ws.first().1, now) && inst_obsolete(ws.first().1, now) {
            seq![ws.first()]
        } else {
            Seq::empty()
        }) + stale_insts(ws.drop_first(), now)
    }
}

/// Appending one widget extends each part by it exactly when it is
/// shown and sorts there.
proof fn lemma_insts_push(ws: Seq<(String, Instance)>, w: (String, Instance), now: Instant)
    ensures
        fresh_insts(ws.push(w), now) == fresh_insts(ws, now) + (if inst_visible(w.1, now)
            && !inst_obsolete(w.1, now) {
            seq![w]
        } else {
            Seq::<(String, Instance)>::empty()
        }),
        stale_insts(ws.push(w), now) == stale_insts(ws, now) + (if inst_visible(w.1, now)
            && inst_obsolete(w.1, now) {
            seq![w]
        } else {
            Seq::<(String, Instance)>::empty()
        }),
    decreases ws.len(),
{
    if ws.len() == 0 {
        assert(ws.push(w).drop_first() =~= ws);
        assert(ws.push(w).first() == w);
        assert(fresh_insts(ws.push(w), now) =~= fresh_insts(ws, now) + (if inst_visible(
            w.1,
            now,
        ) && !inst_obsolete(w.1, now) {
            seq![w]
        } else {
            Seq::<(String, Instance)>::empty()
        }));
        assert(stale_insts(ws.push(w), now) =~= stale_insts(ws, now) + (if inst_visible(
            w.1,
            now,
        ) && inst_obsolete(w.1, now) {
            seq![w]
        } else {
            Seq::<(String, Instance)>::empty()
        }));
    } else {
        assert(ws.push(w).first() == ws.first());
        assert(ws.push(w).drop_first() =~= ws.drop_first().push(w));
        lemma_insts_push(ws.drop_first(), w, now);
        assert(fresh_insts(ws.push(w), now) =~= fresh_insts(ws, now) + (if inst_visible(
            w.1,
            now,
        ) && !inst_obsolete(w.1, now) {
            seq![w]
        } else {
            Seq::<(String, Instance)>::empty()
        }));
        assert(stale_insts(ws.push(w), now) =~= stale_insts(ws, now) + (if inst_visible(
            w.1,
            now,
        ) && inst_obsolete(w.1, now) {
            seq![w]
        } else {
            Seq::<(String, Instance)>::empty()
        }));
    }
}

/// Whether an emitted entry carries the metadata id of this ident.
pub open spec fn carries_meta_id(
    meta: Seq<(String, u128)>,
    ident: String,
    w: WidgetInstance,
) -> bool {
    match spec_meta_id(meta, ident@) {
        Some(idv) => w.id == idv,
        None => false,
    }
}

/// The id recorded for an ident, if any.
#[verifier::loop_isolation(false)]
fn find_meta(meta: &Vec<(String, u128)>, ident: &String) -> (r: Option<u128>)
    ensures
        r == spec_meta_id(meta@, ident@),
{
    let ghost ms = meta@;
    let mut i: usize = 0;
    proof {
        assert(ms.skip(0) =~= ms);
    }
    while i < meta.len()
        invariant
            i <= ms.len(),
            ms == meta@,
            spec_meta_id(ms, ident@) == spec_meta_id(ms.skip(i as int), ident@),
        decreases meta@.len() - i,
    {
        proof {
            assert(ms.skip(i as int).first() == ms[i as int]);
            assert(ms.skip(i as int).drop_first() =~= ms.skip(i as int + 1));
        }
        if str_eq(meta[i].0.as_str(), ident.as_str()) {
            return Some(meta[i].1);
        }
        i = i + 1;
    }
    proof {
        assert(ms.skip(ms.len() as int) =~= Seq::<(String, u128)>::empty());
    }
    None
}


/// One widget's entry in a delta: the id always, the view only when
/// it differs from what the client already has.
#[derive(Debug)]
pub struct WidgetInstanceDelta {
    pub view: Option<View>,
    pub id: u128,
}

/// Equality of optional strings by content.
pub open spec fn opt_str_eq(a: Option<String>, b: Option<String>) -> bool {
    match (a, b) {
        (None, None) => true,
        (Some(x), Some(y)) => x@ == y@,
        _ => false,
    }
}

/// Equality of prompt styles by content.
pub open spec fn style_eq(a: prompt::Style, b: prompt::Style) -> bool {
    a.name@ == b.name@ && a.prompt@ == b.prompt@ && opt_str_eq(a.submit_button, b.submit_button)
}

/// Equality of hint states by content.
pub open spec fn hint_state_eq(a: prompt::HintStateView, b: prompt::HintStateView) -> bool {
    match (a, b) {
        (prompt::HintStateView::Unknown, prompt::HintStateView::Unknown) => true,
        (
            prompt::HintStateView::Future { time: ta },
            prompt::HintStateView::Future { time: tb },
        ) => ta == tb,
        (
            prompt::HintStateView::Available { button: ba },
            prompt::HintStateView::Available { button: bb },
        ) => opt_str_eq(ba, bb),
        (
            prompt::HintStateView::Taken { content: ca },
            prompt::HintStateView::Taken { content: cb },
        ) => ca.deep_view() == cb.deep_view(),
        _ => false,
    }
}

/// Equality of rendered hints by content.
pub open spec fn hint_view_eq(a: prompt::HintView, b: prompt::HintView) -> bool {
    a.ident@ == b.ident@ && a.name@ == b.name@ && hint_state_eq(a.state, b.state)
}

/// Equality of rendered hint lists by content.
pub open spec fn hints_eq(a: Seq<prompt::HintView>, b: Seq<prompt::HintView>) -> bool {
    a.len() == b.len() && forall|i: int|
        0 <= i < a.len() ==> hint_view_eq(#[trigger] a[i], #[trigger] b[i])
}

/// Equality of rendered prompts by content.
pub open spec fn prompt_view_eq(a: prompt::View, b: prompt::View) -> bool {
    &&& style_eq(a.style, b.style)
    &&& a.details.deep_view() == b.details.deep_view()
    &&& a.disabled == b.disabled
    &&& opt_str_eq(a.solution, b.solution)
    &&& hints_eq(a.hints@, b.hints@)
    &&& a.time == b.time
}

/// Equality of rendered text widgets by content.
pub open spec fn text_view_eq(a: text::View, b: text::View) -> bool {
    opt_str_eq(a.heading, b.heading) && a.content.deep_view() == b.content.deep_view()
        && a.obsolete == b.obsolete
}

/// Equality of rendered countdowns by content.
pub open spec fn countdown_view_eq(a: countdown::View, b: countdown::View) -> bool {
    &&& opt_str_eq(a.name, b.name)
    &&& a.details.deep_view() == b.details.deep_view()
    &&& match (a.value, b.value) {
        (countdown::CountdownValue::Unknown, countdown::CountdownValue::Unknown) => true,
        (
            countdown::CountdownValue::Time { time: ta },
            countdown::CountdownValue::Time { time: tb },
        ) => ta == tb,
        (
            countdown::CountdownValue::Done { text: xa },
            countdown::CountdownValue::Done { text: xb },
        ) => xa@ == xb@,
        _ => false,
    }
}

/// Equality of rendered widgets by content.
pub open spec fn views_eq(a: View, b: View) -> bool {
    match (a, b) {
        (View::Prompt(x), View::Prompt(y)) => prompt_view_eq(*x, *y),
        (View::Text(x), View::Text(y)) => text_view_eq(*x, *y),
        (View::Countdown(x), View::Countdown(y)) => countdown_view_eq(*x, *y),
        _ => false,
    }
}

/// Content equality of views is transitive.
pub proof fn lemma_views_eq_trans(a: View, b: View, c: View)
    requires
        views_eq(a, b),
        views_eq(b, c),
    ensures
        views_eq(a, c),
{
    match (a, b, c) {
        (View::Prompt(x), View::Prompt(y), View::Prompt(z)) => {
            assert forall|i: int|
                0 <= i < x.hints@.len() implies hint_view_eq(
                #[trigger] x.hints@[i],
                #[trigger] z.hints@[i],
            ) by {
                assert(hint_view_eq(x.hints@[i], y.hints@[i]));
                assert(hint_view_eq(y.hints@[i], z.hints@[i]));
            }
        },
        _ => {},
    }
}

/// Whether two string lists hold the same contents.
#[verifier::loop_isolation(false)]
fn vec_str_eq(a: &Vec<String>, b: &Vec<String>) -> (r: bool)
    ensures
        r == (a.deep_view() == b.deep_view()),
{
    if a.len() != b.len() {
        proof {
            assert(a.deep_view().len() == a@.len());
            assert(b.deep_view().len() == b@.len());
        }
        return false;
    }
    let mut i: usize = 0;
    while i < a.len()
        invariant
            i <= a@.len(),
            a@.len() == b@.len(),
            forall|k: int| 0 <= k < i ==> a.deep_view()[k] == b.deep_view()[k],
        decreases a@.len() - i,
    {
        if !str_eq(a[i].as_str(), b[i].as_str()) {
            proof {
                assert(a.deep_view()[i as int] == a@[i as int]@);
                assert(b.deep_view()[i as int] == b@[i as int]@);
            }
            return false;
        }
        proof {
            assert(a.deep_view()[i as int] == a@[i as int]@);
            assert(b.deep_view()[i as int] == b@[i as int]@);
        }
        i = i + 1;
    }
    proof {
        assert(a.deep_view() =~= b.deep_view());
    }
    true
}

/// Whether two optional strings hold the same content.
fn eq_opt_str(a: &Option<String>, b: &Option<String>) -> (r: bool)
    ensures
        r == opt_str_eq(*a, *b),
{
    match (a, b) {
        (None, None) => true,
        (Some(x), Some(y)) => str_eq(x.as_str(), y.as_str()),
        _ => false,
    }
}

/// Whether two rendered hint lists hold the same content.
#[verifier::loop_isolation(false)]
fn eq_hints(a: &Vec<prompt::HintView>, b: &Vec<prompt::HintView>) -> (r: bool)
    ensures
        r == hints_eq(a@, b@),
{
    if a.len() != b.len() {
        return false;
    }
    let mut i: usize = 0;
    while i < a.len()
        invariant
            i <= a@.len(),
            a@.len() == b@.len(),
            forall|k: int| 0 <= k < i ==> hint_view_eq(#[trigger] a@[k], #[trigger] b@[k]),
        decreases a@.len() - i,
    {
        let x = &a[i];
        let y = &b[i];
        let state_same = match (&x.state, &y.state) {
            (prompt::HintStateView::Unknown, prompt::HintStateView::Unknown) => true,
            (
                prompt::HintStateView::Future { time: ta },
                prompt::HintStateView::Future { time: tb },
            ) => ta.nanos == tb.nanos,
            (
                prompt::HintStateView::Available { button: ba },
                prompt::HintStateView::Available { button: bb },
            ) => eq_opt_str(ba, bb),
            (
                prompt::HintStateView::Taken { content: ca },
                prompt::HintStateView::Taken { content: cb },
            ) => vec_str_eq(ca, cb),
            _ => false,
        };
        if !(state_same && str_eq(x.ident.as_str(), y.ident.as_str()) && str_eq(
            x.name.as_str(),
            y.name.as_str(),
        )) {
            return false;
        }
        i = i + 1;
    }
    true
}

/// Whether two rendered widgets hold the same content.
pub fn eq_view(a: &View, b: &View) -> (r: bool)
    ensures
        r == views_eq(*a, *b),
{
    match (a, b) {
        (View::Prompt(x), View::Prompt(y)) => {
            let time_same = match (&x.time, &y.time) {
                (None, None) => true,
                (
                    Some(prompt::TimeView::Solving { since: sa }),
                    Some(prompt::TimeView::Solving { since: sb }),
                ) => sa.nanos == sb.nanos,
                (
                    Some(prompt::TimeView::Solved { after: da }),
                    Some(prompt::TimeView::Solved { after: db }),
                ) => da.nanos == db.nanos,
                _ => false,
            };
            time_same && str_eq(x.style.name.as_str(), y.style.name.as_str()) && str_eq(
                x.style.prompt.as_str(),
                y.style.prompt.as_str(),
            ) && eq_opt_str(&x.style.submit_button, &y.style.submit_button) && vec_str_eq(
                &x.details,
                &y.details,
            ) && x.disabled == y.disabled && eq_opt_str(&x.solution, &y.solution) && eq_hints(
                &x.hints,
                &y.hints,
            )
        },
        (View::Text(x), View::Text(y)) => {
            eq_opt_str(&x.heading, &y.heading) && vec_str_eq(&x.content, &y.content)
                && x.obsolete == y.obsolete
        },
        (View::Countdown(x), View::Countdown(y)) => {
            let value_same = match (&x.value, &y.value) {
                (countdown::CountdownValue::Unknown, countdown::CountdownValue::Unknown) => true,
                (
                    countdown::CountdownValue::Time { time: ta },
                    countdown::CountdownValue::Time { time: tb },
                ) => ta.nanos == tb.nanos,
                (
                    countdown::CountdownValue::Done { text: xa },
                    countdown::CountdownValue::Done { text: xb },
                ) => str_eq(xa.as_str(), xb.as_str()),
                _ => false,
            };
            value_same && eq_opt_str(&x.name, &y.name) && vec_str_eq(&x.details, &y.details)
        },
        _ => false,
    }
}

/// A copy of a rendered hint list, equal in content.
#[verifier::loop_isolation(false)]
fn clone_hint_views(list: &Vec<prompt::HintView>) -> (r: Vec<prompt::HintView>)
    ensures
        hints_eq(r@, list@),
{
    let mut out: Vec<prompt::HintView> = Vec::new();
    let mut i: usize = 0;
    while i < list.len()
        invariant
            i <= list@.len(),
            out@.len() == i,
            forall|k: int| 0 <= k < i ==> hint_view_eq(#[trigger] out@[k], #[trigger] list@[k]),
        decreases list@.len() - i,
    {
        let h = &list[i];
        let state = match &h.state {
            prompt::HintStateView::Unknown => prompt::HintStateView::Unknown,
            prompt::HintStateView::Future { time } => prompt::HintStateView::Future {
                time: *time,
            },
            prompt::HintStateView::Available { button } => prompt::HintStateView::Available {
                button: clone_opt_string(button),
            },
            prompt::HintStateView::Taken { content } => prompt::HintStateView::Taken {
                content: clone_strings(content),
            },
        };
        out.push(prompt::HintView { ident: h.ident.clone(), name: h.name.clone(), state });
        i = i + 1;
    }
    out
}

/// A copy of a rendered widget, equal in content.
pub fn clone_view(v: &View) -> (r: View)
    ensures
        views_eq(r, *v),
{
    match v {
        View::Prompt(x) => View::Prompt(
            Box::new(
                prompt::View {
                    style: prompt::Style {
                        name: x.style.name.clone(),
                        prompt: x.style.prompt.clone(),
                        submit_button: clone_opt_string(&x.style.submit_button),
                    },
                    details: clone_strings(&x.details),
                    disabled: x.disabled,
                    solution: clone_opt_string(&x.solution),
                    hints: clone_hint_views(&x.hints),
                    time: match &x.time {
                        Some(prompt::TimeView::Solving { since }) => Some(
                            prompt::TimeView::Solving { since: *since },
                        ),
                        Some(prompt::TimeView::Solved { after }) => Some(
                            prompt::TimeView::Solved { after: *after },
                        ),
                        None => None,
                    },
                },
            ),
        ),
        View::Text(x) => View::Text(
            Box::new(
                text::View {
                    heading: clone_opt_string(&x.heading),
                    content: clone_strings(&x.content),
                    obsolete: x.obsolete,
                },
            ),
        ),
        View::Countdown(x) => View::Countdown(
            Box::new(
                countdown::View {
                    name: clone_opt_string(&x.name),
                    details: clone_strings(&x.details),
                    value: match &x.value {
                        countdown::CountdownValue::Unknown => countdown::CountdownValue::Unknown,
                        countdown::CountdownValue::Time { time } => countdown::CountdownValue::Time {
                            time: *time,
                        },
                        countdown::CountdownValue::Done { text } => countdown::CountdownValue::Done {
                            text: text.clone(),
                        },
                    },
                },
            ),
        ),
    }
}

/// The view the client last saw for this id: the latest entry.
pub open spec fn lookup_last_view(s: Seq<WidgetInstance>, id: u128) -> Option<View>
    decreases s.len(),
{
    if s.len() == 0 {
        None
    } else if s.last().id == id {
        Some(s.last().view)
    } else {
        lookup_last_view(s.drop_last(), id)
    }
}

/// The view the client last saw for this id, if any.
#[verifier::loop_isolation(false)]
fn find_last_view<'a>(list: &'a Vec<WidgetInstance>, id: u128) -> (r: Option<&'a View>)
    ensures
        match r {
            Some(v) => lookup_last_view(list@, id) == Some(*v),
            None => lookup_last_view(list@, id) is None,
        },
{
    let ghost es = list@;
    let mut i: usize = list.len();
    proof {
        assert(es.take(es.len() as int) =~= es);
    }
    while i > 0
        invariant
            i <= es.len(),
            es == list@,
            lookup_last_view(es, id) == lookup_last_view(es.take(i as int), id),
        decreases i,
    {
        i = i - 1;
        proof {
            assert(es.take(i as int + 1).drop_last() =~= es.take(i as int));
            assert(es.take(i as int + 1).last() == es[i as int]);
        }
        if list[i].id == id {
            return Some(&list[i].view);
        }
    }
    None
}

/// What a correct delta of `new` against `old` looks like: the ids
/// of `new` in order; the view omitted exactly where the old list's
/// latest view under the same id already shows the same content.
pub open spec fn delta_post(
    new: Seq<WidgetInstance>,
    old: Seq<WidgetInstance>,
    d: Seq<WidgetInstanceDelta>,
) -> bool {
    &&& d.len() == new.len()
    &&& forall|i: int| 0 <= i < new.len() ==> #[trigger] d[i].id == new[i].id
    &&& forall|i: int|
        0 <= i < new.len() ==> match #[trigger] d[i].view {
            Some(v) => views_eq(v, new[i].view),
            None => match lookup_last_view(old, new[i].id) {
                Some(ov) => views_eq(ov, new[i].view),
                None => false,
            },
        }
}

/// The delta to send so that a client holding `old` ends up seeing
/// `new`.
#[verifier::loop_isolation(false)]
pub fn delta(new: &Vec<WidgetInstance>, old: &Vec<WidgetInstance>) -> (r: Vec<
    WidgetInstanceDelta,
>)
    ensures
        delta_post(new@, old@, r@),
{
    let mut out: Vec<WidgetInstanceDelta> = Vec::new();
    let mut i: usize = 0;
    while i < new.len()
        invariant
            i <= new@.len(),
            out@.len() == i,
            forall|k: int| 0 <= k < i ==> #[trigger] out@[k].id == new@[k].id,
            forall|k: int|
                0 <= k < i ==> match #[trigger] out@[k].view {
                    Some(v) => views_eq(v, new@[k].view),
                    None => match lookup_last_view(old@, new@[k].id) {
                        Some(ov) => views_eq(ov, new@[k].view),
                        None => false,
                    },
                },
        decreases new@.len() - i,
    {
        let w = &new[i];
        let unchanged = match find_last_view(old, w.id) {
            Some(ov) => eq_view(ov, &w.view),
            None => false,
        };
        if unchanged {
            out.push(WidgetInstanceDelta { view: None, id: w.id });
        } else {
            out.push(WidgetInstanceDelta { view: Some(clone_view(&w.view)), id: w.id });
        }
        i = i + 1;
    }
    out
}

/// Rebuild the new view list from the old one and a delta: entries
/// with a view take it, entries without copy the old list's latest
/// view under the same id; an entry without a view whose id the old
/// list does not hold cannot be reconciled.
#[verifier::loop_isolation(false)]
pub fn apply(old: &Vec<WidgetInstance>, d: &Vec<WidgetInstanceDelta>) -> (r: Option<
    Vec<WidgetInstance>,
>)
    ensures
        (forall|i: int|
            0 <= i < d@.len() ==> (#[trigger] d@[i].view is None ==> lookup_last_view(
                old@,
                d@[i].id,
            ) is Some)) ==> r is Some,
        r matches Some(out) ==> {
            &&& out@.len() == d@.len()
            &&& forall|i: int| 0 <= i < d@.len() ==> #[trigger] out@[i].id == d@[i].id
            &&& forall|i: int|
                0 <= i < d@.len() ==> match #[trigger] d@[i].view {
                    Some(v) => views_eq(out@[i].view, v),
                    None => match lookup_last_view(old@, d@[i].id) {
                        Some(ov) => views_eq(out@[i].view, ov),
                        None => false,
                    },
                }
        },
{
    let mut out: Vec<WidgetInstance> = Vec::new();
    let mut i: usize = 0;
    while i < d.len()
        invariant
            i <= d@.len(),
            out@.len() == i,
            forall|k: int| 0 <= k < i ==> #[trigger] out@[k].id == d@[k].id,
            forall|k: int|
                0 <= k < i ==> match #[trigger] d@[k].view {
                    Some(v) => views_eq(out@[k].view, v),
                    None => match lookup_last_view(old@, d@[k].id) {
                        Some(ov) => views_eq(out@[k].view, ov),
                        None => false,
                    },
                },
        decreases d@.len() - i,
    {
        let entry = &d[i];
        match &entry.view {
            Some(v) => {
                out.push(WidgetInstance { view: clone_view(v), id: entry.id });
            },
            None => {
                match find_last_view(old, entry.id) {
                    Some(ov) => {
                        out.push(WidgetInstance { view: clone_view(ov), id: entry.id });
                    },
                    None => {
                        return None;
                    },
                }
            },
        }
        i = i + 1;
    }
    Some(out)
}

/// Applying a delta of `new` against `old` onto `old` reproduces
/// `new`: the same ids in the same order, each with a view equal in
/// content.
pub proof fn lemma_delta_roundtrip(
    new: Seq<WidgetInstance>,
    old: Seq<WidgetInstance>,
    d: Seq<WidgetInstanceDelta>,
    out: Seq<WidgetInstance>,
)
    requires
        delta_post(new, old, d),
        out.len() == d.len(),
        forall|i: int| 0 <= i < d.len() ==> #[trigger] out[i].id == d[i].id,
        forall|i: int|
            0 <= i < d.len() ==> match #[trigger] d[i].view {
                Some(v) => views_eq(out[i].view, v),
                None => match lookup_last_view(old, d[i].id) {
                    Some(ov) => views_eq(out[i].view, ov),
                    None => false,
                },
            },
    ensures
        out.len() == new.len(),
        forall|i: int|
            0 <= i < new.len() ==> #[trigger] out[i].id == new[i].id && views_eq(
                out[i].view,
                new[i].view,
            ),
{
    assert forall|i: int|
        0 <= i < new.len() implies #[trigger] out[i].id == new[i].id && views_eq(
        out[i].view,
        new[i].view,
    ) by {
        match d[i].view {
            Some(v) => {
                lemma_views_eq_trans(out[i].view, v, new[i].view);
            },
            None => {
                match lookup_last_view(old, d[i].id) {
                    Some(ov) => {
                        lemma_views_eq_trans(out[i].view, ov, new[i].view);
                    },
                    None => {},
                }
            },
        }
    }
}

} // verus!
