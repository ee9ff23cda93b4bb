//! The per-team game state: widget instances in their configured
//! order, and the team's attribute expressions.

use vstd::prelude::*;

use crate::error::StateMismatchError;
use crate::expr::ExprText;
use crate::widget::{kinds_match, Config, Instance, State};

verus! {

/// The team attributes: named expressions resolvable under `team.`.
#[derive(Debug, Clone)]
pub struct Attributes {
    pub entries: Vec<(String, ExprText)>,
}

impl Attributes {
    /// No attributes.
    pub fn empty() -> (r: Attributes)
        ensures
            r.entries@.len() == 0,
    {
        Attributes { entries: Vec::new() }
    }
}

/// The full state of one game as one team sees it: instances keyed
/// by ident, in priority order, plus the team attributes.
#[derive(Debug)]
pub struct GameState {
    pub instances: Vec<(String, Instance)>,
    pub team: Attributes,
}

impl GameState {
    /// A game with no widgets and no attributes.
    pub fn empty() -> (r: GameState)
        ensures
            r.instances@.len() == 0,
            r.team.entries@.len() == 0,
    {
        GameState { instances: Vec::new(), team: Attributes::empty() }
    }
}

/// One widget as loaded from storage: its id, ident, configuration,
/// and the team's stored state, if a row exists.
#[derive(Debug)]
pub struct WidgetRow {
    pub id: u128,
    pub ident: String,
    pub config: Config,
    pub state: Option<State>,
}

/// How one loaded row turns into an instance: its configuration
/// paired with the stored state, or with the kind's default state
/// when no row was stored.
pub open spec fn row_paired(row: WidgetRow, ident: String, inst: Instance) -> bool {
    &&& ident == row.ident
    &&& match row.state {
        Some(st) => match (row.config, st, inst) {
            (Config::Prompt(c), State::Prompt(s), Instance::Prompt(c2, s2)) => c2 == c && s2 == s,
            (Config::Text(c), State::Text(s), Instance::Text(c2, _)) => c2 == c,
            (Config::Countdown(c), State::Countdown(s), Instance::Countdown(c2, _)) => c2 == c,
            _ => false,
        },
        None => match (row.config, inst) {
            (Config::Prompt(c), Instance::Prompt(c2, s2)) => c2 == c && s2.solved is None
                && s2.hints@.len() == 0,
            (Config::Text(c), Instance::Text(c2, _)) => c2 == c,
            (Config::Countdown(c), Instance::Countdown(c2, _)) => c2 == c,
            _ => false,
        },
    }
}

/// Whether `instances` pairs each row in order.
pub open spec fn instances_paired(rows: Seq<WidgetRow>, instances: Seq<(String, Instance)>) -> bool {
    &&& instances.len() == rows.len()
    &&& forall|i: int|
        0 <= i < rows.len() ==> row_paired(#[trigger] rows[i], instances[i].0, instances[i].1)
}

/// Whether `meta` records each row's ident and id in order.
pub open spec fn meta_matches(rows: Seq<WidgetRow>, meta: Seq<(String, u128)>) -> bool {
    &&& meta.len() == rows.len()
    &&& forall|i: int|
        0 <= i < rows.len() ==> (#[trigger] meta[i].0@ == rows[i].ident@ && meta[i].1
            == rows[i].id)
}

/// Pair every loaded widget with its state (or its kind's default)
/// in the given order, keeping the ident-to-id metadata alongside. A
/// stored state of the wrong kind fails the whole load.
#[verifier::loop_isolation(false)]
#[verifier::rlimit(100)]
#[verifier::spinoff_prover]
pub fn assemble_game(rows: Vec<WidgetRow>, team: Attributes) -> (r: Result<
    (GameState, Vec<(String, u128)>),
    StateMismatchError,
>)
    ensures
        (forall|i: int|
            0 <= i < rows@.len() ==> (#[trigger] rows@[i].state matches Some(s) ==> kinds_match(
                rows@[i].config,
                s,
            ))) <==> r is Ok,
        r matches Ok(pair) ==> pair.0.instances@.len() == rows@.len() && pair.1@.len()
            == rows@.len() && pair.0.team == team,
        r matches Ok(pair) ==> instances_paired(rows@, pair.0.instances@),
        r matches Ok(pair) ==> meta_matches(rows@, pair.1@),
{
    let mut rows = rows;
    let mut instances: Vec<(String, Instance)> = Vec::new();
    let mut meta: Vec<(String, u128)> = Vec::new();
    let ghost all = rows@;
    let total = rows.len();
    proof {
        assert(all.len() == total);
    }
    let mut i: usize = 0;
    while rows.len() > 0
        invariant
            all.len() <= usize::MAX,
            i + rows@.len() == all.len(),
            rows@ == all.skip(i as int),
            instances@.len() == i,
            meta@.len() == i,
            forall|k: int|
                0 <= k < i ==> (#[trigger] all[k].state matches Some(s) ==> kinds_match(
                    all[k].config,
                    s,
                )),
            forall|k: int|
                0 <= k < i ==> row_paired(
                    #[trigger] all[k],
                    instances@[k].0,
                    instances@[k].1,
                ),
            forall|k: int|
                0 <= k < i ==> (#[trigger] meta@[k].0@ == all[k].ident@ && meta@[k].1
                    == all[k].id),
        decreases rows@.len(),
    {
        let row = rows.remove(0);
        proof {
            assert(all.skip(i as int).first() == all[i as int]);
            assert(all.skip(i as int).drop_first() =~= all.skip(i as int + 1));
            assert(rows@ =~= all.skip(i as int + 1));
        }
        let ghost row0 = row;
        let instance = match row.state {
            Some(state) => match row.config.instance(state) {
                Ok(inst) => inst,
                Err(e) => {
                    return Err(e);
                },
            },
            None => row.config.instance_default(),
        };
        meta.push((row.ident.clone(), row.id));
        instances.push((row.ident, instance));
        i = i + 1;
        proof {
            assert(row0 == all[i - 1]);
            assert(row_paired(all[i - 1], instances@[i - 1].0, instances@[i - 1].1));
            assert(meta@[i - 1].0@ == all[i - 1].ident@ && meta@[i - 1].1 == all[i - 1].id);
        }
    }
    proof {
        assert(all.skip(all.len() as int).len() == 0);
    }
    let ghost meta_view = meta@;
    let ghost instances_view = instances@;
    let result = (GameState { instances, team }, meta);
    proof {
        assert(result.1@ == meta_view);
        assert(result.0.instances@ == instances_view);
        assert(instances_paired(all, instances_view));
        assert(meta_matches(all, meta_view));
    }
    Ok(result)
}

} // verus!
