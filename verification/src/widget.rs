//! The widget kinds, as sum types over configuration, per-team
//! state, paired instances, and rendered views.

use vstd::prelude::*;
use vstd::prelude::View as ViewRel;

use crate::error::StateMismatchError;

pub mod countdown;
pub mod prompt;
pub mod text;

verus! {

/// Configuration of one widget, tagged by kind.
#[derive(Debug, Clone)]
pub enum Config {
    Prompt(Box<prompt::Config>),
    Text(Box<text::Config>),
    Countdown(Box<countdown::Config>),
}

/// Per-team state of one widget, tagged by kind.
#[derive(Debug, Clone)]
pub enum State {
    Prompt(Box<prompt::State>),
    Text(Box<text::State>),
    Countdown(Box<countdown::State>),
}

/// A configuration paired with a matching state.
#[derive(Debug, Clone)]
pub enum Instance {
    Prompt(Box<prompt::Config>, Box<prompt::State>),
    Text(Box<text::Config>, Box<text::State>),
    Countdown(Box<countdown::Config>, Box<countdown::State>),
}

/// A rendered widget, tagged by kind.
#[derive(Debug, Clone)]
pub enum View {
    Prompt(Box<prompt::View>),
    Text(Box<text::View>),
    Countdown(Box<countdown::View>),
}

/// Whether a state is of the kind the configuration calls for.
pub open spec fn kinds_match(c: Config, s: State) -> bool {
    match (c, s) {
        (Config::Prompt(_), State::Prompt(_)) => true,
        (Config::Text(_), State::Text(_)) => true,
        (Config::Countdown(_), State::Countdown(_)) => true,
        _ => false,
    }
}

impl Config {
    /// Pair this configuration with its kind's default state.
    pub fn instance_default(self) -> (r: Instance)
        ensures
            match self {
                Config::Prompt(c) => r matches Instance::Prompt(c2, s) && c2 == c && s.solved
                    is None && s.hints@.len() == 0,
                Config::Text(c) => r matches Instance::Text(c2, _) && c2 == c,
                Config::Countdown(c) => r matches Instance::Countdown(c2, _) && c2 == c,
            },
    {
        match self {
            Config::Prompt(config) => {
                let state = config.default_state();
                Instance::Prompt(config, Box::new(state))
            },
            Config::Text(config) => {
                let state = config.default_state();
                Instance::Text(config, Box::new(state))
            },
            Config::Countdown(config) => {
                let state = config.default_state();
                Instance::Countdown(config, Box::new(state))
            },
        }
    }

    /// Pair this configuration with a stored state; a state of the
    /// wrong kind is a hard error.
    pub fn instance(self, state: State) -> (r: Result<Instance, StateMismatchError>)
        ensures
            kinds_match(self, state) <==> r is Ok,
            match r {
                Ok(inst) => match inst {
                    Instance::Prompt(c, s) => self == Config::Prompt(c) && state == State::Prompt(
                        s,
                    ),
                    Instance::Text(c, s) => self == Config::Text(c) && state == State::Text(s),
                    Instance::Countdown(c, s) => self == Config::Countdown(c) && state
                        == State::Countdown(s),
                },
                Err(_) => true,
            },
    {
        match (self, state) {
            (Config::Prompt(c), State::Prompt(s)) => Ok(Instance::Prompt(c, s)),
            (Config::Text(c), State::Text(s)) => Ok(Instance::Text(c, s)),
            (Config::Countdown(c), State::Countdown(s)) => Ok(Instance::Countdown(c, s)),
            _ => Err(StateMismatchError {}),
        }
    }
}

impl View {
    /// Whether this view sorts to the end of the rendered list.
    pub fn obsolete(&self) -> (r: bool)
        ensures
            r == spec_obsolete(*self),
    {
        match self {
            View::Prompt(v) => v.obsolete(),
            View::Text(v) => v.obsolete(),
            View::Countdown(v) => v.obsolete(),
        }
    }
}

/// Whether a view sorts to the end of the rendered list.
pub open spec fn spec_obsolete(v: View) -> bool {
    match v {
        View::Prompt(p) => p.disabled,
        View::Text(t) => t.obsolete,
        View::Countdown(c) => c.value is Done,
    }
}

} // verus!
