//! The vocabulary of the optional tracing layer: how a node was entered and
//! how its recorded state reads.  The layer itself lives with the embedder,
//! which timestamps and renders the events the engine reports through
//! `Host::observe_run` and `Host::observe_set`.

use crate::data::State;
use vstd::prelude::*;

verus! {

/// How a node was entered.
#[derive(PartialEq, Eq, Structural, Clone, Copy, Debug)]
pub enum RunMode {
    Run,
    Resume,
}

/// How a recorded state reads in a trace.
#[derive(PartialEq, Eq, Structural, Clone, Copy, Debug)]
pub enum DataMode {
    Done,
    Waiting,
    Fail,
}

impl State {
    /// The trace category of this state.
    pub fn to_data_mode(&self) -> (r: DataMode)
        ensures
            match self {
                State::Done(_) => r == DataMode::Done,
                State::Waiting(_) => r == DataMode::Waiting,
                State::Fail(_) => r == DataMode::Fail,
            },
    {
        match self {
            State::Done(_) => DataMode::Done,
            State::Waiting(_) => DataMode::Waiting,
            State::Fail(_) => DataMode::Fail,
        }
    }
}

} // verus!
