//! The per-tick control decision stage.

use crate::telemetry::Telemetry;
use crate::terminal::Terminal;
use vstd::prelude::*;

verus! {

/// The control-decision state carried from tick to tick. No decision logic
/// is wired up yet, so the state holds nothing.
#[derive(Clone, Copy, PartialEq, Eq, Structural, Debug)]
pub struct State {}

/// The control decision for one tick. This is a deliberate no-op extension
/// point: it inspects nothing and always yields a fresh empty state.
#[allow(unused_variables)]
pub fn control(state: &State, terminal: &Terminal, telemetry: &Telemetry) -> (r: State)
    ensures
        r == (State {  }),
{
    State {  }
}

} // verus!
