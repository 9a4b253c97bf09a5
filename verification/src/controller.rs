use vstd::prelude::*;

verus! {

/// How the reel controller predicts where the fish is going.
#[derive(Clone, Copy, Debug, PartialEq, Eq, Structural)]
pub enum ControlMode {
    Lookahead,
    Physics,
}

impl Default for ControlMode {
    fn default() -> (m: Self)
        ensures
            m == ControlMode::Lookahead,
    {
        ControlMode::Lookahead
    }
}

} // verus!
