//! Translation states.
use vstd::prelude::*;

verus! {

/// Whether a translation is usable.
#[derive(Copy, Clone, Debug, PartialEq, Eq, Hash, Structural)]
pub enum State {
    /// The unit is not translated.
    Empty,
    /// The translation is a suggestion that a translator must check (`#, fuzzy`).
    NeedsWork,
    /// The translation is usable.
    Final,
}

impl Default for State {
    fn default() -> (r: State)
        ensures
            r == State::Empty,
    {
        State::Empty
    }
}

} // verus!
