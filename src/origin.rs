//! Origins of notes.
use vstd::prelude::*;

verus! {

/// Who wrote a note.
#[derive(Copy, Clone, Debug, Eq, PartialEq, Hash, Structural)]
pub enum Origin {
    /// Comment from developer.
    Developer,
    /// Comment from translator.
    Translator,
}

} // verus!
