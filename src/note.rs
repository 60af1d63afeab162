//! Notes from developers and translators.
use crate::origin::Origin;
use vstd::prelude::*;

verus! {

/// A note and who wrote it.
#[derive(Clone, PartialEq, Eq, Debug)]
pub struct Note {
    pub origin: Origin,
    pub value: String,
}

impl Note {
    pub fn new(origin: Origin, value: String) -> (r: Note)
        ensures
            r.origin == origin,
            r.value@ == value@,
    {
        Note { origin, value }
    }

    pub fn origin(&self) -> (r: &Origin)
        ensures
            *r == self.origin,
    {
        &self.origin
    }

    pub fn value(&self) -> (r: &str)
        ensures
            r@ == self.value@,
    {
        self.value.as_str()
    }
}

} // verus!
