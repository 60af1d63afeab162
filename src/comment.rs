//! Comments that are neither notes, locations nor flags.
use vstd::prelude::*;

verus! {

/// A comment line `#<kind> <content>` kept as it was.
#[derive(Clone, Eq, PartialEq, Debug)]
pub struct Comment {
    pub kind: char,
    pub content: String,
}

impl Comment {
    pub fn new(kind: char, content: String) -> (r: Comment)
        ensures
            r.kind == kind,
            r.content@ == content@,
    {
        Comment { kind, content }
    }

    pub fn kind(&self) -> (r: char)
        ensures
            r == self.kind,
    {
        self.kind
    }

    pub fn comment(&self) -> (r: &str)
        ensures
            r@ == self.content@,
    {
        self.content.as_str()
    }
}

} // verus!
