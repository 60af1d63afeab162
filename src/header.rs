//! Header entries.
use vstd::prelude::*;

verus! {

/// One `Name: value` line of the catalogue header.
#[derive(Clone, Eq, PartialEq, Debug)]
pub struct Header {
    pub name: String,
    pub value: String,
}

impl Header {
    pub fn new(name: String, value: String) -> (r: Self)
        ensures
            r.name@ == name@,
            r.value@ == value@,
    {
        Header { name, value }
    }

    pub fn name(&self) -> (r: &str)
        ensures
            r@ == self.name@,
    {
        self.name.as_str()
    }

    pub fn value(&self) -> (r: &str)
        ensures
            r@ == self.value@,
    {
        self.value.as_str()
    }
}

} // verus!
