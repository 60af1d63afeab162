//! Messages with plural variants.
use crate::forms::variant_index;
pub use crate::forms::PluralForms;
use std::rc::Rc;
use vstd::prelude::*;

verus! {

/// A source text with its plural, the translated variants, and the shared `Plural-Forms`
/// that selects a variant for a count.
#[derive(Clone, Debug, PartialEq, Eq)]
pub struct Plural {
    pub forms: Option<Rc<PluralForms>>,
    pub singular: String,
    pub plural: String,
    pub values: Vec<String>,
}

/// Every string of the list is empty.
pub open spec fn all_empty(v: Seq<String>) -> bool {
    forall|i: int| 0 <= i < v.len() ==> (#[trigger] v[i])@.len() == 0
}

/// The variant for `count`, if the forms select one that the list holds.
pub open spec fn plural_variant(p: Plural, count: usize) -> Option<Seq<char>> {
    match p.forms {
        Some(f) => match variant_index(*f, count) {
            Some(i) => if i < p.values.len() {
                Some(p.values[i as int]@)
            } else {
                None
            },
            None => None,
        },
        None => None,
    }
}

impl Plural {
    pub fn new(singular: String, plural: String, values: Vec<String>, forms: Option<Rc<PluralForms>>) -> (r: Self)
        ensures
            r.singular@ == singular@,
            r.plural@ == plural@,
            r.values@ == values@,
            r.forms == forms,
    {
        Plural { forms, singular, plural, values }
    }

    pub fn singular(&self) -> (r: &str)
        ensures
            r@ == self.singular@,
    {
        self.singular.as_str()
    }

    pub fn plural(&self) -> (r: &str)
        ensures
            r@ == self.plural@,
    {
        self.plural.as_str()
    }

    /// The first variant, or the empty string when there is none.
    pub fn first(&self) -> (r: &str)
        ensures
            r@ == (if self.values@.len() > 0 {
                self.values@[0]@
            } else {
                Seq::empty()
            }),
    {
        if self.values.len() > 0 {
            self.values[0].as_str()
        } else {
            proof {
                reveal_strlit("");
            }
            ""
        }
    }

    /// The variant that the forms select for `count`; none without forms, or when the
    /// selected index is out of range.
    pub fn get(&self, count: usize) -> (r: Option<&str>)
        ensures
            match plural_variant(*self, count) {
                Some(v) => r matches Some(s) && s@ == v,
                None => r is None,
            },
    {
        match &self.forms {
            Some(forms) => match forms.get_value(count) {
                Some(i) => if i < self.values.len() {
                    Some(self.values[i].as_str())
                } else {
                    None
                },
                None => None,
            },
            None => None,
        }
    }

    pub fn values(&self) -> (r: &Vec<String>)
        ensures
            r@ == self.values@,
    {
        &self.values
    }

    /// Whether every variant is empty (also when there is none).
    pub fn is_blank(&self) -> (r: bool)
        ensures
            r == all_empty(self.values@),
    {
        let mut i: usize = 0;
        while i < self.values.len()
            invariant
                i <= self.values@.len(),
                forall|k: int| 0 <= k < i ==> (#[trigger] self.values@[k])@.len() == 0,
            decreases self.values@.len() - i,
        {
            if !self.values[i].as_str().is_empty() {
                return false;
            }
            i = i + 1;
        }
        true
    }

    pub fn get_forms(&self) -> (r: Option<&PluralForms>)
        ensures
            match self.forms {
                Some(f) => r matches Some(g) && *g == *f,
                None => r is None,
            },
    {
        match &self.forms {
            Some(f) => Some(&**f),
            None => None,
        }
    }
}

} // verus!
