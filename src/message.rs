//! Source and target strings, simple or with plural variants.
use crate::plural::{all_empty, plural_variant, Plural};
use vstd::prelude::*;

verus! {

/// A message: a source id with an optional translation, or a plural set.
#[derive(Clone, Debug)]
pub enum Message {
    /// A message that does not depend on a count.
    Simple { id: String, text: Option<String> },
    /// A count-dependent message with its variants.
    Plural(Plural),
}

/// The text of an optional translation, the empty string when there is none.
pub open spec fn text_view(t: Option<String>) -> Seq<char> {
    match t {
        Some(s) => s@,
        None => Seq::empty(),
    }
}

/// The source id of a message.
pub open spec fn id_of(m: Message) -> Seq<char> {
    match m {
        Message::Simple { id, .. } => id@,
        Message::Plural(p) => p.singular@,
    }
}

/// A message without translation: no (or an empty) text, or only empty variants.
pub open spec fn blank_message(m: Message) -> bool {
    match m {
        Message::Simple { text, .. } => text_view(text).len() == 0,
        Message::Plural(p) => all_empty(p.values@),
    }
}

/// A simple message with an empty id: what a unit without `msgid` holds.
pub open spec fn empty_message(m: Message) -> bool {
    m matches Message::Simple { id, .. } && id@.len() == 0
}

/// Equality of messages: a missing text equals an empty one, and plural sets compare by their
/// source texts.
pub open spec fn same_message(a: Message, b: Message) -> bool {
    match (a, b) {
        (Message::Simple { id: ai, text: at }, Message::Simple { id: bi, text: bt }) => ai@ == bi@
            && text_view(at) == text_view(bt),
        (Message::Plural(p), Message::Plural(q)) => p.singular@ == q.singular@ && p.plural@
            == q.plural@,
        _ => false,
    }
}

impl Message {
    /// A simple message whose id is empty.
    pub fn is_empty(&self) -> (r: bool)
        ensures
            r == empty_message(*self),
    {
        match self {
            Message::Simple { id, .. } => id.as_str().is_empty(),
            _ => false,
        }
    }

    /// A simple message with a non-empty id.
    pub fn is_simple(&self) -> (r: bool)
        ensures
            r == (self matches Message::Simple { id, .. } && id@.len() > 0),
    {
        match self {
            Message::Simple { id, .. } => !id.as_str().is_empty(),
            _ => false,
        }
    }

    pub fn is_plural(&self) -> (r: bool)
        ensures
            r == (self is Plural),
    {
        match self {
            Message::Plural(_) => true,
            _ => false,
        }
    }

    /// Whether the message has no translation.
    pub fn is_blank(&self) -> (r: bool)
        ensures
            r == blank_message(*self),
    {
        match self {
            Message::Simple { text, .. } => match text {
                Some(s) => s.as_str().is_empty(),
                None => true,
            },
            Message::Plural(m) => m.is_blank(),
        }
    }

    /// The source id (the singular of a plural set).
    pub fn get_id(&self) -> (r: &str)
        ensures
            r@ == id_of(*self),
    {
        match self {
            Message::Simple { id, .. } => id.as_str(),
            Message::Plural(p) => p.singular(),
        }
    }

    /// The translation (the first variant of a plural set), empty when there is none.
    pub fn get_text(&self) -> (r: &str)
        ensures
            r@ == (match *self {
                Message::Simple { text, .. } => text_view(text),
                Message::Plural(p) => if p.values@.len() > 0 {
                    p.values@[0]@
                } else {
                    Seq::empty()
                },
            }),
    {
        match self {
            Message::Simple { text, .. } => match text {
                Some(s) => s.as_str(),
                None => {
                    proof {
                        reveal_strlit("");
                    }
                    ""
                },
            },
            Message::Plural(p) => p.first(),
        }
    }

    /// The plural source text of a plural set.
    pub fn get_plural_id(&self) -> (r: Option<&str>)
        ensures
            match *self {
                Message::Plural(p) => r matches Some(s) && s@ == p.plural@,
                _ => r is None,
            },
    {
        match self {
            Message::Plural(p) => Some(p.plural()),
            _ => None,
        }
    }

    /// The translation for `count`: the selected variant of a plural set, the text of a simple
    /// message whatever the count.
    pub fn get_plural_text(&self, count: usize) -> (r: Option<&str>)
        ensures
            match *self {
                Message::Plural(p) => match plural_variant(p, count) {
                    Some(v) => r matches Some(s) && s@ == v,
                    None => r is None,
                },
                Message::Simple { text, .. } => match text {
                    Some(t) => r matches Some(s) && s@ == t@,
                    None => r is None,
                },
            },
    {
        match self {
            Message::Plural(p) => p.get(count),
            Message::Simple { text, .. } => match text {
                Some(s) => Some(s.as_str()),
                None => None,
            },
        }
    }

    pub fn plural(&self) -> (r: Option<&Plural>)
        ensures
            match *self {
                Message::Plural(p) => r == Some(&p),
                _ => r is None,
            },
    {
        match self {
            Message::Plural(p) => Some(p),
            _ => None,
        }
    }
}

impl Default for Message {
    fn default() -> (r: Message)
        ensures
            r matches Message::Simple { id, text } && id@.len() == 0 && text is None,
    {
        Message::Simple { id: String::new(), text: None }
    }
}

fn same_text(a: &Option<String>, b: &Option<String>) -> (r: bool)
    ensures
        r == (text_view(*a) == text_view(*b)),
{
    match (a, b) {
        (None, None) => true,
        (None, Some(s)) => {
            assert(s@.len() == 0 ==> s@ =~= Seq::<char>::empty());
            s.as_str().is_empty()
        },
        (Some(s), None) => {
            assert(s@.len() == 0 ==> s@ =~= Seq::<char>::empty());
            s.as_str().is_empty()
        },
        (Some(l), Some(r)) => *l == *r,
    }
}

impl PartialEq for Message {
    fn eq(&self, other: &Self) -> (r: bool)
        ensures
            r == same_message(*self, *other),
    {
        match (self, other) {
            (Message::Simple { id: li, text: lt }, Message::Simple { id: ri, text: rt }) => {
                *li == *ri && same_text(lt, rt)
            },
            (Message::Plural(l), Message::Plural(r)) => l.singular == r.singular && l.plural
                == r.plural,
            _ => false,
        }
    }
}

impl vstd::std_specs::cmp::PartialEqSpecImpl for Message {
    open spec fn obeys_eq_spec() -> bool {
        true
    }

    open spec fn eq_spec(&self, other: &Message) -> bool {
        same_message(*self, *other)
    }
}

impl Eq for Message {

}

} // verus!
