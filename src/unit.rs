//! Translation units.
use crate::comment::Comment;
use crate::message::Message;
use crate::note::Note;
use crate::state::State;
use vstd::prelude::*;

verus! {

/// One translation unit: the source string, its translation and context, the previous source
/// and context of a fuzzy match, flags, notes, locations, other comments, the state, and
/// whether the unit is obsolete.
#[derive(Clone, Debug, PartialEq, Eq)]
pub struct Unit {
    pub context: Option<String>,
    pub message: Message,
    pub prev_context: Option<String>,
    pub prev_message: Message,
    /// The flags, each once, in the order of their first occurrence.
    pub flags: Vec<String>,
    pub notes: Vec<Note>,
    pub locations: Vec<String>,
    pub comments: Vec<Comment>,
    pub state: State,
    pub obsolete: bool,
}

/// A unit with nothing in it yet.
pub open spec fn blank_unit(u: Unit) -> bool {
    &&& u.context is None
    &&& u.message matches Message::Simple { id, text } && id@.len() == 0 && text is None
    &&& u.prev_context is None
    &&& u.prev_message matches Message::Simple { id, text } && id@.len() == 0 && text is None
    &&& u.flags@.len() == 0
    &&& u.notes@.len() == 0
    &&& u.locations@.len() == 0
    &&& u.comments@.len() == 0
    &&& u.state == State::Empty
    &&& !u.obsolete
}

impl Default for Unit {
    fn default() -> (r: Unit)
        ensures
            blank_unit(r),
    {
        Unit {
            context: None,
            message: Message::default(),
            prev_context: None,
            prev_message: Message::default(),
            flags: Vec::new(),
            notes: Vec::new(),
            locations: Vec::new(),
            comments: Vec::new(),
            state: State::Empty,
            obsolete: false,
        }
    }
}

fn optional_str(s: &Option<String>) -> (r: Option<&str>)
    ensures
        match *s {
            Some(t) => r matches Some(u) && u@ == t@,
            None => r is None,
        },
{
    match s {
        Some(t) => Some(t.as_str()),
        None => None,
    }
}

impl Unit {
    /// The context string.
    pub fn context(&self) -> (r: Option<&str>)
        ensures
            match self.context {
                Some(t) => r matches Some(u) && u@ == t@,
                None => r is None,
            },
    {
        optional_str(&self.context)
    }

    /// The message.
    pub fn message(&self) -> (r: &Message)
        ensures
            *r == self.message,
    {
        &self.message
    }

    /// The previous context (of a fuzzy unit).
    pub fn prev_context(&self) -> (r: Option<&str>)
        ensures
            match self.prev_context {
                Some(t) => r matches Some(u) && u@ == t@,
                None => r is None,
            },
    {
        optional_str(&self.prev_context)
    }

    /// The previous message (of a fuzzy unit).
    pub fn prev_message(&self) -> (r: &Message)
        ensures
            *r == self.prev_message,
    {
        &self.prev_message
    }

    /// The flags.
    pub fn flags(&self) -> (r: &Vec<String>)
        ensures
            r@ == self.flags@,
    {
        &self.flags
    }

    /// The notes.
    pub fn notes(&self) -> (r: &Vec<Note>)
        ensures
            r@ == self.notes@,
    {
        &self.notes
    }

    /// The locations.
    pub fn locations(&self) -> (r: &Vec<String>)
        ensures
            r@ == self.locations@,
    {
        &self.locations
    }

    /// The other comments.
    pub fn comments(&self) -> (r: &Vec<Comment>)
        ensures
            r@ == self.comments@,
    {
        &self.comments
    }

    /// The state.
    pub fn state(&self) -> (r: State)
        ensures
            r == self.state,
    {
        self.state
    }

    /// Whether the unit should be used: its state is `Final`.
    pub fn is_translated(&self) -> (r: bool)
        ensures
            r == (self.state == State::Final),
    {
        self.state == State::Final
    }

    /// Whether the unit is obsolete.
    pub fn is_obsolete(&self) -> (r: bool)
        ensures
            r == self.obsolete,
    {
        self.obsolete
    }
}

} // verus!
