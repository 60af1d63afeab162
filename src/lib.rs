//! Reading of GNU gettext Portable Object (`.po`) translation catalogues.
//!
//! The catalogue text is cut into lines, each line is classified into a token, the tokens are
//! assembled into translation units, and the `Plural-Forms` header is decoded into a small
//! expression that selects the plural variant for a count.
pub mod formula;
pub mod text;
pub mod grammar;
pub mod error;
pub mod forms;
pub mod origin;
pub mod state;
pub mod comment;
pub mod note;
pub mod header;
pub mod plural;
pub mod message;
pub mod unit;
pub mod line;
pub mod stream;
pub mod extractor;
pub mod reader;

pub use message::Message;
pub use origin::Origin;
pub use reader::{PoParser, PoReader};
pub use state::State;

