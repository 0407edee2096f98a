//! A parser and playback cursor for branching dialogue scripts.
//!
//! A script is plain text: named branches, each a list of speaker turns, each
//! turn a line of speech with inline markup for pauses and actions. The parser
//! turns the text into a [`document::Document`]; the cursor [`besida::Besida`]
//! steps through it one node and one event at a time.

pub mod besida;
pub mod branch;
pub mod dialogue_node;
pub mod document;
pub mod error;
pub mod event;
pub mod grammar;
pub mod parser;
pub mod scan;

pub use besida::Besida;
pub use branch::Branch;
pub use dialogue_node::DialogueNode;
pub use document::Document;
pub use error::{NavigationError, ParseError, ResolveError, SyntaxError, SyntaxErrorKind};
pub use event::{ChoiceOption, Event};
pub use parser::parse;
