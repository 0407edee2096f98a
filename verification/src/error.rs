//! Errors: what can go wrong while parsing, resolving and navigating.

use vstd::prelude::*;

verus! {

/// The ways in which a script can break the grammar.
#[derive(Debug, Clone, Copy, PartialEq, Eq)]
pub enum SyntaxErrorKind {
    /// A branch header is not of the form `--- NAME ---` on a line of its own.
    MalformedHeader,
    /// A node's first line holds no `:` after the speaker.
    MissingSeparator,
    /// A `[` opens an action that no `]` closes.
    UnterminatedAction,
}

/// A breach of the grammar, and where it was met.
#[derive(Debug, Clone, Copy, PartialEq, Eq)]
pub struct SyntaxError {
    /// What is wrong.
    pub kind: SyntaxErrorKind,
    /// How many characters of the parsed text stand before the faulty
    /// construct.
    pub offset: usize,
}

/// The mathematical value of a [`SyntaxError`].
pub struct Fault {
    pub kind: SyntaxErrorKind,
    pub offset: nat,
}

impl View for SyntaxError {
    type V = Fault;

    open spec fn view(&self) -> Fault {
        Fault { kind: self.kind, offset: self.offset as nat }
    }
}

/// The ways in which a list of branches can fail to name a place to start.
#[derive(Debug, Clone, Copy, PartialEq, Eq)]
pub enum ResolveError {
    /// There is no branch at all.
    NoBranches,
    /// More than one branch is marked as the entry.
    MultipleEntries,
}

/// Why a script did not become a document.
#[derive(Debug, Clone, Copy, PartialEq, Eq)]
pub enum ParseError {
    /// The text breaks the grammar.
    Syntax(SyntaxError),
    /// The text holds no branch.
    NoBranches,
    /// The text marks more than one branch as the entry.
    MultipleEntries,
}

/// The mathematical value of a [`ParseError`].
pub enum ParseFault {
    Syntax(Fault),
    NoBranches,
    MultipleEntries,
}

impl View for ParseError {
    type V = ParseFault;

    open spec fn view(&self) -> ParseFault {
        match *self {
            ParseError::Syntax(e) => ParseFault::Syntax(e@),
            ParseError::NoBranches => ParseFault::NoBranches,
            ParseError::MultipleEntries => ParseFault::MultipleEntries,
        }
    }
}

/// Why the cursor could not go where it was sent.
#[derive(Debug, Clone, Copy, PartialEq, Eq)]
pub enum NavigationError {
    /// No branch of the document has the name that was jumped to.
    UnknownBranch,
}

impl ParseError {
    /// Whether the error is a breach of the grammar, as opposed to a fault in
    /// how the branches are set up.
    pub fn is_syntax(&self) -> (syntax: bool)
        ensures
            syntax == (*self is Syntax),
    {
        match self {
            ParseError::Syntax(_) => true,
            _ => false,
        }
    }
}

} // verus!
