//! The failure a parse call surfaces: fatal for that one call, identifying
//! the offending line and the kind of entity being read.

use vstd::prelude::*;

verus! {

/// The kind of entity the failing parse call was reading.
#[derive(Clone, Copy, Debug, PartialEq, Eq, Structural)]
pub enum EntityKind {
    Card,
    Endpoint,
    ClientAssociation,
}

/// What was wrong with the offending line.
#[derive(Clone, Copy, Debug, PartialEq, Eq, Structural)]
pub enum ParseErrorKind {
    /// A list entry lacked its `#<integer>` reference, or an embedded
    /// reference did not have the expected shape.
    MalformedEntityReference,
    /// A field that must be a number was none, or was out of range.
    InvalidNumber,
    /// A closed-set token was none of the known tokens.
    UnknownToken,
}

/// A fatal parse failure.
#[derive(Clone, Debug)]
pub struct ParseError {
    pub entity: EntityKind,
    pub kind: ParseErrorKind,
    pub line: String,
}

/// The mathematical value of a parse failure.
#[verifier::ext_equal]
pub ghost struct ErrView {
    pub entity: EntityKind,
    pub kind: ParseErrorKind,
    pub line: Seq<char>,
}

impl View for ParseError {
    type V = ErrView;

    open spec fn view(&self) -> ErrView {
        ErrView { entity: self.entity, kind: self.kind, line: self.line@ }
    }
}

} // verus!
