//! The single parse-time error: a kind plus the 1-based source line on
//! which it occurred.  Parsing is all-or-nothing, so one error aborts the
//! whole parse; running tests never fails.

use vstd::prelude::*;

verus! {

/// What went wrong while parsing a descriptor.
#[derive(Debug, Clone, PartialEq, Eq)]
pub enum ParseErrorKind {
    /// A second mode declaration was met.
    ModeAlreadyDefined,
    /// The mode declaration names no known delimiter pair.
    InvalidModeSpecifier,
    /// A class definition carries no name at all.
    NoClassName,
    /// The class name is not made of word characters.
    InvalidClassName(String),
    /// The class name was already defined.
    ClassAlreadyExists(String),
    /// The class definition has no `=pattern` segment.
    NoClassPattern(String),
    /// A test declaration does not start with `+` or `!`.
    InvalidTestIntent,
    /// A note declaration with nothing but blank space after `*`.
    EmptyNote,
    /// The statement starts with no known operator.
    UnknownStatementOperator(char),
    /// A pattern refers to a class that is not defined.
    UnknownClassReference(String),
    /// Expanding a class reference reaches the same class again.
    RecursiveClassReference(String),
    /// The expanded pattern text does not compile as a pattern.
    PatternCompileFail(String),
}

/// Mathematical image of a [`ParseErrorKind`].
pub ghost enum ParseErrorKindV {
    ModeAlreadyDefined,
    InvalidModeSpecifier,
    NoClassName,
    InvalidClassName(Seq<char>),
    ClassAlreadyExists(Seq<char>),
    NoClassPattern(Seq<char>),
    InvalidTestIntent,
    EmptyNote,
    UnknownStatementOperator(char),
    UnknownClassReference(Seq<char>),
    RecursiveClassReference(Seq<char>),
    PatternCompileFail(Seq<char>),
}

impl View for ParseErrorKind {
    type V = ParseErrorKindV;

    open spec fn view(&self) -> ParseErrorKindV {
        match self {
            ParseErrorKind::ModeAlreadyDefined => ParseErrorKindV::ModeAlreadyDefined,
            ParseErrorKind::InvalidModeSpecifier => ParseErrorKindV::InvalidModeSpecifier,
            ParseErrorKind::NoClassName => ParseErrorKindV::NoClassName,
            ParseErrorKind::InvalidClassName(n) => ParseErrorKindV::InvalidClassName(n@),
            ParseErrorKind::ClassAlreadyExists(n) => ParseErrorKindV::ClassAlreadyExists(n@),
            ParseErrorKind::NoClassPattern(n) => ParseErrorKindV::NoClassPattern(n@),
            ParseErrorKind::InvalidTestIntent => ParseErrorKindV::InvalidTestIntent,
            ParseErrorKind::EmptyNote => ParseErrorKindV::EmptyNote,
            ParseErrorKind::UnknownStatementOperator(c) => ParseErrorKindV::UnknownStatementOperator(
                *c,
            ),
            ParseErrorKind::UnknownClassReference(n) => ParseErrorKindV::UnknownClassReference(n@),
            ParseErrorKind::RecursiveClassReference(n) => ParseErrorKindV::RecursiveClassReference(
                n@,
            ),
            ParseErrorKind::PatternCompileFail(p) => ParseErrorKindV::PatternCompileFail(p@),
        }
    }
}

/// A parse failure: its kind and the 1-based source line it points at.
#[derive(Debug, Clone, PartialEq, Eq)]
pub struct Error {
    pub kind: ParseErrorKind,
    pub line: usize,
}

/// Mathematical image of an [`Error`].
pub ghost struct ErrorV {
    pub kind: ParseErrorKindV,
    pub line: nat,
}

impl View for Error {
    type V = ErrorV;

    open spec fn view(&self) -> ErrorV {
        ErrorV { kind: self.kind@, line: self.line as nat }
    }
}

} // verus!
