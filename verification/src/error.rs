//! Parser error type.

use vstd::prelude::*;
use crate::token::Span;
use ecma_lex_cat::error::Error as LexError;

verus! {

/// The lexer's error type, carried unchanged when lexing fails before
/// parsing.
#[verifier::external_type_specification]
#[verifier::external_body]
pub struct ExLexError(LexError);

/// Errors raised when a syntax-tree node is built from invalid input.
#[derive(Debug, Clone, PartialEq, Eq)]
pub enum SyntaxError {
    /// An identifier was empty or contained an illegal character.
    InvalidIdentifier { attempted: String, reason: &'static str },
    /// A regex literal pattern was empty.
    EmptyRegexPattern,
    /// A regex literal carried a flag character not recognised by ECMA-262.
    InvalidRegexFlag { flag: char },
    /// A template literal had quasis and expressions out of balance.
    UnbalancedTemplate { quasis: usize, expressions: usize },
}

/// What was found where a production expected something else.
#[derive(Debug, Clone, PartialEq, Eq)]
pub enum Found {
    /// The rendering of the offending token.
    Token(String),
    /// A description of the offending construct.
    Note(&'static str),
}

/// All errors the parser can produce.
#[derive(Debug)]
pub enum Error {
    /// Lexing the source failed.
    Lex(LexError),
    /// Constructing a node from valid-shaped input failed (e.g. an
    /// identifier that does not match the identifier alphabet).
    Syntax(SyntaxError),
    /// Encountered a token that does not satisfy the current production.
    UnexpectedToken { at: Span, expected: &'static str, found: Found },
    /// Input ended while a production was still demanding more tokens.
    UnexpectedEof { expected: &'static str },
    /// An assignment target was not a valid lvalue.
    InvalidAssignmentTarget { at: Span },
    /// An expression appeared before `=>` that cannot be reinterpreted as
    /// an arrow parameter list.
    InvalidArrowParameter { at: Span },
    /// A class body contained a member the parser cannot classify.
    InvalidClassMember { at: Span },
}

impl From<LexError> for Error {
    fn from(value: LexError) -> (r: Error)
        ensures
            r == Error::Lex(value),
    {
        Error::Lex(value)
    }
}

impl vstd::std_specs::convert::FromSpecImpl<LexError> for Error {
    open spec fn obeys_from_spec() -> bool {
        true
    }

    open spec fn from_spec(v: LexError) -> Error {
        Error::Lex(v)
    }
}

impl From<SyntaxError> for Error {
    fn from(value: SyntaxError) -> (r: Error)
        ensures
            r == Error::Syntax(value),
    {
        Error::Syntax(value)
    }
}

impl vstd::std_specs::convert::FromSpecImpl<SyntaxError> for Error {
    open spec fn obeys_from_spec() -> bool {
        true
    }

    open spec fn from_spec(v: SyntaxError) -> Error {
        Error::Syntax(v)
    }
}

} // verus!
