//! The human-readable message of an [`Error`].
//!
//! A span is written `line:column..line:column`, the way `ecma-syntax-cat`
//! writes its spans; numbers, quoted strings and quoted characters are
//! written by the standard library's `Display` and `Debug`.

use vstd::prelude::*;
use vstd::string::StringExecFns;
use crate::error::{Error, Found, SyntaxError};
use crate::token::{Position, Span};
use ecma_lex_cat::error::Error as LexError;

verus! {

/// `n` in decimal: its digits, most significant first, without leading
/// zeros (`0` for zero).
pub open spec fn decimal(n: u64) -> Seq<char>
    decreases n,
{
    let digit = ('0' as int + (n % 10) as int) as char;
    if n < 10 {
        seq![digit]
    } else {
        decimal(n / 10).push(digit)
    }
}

/// How the standard library's `Debug` writes the string `s`: quoted, with
/// escapes.
pub uninterp spec fn debug_string(s: Seq<char>) -> Seq<char>;

/// How the standard library's `Debug` writes the character `c`: quoted,
/// with escapes.
pub uninterp spec fn debug_char(c: char) -> Seq<char>;

/// `u64`'s `Display` (through `to_string`): the decimal digits of `n`.
#[verifier::external_body]
fn decimal_text(n: u64) -> (r: String)
    ensures
        r@ == decimal(n),
{
    n.to_string()
}

/// `str`'s `Debug` (through `format!`): the result is `debug_string(s@)`.
#[verifier::external_body]
fn debug_text(s: &str) -> (r: String)
    ensures
        r@ == debug_string(s@),
{
    format!("{s:?}")
}

/// `char`'s `Debug` (through `format!`): the result is `debug_char(c)`.
#[verifier::external_body]
fn debug_char_text(c: char) -> (r: String)
    ensures
        r@ == debug_char(c),
{
    format!("{c:?}")
}

/// The lexer error's own `Display` (`ecma_lex_cat::error::Error`, through
/// `to_string`).  Nothing is stated of the text: it is the lexer's message.
#[verifier::external_body]
fn lex_error_text(e: &LexError) -> (r: String) {
    e.to_string()
}

/// `line:column`.
pub open spec fn position_text(p: Position) -> Seq<char> {
    decimal(p.line as u64) + ":"@ + decimal(p.column as u64)
}

/// `start..end`.
pub open spec fn span_text(s: Span) -> Seq<char> {
    position_text(s.start) + ".."@ + position_text(s.end)
}

/// What was found, quoted.
pub open spec fn found_text(f: Found) -> Seq<char> {
    match f {
        Found::Token(text) => debug_string(text@),
        Found::Note(note) => debug_string(note@),
    }
}

/// The message of a syntax error.
pub open spec fn syntax_message(e: SyntaxError) -> Seq<char> {
    match e {
        SyntaxError::InvalidIdentifier { attempted, reason } =>
            "invalid identifier "@ + debug_string(attempted@) + ": "@ + reason@,
        SyntaxError::EmptyRegexPattern => "regex literal pattern is empty"@,
        SyntaxError::InvalidRegexFlag { flag } => "invalid regex flag "@ + debug_char(flag),
        SyntaxError::UnbalancedTemplate { quasis, expressions } => "unbalanced template literal: "@
            + decimal(quasis as u64) + " quasis and "@ + decimal(expressions as u64)
            + " expressions (must satisfy quasis == expressions + 1)"@,
    }
}

/// The message of `e`, except for a lexer error, whose message is the
/// lexer's own after `lex error: `.
pub open spec fn message_of(e: Error) -> Option<Seq<char>> {
    match e {
        Error::Lex(_) => None,
        Error::Syntax(s) => Some("syntax error: "@ + syntax_message(s)),
        Error::UnexpectedToken { at, expected, found } => Some(
            span_text(at) + ": unexpected token "@ + found_text(found) + "; expected "@ + expected@,
        ),
        Error::UnexpectedEof { expected } => Some("unexpected end of input; expected "@ + expected@),
        Error::InvalidAssignmentTarget { at } => Some(span_text(at) + ": not a valid assignment target"@),
        Error::InvalidArrowParameter { at } => Some(span_text(at) + ": not a valid arrow parameter"@),
        Error::InvalidClassMember { at } => Some(span_text(at) + ": not a valid class member"@),
    }
}

fn position_string(p: Position) -> (r: String)
    ensures
        r@ == position_text(p),
{
    let mut s = decimal_text(p.line as u64);
    s.append(":");
    let column = decimal_text(p.column as u64);
    s.append(column.as_str());
    s
}

fn span_string(at: Span) -> (r: String)
    ensures
        r@ == span_text(at),
{
    let mut s = position_string(at.start);
    s.append("..");
    let end = position_string(at.end);
    s.append(end.as_str());
    s
}

fn found_string(found: &Found) -> (r: String)
    ensures
        r@ == found_text(*found),
{
    match found {
        Found::Token(text) => debug_text(text.as_str()),
        Found::Note(note) => debug_text(note),
    }
}

fn syntax_string(e: &SyntaxError) -> (r: String)
    ensures
        r@ == syntax_message(*e),
{
    match e {
        SyntaxError::InvalidIdentifier { attempted, reason } => {
            let mut s = "invalid identifier ".to_owned();
            let quoted = debug_text(attempted.as_str());
            s.append(quoted.as_str());
            s.append(": ");
            s.append(reason);
            s
        },
        SyntaxError::EmptyRegexPattern => "regex literal pattern is empty".to_owned(),
        SyntaxError::InvalidRegexFlag { flag } => {
            let mut s = "invalid regex flag ".to_owned();
            let quoted = debug_char_text(*flag);
            s.append(quoted.as_str());
            s
        },
        SyntaxError::UnbalancedTemplate { quasis, expressions } => {
            let mut s = "unbalanced template literal: ".to_owned();
            let q = decimal_text(*quasis as u64);
            s.append(q.as_str());
            s.append(" quasis and ");
            let x = decimal_text(*expressions as u64);
            s.append(x.as_str());
            s.append(" expressions (must satisfy quasis == expressions + 1)");
            s
        },
    }
}

fn located(at: Span, what: &str) -> (r: String)
    ensures
        r@ == span_text(at) + what@,
{
    let mut s = span_string(at);
    s.append(what);
    s
}

impl Error {
    /// The error's message: where it is, what was expected and what was
    /// found.  A lexer error gives `lex error: ` and the lexer's message.
    pub fn message(&self) -> (r: String)
        ensures
            match message_of(*self) {
                Some(m) => r@ == m,
                None => self is Lex && "lex error: "@.is_prefix_of(r@),
            },
    {
        match self {
            Error::Lex(e) => {
                let mut s = "lex error: ".to_owned();
                let text = lex_error_text(e);
                s.append(text.as_str());
                assert(s@.subrange(0, "lex error: "@.len() as int) =~= "lex error: "@);
                s
            },
            Error::Syntax(e) => {
                let mut s = "syntax error: ".to_owned();
                let text = syntax_string(e);
                s.append(text.as_str());
                s
            },
            Error::UnexpectedToken { at, expected, found } => {
                let mut s = located(*at, ": unexpected token ");
                let quoted = found_string(found);
                s.append(quoted.as_str());
                s.append("; expected ");
                s.append(expected);
                s
            },
            Error::UnexpectedEof { expected } => {
                let mut s = "unexpected end of input; expected ".to_owned();
                s.append(expected);
                s
            },
            Error::InvalidAssignmentTarget { at } => located(*at, ": not a valid assignment target"),
            Error::InvalidArrowParameter { at } => located(*at, ": not a valid arrow parameter"),
            Error::InvalidClassMember { at } => located(*at, ": not a valid class member"),
        }
    }
}

} // verus!
