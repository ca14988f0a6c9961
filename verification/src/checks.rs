//! Validation of identifier names and regular-expression literals, done
//! by the syntax-tree crate's own constructors.

use vstd::prelude::*;
use crate::error::SyntaxError;
use ecma_syntax_cat::error::Error as NodeError;

verus! {

/// The reason reported for a malformed identifier.
pub const IDENTIFIER_REASON: &'static str = "must match [$_A-Za-z][$_A-Za-z0-9]*";

/// The reason reported for a malformed private identifier.
pub const PRIVATE_IDENTIFIER_REASON: &'static str =
    "private identifier must match [$_A-Za-z][$_A-Za-z0-9]* after the leading `#`";

/// A character that may start an identifier.
pub open spec fn ident_start(c: char) -> bool {
    ('a' <= c && c <= 'z') || ('A' <= c && c <= 'Z') || c == '_' || c == '$'
}

/// A character that may continue an identifier.
pub open spec fn ident_continue(c: char) -> bool {
    ident_start(c) || ('0' <= c && c <= '9')
}

/// Names of the form `[$_A-Za-z][$_A-Za-z0-9]*`.
pub open spec fn identifier_shape(s: Seq<char>) -> bool {
    &&& s.len() > 0
    &&& ident_start(s[0])
    &&& forall|i: int| 1 <= i < s.len() ==> ident_continue(#[trigger] s[i])
}

/// The flag characters ECMA-262 allows after a regular expression.
pub open spec fn regex_flag(c: char) -> bool {
    c == 'g' || c == 'i' || c == 'm' || c == 's' || c == 'u' || c == 'y' || c == 'd' || c == 'v'
}

/// The first character of `flags` that is not a regex flag.
pub open spec fn first_bad_flag(flags: Seq<char>) -> Option<char>
    decreases flags.len(),
{
    if flags.len() == 0 {
        None
    } else if !regex_flag(flags[0]) {
        Some(flags[0])
    } else {
        first_bad_flag(flags.drop_first())
    }
}

/// The outcome of building an identifier named `name`.
pub open spec fn identifier_check(name: String) -> Result<(), SyntaxError> {
    if identifier_shape(name@) {
        Ok(())
    } else {
        Err(SyntaxError::InvalidIdentifier { attempted: name, reason: IDENTIFIER_REASON })
    }
}

/// The outcome of building a private identifier named `name`.
pub open spec fn private_identifier_check(name: String) -> Result<(), SyntaxError> {
    if identifier_shape(name@) {
        Ok(())
    } else {
        Err(SyntaxError::InvalidIdentifier { attempted: name, reason: PRIVATE_IDENTIFIER_REASON })
    }
}

/// The outcome of building a regex literal from `pattern` and `flags`.
pub open spec fn regex_check(pattern: String, flags: String) -> Result<(), SyntaxError> {
    if pattern@.len() == 0 {
        Err(SyntaxError::EmptyRegexPattern)
    } else {
        match first_bad_flag(flags@) {
            Some(c) => Err(SyntaxError::InvalidRegexFlag { flag: c }),
            None => Ok(()),
        }
    }
}

/// Builds an `ecma_syntax_cat::identifier::Identifier` from `name`.  Its
/// source accepts exactly the names of the form `[$_A-Za-z][$_A-Za-z0-9]*`
/// and otherwise fails with `InvalidIdentifier` carrying the name and the
/// fixed reason [`IDENTIFIER_REASON`].
#[verifier::external_body]
pub fn check_identifier(name: &String) -> (r: Result<(), SyntaxError>)
    ensures
        r == identifier_check(*name),
{
    match ecma_syntax_cat::identifier::Identifier::new(name.as_str()) {
        Ok(_) => Ok(()),
        Err(NodeError::InvalidIdentifier { attempted, reason }) => Err(SyntaxError::InvalidIdentifier { attempted, reason }),
        Err(NodeError::EmptyRegexPattern) => Err(SyntaxError::EmptyRegexPattern),
        Err(NodeError::InvalidRegexFlag { flag }) => Err(SyntaxError::InvalidRegexFlag { flag }),
        Err(NodeError::UnbalancedTemplate { quasis, expressions }) => Err(SyntaxError::UnbalancedTemplate { quasis, expressions }),
    }
}

/// Builds an `ecma_syntax_cat::identifier::PrivateIdentifier` from `name`
/// (given without the `#`).  Its source accepts exactly the names of the
/// form `[$_A-Za-z][$_A-Za-z0-9]*` and otherwise fails with
/// `InvalidIdentifier` carrying the name and the fixed reason
/// [`PRIVATE_IDENTIFIER_REASON`].
#[verifier::external_body]
pub fn check_private_identifier(name: &String) -> (r: Result<(), SyntaxError>)
    ensures
        r == private_identifier_check(*name),
{
    match ecma_syntax_cat::identifier::PrivateIdentifier::new(name.as_str()) {
        Ok(_) => Ok(()),
        Err(NodeError::InvalidIdentifier { attempted, reason }) => Err(SyntaxError::InvalidIdentifier { attempted, reason }),
        Err(NodeError::EmptyRegexPattern) => Err(SyntaxError::EmptyRegexPattern),
        Err(NodeError::InvalidRegexFlag { flag }) => Err(SyntaxError::InvalidRegexFlag { flag }),
        Err(NodeError::UnbalancedTemplate { quasis, expressions }) => Err(SyntaxError::UnbalancedTemplate { quasis, expressions }),
    }
}

/// Builds an `ecma_syntax_cat::literal::Literal::RegExp` from `pattern`
/// and `flags`.  Its source fails with `EmptyRegexPattern` when the
/// pattern is empty, otherwise with `InvalidRegexFlag` naming the first
/// flag character outside `g i m s u y d v`, and succeeds otherwise.
#[verifier::external_body]
pub fn check_regex(pattern: &String, flags: &String) -> (r: Result<(), SyntaxError>)
    ensures
        r == regex_check(*pattern, *flags),
{
    match ecma_syntax_cat::literal::Literal::regex(pattern.as_str(), flags.as_str()) {
        Ok(_) => Ok(()),
        Err(NodeError::InvalidIdentifier { attempted, reason }) => Err(SyntaxError::InvalidIdentifier { attempted, reason }),
        Err(NodeError::EmptyRegexPattern) => Err(SyntaxError::EmptyRegexPattern),
        Err(NodeError::InvalidRegexFlag { flag }) => Err(SyntaxError::InvalidRegexFlag { flag }),
        Err(NodeError::UnbalancedTemplate { quasis, expressions }) => Err(SyntaxError::UnbalancedTemplate { quasis, expressions }),
    }
}

} // verus!
