//! ECMAScript parser.
//!
//! Consumes a slice of [`token::Token`]s (the lexer's tokens: kind, span
//! and rendering) and produces an [`ast::Program`].  [`parse_script`]
//! parses a `Script` (no `import`/`export` at top level), [`parse_module`]
//! parses a `Module`.  Both expect tokens that end with the `Eof` marker.
//! Statements are parsed by recursive descent and expressions by
//! precedence climbing; a parenthesised expression followed by `=>` is
//! reinterpreted as an arrow function's parameter list.
//!
//! Every parsing function is specified by a `spec_*` function of the same
//! name that defines its result on every token sequence (the node parsed
//! and the number of tokens it takes, or the error), and is proved to
//! compute exactly that result.  The recursive specifications are opaque;
//! a proof that needs one unfolds it with `reveal`.  [`laws`] states
//! properties that span several functions.

use vstd::prelude::*;

pub mod ast;
pub mod checks;
pub mod declaration;
pub mod error;
pub mod expression;
pub mod laws;
pub mod message;
pub mod module;
pub mod pattern;
pub mod precedence;
pub mod program;
pub mod statement;
pub mod stream;
pub mod token;

pub use error::Error;
pub use program::{parse_module, parse_script};

verus! {
} // verus!
