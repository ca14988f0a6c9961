//! Top-level program parsing.

use vstd::prelude::*;
use crate::ast::{List, ModuleItem, Program, ProgramKind, Statement};
use crate::error::Error;
use crate::module::{parse_module_item, spec_parse_module_item};
use crate::statement::{parse_statement, spec_parse_statement};
use crate::stream::{Peek, agrees, lemma_len_fits, peek, rem, spec_peek, within};
use crate::token::{Span, Token, synthetic_span};

verus! {

/// The span of a whole token sequence: from the start of its first token
/// to the end of its last (the `Eof` marker included), or the synthetic
/// span when there are no tokens.
pub open spec fn spec_program_span(t: Seq<Token>) -> Span {
    if t.len() > 0 {
        Span { start: t[0].span.start, end: t[t.len() - 1].span.end }
    } else {
        synthetic_span()
    }
}

fn program_span(tokens: &[Token]) -> (s: Span)
    ensures
        s == spec_program_span(tokens@),
{
    proof { lemma_len_fits(tokens); }
    let n = tokens.len();
    if n > 0 {
        Span { start: tokens[0].span.start, end: tokens[n - 1].span.end }
    } else {
        Span::synthetic()
    }
}

/// The statements from `p` up to the end of input.
/// A statement always takes at least one token (`parse_statement`
/// proves it); the test on the count taken only makes the definition
/// well-founded, and its other branch is never reached.
#[verifier::opaque]
pub open spec fn spec_collect_script_statements(t: Seq<Token>, p: int) -> Result<(List<Statement>, nat), Error>
    decreases rem(t, p) when p <= t.len()
{
    match spec_peek(t, p) {
        None => Ok((List::Nil, 0)),
        Some(_) => match spec_parse_statement(t, p) {
            Err(e) => Err(e),
            Ok((stmt, k1)) => if k1 > 0 && p + k1 <= t.len() {
                match spec_collect_script_statements(t, p + k1) {
                    Err(e) => Err(e),
                    Ok((rest, k2)) => Ok((List::Cons(Box::new(stmt), Box::new(rest)), k1 + k2)),
                }
            } else {
                Err(Error::UnexpectedEof { expected: "statement" })
            },
        },
    }
}

fn collect_script_statements(tokens: &[Token], pos: usize) -> (r: Result<(List<Statement>, usize), Error>)
    requires
        pos <= tokens@.len(),
    ensures
        agrees(r, spec_collect_script_statements(tokens@, pos as int), pos as int),
        within(r, pos as int, tokens@.len() as int),
    decreases rem(tokens@, pos as int),
{
    proof {
        reveal(spec_collect_script_statements);
        reveal(spec_parse_statement);
        lemma_len_fits(tokens);
    }
    match peek(tokens, pos) {
        Peek::Eof => Ok((List::Nil, pos)),
        Peek::Token(_) => {
            let (stmt, after_stmt) = parse_statement(tokens, pos)?;
            let (rest, end) = collect_script_statements(tokens, after_stmt)?;
            Ok((List::Cons(Box::new(stmt), Box::new(rest)), end))
        },
    }
}

/// The whole token sequence as a Script: its statements up to the end of
/// input, spanning the whole sequence.
pub open spec fn spec_parse_script(t: Seq<Token>) -> Result<Program, Error> {
    match spec_collect_script_statements(t, 0) {
        Err(e) => Err(e),
        Ok((body, _)) => Ok(Program { kind: ProgramKind::Script { body }, span: spec_program_span(t) }),
    }
}

/// Parse the entire token sequence as a Script (no `import`/`export` allowed).
pub fn parse_script(tokens: &[Token]) -> (r: Result<Program, Error>)
    ensures
        r == spec_parse_script(tokens@),
{
    proof { lemma_len_fits(tokens); }
    let (body, _) = collect_script_statements(tokens, 0)?;
    let span = program_span(tokens);
    Ok(Program { kind: ProgramKind::Script { body }, span })
}

/// The module items from `p` up to the end of input.
/// A module item always takes at least one token (`parse_module_item`
/// proves it); the test on the count taken only makes the definition
/// well-founded, and its other branch is never reached.
#[verifier::opaque]
pub open spec fn spec_collect_module_items(t: Seq<Token>, p: int) -> Result<(List<ModuleItem>, nat), Error>
    decreases rem(t, p) when p <= t.len()
{
    match spec_peek(t, p) {
        None => Ok((List::Nil, 0)),
        Some(_) => match spec_parse_module_item(t, p) {
            Err(e) => Err(e),
            Ok((item, k1)) => if k1 > 0 && p + k1 <= t.len() {
                match spec_collect_module_items(t, p + k1) {
                    Err(e) => Err(e),
                    Ok((rest, k2)) => Ok((List::Cons(Box::new(item), Box::new(rest)), k1 + k2)),
                }
            } else {
                Err(Error::UnexpectedEof { expected: "statement" })
            },
        },
    }
}

fn collect_module_items(tokens: &[Token], pos: usize) -> (r: Result<(List<ModuleItem>, usize), Error>)
    requires
        pos <= tokens@.len(),
    ensures
        agrees(r, spec_collect_module_items(tokens@, pos as int), pos as int),
        within(r, pos as int, tokens@.len() as int),
    decreases rem(tokens@, pos as int),
{
    proof {
        reveal(spec_collect_module_items);
        lemma_len_fits(tokens);
    }
    match peek(tokens, pos) {
        Peek::Eof => Ok((List::Nil, pos)),
        Peek::Token(_) => {
            let (item, after_item) = parse_module_item(tokens, pos)?;
            let (rest, end) = collect_module_items(tokens, after_item)?;
            Ok((List::Cons(Box::new(item), Box::new(rest)), end))
        },
    }
}

/// The whole token sequence as a Module: its items up to the end of
/// input, spanning the whole sequence.
pub open spec fn spec_parse_module(t: Seq<Token>) -> Result<Program, Error> {
    match spec_collect_module_items(t, 0) {
        Err(e) => Err(e),
        Ok((body, _)) => Ok(Program { kind: ProgramKind::Module { body }, span: spec_program_span(t) }),
    }
}

/// Parse the entire token sequence as a Module (`import`/`export` allowed).
pub fn parse_module(tokens: &[Token]) -> (r: Result<Program, Error>)
    ensures
        r == spec_parse_module(tokens@),
{
    proof { lemma_len_fits(tokens); }
    let (body, _) = collect_module_items(tokens, 0)?;
    let span = program_span(tokens);
    Ok(Program { kind: ProgramKind::Module { body }, span })
}

} // verus!
