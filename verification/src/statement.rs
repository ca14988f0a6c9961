//! Statement parsing, variable declarations and binding patterns.
//!
//! As for expressions, every parsing function is defined by a `spec_*`
//! function giving the statement parsed at a position with the number of
//! tokens consumed, or the error, and is proved to compute exactly that.

use vstd::prelude::*;
use crate::ast::{
    CatchClause, ForInit, ForLeft, Identifier, List, ObjectPatternMember, Pattern, PatternKind,
    PropertyKey, Statement, StatementKind, SwitchCase, VariableDeclaration, VariableDeclarator,
    VariableKind, Expression,
};
use crate::declaration::{
    parse_class, parse_function_declaration, spec_parse_class, spec_parse_function_declaration,
};
use crate::error::{Error, Found};
use crate::expression::{
    is_word, parse_assignment_expression, parse_expression, parse_lhs_expression, spec_is_word,
    spec_parse_assignment_expression, spec_parse_expression, spec_parse_lhs_expression,
};
use crate::pattern::{reinterpret_expression_as_pattern, spec_reinterpret};
use crate::stream::{
    Peek, advances, agrees, eat_semicolon, expect_identifier, expect_kind, is_kind,
    lemma_len_fits, peek, rem, shift, span_at, spec_eat_semicolon, spec_expect_identifier,
    spec_expect_kind, spec_is_kind, spec_peek, spec_span_at, spec_unexpected, unexpected, within,
};
use crate::token::{Span, Symbol, Token, TokenKind};

verus! {

// ---------------------------------------------------------------------
// Statements
// ---------------------------------------------------------------------

/// The statement at `p`.
#[verifier::opaque]
pub open spec fn spec_parse_statement(t: Seq<Token>, p: int) -> Result<(Statement, nat), Error>
    decreases rem(t, p), 17nat when p <= t.len()
{
    match spec_peek(t, p) {
        None => Err(Error::UnexpectedEof { expected: "statement" }),
        Some(tok) => spec_dispatch_statement(t, p, tok, spec_span_at(t, p)),
    }
}

/// Parse a single statement.
pub fn parse_statement(tokens: &[Token], pos: usize) -> (r: Result<(Statement, usize), Error>)
    ensures
        pos <= tokens@.len() ==> agrees(r, spec_parse_statement(tokens@, pos as int), pos as int),
        advances(r, pos as int, tokens@.len() as int),
        pos > tokens@.len() ==> r == Err::<(Statement, usize), Error>(Error::UnexpectedEof { expected: "statement" }),
    decreases rem(tokens@, pos as int), 17nat,
{
    proof {
        reveal(spec_parse_statement);
        reveal(spec_dispatch_statement);
        lemma_len_fits(tokens);
    }
    if pos > tokens.len() {
        return Err(Error::UnexpectedEof { expected: "statement" });
    }
    let start_span = span_at(tokens, pos);
    match peek(tokens, pos) {
        Peek::Eof => Err(Error::UnexpectedEof { expected: "statement" }),
        Peek::Token(tok) => dispatch_statement(tokens, pos, tok, start_span),
    }
}

/// The statement that starts with `tok` (the token at `p`): the first
/// token decides, an identifier followed by `:` is a label, and anything
/// else is an expression statement.
#[verifier::opaque]
pub open spec fn spec_dispatch_statement(t: Seq<Token>, p: int, tok: Token, start_span: Span) -> Result<(Statement, nat), Error>
    decreases rem(t, p), 16nat when p <= t.len()
{
    match tok.kind {
        TokenKind::Symbol(Symbol::LBrace) => spec_parse_block_statement(t, p),
        TokenKind::Symbol(Symbol::Semicolon) => Ok((Statement { kind: StatementKind::Empty, span: start_span }, 1)),
        TokenKind::Symbol(Symbol::KwDebugger) => spec_parse_debugger(t, p, start_span),
        TokenKind::Symbol(Symbol::KwIf) => spec_parse_if(t, p, start_span),
        TokenKind::Symbol(Symbol::KwSwitch) => spec_parse_switch(t, p, start_span),
        TokenKind::Symbol(Symbol::KwFor) => spec_parse_for(t, p, start_span),
        TokenKind::Symbol(Symbol::KwWhile) => spec_parse_while(t, p, start_span),
        TokenKind::Symbol(Symbol::KwDo) => spec_parse_do_while(t, p, start_span),
        TokenKind::Symbol(Symbol::KwReturn) => spec_parse_return(t, p, start_span),
        TokenKind::Symbol(Symbol::KwThrow) => spec_parse_throw(t, p, start_span),
        TokenKind::Symbol(Symbol::KwTry) => spec_parse_try(t, p, start_span),
        TokenKind::Symbol(Symbol::KwBreak) => spec_parse_break_or_continue(t, p, start_span, true),
        TokenKind::Symbol(Symbol::KwContinue) => spec_parse_break_or_continue(t, p, start_span, false),
        TokenKind::Symbol(Symbol::KwVar) => spec_parse_variable_declaration_statement(t, p, start_span),
        TokenKind::Symbol(Symbol::KwConst) => spec_parse_variable_declaration_statement(t, p, start_span),
        TokenKind::Symbol(Symbol::KwLet) => spec_parse_let_or_expression(t, p, start_span),
        TokenKind::Symbol(Symbol::KwFunction) => match spec_parse_function_declaration(t, p) {
            Err(e) => Err(e),
            Ok((func, k)) => {
                let span = Span { start: start_span.start, end: spec_span_at(t, p + k - 1).end };
                Ok((Statement { kind: StatementKind::FunctionDeclaration(func), span }, k))
            },
        },
        TokenKind::Symbol(Symbol::KwClass) => match spec_parse_class(t, p) {
            Err(e) => Err(e),
            Ok((class, k)) => {
                let span = Span { start: start_span.start, end: spec_span_at(t, p + k - 1).end };
                Ok((Statement { kind: StatementKind::ClassDeclaration(class), span }, k))
            },
        },
        TokenKind::Identifier(_) => if spec_is_kind(t, p + 1, Symbol::Colon) {
            spec_parse_labeled(t, p, start_span)
        } else {
            spec_parse_expression_statement(t, p, start_span)
        },
        _ => spec_parse_expression_statement(t, p, start_span),
    }
}

fn dispatch_statement(tokens: &[Token], pos: usize, tok: &Token, start_span: Span) -> (r: Result<(Statement, usize), Error>)
    requires
        spec_peek(tokens@, pos as int) == Some(*tok),
        start_span == tok.span,
    ensures
        agrees(r, spec_dispatch_statement(tokens@, pos as int, *tok, start_span), pos as int),
        advances(r, pos as int, tokens@.len() as int),
    decreases rem(tokens@, pos as int), 16nat,
{
    proof {
        reveal(spec_dispatch_statement);
        reveal(spec_parse_block_statement);
        reveal(spec_parse_if);
        reveal(spec_parse_switch);
        reveal(spec_parse_for);
        reveal(spec_parse_while);
        reveal(spec_parse_do_while);
        reveal(spec_parse_return);
        reveal(spec_parse_throw);
        reveal(spec_parse_try);
        reveal(spec_parse_variable_declaration_statement);
        reveal(spec_parse_let_or_expression);
        reveal(spec_parse_function_declaration);
        reveal(spec_parse_class);
        reveal(spec_parse_labeled);
        reveal(spec_parse_expression_statement);
        lemma_len_fits(tokens);
    }
    match &tok.kind {
        TokenKind::Symbol(Symbol::LBrace) => parse_block_statement(tokens, pos),
        TokenKind::Symbol(Symbol::Semicolon) => Ok((Statement { kind: StatementKind::Empty, span: start_span }, pos + 1)),
        TokenKind::Symbol(Symbol::KwDebugger) => parse_debugger(tokens, pos, start_span),
        TokenKind::Symbol(Symbol::KwIf) => parse_if(tokens, pos, start_span),
        TokenKind::Symbol(Symbol::KwSwitch) => parse_switch(tokens, pos, start_span),
        TokenKind::Symbol(Symbol::KwFor) => parse_for(tokens, pos, start_span),
        TokenKind::Symbol(Symbol::KwWhile) => parse_while(tokens, pos, start_span),
        TokenKind::Symbol(Symbol::KwDo) => parse_do_while(tokens, pos, start_span),
        TokenKind::Symbol(Symbol::KwReturn) => parse_return(tokens, pos, start_span),
        TokenKind::Symbol(Symbol::KwThrow) => parse_throw(tokens, pos, start_span),
        TokenKind::Symbol(Symbol::KwTry) => parse_try(tokens, pos, start_span),
        TokenKind::Symbol(Symbol::KwBreak) => parse_break_or_continue(tokens, pos, start_span, true),
        TokenKind::Symbol(Symbol::KwContinue) => parse_break_or_continue(tokens, pos, start_span, false),
        TokenKind::Symbol(Symbol::KwVar) => parse_variable_declaration_statement(tokens, pos, start_span),
        TokenKind::Symbol(Symbol::KwConst) => parse_variable_declaration_statement(tokens, pos, start_span),
        TokenKind::Symbol(Symbol::KwLet) => parse_let_or_expression(tokens, pos, start_span),
        TokenKind::Symbol(Symbol::KwFunction) => {
            let (func, after) = parse_function_declaration(tokens, pos)?;
            let span = Span { start: start_span.start, end: span_at(tokens, after - 1).end };
            Ok((Statement { kind: StatementKind::FunctionDeclaration(func), span }, after))
        },
        TokenKind::Symbol(Symbol::KwClass) => {
            let (class, after) = parse_class(tokens, pos)?;
            let span = Span { start: start_span.start, end: span_at(tokens, after - 1).end };
            Ok((Statement { kind: StatementKind::ClassDeclaration(class), span }, after))
        },
        TokenKind::Identifier(_) => if is_kind(tokens, pos + 1, Symbol::Colon) {
            parse_labeled(tokens, pos, start_span)
        } else {
            parse_expression_statement(tokens, pos, start_span)
        },
        _ => parse_expression_statement(tokens, pos, start_span),
    }
}

/// `label: statement` with the label at `p`.
#[verifier::opaque]
pub open spec fn spec_parse_labeled(t: Seq<Token>, p: int, start_span: Span) -> Result<(Statement, nat), Error>
    decreases rem(t, p), 0nat when p <= t.len()
{
    match spec_expect_identifier(t, p) {
        Err(e) => Err(e),
        Ok((label, k1)) => match spec_expect_kind(t, p + k1, Symbol::Colon, "`:`") {
            Err(e) => Err(e),
            Ok(()) => match spec_parse_statement(t, p + k1 + 1) {
                Err(e) => Err(e),
                Ok((body, k2)) => {
                    let span = Span { start: start_span.start, end: spec_span_at(t, p + k1 + k2).end };
                    Ok((Statement { kind: StatementKind::Labeled { label, body: Box::new(body) }, span }, k1 + 1 + k2))
                },
            },
        },
    }
}

fn parse_labeled(tokens: &[Token], pos: usize, start_span: Span) -> (r: Result<(Statement, usize), Error>)
    requires
        pos <= tokens@.len(),
    ensures
        agrees(r, spec_parse_labeled(tokens@, pos as int, start_span), pos as int),
        advances(r, pos as int, tokens@.len() as int),
    decreases rem(tokens@, pos as int), 0nat,
{
    proof {
        reveal(spec_parse_labeled);
        reveal(spec_parse_statement);
        lemma_len_fits(tokens);
    }
    let (label, after_label) = expect_identifier(tokens, pos)?;
    let after_colon = expect_kind(tokens, after_label, Symbol::Colon, "`:`")?;
    let (body, after_body) = parse_statement(tokens, after_colon)?;
    let span = Span { start: start_span.start, end: span_at(tokens, after_body - 1).end };
    Ok((Statement { kind: StatementKind::Labeled { label, body: Box::new(body) }, span }, after_body))
}

/// `debugger` with its optional `;`.
pub open spec fn spec_parse_debugger(t: Seq<Token>, p: int, start_span: Span) -> Result<(Statement, nat), Error> {
    match spec_eat_semicolon(t, p + 1) {
        Err(e) => Err(e),
        Ok(k) => Ok((Statement { kind: StatementKind::Debugger, span: start_span }, 1 + k)),
    }
}

fn parse_debugger(tokens: &[Token], pos: usize, start_span: Span) -> (r: Result<(Statement, usize), Error>)
    requires
        pos < tokens@.len(),
    ensures
        agrees(r, spec_parse_debugger(tokens@, pos as int, start_span), pos as int),
        advances(r, pos as int, tokens@.len() as int),
{
    proof { lemma_len_fits(tokens); }
    let after_semi = eat_semicolon(tokens, pos + 1)?;
    Ok((Statement { kind: StatementKind::Debugger, span: start_span }, after_semi))
}

/// `{ statements }` at `p`: the statements, up to and including the `}`.
#[verifier::opaque]
pub open spec fn spec_parse_block_body(t: Seq<Token>, p: int) -> Result<(List<Statement>, nat), Error>
    decreases rem(t, p), 0nat when p <= t.len()
{
    match spec_expect_kind(t, p, Symbol::LBrace, "`{`") {
        Err(e) => Err(e),
        Ok(()) => shift(spec_collect_block_statements(t, p + 1), 1),
    }
}

/// Parse a `{ ... }` block body.  Returns the statements and the position
/// after the closing brace.  Used by function bodies, arrow bodies, and
/// nested blocks.
pub fn parse_block_body(tokens: &[Token], pos: usize) -> (r: Result<(List<Statement>, usize), Error>)
    ensures
        pos <= tokens@.len() ==> agrees(r, spec_parse_block_body(tokens@, pos as int), pos as int),
        advances(r, pos as int, tokens@.len() as int),
        pos > tokens@.len() ==> r == Err::<(List<Statement>, usize), Error>(Error::UnexpectedEof { expected: "`{`" }),
    decreases rem(tokens@, pos as int), 0nat,
{
    proof {
        reveal(spec_parse_block_body);
        reveal(spec_collect_block_statements);
        lemma_len_fits(tokens);
    }
    if pos > tokens.len() {
        return Err(Error::UnexpectedEof { expected: "`{`" });
    }
    let after_open = expect_kind(tokens, pos, Symbol::LBrace, "`{`")?;
    collect_block_statements(tokens, after_open)
}

/// The statements from `p` through the closing `}`.
/// A statement always takes at least one token (`parse_statement`
/// proves it); the test on the count taken only makes the definition
/// well-founded, and its other branch is never reached.
#[verifier::opaque]
pub open spec fn spec_collect_block_statements(t: Seq<Token>, p: int) -> Result<(List<Statement>, nat), Error>
    decreases rem(t, p), 18nat when p <= t.len()
{
    if spec_is_kind(t, p, Symbol::RBrace) {
        Ok((List::Nil, 1))
    } else {
        match spec_parse_statement(t, p) {
            Err(e) => Err(e),
            Ok((stmt, k1)) => if k1 > 0 {
                match spec_collect_block_statements(t, p + k1) {
                    Err(e) => Err(e),
                    Ok((rest, k2)) => Ok((List::Cons(Box::new(stmt), Box::new(rest)), k1 + k2)),
                }
            } else {
                Err(Error::UnexpectedEof { expected: "statement" })
            },
        }
    }
}

fn collect_block_statements(tokens: &[Token], pos: usize) -> (r: Result<(List<Statement>, usize), Error>)
    requires
        pos <= tokens@.len(),
    ensures
        agrees(r, spec_collect_block_statements(tokens@, pos as int), pos as int),
        advances(r, pos as int, tokens@.len() as int),
    decreases rem(tokens@, pos as int), 18nat,
{
    proof {
        reveal(spec_collect_block_statements);
        reveal(spec_parse_statement);
        lemma_len_fits(tokens);
    }
    if is_kind(tokens, pos, Symbol::RBrace) {
        Ok((List::Nil, pos + 1))
    } else {
        let (stmt, after_stmt) = parse_statement(tokens, pos)?;
        let (rest, end) = collect_block_statements(tokens, after_stmt)?;
        Ok((List::Cons(Box::new(stmt), Box::new(rest)), end))
    }
}

/// A block statement at `p`, spanning its braces.
#[verifier::opaque]
pub open spec fn spec_parse_block_statement(t: Seq<Token>, p: int) -> Result<(Statement, nat), Error>
    decreases rem(t, p), 1nat when p <= t.len()
{
    match spec_parse_block_body(t, p) {
        Err(e) => Err(e),
        Ok((body, k)) => {
            let span = Span { start: spec_span_at(t, p).start, end: spec_span_at(t, p + k - 1).end };
            Ok((Statement { kind: StatementKind::Block { body }, span }, k))
        },
    }
}

fn parse_block_statement(tokens: &[Token], pos: usize) -> (r: Result<(Statement, usize), Error>)
    requires
        pos <= tokens@.len(),
    ensures
        agrees(r, spec_parse_block_statement(tokens@, pos as int), pos as int),
        advances(r, pos as int, tokens@.len() as int),
    decreases rem(tokens@, pos as int), 1nat,
{
    proof {
        reveal(spec_parse_block_statement);
        reveal(spec_parse_block_body);
        lemma_len_fits(tokens);
    }
    let start_span = span_at(tokens, pos);
    let (body, after_close) = parse_block_body(tokens, pos)?;
    let span = Span { start: start_span.start, end: span_at(tokens, after_close - 1).end };
    Ok((Statement { kind: StatementKind::Block { body }, span }, after_close))
}

/// `if (test) consequent [else alternate]` with `if` at `p`.
#[verifier::opaque]
pub open spec fn spec_parse_if(t: Seq<Token>, p: int, start_span: Span) -> Result<(Statement, nat), Error>
    decreases rem(t, p), 0nat when p <= t.len()
{
    match spec_expect_kind(t, p + 1, Symbol::LParen, "`(`") {
        Err(e) => Err(e),
        Ok(()) => match spec_parse_expression(t, p + 2) {
            Err(e) => Err(e),
            Ok((test, k1)) => match spec_expect_kind(t, p + 2 + k1, Symbol::RParen, "`)`") {
                Err(e) => Err(e),
                Ok(()) => match spec_parse_statement(t, p + 3 + k1) {
                    Err(e) => Err(e),
                    Ok((consequent, k2)) => {
                        let after_conseq = p + 3 + k1 + k2;
                        let alt: Result<(Option<Box<Statement>>, nat), Error> = if spec_is_kind(t, after_conseq, Symbol::KwElse) {
                            match spec_parse_statement(t, after_conseq + 1) {
                                Err(e) => Err(e),
                                Ok((s, k)) => Ok((Some(Box::new(s)), k + 1)),
                            }
                        } else {
                            Ok((None, 0))
                        };
                        match alt {
                            Err(e) => Err(e),
                            Ok((alternate, k3)) => {
                                let after_alt = after_conseq + k3;
                                let span = Span { start: start_span.start, end: spec_span_at(t, after_alt - 1).end };
                                Ok((
                                    Statement {
                                        kind: StatementKind::If { test, consequent: Box::new(consequent), alternate },
                                        span,
                                    },
                                    (after_alt - p) as nat,
                                ))
                            },
                        }
                    },
                },
            },
        },
    }
}

fn parse_if(tokens: &[Token], pos: usize, start_span: Span) -> (r: Result<(Statement, usize), Error>)
    requires
        pos < tokens@.len(),
    ensures
        agrees(r, spec_parse_if(tokens@, pos as int, start_span), pos as int),
        advances(r, pos as int, tokens@.len() as int),
    decreases rem(tokens@, pos as int), 0nat,
{
    proof {
        reveal(spec_parse_if);
        reveal(spec_parse_expression);
        reveal(spec_parse_statement);
        lemma_len_fits(tokens);
    }
    let after_lparen = expect_kind(tokens, pos + 1, Symbol::LParen, "`(`")?;
    let (test, after_test) = parse_expression(tokens, after_lparen)?;
    let after_rparen = expect_kind(tokens, after_test, Symbol::RParen, "`)`")?;
    let (consequent, after_conseq) = parse_statement(tokens, after_rparen)?;
    let (alternate, after_alt) = if is_kind(tokens, after_conseq, Symbol::KwElse) {
        let (alt_stmt, after_alt_stmt) = parse_statement(tokens, after_conseq + 1)?;
        (Some(Box::new(alt_stmt)), after_alt_stmt)
    } else {
        (None, after_conseq)
    };
    let span = Span { start: start_span.start, end: span_at(tokens, after_alt - 1).end };
    Ok((Statement { kind: StatementKind::If { test, consequent: Box::new(consequent), alternate }, span }, after_alt))
}

/// `switch (discriminant) { cases }` with `switch` at `p`.
#[verifier::opaque]
pub open spec fn spec_parse_switch(t: Seq<Token>, p: int, start_span: Span) -> Result<(Statement, nat), Error>
    decreases rem(t, p), 0nat when p <= t.len()
{
    match spec_expect_kind(t, p + 1, Symbol::LParen, "`(`") {
        Err(e) => Err(e),
        Ok(()) => match spec_parse_expression(t, p + 2) {
            Err(e) => Err(e),
            Ok((discriminant, k1)) => match spec_expect_kind(t, p + 2 + k1, Symbol::RParen, "`)`") {
                Err(e) => Err(e),
                Ok(()) => match spec_expect_kind(t, p + 3 + k1, Symbol::LBrace, "`{`") {
                    Err(e) => Err(e),
                    Ok(()) => match spec_collect_switch_cases(t, p + 4 + k1) {
                        Err(e) => Err(e),
                        Ok((cases, k2)) => {
                            let span = Span { start: start_span.start, end: spec_span_at(t, p + 3 + k1 + k2).end };
                            Ok((Statement { kind: StatementKind::Switch { discriminant, cases }, span }, 4 + k1 + k2))
                        },
                    },
                },
            },
        },
    }
}

fn parse_switch(tokens: &[Token], pos: usize, start_span: Span) -> (r: Result<(Statement, usize), Error>)
    requires
        pos < tokens@.len(),
    ensures
        agrees(r, spec_parse_switch(tokens@, pos as int, start_span), pos as int),
        advances(r, pos as int, tokens@.len() as int),
    decreases rem(tokens@, pos as int), 0nat,
{
    proof {
        reveal(spec_parse_switch);
        reveal(spec_parse_expression);
        reveal(spec_collect_switch_cases);
        lemma_len_fits(tokens);
    }
    let after_lparen = expect_kind(tokens, pos + 1, Symbol::LParen, "`(`")?;
    let (discriminant, after_disc) = parse_expression(tokens, after_lparen)?;
    let after_rparen = expect_kind(tokens, after_disc, Symbol::RParen, "`)`")?;
    let after_lbrace = expect_kind(tokens, after_rparen, Symbol::LBrace, "`{`")?;
    let (cases, after_rbrace) = collect_switch_cases(tokens, after_lbrace)?;
    let span = Span { start: start_span.start, end: span_at(tokens, after_rbrace - 1).end };
    Ok((Statement { kind: StatementKind::Switch { discriminant, cases }, span }, after_rbrace))
}

/// What an error reports as found at `p`: the token's rendering, or
/// `EOF` at the end of input.
pub open spec fn spec_render_kind(t: Seq<Token>, p: int) -> Found {
    match spec_peek(t, p) {
        None => Found::Note("EOF"),
        Some(tok) => Found::Token(tok.text),
    }
}

fn render_kind(tokens: &[Token], pos: usize) -> (f: Found)
    ensures
        f == spec_render_kind(tokens@, pos as int),
{
    proof { lemma_len_fits(tokens); }
    match peek(tokens, pos) {
        Peek::Eof => Found::Note("EOF"),
        Peek::Token(tok) => Found::Token(tok.text.clone()),
    }
}

/// The `case test:` and `default:` clauses from `p` through the `}`.
#[verifier::opaque]
pub open spec fn spec_collect_switch_cases(t: Seq<Token>, p: int) -> Result<(List<SwitchCase>, nat), Error>
    decreases rem(t, p), 0nat when p <= t.len()
{
    if spec_is_kind(t, p, Symbol::RBrace) {
        Ok((List::Nil, 1))
    } else if spec_is_kind(t, p, Symbol::KwCase) {
        match spec_parse_expression(t, p + 1) {
            Err(e) => Err(e),
            Ok((test, k1)) => match spec_expect_kind(t, p + 1 + k1, Symbol::Colon, "`:`") {
                Err(e) => Err(e),
                Ok(()) => match spec_collect_case_body(t, p + 2 + k1) {
                    Err(e) => Err(e),
                    Ok((body, k2)) => match spec_collect_switch_cases(t, p + 2 + k1 + k2) {
                        Err(e) => Err(e),
                        Ok((rest, k3)) => Ok((
                            List::Cons(Box::new(SwitchCase { test: Some(test), consequent: body }), Box::new(rest)),
                            2 + k1 + k2 + k3,
                        )),
                    },
                },
            },
        }
    } else if spec_is_kind(t, p, Symbol::KwDefault) {
        match spec_expect_kind(t, p + 1, Symbol::Colon, "`:`") {
            Err(e) => Err(e),
            Ok(()) => match spec_collect_case_body(t, p + 2) {
                Err(e) => Err(e),
                Ok((body, k2)) => match spec_collect_switch_cases(t, p + 2 + k2) {
                    Err(e) => Err(e),
                    Ok((rest, k3)) => Ok((
                        List::Cons(Box::new(SwitchCase { test: None, consequent: body }), Box::new(rest)),
                        2 + k2 + k3,
                    )),
                },
            },
        }
    } else {
        Err(Error::UnexpectedToken {
            at: spec_span_at(t, p),
            expected: "`case`, `default`, or `}`",
            found: spec_render_kind(t, p),
        })
    }
}

fn collect_switch_cases(tokens: &[Token], pos: usize) -> (r: Result<(List<SwitchCase>, usize), Error>)
    requires
        pos <= tokens@.len(),
    ensures
        agrees(r, spec_collect_switch_cases(tokens@, pos as int), pos as int),
        advances(r, pos as int, tokens@.len() as int),
    decreases rem(tokens@, pos as int), 0nat,
{
    proof {
        reveal(spec_collect_switch_cases);
        reveal(spec_parse_expression);
        reveal(spec_collect_case_body);
        lemma_len_fits(tokens);
    }
    if is_kind(tokens, pos, Symbol::RBrace) {
        Ok((List::Nil, pos + 1))
    } else if is_kind(tokens, pos, Symbol::KwCase) {
        let (test, after_test) = parse_expression(tokens, pos + 1)?;
        let after_colon = expect_kind(tokens, after_test, Symbol::Colon, "`:`")?;
        let (body, after_body) = collect_case_body(tokens, after_colon)?;
        let (rest, end) = collect_switch_cases(tokens, after_body)?;
        Ok((List::Cons(Box::new(SwitchCase { test: Some(test), consequent: body }), Box::new(rest)), end))
    } else if is_kind(tokens, pos, Symbol::KwDefault) {
        let after_colon = expect_kind(tokens, pos + 1, Symbol::Colon, "`:`")?;
        let (body, after_body) = collect_case_body(tokens, after_colon)?;
        let (rest, end) = collect_switch_cases(tokens, after_body)?;
        Ok((List::Cons(Box::new(SwitchCase { test: None, consequent: body }), Box::new(rest)), end))
    } else {
        let span = span_at(tokens, pos);
        Err(Error::UnexpectedToken { at: span, expected: "`case`, `default`, or `}`", found: render_kind(tokens, pos) })
    }
}

/// Whether a case body ends at `p`: before `}`, `case` or `default`.
pub open spec fn spec_ends_case_body(t: Seq<Token>, p: int) -> bool {
    spec_is_kind(t, p, Symbol::RBrace) || spec_is_kind(t, p, Symbol::KwCase) || spec_is_kind(t, p, Symbol::KwDefault)
}

/// The statements of a case body from `p` up to (not including) the next
/// `case`, `default` or `}`.
/// A statement always takes at least one token (`parse_statement`
/// proves it); the test on the count taken only makes the definition
/// well-founded, and its other branch is never reached.
#[verifier::opaque]
pub open spec fn spec_collect_case_body(t: Seq<Token>, p: int) -> Result<(List<Statement>, nat), Error>
    decreases rem(t, p), 18nat when p <= t.len()
{
    if spec_ends_case_body(t, p) {
        Ok((List::Nil, 0))
    } else {
        match spec_parse_statement(t, p) {
            Err(e) => Err(e),
            Ok((stmt, k1)) => if k1 > 0 {
                match spec_collect_case_body(t, p + k1) {
                    Err(e) => Err(e),
                    Ok((rest, k2)) => Ok((List::Cons(Box::new(stmt), Box::new(rest)), k1 + k2)),
                }
            } else {
                Err(Error::UnexpectedEof { expected: "statement" })
            },
        }
    }
}

fn collect_case_body(tokens: &[Token], pos: usize) -> (r: Result<(List<Statement>, usize), Error>)
    requires
        pos <= tokens@.len(),
    ensures
        agrees(r, spec_collect_case_body(tokens@, pos as int), pos as int),
        within(r, pos as int, tokens@.len() as int),
    decreases rem(tokens@, pos as int), 18nat,
{
    proof {
        reveal(spec_collect_case_body);
        reveal(spec_parse_statement);
        lemma_len_fits(tokens);
    }
    if is_kind(tokens, pos, Symbol::RBrace) || is_kind(tokens, pos, Symbol::KwCase)
        || is_kind(tokens, pos, Symbol::KwDefault) {
        Ok((List::Nil, pos))
    } else {
        let (stmt, after_stmt) = parse_statement(tokens, pos)?;
        let (rest, end) = collect_case_body(tokens, after_stmt)?;
        Ok((List::Cons(Box::new(stmt), Box::new(rest)), end))
    }
}

} // verus!

verus! {

// ---------------------------------------------------------------------
// Loops
// ---------------------------------------------------------------------

/// `for [await] ( head ) body` with `for` at `p`.
#[verifier::opaque]
pub open spec fn spec_parse_for(t: Seq<Token>, p: int, start_span: Span) -> Result<(Statement, nat), Error>
    decreases rem(t, p), 0nat when p <= t.len()
{
    let is_await = spec_is_kind(t, p + 1, Symbol::KwAwait);
    let after_await = if is_await { p + 2 } else { p + 1 };
    match spec_expect_kind(t, after_await, Symbol::LParen, "`(`") {
        Err(e) => Err(e),
        Ok(()) => shift(spec_parse_for_head(t, after_await + 1, is_await, start_span), (after_await + 1 - p) as nat),
    }
}

fn parse_for(tokens: &[Token], pos: usize, start_span: Span) -> (r: Result<(Statement, usize), Error>)
    requires
        pos < tokens@.len(),
    ensures
        agrees(r, spec_parse_for(tokens@, pos as int, start_span), pos as int),
        advances(r, pos as int, tokens@.len() as int),
    decreases rem(tokens@, pos as int), 0nat,
{
    proof {
        reveal(spec_parse_for);
        reveal(spec_parse_for_head);
        lemma_len_fits(tokens);
    }
    let after_kw = pos + 1;
    let is_for_await = is_kind(tokens, after_kw, Symbol::KwAwait);
    let after_await = if is_for_await { after_kw + 1 } else { after_kw };
    let after_lparen = expect_kind(tokens, after_await, Symbol::LParen, "`(`")?;
    parse_for_head(tokens, after_lparen, is_for_await, start_span)
}

/// Whether `var`, `let` or `const` is at `p`.
pub open spec fn spec_starts_declaration(t: Seq<Token>, p: int) -> bool {
    spec_is_kind(t, p, Symbol::KwVar) || spec_is_kind(t, p, Symbol::KwLet) || spec_is_kind(t, p, Symbol::KwConst)
}

/// What follows `for (`: `;` starts a classic loop without initialiser,
/// a declaration or an expression starts the others.
#[verifier::opaque]
pub open spec fn spec_parse_for_head(t: Seq<Token>, p: int, is_await: bool, start_span: Span) -> Result<(Statement, nat), Error>
    decreases rem(t, p), 16nat when p <= t.len()
{
    if spec_is_kind(t, p, Symbol::Semicolon) {
        shift(spec_finish_classic_for(t, p + 1, None, start_span), 1)
    } else if spec_starts_declaration(t, p) {
        spec_parse_for_with_declaration(t, p, is_await, start_span)
    } else {
        spec_parse_for_with_expression(t, p, is_await, start_span)
    }
}

fn parse_for_head(tokens: &[Token], pos: usize, is_for_await: bool, start_span: Span) -> (r: Result<(Statement, usize), Error>)
    requires
        pos <= tokens@.len(),
    ensures
        agrees(r, spec_parse_for_head(tokens@, pos as int, is_for_await, start_span), pos as int),
        advances(r, pos as int, tokens@.len() as int),
    decreases rem(tokens@, pos as int), 16nat,
{
    proof {
        reveal(spec_parse_for_head);
        reveal(spec_finish_classic_for);
        reveal(spec_parse_for_with_declaration);
        reveal(spec_parse_for_with_expression);
        lemma_len_fits(tokens);
    }
    if is_kind(tokens, pos, Symbol::Semicolon) {
        finish_classic_for(tokens, pos + 1, None, start_span)
    } else if is_kind(tokens, pos, Symbol::KwVar) || is_kind(tokens, pos, Symbol::KwLet)
        || is_kind(tokens, pos, Symbol::KwConst) {
        parse_for_with_declaration(tokens, pos, is_for_await, start_span)
    } else {
        parse_for_with_expression(tokens, pos, is_for_await, start_span)
    }
}

/// A `for` head that starts with a declaration at `p`: then `in`, `of`
/// or `;` decides the kind of loop.
#[verifier::opaque]
pub open spec fn spec_parse_for_with_declaration(t: Seq<Token>, p: int, is_await: bool, start_span: Span) -> Result<(Statement, nat), Error>
    decreases rem(t, p), 1nat when p <= t.len()
{
    match spec_parse_variable_declaration(t, p) {
        Err(e) => Err(e),
        Ok((decl, k1)) => {
            let after_decl = p + k1;
            if spec_is_kind(t, after_decl, Symbol::KwIn) {
                shift(spec_finish_for_in(t, after_decl + 1, ForLeft::Declaration(decl), start_span), k1 + 1)
            } else if spec_is_word(t, after_decl, "of") {
                shift(spec_finish_for_of(t, after_decl + 1, ForLeft::Declaration(decl), is_await, start_span), k1 + 1)
            } else {
                match spec_expect_kind(t, after_decl, Symbol::Semicolon, "`;`") {
                    Err(e) => Err(e),
                    Ok(()) => shift(
                        spec_finish_classic_for(t, after_decl + 1, Some(ForInit::Declaration(decl)), start_span),
                        k1 + 1,
                    ),
                }
            }
        },
    }
}

fn parse_for_with_declaration(tokens: &[Token], pos: usize, is_for_await: bool, start_span: Span) -> (r: Result<(Statement, usize), Error>)
    requires
        pos <= tokens@.len(),
    ensures
        agrees(r, spec_parse_for_with_declaration(tokens@, pos as int, is_for_await, start_span), pos as int),
        advances(r, pos as int, tokens@.len() as int),
    decreases rem(tokens@, pos as int), 1nat,
{
    proof {
        reveal(spec_parse_for_with_declaration);
        reveal(spec_parse_variable_declaration);
        reveal(spec_finish_for_in);
        reveal(spec_finish_for_of);
        reveal(spec_finish_classic_for);
        lemma_len_fits(tokens);
    }
    let (decl, after_decl) = parse_variable_declaration(tokens, pos)?;
    if is_kind(tokens, after_decl, Symbol::KwIn) {
        finish_for_in(tokens, after_decl + 1, ForLeft::Declaration(decl), start_span)
    } else if is_word(tokens, after_decl, "of") {
        finish_for_of(tokens, after_decl + 1, ForLeft::Declaration(decl), is_for_await, start_span)
    } else {
        let after_semi = expect_kind(tokens, after_decl, Symbol::Semicolon, "`;`")?;
        finish_classic_for(tokens, after_semi, Some(ForInit::Declaration(decl)), start_span)
    }
}

/// The left-hand-side expression at `p` and the number of its tokens,
/// when `in` follows it.
#[verifier::opaque]
pub open spec fn spec_lhs_before_in(t: Seq<Token>, p: int) -> Option<(Expression, nat)>
    decreases rem(t, p), 7nat when p <= t.len()
{
    match spec_parse_lhs_expression(t, p) {
        Ok((lhs, k)) => if spec_is_kind(t, p + k, Symbol::KwIn) {
            Some((lhs, k))
        } else {
            None
        },
        Err(_) => None,
    }
}

/// A `for` head that starts with an expression at `p`.  A left-hand-side
/// expression followed by `in` is reinterpreted as the pattern of a
/// `for`-`in` loop.  Otherwise a full expression is read: before `in` or
/// `of` it is reinterpreted as a pattern, before `;` it initialises a
/// classic loop.
#[verifier::opaque]
pub open spec fn spec_parse_for_with_expression(t: Seq<Token>, p: int, is_await: bool, start_span: Span) -> Result<(Statement, nat), Error>
    decreases rem(t, p), 15nat when p <= t.len()
{
    match spec_lhs_before_in(t, p) {
        Some((lhs, k0)) => match spec_reinterpret(lhs) {
            Err(e) => Err(e),
            Ok(pattern) => shift(spec_finish_for_in(t, p + k0 + 1, ForLeft::Pattern(pattern), start_span), k0 + 1),
        },
        None => spec_parse_for_with_full_expression(t, p, is_await, start_span),
    }
}

/// The `for` head at `p` read as a full expression: before `in` or `of`
/// it is reinterpreted as a pattern, before `;` it initialises a classic
/// loop.
#[verifier::opaque]
pub open spec fn spec_parse_for_with_full_expression(t: Seq<Token>, p: int, is_await: bool, start_span: Span) -> Result<(Statement, nat), Error>
    decreases rem(t, p), 14nat when p <= t.len()
{
    match spec_parse_expression(t, p) {
        Err(e) => Err(e),
        Ok((init_expr, k1)) => {
            let after_expr = p + k1;
            if spec_is_kind(t, after_expr, Symbol::KwIn) {
                match spec_reinterpret(init_expr) {
                    Err(e) => Err(e),
                    Ok(pattern) => shift(spec_finish_for_in(t, after_expr + 1, ForLeft::Pattern(pattern), start_span), k1 + 1),
                }
            } else if spec_is_word(t, after_expr, "of") {
                match spec_reinterpret(init_expr) {
                    Err(e) => Err(e),
                    Ok(pattern) => shift(
                        spec_finish_for_of(t, after_expr + 1, ForLeft::Pattern(pattern), is_await, start_span),
                        k1 + 1,
                    ),
                }
            } else {
                match spec_expect_kind(t, after_expr, Symbol::Semicolon, "`;`") {
                    Err(e) => Err(e),
                    Ok(()) => shift(
                        spec_finish_classic_for(t, after_expr + 1, Some(ForInit::Expression(init_expr)), start_span),
                        k1 + 1,
                    ),
                }
            }
        },
    }
}

fn parse_for_with_expression(tokens: &[Token], pos: usize, is_for_await: bool, start_span: Span) -> (r: Result<(Statement, usize), Error>)
    requires
        pos <= tokens@.len(),
    ensures
        agrees(r, spec_parse_for_with_expression(tokens@, pos as int, is_for_await, start_span), pos as int),
        advances(r, pos as int, tokens@.len() as int),
    decreases rem(tokens@, pos as int), 15nat,
{
    proof {
        reveal(spec_parse_for_with_expression);
        reveal(spec_lhs_before_in);
        reveal(spec_parse_lhs_expression);
        reveal(spec_finish_for_in);
        reveal(spec_parse_for_with_full_expression);
        lemma_len_fits(tokens);
    }
    let lhs_in = match parse_lhs_expression(tokens, pos) {
        Ok((lhs, after_lhs)) => if is_kind(tokens, after_lhs, Symbol::KwIn) {
            Some((lhs, after_lhs))
        } else {
            None
        },
        Err(_) => None,
    };
    match lhs_in {
        Some((lhs, after_lhs)) => {
            let pattern = reinterpret_expression_as_pattern(lhs)?;
            finish_for_in(tokens, after_lhs + 1, ForLeft::Pattern(pattern), start_span)
        },
        None => parse_for_with_full_expression(tokens, pos, is_for_await, start_span),
    }
}

fn parse_for_with_full_expression(tokens: &[Token], pos: usize, is_for_await: bool, start_span: Span) -> (r: Result<(Statement, usize), Error>)
    requires
        pos <= tokens@.len(),
    ensures
        agrees(r, spec_parse_for_with_full_expression(tokens@, pos as int, is_for_await, start_span), pos as int),
        advances(r, pos as int, tokens@.len() as int),
    decreases rem(tokens@, pos as int), 14nat,
{
    proof {
        reveal(spec_parse_for_with_full_expression);
        reveal(spec_parse_expression);
        reveal(spec_finish_for_in);
        reveal(spec_finish_for_of);
        reveal(spec_finish_classic_for);
        lemma_len_fits(tokens);
    }
    let (init_expr, after_expr) = parse_expression(tokens, pos)?;
    if is_kind(tokens, after_expr, Symbol::KwIn) {
        let pattern = reinterpret_expression_as_pattern(init_expr)?;
        finish_for_in(tokens, after_expr + 1, ForLeft::Pattern(pattern), start_span)
    } else if is_word(tokens, after_expr, "of") {
        let pattern = reinterpret_expression_as_pattern(init_expr)?;
        finish_for_of(tokens, after_expr + 1, ForLeft::Pattern(pattern), is_for_await, start_span)
    } else {
        let after_semi = expect_kind(tokens, after_expr, Symbol::Semicolon, "`;`")?;
        finish_classic_for(tokens, after_semi, Some(ForInit::Expression(init_expr)), start_span)
    }
}

/// The rest of a classic `for` after its initialiser's `;` (at `p`):
/// optional test, `;`, optional update, `)`, body.
#[verifier::opaque]
pub open spec fn spec_finish_classic_for(t: Seq<Token>, p: int, init: Option<ForInit>, start_span: Span) -> Result<(Statement, nat), Error>
    decreases rem(t, p), 14nat when p <= t.len()
{
    let tested: Result<(Option<Expression>, nat), Error> = if spec_is_kind(t, p, Symbol::Semicolon) {
        Ok((None, 0))
    } else {
        match spec_parse_expression(t, p) {
            Err(e) => Err(e),
            Ok((e, k)) => Ok((Some(e), k)),
        }
    };
    match tested {
        Err(e) => Err(e),
        Ok((test, k1)) => {
            let after_test = p + k1;
            match spec_expect_kind(t, after_test, Symbol::Semicolon, "`;`") {
                Err(e) => Err(e),
                Ok(()) => {
                    let after_test_semi = after_test + 1;
                    let updated: Result<(Option<Expression>, nat), Error> = if spec_is_kind(t, after_test_semi, Symbol::RParen) {
                        Ok((None, 0))
                    } else {
                        match spec_parse_expression(t, after_test_semi) {
                            Err(e) => Err(e),
                            Ok((e, k)) => Ok((Some(e), k)),
                        }
                    };
                    match updated {
                        Err(e) => Err(e),
                        Ok((update, k2)) => {
                            let after_update = after_test_semi + k2;
                            match spec_expect_kind(t, after_update, Symbol::RParen, "`)`") {
                                Err(e) => Err(e),
                                Ok(()) => match spec_parse_statement(t, after_update + 1) {
                                    Err(e) => Err(e),
                                    Ok((body, k3)) => {
                                        let after_body = after_update + 1 + k3;
                                        let span = Span { start: start_span.start, end: spec_span_at(t, after_body - 1).end };
                                        Ok((
                                            Statement {
                                                kind: StatementKind::For { init, test, update, body: Box::new(body) },
                                                span,
                                            },
                                            (after_body - p) as nat,
                                        ))
                                    },
                                },
                            }
                        },
                    }
                },
            }
        },
    }
}

fn finish_classic_for(tokens: &[Token], pos: usize, init: Option<ForInit>, start_span: Span) -> (r: Result<(Statement, usize), Error>)
    requires
        pos <= tokens@.len(),
    ensures
        agrees(r, spec_finish_classic_for(tokens@, pos as int, init, start_span), pos as int),
        advances(r, pos as int, tokens@.len() as int),
    decreases rem(tokens@, pos as int), 14nat,
{
    proof {
        reveal(spec_finish_classic_for);
        reveal(spec_parse_expression);
        reveal(spec_parse_statement);
        lemma_len_fits(tokens);
    }
    let (test, after_test) = if is_kind(tokens, pos, Symbol::Semicolon) {
        (None, pos)
    } else {
        let (expr, after_expr) = parse_expression(tokens, pos)?;
        (Some(expr), after_expr)
    };
    let after_test_semi = expect_kind(tokens, after_test, Symbol::Semicolon, "`;`")?;
    let (update, after_update) = if is_kind(tokens, after_test_semi, Symbol::RParen) {
        (None, after_test_semi)
    } else {
        let (expr, after_expr) = parse_expression(tokens, after_test_semi)?;
        (Some(expr), after_expr)
    };
    let after_rparen = expect_kind(tokens, after_update, Symbol::RParen, "`)`")?;
    let (body, after_body) = parse_statement(tokens, after_rparen)?;
    let span = Span { start: start_span.start, end: span_at(tokens, after_body - 1).end };
    Ok((Statement { kind: StatementKind::For { init, test, update, body: Box::new(body) }, span }, after_body))
}

/// The rest of a `for-in` after `in` (at `p`): object, `)`, body.
#[verifier::opaque]
pub open spec fn spec_finish_for_in(t: Seq<Token>, p: int, left: ForLeft, start_span: Span) -> Result<(Statement, nat), Error>
    decreases rem(t, p), 14nat when p <= t.len()
{
    match spec_parse_expression(t, p) {
        Err(e) => Err(e),
        Ok((right, k1)) => match spec_expect_kind(t, p + k1, Symbol::RParen, "`)`") {
            Err(e) => Err(e),
            Ok(()) => match spec_parse_statement(t, p + k1 + 1) {
                Err(e) => Err(e),
                Ok((body, k2)) => {
                    let span = Span { start: start_span.start, end: spec_span_at(t, p + k1 + k2).end };
                    Ok((Statement { kind: StatementKind::ForIn { left, right, body: Box::new(body) }, span }, k1 + 1 + k2))
                },
            },
        },
    }
}

fn finish_for_in(tokens: &[Token], pos: usize, left: ForLeft, start_span: Span) -> (r: Result<(Statement, usize), Error>)
    requires
        pos <= tokens@.len(),
    ensures
        agrees(r, spec_finish_for_in(tokens@, pos as int, left, start_span), pos as int),
        advances(r, pos as int, tokens@.len() as int),
    decreases rem(tokens@, pos as int), 14nat,
{
    proof {
        reveal(spec_finish_for_in);
        reveal(spec_parse_expression);
        reveal(spec_parse_statement);
        lemma_len_fits(tokens);
    }
    let (right, after_right) = parse_expression(tokens, pos)?;
    let after_rparen = expect_kind(tokens, after_right, Symbol::RParen, "`)`")?;
    let (body, after_body) = parse_statement(tokens, after_rparen)?;
    let span = Span { start: start_span.start, end: span_at(tokens, after_body - 1).end };
    Ok((Statement { kind: StatementKind::ForIn { left, right, body: Box::new(body) }, span }, after_body))
}

/// The rest of a `for-of` after `of` (at `p`): iterable, `)`, body.
#[verifier::opaque]
pub open spec fn spec_finish_for_of(t: Seq<Token>, p: int, left: ForLeft, is_await: bool, start_span: Span) -> Result<(Statement, nat), Error>
    decreases rem(t, p), 13nat when p <= t.len()
{
    match spec_parse_assignment_expression(t, p) {
        Err(e) => Err(e),
        Ok((right, k1)) => match spec_expect_kind(t, p + k1, Symbol::RParen, "`)`") {
            Err(e) => Err(e),
            Ok(()) => match spec_parse_statement(t, p + k1 + 1) {
                Err(e) => Err(e),
                Ok((body, k2)) => {
                    let span = Span { start: start_span.start, end: spec_span_at(t, p + k1 + k2).end };
                    Ok((
                        Statement { kind: StatementKind::ForOf { left, right, body: Box::new(body), is_await }, span },
                        k1 + 1 + k2,
                    ))
                },
            },
        },
    }
}

fn finish_for_of(tokens: &[Token], pos: usize, left: ForLeft, is_await: bool, start_span: Span) -> (r: Result<(Statement, usize), Error>)
    requires
        pos <= tokens@.len(),
    ensures
        agrees(r, spec_finish_for_of(tokens@, pos as int, left, is_await, start_span), pos as int),
        advances(r, pos as int, tokens@.len() as int),
    decreases rem(tokens@, pos as int), 13nat,
{
    proof {
        reveal(spec_finish_for_of);
        reveal(spec_parse_assignment_expression);
        reveal(spec_parse_statement);
        lemma_len_fits(tokens);
    }
    let (right, after_right) = parse_assignment_expression(tokens, pos)?;
    let after_rparen = expect_kind(tokens, after_right, Symbol::RParen, "`)`")?;
    let (body, after_body) = parse_statement(tokens, after_rparen)?;
    let span = Span { start: start_span.start, end: span_at(tokens, after_body - 1).end };
    Ok((Statement { kind: StatementKind::ForOf { left, right, body: Box::new(body), is_await }, span }, after_body))
}

/// `while (test) body` with `while` at `p`.
#[verifier::opaque]
pub open spec fn spec_parse_while(t: Seq<Token>, p: int, start_span: Span) -> Result<(Statement, nat), Error>
    decreases rem(t, p), 0nat when p <= t.len()
{
    match spec_expect_kind(t, p + 1, Symbol::LParen, "`(`") {
        Err(e) => Err(e),
        Ok(()) => match spec_parse_expression(t, p + 2) {
            Err(e) => Err(e),
            Ok((test, k1)) => match spec_expect_kind(t, p + 2 + k1, Symbol::RParen, "`)`") {
                Err(e) => Err(e),
                Ok(()) => match spec_parse_statement(t, p + 3 + k1) {
                    Err(e) => Err(e),
                    Ok((body, k2)) => {
                        let span = Span { start: start_span.start, end: spec_span_at(t, p + 2 + k1 + k2).end };
                        Ok((Statement { kind: StatementKind::While { test, body: Box::new(body) }, span }, 3 + k1 + k2))
                    },
                },
            },
        },
    }
}

fn parse_while(tokens: &[Token], pos: usize, start_span: Span) -> (r: Result<(Statement, usize), Error>)
    requires
        pos < tokens@.len(),
    ensures
        agrees(r, spec_parse_while(tokens@, pos as int, start_span), pos as int),
        advances(r, pos as int, tokens@.len() as int),
    decreases rem(tokens@, pos as int), 0nat,
{
    proof {
        reveal(spec_parse_while);
        reveal(spec_parse_expression);
        reveal(spec_parse_statement);
        lemma_len_fits(tokens);
    }
    let after_lparen = expect_kind(tokens, pos + 1, Symbol::LParen, "`(`")?;
    let (test, after_test) = parse_expression(tokens, after_lparen)?;
    let after_rparen = expect_kind(tokens, after_test, Symbol::RParen, "`)`")?;
    let (body, after_body) = parse_statement(tokens, after_rparen)?;
    let span = Span { start: start_span.start, end: span_at(tokens, after_body - 1).end };
    Ok((Statement { kind: StatementKind::While { test, body: Box::new(body) }, span }, after_body))
}

/// `do body while (test)` with `do` at `p`, then an optional `;` that
/// the span leaves out.
#[verifier::opaque]
pub open spec fn spec_parse_do_while(t: Seq<Token>, p: int, start_span: Span) -> Result<(Statement, nat), Error>
    decreases rem(t, p), 0nat when p <= t.len()
{
    match spec_parse_statement(t, p + 1) {
        Err(e) => Err(e),
        Ok((body, k1)) => {
            let after_body = p + 1 + k1;
            match spec_expect_kind(t, after_body, Symbol::KwWhile, "keyword `while`") {
                Err(e) => Err(e),
                Ok(()) => match spec_expect_kind(t, after_body + 1, Symbol::LParen, "`(`") {
                    Err(e) => Err(e),
                    Ok(()) => match spec_parse_expression(t, after_body + 2) {
                        Err(e) => Err(e),
                        Ok((test, k2)) => {
                            let after_test = after_body + 2 + k2;
                            match spec_expect_kind(t, after_test, Symbol::RParen, "`)`") {
                                Err(e) => Err(e),
                                Ok(()) => match spec_eat_semicolon(t, after_test + 1) {
                                    Err(e) => Err(e),
                                    Ok(k3) => {
                                        let span = Span { start: start_span.start, end: spec_span_at(t, after_test).end };
                                        Ok((
                                            Statement { kind: StatementKind::DoWhile { body: Box::new(body), test }, span },
                                            (after_test + 1 + k3 - p) as nat,
                                        ))
                                    },
                                },
                            }
                        },
                    },
                },
            }
        },
    }
}

fn parse_do_while(tokens: &[Token], pos: usize, start_span: Span) -> (r: Result<(Statement, usize), Error>)
    requires
        pos < tokens@.len(),
    ensures
        agrees(r, spec_parse_do_while(tokens@, pos as int, start_span), pos as int),
        advances(r, pos as int, tokens@.len() as int),
    decreases rem(tokens@, pos as int), 0nat,
{
    proof {
        reveal(spec_parse_do_while);
        reveal(spec_parse_statement);
        reveal(spec_parse_expression);
        lemma_len_fits(tokens);
    }
    let (body, after_body) = parse_statement(tokens, pos + 1)?;
    let after_while = expect_kind(tokens, after_body, Symbol::KwWhile, "keyword `while`")?;
    let after_lparen = expect_kind(tokens, after_while, Symbol::LParen, "`(`")?;
    let (test, after_test) = parse_expression(tokens, after_lparen)?;
    let after_rparen = expect_kind(tokens, after_test, Symbol::RParen, "`)`")?;
    let after_semi = eat_semicolon(tokens, after_rparen)?;
    let span = Span { start: start_span.start, end: span_at(tokens, after_rparen - 1).end };
    Ok((Statement { kind: StatementKind::DoWhile { body: Box::new(body), test }, span }, after_semi))
}

} // verus!

verus! {

// ---------------------------------------------------------------------
// Jumps, `try`, expression statements and declarations
// ---------------------------------------------------------------------

/// Whether a `return` argument starts at `p`: anything but `;`, `}` and
/// the end of input.
pub open spec fn spec_can_start_return_argument(t: Seq<Token>, p: int) -> bool {
    spec_peek(t, p) matches Some(tok) && tok.kind != TokenKind::Symbol(Symbol::Semicolon)
        && tok.kind != TokenKind::Symbol(Symbol::RBrace) && tok.kind != TokenKind::Symbol(Symbol::Eof)
}

fn can_start_return_argument(tokens: &[Token], pos: usize) -> (b: bool)
    ensures
        b == spec_can_start_return_argument(tokens@, pos as int),
{
    proof { lemma_len_fits(tokens); }
    match peek(tokens, pos) {
        Peek::Eof => false,
        Peek::Token(tok) => match &tok.kind {
            TokenKind::Symbol(Symbol::Semicolon) | TokenKind::Symbol(Symbol::RBrace)
            | TokenKind::Symbol(Symbol::Eof) => false,
            _ => true,
        },
    }
}

/// `return [argument]` with `return` at `p`, then an optional `;` that
/// the span leaves out.
#[verifier::opaque]
pub open spec fn spec_parse_return(t: Seq<Token>, p: int, start_span: Span) -> Result<(Statement, nat), Error>
    decreases rem(t, p), 0nat when p <= t.len()
{
    let after_kw = p + 1;
    let arg: Result<(Option<Expression>, nat), Error> = if spec_can_start_return_argument(t, after_kw) {
        match spec_parse_expression(t, after_kw) {
            Err(e) => Err(e),
            Ok((e, k)) => Ok((Some(e), k)),
        }
    } else {
        Ok((None, 0))
    };
    match arg {
        Err(e) => Err(e),
        Ok((argument, k1)) => {
            let after_arg = after_kw + k1;
            match spec_eat_semicolon(t, after_arg) {
                Err(e) => Err(e),
                Ok(k2) => {
                    let span = Span { start: start_span.start, end: spec_span_at(t, after_arg - 1).end };
                    Ok((Statement { kind: StatementKind::Return { argument }, span }, 1 + k1 + k2))
                },
            }
        },
    }
}

fn parse_return(tokens: &[Token], pos: usize, start_span: Span) -> (r: Result<(Statement, usize), Error>)
    requires
        pos < tokens@.len(),
    ensures
        agrees(r, spec_parse_return(tokens@, pos as int, start_span), pos as int),
        advances(r, pos as int, tokens@.len() as int),
    decreases rem(tokens@, pos as int), 0nat,
{
    proof {
        reveal(spec_parse_return);
        reveal(spec_parse_expression);
        lemma_len_fits(tokens);
    }
    let after_kw = pos + 1;
    let (argument, after_arg) = if can_start_return_argument(tokens, after_kw) {
        let (expr, after_expr) = parse_expression(tokens, after_kw)?;
        (Some(expr), after_expr)
    } else {
        (None, after_kw)
    };
    let after_semi = eat_semicolon(tokens, after_arg)?;
    let span = Span { start: start_span.start, end: span_at(tokens, after_arg - 1).end };
    Ok((Statement { kind: StatementKind::Return { argument }, span }, after_semi))
}

/// `throw argument` with `throw` at `p`, then an optional `;` that the
/// span leaves out.
#[verifier::opaque]
pub open spec fn spec_parse_throw(t: Seq<Token>, p: int, start_span: Span) -> Result<(Statement, nat), Error>
    decreases rem(t, p), 0nat when p <= t.len()
{
    match spec_parse_expression(t, p + 1) {
        Err(e) => Err(e),
        Ok((argument, k1)) => match spec_eat_semicolon(t, p + 1 + k1) {
            Err(e) => Err(e),
            Ok(k2) => {
                let span = Span { start: start_span.start, end: spec_span_at(t, p + k1).end };
                Ok((Statement { kind: StatementKind::Throw { argument }, span }, 1 + k1 + k2))
            },
        },
    }
}

fn parse_throw(tokens: &[Token], pos: usize, start_span: Span) -> (r: Result<(Statement, usize), Error>)
    requires
        pos < tokens@.len(),
    ensures
        agrees(r, spec_parse_throw(tokens@, pos as int, start_span), pos as int),
        advances(r, pos as int, tokens@.len() as int),
    decreases rem(tokens@, pos as int), 0nat,
{
    proof {
        reveal(spec_parse_throw);
        reveal(spec_parse_expression);
        lemma_len_fits(tokens);
    }
    let (argument, after_arg) = parse_expression(tokens, pos + 1)?;
    let after_semi = eat_semicolon(tokens, after_arg)?;
    let span = Span { start: start_span.start, end: span_at(tokens, after_arg - 1).end };
    Ok((Statement { kind: StatementKind::Throw { argument }, span }, after_semi))
}

/// `try block [catch] [finally block]` with `try` at `p`.
#[verifier::opaque]
pub open spec fn spec_parse_try(t: Seq<Token>, p: int, start_span: Span) -> Result<(Statement, nat), Error>
    decreases rem(t, p), 0nat when p <= t.len()
{
    match spec_parse_block_body(t, p + 1) {
        Err(e) => Err(e),
        Ok((block, k1)) => {
            let after_block = p + 1 + k1;
            let caught: Result<(Option<CatchClause>, nat), Error> = if spec_is_kind(t, after_block, Symbol::KwCatch) {
                match spec_parse_catch_clause(t, after_block) {
                    Err(e) => Err(e),
                    Ok((c, k)) => Ok((Some(c), k)),
                }
            } else {
                Ok((None, 0))
            };
            match caught {
                Err(e) => Err(e),
                Ok((handler, k2)) => {
                    let after_handler = after_block + k2;
                    let finished: Result<(Option<List<Statement>>, nat), Error> = if spec_is_kind(t, after_handler, Symbol::KwFinally) {
                        match spec_parse_block_body(t, after_handler + 1) {
                            Err(e) => Err(e),
                            Ok((body, k)) => Ok((Some(body), k + 1)),
                        }
                    } else {
                        Ok((None, 0))
                    };
                    match finished {
                        Err(e) => Err(e),
                        Ok((finalizer, k3)) => {
                            let after_final = after_handler + k3;
                            let span = Span { start: start_span.start, end: spec_span_at(t, after_final - 1).end };
                            Ok((
                                Statement { kind: StatementKind::Try { block, handler, finalizer }, span },
                                (after_final - p) as nat,
                            ))
                        },
                    }
                },
            }
        },
    }
}

#[verifier::spinoff_prover]
#[verifier::rlimit(30)]
fn parse_try(tokens: &[Token], pos: usize, start_span: Span) -> (r: Result<(Statement, usize), Error>)
    requires
        pos < tokens@.len(),
    ensures
        agrees(r, spec_parse_try(tokens@, pos as int, start_span), pos as int),
        advances(r, pos as int, tokens@.len() as int),
    decreases rem(tokens@, pos as int), 0nat,
{
    proof {
        reveal(spec_parse_try);
        reveal(spec_parse_block_body);
        reveal(spec_parse_catch_clause);
        lemma_len_fits(tokens);
    }
    let (block, after_block) = parse_block_body(tokens, pos + 1)?;
    let (handler, after_handler) = if is_kind(tokens, after_block, Symbol::KwCatch) {
        let (clause, after_clause) = parse_catch_clause(tokens, after_block)?;
        (Some(clause), after_clause)
    } else {
        (None, after_block)
    };
    let (finalizer, after_final) = if is_kind(tokens, after_handler, Symbol::KwFinally) {
        let (body, after_body) = parse_block_body(tokens, after_handler + 1)?;
        (Some(body), after_body)
    } else {
        (None, after_handler)
    };
    let span = Span { start: start_span.start, end: span_at(tokens, after_final - 1).end };
    Ok((Statement { kind: StatementKind::Try { block, handler, finalizer }, span }, after_final))
}

/// `catch [(pattern)] block` with `catch` at `p`.
#[verifier::opaque]
pub open spec fn spec_parse_catch_clause(t: Seq<Token>, p: int) -> Result<(CatchClause, nat), Error>
    decreases rem(t, p), 0nat when p <= t.len()
{
    let after_kw = p + 1;
    let bound: Result<(Option<Pattern>, nat), Error> = if spec_is_kind(t, after_kw, Symbol::LParen) {
        match spec_parse_binding_pattern(t, after_kw + 1) {
            Err(e) => Err(e),
            Ok((pattern, k)) => match spec_expect_kind(t, after_kw + 1 + k, Symbol::RParen, "`)`") {
                Err(e) => Err(e),
                Ok(()) => Ok((Some(pattern), k + 2)),
            },
        }
    } else {
        Ok((None, 0))
    };
    match bound {
        Err(e) => Err(e),
        Ok((param, k1)) => match spec_parse_block_body(t, after_kw + k1) {
            Err(e) => Err(e),
            Ok((body, k2)) => Ok((CatchClause { param, body }, 1 + k1 + k2)),
        },
    }
}

fn parse_catch_clause(tokens: &[Token], pos: usize) -> (r: Result<(CatchClause, usize), Error>)
    requires
        pos < tokens@.len(),
    ensures
        agrees(r, spec_parse_catch_clause(tokens@, pos as int), pos as int),
        advances(r, pos as int, tokens@.len() as int),
    decreases rem(tokens@, pos as int), 0nat,
{
    proof {
        reveal(spec_parse_catch_clause);
        reveal(spec_parse_binding_pattern);
        reveal(spec_parse_block_body);
        lemma_len_fits(tokens);
    }
    let after_kw = pos + 1;
    let (param, after_param) = if is_kind(tokens, after_kw, Symbol::LParen) {
        let (pattern, after_pattern) = parse_binding_pattern(tokens, after_kw + 1)?;
        let after_rparen = expect_kind(tokens, after_pattern, Symbol::RParen, "`)`")?;
        (Some(pattern), after_rparen)
    } else {
        (None, after_kw)
    };
    let (body, after_body) = parse_block_body(tokens, after_param)?;
    Ok((CatchClause { param, body }, after_body))
}

/// Whether the token at `p` is an identifier (a label after `break` or
/// `continue`).
pub open spec fn spec_can_start_label(t: Seq<Token>, p: int) -> bool {
    spec_peek(t, p) matches Some(tok) && tok.kind matches TokenKind::Identifier(_)
}

fn can_start_label(tokens: &[Token], pos: usize) -> (b: bool)
    ensures
        b == spec_can_start_label(tokens@, pos as int),
{
    proof { lemma_len_fits(tokens); }
    match peek(tokens, pos) {
        Peek::Eof => false,
        Peek::Token(tok) => match &tok.kind {
            TokenKind::Identifier(_) => true,
            _ => false,
        },
    }
}

/// `break [label]` (`is_break`) or `continue [label]` with the keyword at
/// `p`, then an optional `;` that the span leaves out.
pub open spec fn spec_parse_break_or_continue(t: Seq<Token>, p: int, start_span: Span, is_break: bool) -> Result<(Statement, nat), Error> {
    let after_kw = p + 1;
    let labelled: Result<(Option<Identifier>, nat), Error> = if spec_can_start_label(t, after_kw) {
        match spec_expect_identifier(t, after_kw) {
            Err(e) => Err(e),
            Ok((id, k)) => Ok((Some(id), k)),
        }
    } else {
        Ok((None, 0))
    };
    match labelled {
        Err(e) => Err(e),
        Ok((label, k1)) => {
            let after_label = after_kw + k1;
            match spec_eat_semicolon(t, after_label) {
                Err(e) => Err(e),
                Ok(k2) => {
                    let span = Span { start: start_span.start, end: spec_span_at(t, after_label - 1).end };
                    let kind = if is_break {
                        StatementKind::Break { label }
                    } else {
                        StatementKind::Continue { label }
                    };
                    Ok((Statement { kind, span }, 1 + k1 + k2))
                },
            }
        },
    }
}

fn parse_break_or_continue(tokens: &[Token], pos: usize, start_span: Span, is_break: bool) -> (r: Result<(Statement, usize), Error>)
    requires
        pos < tokens@.len(),
    ensures
        agrees(r, spec_parse_break_or_continue(tokens@, pos as int, start_span, is_break), pos as int),
        advances(r, pos as int, tokens@.len() as int),
{
    proof { lemma_len_fits(tokens); }
    let after_kw = pos + 1;
    let (label, after_label) = if can_start_label(tokens, after_kw) {
        let (id, after_id) = expect_identifier(tokens, after_kw)?;
        (Some(id), after_id)
    } else {
        (None, after_kw)
    };
    let after_semi = eat_semicolon(tokens, after_label)?;
    let span = Span { start: start_span.start, end: span_at(tokens, after_label - 1).end };
    let kind = if is_break {
        StatementKind::Break { label }
    } else {
        StatementKind::Continue { label }
    };
    Ok((Statement { kind, span }, after_semi))
}

/// Whether `let` at `p` starts a declaration: the next token is an
/// identifier, `[`, `{`, `yield` or `await`.
pub open spec fn spec_looks_like_let_declaration(t: Seq<Token>, p: int) -> bool {
    spec_peek(t, p + 1) matches Some(tok) && (tok.kind matches TokenKind::Identifier(_)
        || tok.kind == TokenKind::Symbol(Symbol::LBracket) || tok.kind == TokenKind::Symbol(Symbol::LBrace)
        || tok.kind == TokenKind::Symbol(Symbol::KwYield) || tok.kind == TokenKind::Symbol(Symbol::KwAwait))
}

fn looks_like_let_declaration(tokens: &[Token], pos: usize) -> (b: bool)
    requires
        pos < tokens@.len(),
    ensures
        b == spec_looks_like_let_declaration(tokens@, pos as int),
{
    proof { lemma_len_fits(tokens); }
    match peek(tokens, pos + 1) {
        Peek::Eof => false,
        Peek::Token(tok) => match &tok.kind {
            TokenKind::Identifier(_) | TokenKind::Symbol(Symbol::LBracket) | TokenKind::Symbol(Symbol::LBrace)
            | TokenKind::Symbol(Symbol::KwYield) | TokenKind::Symbol(Symbol::KwAwait) => true,
            _ => false,
        },
    }
}

/// A statement starting with `let` at `p`: a declaration, or an
/// expression statement in which `let` is a name.
#[verifier::opaque]
pub open spec fn spec_parse_let_or_expression(t: Seq<Token>, p: int, start_span: Span) -> Result<(Statement, nat), Error>
    decreases rem(t, p), 15nat when p <= t.len()
{
    if spec_looks_like_let_declaration(t, p) {
        spec_parse_variable_declaration_statement(t, p, start_span)
    } else {
        spec_parse_expression_statement(t, p, start_span)
    }
}

fn parse_let_or_expression(tokens: &[Token], pos: usize, start_span: Span) -> (r: Result<(Statement, usize), Error>)
    requires
        pos < tokens@.len(),
    ensures
        agrees(r, spec_parse_let_or_expression(tokens@, pos as int, start_span), pos as int),
        advances(r, pos as int, tokens@.len() as int),
    decreases rem(tokens@, pos as int), 15nat,
{
    proof {
        reveal(spec_parse_let_or_expression);
        reveal(spec_parse_variable_declaration_statement);
        reveal(spec_parse_expression_statement);
        lemma_len_fits(tokens);
    }
    if looks_like_let_declaration(tokens, pos) {
        parse_variable_declaration_statement(tokens, pos, start_span)
    } else {
        parse_expression_statement(tokens, pos, start_span)
    }
}

/// A declaration statement at `p`, then an optional `;` that the span
/// leaves out.
#[verifier::opaque]
pub open spec fn spec_parse_variable_declaration_statement(t: Seq<Token>, p: int, start_span: Span) -> Result<(Statement, nat), Error>
    decreases rem(t, p), 1nat when p <= t.len()
{
    match spec_parse_variable_declaration(t, p) {
        Err(e) => Err(e),
        Ok((decl, k1)) => match spec_eat_semicolon(t, p + k1) {
            Err(e) => Err(e),
            Ok(k2) => {
                let span = Span { start: start_span.start, end: spec_span_at(t, p + k1 - 1).end };
                Ok((Statement { kind: StatementKind::VariableDeclaration(decl), span }, k1 + k2))
            },
        },
    }
}

fn parse_variable_declaration_statement(tokens: &[Token], pos: usize, start_span: Span) -> (r: Result<(Statement, usize), Error>)
    requires
        pos <= tokens@.len(),
    ensures
        agrees(r, spec_parse_variable_declaration_statement(tokens@, pos as int, start_span), pos as int),
        advances(r, pos as int, tokens@.len() as int),
    decreases rem(tokens@, pos as int), 1nat,
{
    proof {
        reveal(spec_parse_variable_declaration_statement);
        reveal(spec_parse_variable_declaration);
        lemma_len_fits(tokens);
    }
    let (decl, after) = parse_variable_declaration(tokens, pos)?;
    let after_semi = eat_semicolon(tokens, after)?;
    let span = Span { start: start_span.start, end: span_at(tokens, after - 1).end };
    Ok((Statement { kind: StatementKind::VariableDeclaration(decl), span }, after_semi))
}

/// An expression statement at `p`, then an optional `;` that the span
/// leaves out.
#[verifier::opaque]
pub open spec fn spec_parse_expression_statement(t: Seq<Token>, p: int, start_span: Span) -> Result<(Statement, nat), Error>
    decreases rem(t, p), 14nat when p <= t.len()
{
    match spec_parse_expression(t, p) {
        Err(e) => Err(e),
        Ok((expression, k1)) => match spec_eat_semicolon(t, p + k1) {
            Err(e) => Err(e),
            Ok(k2) => {
                let span = Span { start: start_span.start, end: spec_span_at(t, p + k1 - 1).end };
                Ok((Statement { kind: StatementKind::Expression { expression }, span }, k1 + k2))
            },
        },
    }
}

fn parse_expression_statement(tokens: &[Token], pos: usize, start_span: Span) -> (r: Result<(Statement, usize), Error>)
    requires
        pos <= tokens@.len(),
    ensures
        agrees(r, spec_parse_expression_statement(tokens@, pos as int, start_span), pos as int),
        advances(r, pos as int, tokens@.len() as int),
    decreases rem(tokens@, pos as int), 14nat,
{
    proof {
        reveal(spec_parse_expression_statement);
        reveal(spec_parse_expression);
        lemma_len_fits(tokens);
    }
    let (expression, after_expr) = parse_expression(tokens, pos)?;
    let after_semi = eat_semicolon(tokens, after_expr)?;
    let span = Span { start: start_span.start, end: span_at(tokens, after_expr - 1).end };
    Ok((Statement { kind: StatementKind::Expression { expression }, span }, after_semi))
}

/// The kind of declaration `tok` introduces, if it is `var`, `let` or
/// `const`.
pub open spec fn spec_declaration_kind(tok: Token) -> Option<VariableKind> {
    match tok.kind {
        TokenKind::Symbol(Symbol::KwVar) => Some(VariableKind::Var),
        TokenKind::Symbol(Symbol::KwLet) => Some(VariableKind::Let),
        TokenKind::Symbol(Symbol::KwConst) => Some(VariableKind::Const),
        _ => None,
    }
}

/// `var`, `let` or `const` at `p` and its declarators, up to and
/// including the last declarator (not a trailing `;`).
#[verifier::opaque]
pub open spec fn spec_parse_variable_declaration(t: Seq<Token>, p: int) -> Result<(VariableDeclaration, nat), Error>
    decreases rem(t, p), 0nat when p <= t.len()
{
    match spec_peek(t, p) {
        None => Err(Error::UnexpectedEof { expected: "`var`, `let`, or `const`" }),
        Some(tok) => match spec_declaration_kind(tok) {
            None => Err(spec_unexpected(tok, "`var`, `let`, or `const`")),
            Some(kind) => match spec_collect_declarators(t, p + 1) {
                Err(e) => Err(e),
                Ok((declarators, k)) => Ok((VariableDeclaration { kind, declarators }, k + 1)),
            },
        },
    }
}

/// Parse a `var` / `let` / `const` declaration up to and including the last
/// declarator (not the trailing `;`).
pub fn parse_variable_declaration(tokens: &[Token], pos: usize) -> (r: Result<(VariableDeclaration, usize), Error>)
    ensures
        pos <= tokens@.len() ==> agrees(r, spec_parse_variable_declaration(tokens@, pos as int), pos as int),
        advances(r, pos as int, tokens@.len() as int),
        pos > tokens@.len() ==> r == Err::<(VariableDeclaration, usize), Error>(Error::UnexpectedEof { expected: "`var`, `let`, or `const`" }),
    decreases rem(tokens@, pos as int), 0nat,
{
    proof {
        reveal(spec_parse_variable_declaration);
        reveal(spec_collect_declarators);
        lemma_len_fits(tokens);
    }
    if pos > tokens.len() {
        return Err(Error::UnexpectedEof { expected: "`var`, `let`, or `const`" });
    }
    let kind = match peek(tokens, pos) {
        Peek::Eof => {
            return Err(Error::UnexpectedEof { expected: "`var`, `let`, or `const`" });
        },
        Peek::Token(tok) => match &tok.kind {
            TokenKind::Symbol(Symbol::KwVar) => VariableKind::Var,
            TokenKind::Symbol(Symbol::KwLet) => VariableKind::Let,
            TokenKind::Symbol(Symbol::KwConst) => VariableKind::Const,
            _ => {
                return Err(unexpected(tok, "`var`, `let`, or `const`"));
            },
        },
    };
    let (declarators, after_decls) = collect_declarators(tokens, pos + 1)?;
    Ok((VariableDeclaration { kind, declarators }, after_decls))
}

/// The declarators `pattern [= init]` from `p`, separated by commas.
#[verifier::opaque]
pub open spec fn spec_collect_declarators(t: Seq<Token>, p: int) -> Result<(List<VariableDeclarator>, nat), Error>
    decreases rem(t, p), 2nat when p <= t.len()
{
    match spec_parse_binding_pattern(t, p) {
        Err(e) => Err(e),
        Ok((id, k1)) => {
            let after_id = p + k1;
            let initialised: Result<(Option<Expression>, nat), Error> = if spec_is_kind(t, after_id, Symbol::Eq) {
                match spec_parse_assignment_expression(t, after_id + 1) {
                    Err(e) => Err(e),
                    Ok((e, k)) => Ok((Some(e), k + 1)),
                }
            } else {
                Ok((None, 0))
            };
            match initialised {
                Err(e) => Err(e),
                Ok((init, k2)) => {
                    let after_init = after_id + k2;
                    let declarator = VariableDeclarator { id, init };
                    if spec_is_kind(t, after_init, Symbol::Comma) {
                        match spec_collect_declarators(t, after_init + 1) {
                            Err(e) => Err(e),
                            Ok((rest, k3)) => Ok((List::Cons(Box::new(declarator), Box::new(rest)), k1 + k2 + 1 + k3)),
                        }
                    } else {
                        Ok((List::Cons(Box::new(declarator), Box::new(List::Nil)), k1 + k2))
                    }
                },
            }
        },
    }
}

fn collect_declarators(tokens: &[Token], pos: usize) -> (r: Result<(List<VariableDeclarator>, usize), Error>)
    requires
        pos <= tokens@.len(),
    ensures
        agrees(r, spec_collect_declarators(tokens@, pos as int), pos as int),
        advances(r, pos as int, tokens@.len() as int),
    decreases rem(tokens@, pos as int), 2nat,
{
    proof {
        reveal(spec_collect_declarators);
        reveal(spec_parse_binding_pattern);
        reveal(spec_parse_assignment_expression);
        lemma_len_fits(tokens);
    }
    let (id, after_id) = parse_binding_pattern(tokens, pos)?;
    let (init, after_init) = if is_kind(tokens, after_id, Symbol::Eq) {
        let (expr, after_expr) = parse_assignment_expression(tokens, after_id + 1)?;
        (Some(expr), after_expr)
    } else {
        (None, after_id)
    };
    let declarator = VariableDeclarator { id, init };
    if is_kind(tokens, after_init, Symbol::Comma) {
        let (rest, end) = collect_declarators(tokens, after_init + 1)?;
        Ok((List::Cons(Box::new(declarator), Box::new(rest)), end))
    } else {
        Ok((List::Cons(Box::new(declarator), Box::new(List::Nil)), after_init))
    }
}

} // verus!

verus! {

// ---------------------------------------------------------------------
// Binding patterns
// ---------------------------------------------------------------------

/// A binding pattern at `p`: an identifier, `[...]` or `{...}`.  It takes
/// no `= default`; the elements of a destructuring pattern and the
/// parameters of a function do (see [`spec_maybe_with_default`]).  `let`,
/// `yield` and `await` are rejected as binding names.
#[verifier::opaque]
pub open spec fn spec_parse_binding_pattern(t: Seq<Token>, p: int) -> Result<(Pattern, nat), Error>
    decreases rem(t, p), 1nat when p <= t.len()
{
    match spec_peek(t, p) {
        None => Err(Error::UnexpectedEof { expected: "binding pattern" }),
        Some(tok) => match tok.kind {
            TokenKind::Identifier(_) | TokenKind::Symbol(Symbol::KwLet) | TokenKind::Symbol(Symbol::KwYield)
            | TokenKind::Symbol(Symbol::KwAwait) => match spec_expect_identifier(t, p) {
                Err(e) => Err(e),
                Ok((id, k)) => Ok((Pattern { kind: PatternKind::Identifier(id), span: spec_span_at(t, p) }, k)),
            },
            TokenKind::Symbol(Symbol::LBracket) => spec_parse_array_binding_pattern(t, p),
            TokenKind::Symbol(Symbol::LBrace) => spec_parse_object_binding_pattern(t, p),
            _ => Err(spec_unexpected(tok, "binding pattern")),
        },
    }
}

/// Parse a binding pattern (identifier, array pattern, or object pattern).
pub fn parse_binding_pattern(tokens: &[Token], pos: usize) -> (r: Result<(Pattern, usize), Error>)
    ensures
        pos <= tokens@.len() ==> agrees(r, spec_parse_binding_pattern(tokens@, pos as int), pos as int),
        advances(r, pos as int, tokens@.len() as int),
        pos > tokens@.len() ==> r == Err::<(Pattern, usize), Error>(Error::UnexpectedEof { expected: "binding pattern" }),
    decreases rem(tokens@, pos as int), 1nat,
{
    proof {
        reveal(spec_parse_binding_pattern);
        reveal(spec_parse_array_binding_pattern);
        reveal(spec_parse_object_binding_pattern);
        lemma_len_fits(tokens);
    }
    if pos > tokens.len() {
        return Err(Error::UnexpectedEof { expected: "binding pattern" });
    }
    let start_span = span_at(tokens, pos);
    match peek(tokens, pos) {
        Peek::Eof => Err(Error::UnexpectedEof { expected: "binding pattern" }),
        Peek::Token(tok) => match &tok.kind {
            TokenKind::Identifier(_) | TokenKind::Symbol(Symbol::KwLet) | TokenKind::Symbol(Symbol::KwYield)
            | TokenKind::Symbol(Symbol::KwAwait) => {
                let (id, after) = expect_identifier(tokens, pos)?;
                Ok((Pattern { kind: PatternKind::Identifier(id), span: start_span }, after))
            },
            TokenKind::Symbol(Symbol::LBracket) => parse_array_binding_pattern(tokens, pos),
            TokenKind::Symbol(Symbol::LBrace) => parse_object_binding_pattern(tokens, pos),
            _ => Err(unexpected(tok, "binding pattern")),
        },
    }
}

/// `pattern = default` when `=` is at `p`, `pattern` itself otherwise.
#[verifier::opaque]
pub open spec fn spec_maybe_with_default(t: Seq<Token>, p: int, pattern: Pattern) -> Result<(Pattern, nat), Error>
    decreases rem(t, p), 0nat when p <= t.len()
{
    if spec_is_kind(t, p, Symbol::Eq) {
        match spec_parse_assignment_expression(t, p + 1) {
            Err(e) => Err(e),
            Ok((default, k)) => {
                let span = Span { start: pattern.span.start, end: default.span.end };
                Ok((
                    Pattern { kind: PatternKind::Assignment { left: Box::new(pattern), right: Box::new(default) }, span },
                    k + 1,
                ))
            },
        }
    } else {
        Ok((pattern, 0))
    }
}

pub(crate) fn maybe_with_default(tokens: &[Token], pos: usize, pattern: Pattern) -> (r: Result<(Pattern, usize), Error>)
    requires
        pos <= tokens@.len(),
    ensures
        agrees(r, spec_maybe_with_default(tokens@, pos as int, pattern), pos as int),
        within(r, pos as int, tokens@.len() as int),
    decreases rem(tokens@, pos as int), 0nat,
{
    proof {
        reveal(spec_maybe_with_default);
        reveal(spec_parse_assignment_expression);
        lemma_len_fits(tokens);
    }
    if is_kind(tokens, pos, Symbol::Eq) {
        let (default, after_default) = parse_assignment_expression(tokens, pos + 1)?;
        let span = Span { start: pattern.span.start, end: default.span.end };
        Ok((Pattern { kind: PatternKind::Assignment { left: Box::new(pattern), right: Box::new(default) }, span }, after_default))
    } else {
        Ok((pattern, pos))
    }
}

/// `[ elements ]` at `p`, spanning both brackets.
#[verifier::opaque]
pub open spec fn spec_parse_array_binding_pattern(t: Seq<Token>, p: int) -> Result<(Pattern, nat), Error>
    decreases rem(t, p), 0nat when p <= t.len()
{
    match spec_collect_array_pattern(t, p + 1) {
        Err(e) => Err(e),
        Ok((elements, k)) => {
            let span = Span { start: spec_span_at(t, p).start, end: spec_span_at(t, p + k).end };
            Ok((Pattern { kind: PatternKind::Array { elements }, span }, k + 1))
        },
    }
}

fn parse_array_binding_pattern(tokens: &[Token], pos: usize) -> (r: Result<(Pattern, usize), Error>)
    requires
        pos < tokens@.len(),
    ensures
        agrees(r, spec_parse_array_binding_pattern(tokens@, pos as int), pos as int),
        advances(r, pos as int, tokens@.len() as int),
    decreases rem(tokens@, pos as int), 0nat,
{
    proof {
        reveal(spec_parse_array_binding_pattern);
        reveal(spec_collect_array_pattern);
        lemma_len_fits(tokens);
    }
    let start_span = span_at(tokens, pos);
    let (elements, end) = collect_array_pattern(tokens, pos + 1)?;
    let span = Span { start: start_span.start, end: span_at(tokens, end - 1).end };
    Ok((Pattern { kind: PatternKind::Array { elements }, span }, end))
}

/// The elements of an array pattern from `p` through its `]`: holes,
/// patterns, and a final `...rest`.
#[verifier::opaque]
pub open spec fn spec_collect_array_pattern(t: Seq<Token>, p: int) -> Result<(List<Option<Pattern>>, nat), Error>
    decreases rem(t, p), 2nat when p <= t.len()
{
    if spec_is_kind(t, p, Symbol::RBracket) {
        Ok((List::Nil, 1))
    } else if spec_is_kind(t, p, Symbol::Comma) {
        match spec_collect_array_pattern(t, p + 1) {
            Err(e) => Err(e),
            Ok((rest, k)) => Ok((List::Cons(Box::new(None), Box::new(rest)), k + 1)),
        }
    } else if spec_is_kind(t, p, Symbol::Spread) {
        match spec_parse_binding_pattern(t, p + 1) {
            Err(e) => Err(e),
            Ok((inner, k1)) => {
                let rest_span = Span { start: spec_span_at(t, p).start, end: inner.span.end };
                let rest = Pattern { kind: PatternKind::Rest { argument: Box::new(inner) }, span: rest_span };
                match spec_expect_kind(t, p + 1 + k1, Symbol::RBracket, "`]`") {
                    Err(e) => Err(e),
                    Ok(()) => Ok((List::Cons(Box::new(Some(rest)), Box::new(List::Nil)), k1 + 2)),
                }
            },
        }
    } else {
        let element = match spec_parse_binding_pattern(t, p) {
            Err(e) => Err(e),
            Ok((pattern, k)) => shift(spec_maybe_with_default(t, p + k, pattern), k),
        };
        match element {
            Err(e) => Err(e),
            Ok((pat, k1)) => {
                let after_pat = p + k1;
                if spec_is_kind(t, after_pat, Symbol::Comma) {
                    match spec_collect_array_pattern(t, after_pat + 1) {
                        Err(e) => Err(e),
                        Ok((rest, k2)) => Ok((List::Cons(Box::new(Some(pat)), Box::new(rest)), k1 + 1 + k2)),
                    }
                } else {
                    match spec_expect_kind(t, after_pat, Symbol::RBracket, "`]`") {
                        Err(e) => Err(e),
                        Ok(()) => Ok((List::Cons(Box::new(Some(pat)), Box::new(List::Nil)), k1 + 1)),
                    }
                }
            },
        }
    }
}

fn collect_array_pattern(tokens: &[Token], pos: usize) -> (r: Result<(List<Option<Pattern>>, usize), Error>)
    requires
        pos <= tokens@.len(),
    ensures
        agrees(r, spec_collect_array_pattern(tokens@, pos as int), pos as int),
        advances(r, pos as int, tokens@.len() as int),
    decreases rem(tokens@, pos as int), 2nat,
{
    proof {
        reveal(spec_collect_array_pattern);
        reveal(spec_parse_binding_pattern);
        reveal(spec_maybe_with_default);
        lemma_len_fits(tokens);
    }
    if is_kind(tokens, pos, Symbol::RBracket) {
        Ok((List::Nil, pos + 1))
    } else if is_kind(tokens, pos, Symbol::Comma) {
        let (rest, end) = collect_array_pattern(tokens, pos + 1)?;
        Ok((List::Cons(Box::new(None), Box::new(rest)), end))
    } else if is_kind(tokens, pos, Symbol::Spread) {
        let span = span_at(tokens, pos);
        let (inner, after_inner) = parse_binding_pattern(tokens, pos + 1)?;
        let rest_span = Span { start: span.start, end: inner.span.end };
        let rest = Pattern { kind: PatternKind::Rest { argument: Box::new(inner) }, span: rest_span };
        let after_close = expect_kind(tokens, after_inner, Symbol::RBracket, "`]`")?;
        Ok((List::Cons(Box::new(Some(rest)), Box::new(List::Nil)), after_close))
    } else {
        let (pattern, after_pattern) = parse_binding_pattern(tokens, pos)?;
        let (pat, after_pat) = maybe_with_default(tokens, after_pattern, pattern)?;
        if is_kind(tokens, after_pat, Symbol::Comma) {
            let (rest, end) = collect_array_pattern(tokens, after_pat + 1)?;
            Ok((List::Cons(Box::new(Some(pat)), Box::new(rest)), end))
        } else {
            let after_close = expect_kind(tokens, after_pat, Symbol::RBracket, "`]`")?;
            Ok((List::Cons(Box::new(Some(pat)), Box::new(List::Nil)), after_close))
        }
    }
}

/// `{ members }` at `p`, spanning both braces.
#[verifier::opaque]
pub open spec fn spec_parse_object_binding_pattern(t: Seq<Token>, p: int) -> Result<(Pattern, nat), Error>
    decreases rem(t, p), 0nat when p <= t.len()
{
    match spec_collect_object_pattern(t, p + 1) {
        Err(e) => Err(e),
        Ok((properties, k)) => {
            let span = Span { start: spec_span_at(t, p).start, end: spec_span_at(t, p + k).end };
            Ok((Pattern { kind: PatternKind::Object { properties }, span }, k + 1))
        },
    }
}

fn parse_object_binding_pattern(tokens: &[Token], pos: usize) -> (r: Result<(Pattern, usize), Error>)
    requires
        pos < tokens@.len(),
    ensures
        agrees(r, spec_parse_object_binding_pattern(tokens@, pos as int), pos as int),
        advances(r, pos as int, tokens@.len() as int),
    decreases rem(tokens@, pos as int), 0nat,
{
    proof {
        reveal(spec_parse_object_binding_pattern);
        reveal(spec_collect_object_pattern);
        lemma_len_fits(tokens);
    }
    let start_span = span_at(tokens, pos);
    let (properties, end) = collect_object_pattern(tokens, pos + 1)?;
    let span = Span { start: start_span.start, end: span_at(tokens, end - 1).end };
    Ok((Pattern { kind: PatternKind::Object { properties }, span }, end))
}

/// The members of an object pattern from `p` through its `}`, a final
/// `...rest` allowed.
#[verifier::opaque]
pub open spec fn spec_collect_object_pattern(t: Seq<Token>, p: int) -> Result<(List<ObjectPatternMember>, nat), Error>
    decreases rem(t, p), 2nat when p <= t.len()
{
    if spec_is_kind(t, p, Symbol::RBrace) {
        Ok((List::Nil, 1))
    } else if spec_is_kind(t, p, Symbol::Spread) {
        match spec_parse_binding_pattern(t, p + 1) {
            Err(e) => Err(e),
            Ok((inner, k1)) => match spec_expect_kind(t, p + 1 + k1, Symbol::RBrace, "`}`") {
                Err(e) => Err(e),
                Ok(()) => Ok((
                    List::Cons(Box::new(ObjectPatternMember::Rest { argument: inner }), Box::new(List::Nil)),
                    k1 + 2,
                )),
            },
        }
    } else {
        match spec_parse_object_pattern_member(t, p) {
            Err(e) => Err(e),
            Ok((member, k1)) => {
                let after_member = p + k1;
                if spec_is_kind(t, after_member, Symbol::Comma) {
                    match spec_collect_object_pattern(t, after_member + 1) {
                        Err(e) => Err(e),
                        Ok((rest, k2)) => Ok((List::Cons(Box::new(member), Box::new(rest)), k1 + 1 + k2)),
                    }
                } else {
                    match spec_expect_kind(t, after_member, Symbol::RBrace, "`}`") {
                        Err(e) => Err(e),
                        Ok(()) => Ok((List::Cons(Box::new(member), Box::new(List::Nil)), k1 + 1)),
                    }
                }
            },
        }
    }
}

fn collect_object_pattern(tokens: &[Token], pos: usize) -> (r: Result<(List<ObjectPatternMember>, usize), Error>)
    requires
        pos <= tokens@.len(),
    ensures
        agrees(r, spec_collect_object_pattern(tokens@, pos as int), pos as int),
        advances(r, pos as int, tokens@.len() as int),
    decreases rem(tokens@, pos as int), 2nat,
{
    proof {
        reveal(spec_collect_object_pattern);
        reveal(spec_parse_binding_pattern);
        reveal(spec_parse_object_pattern_member);
        lemma_len_fits(tokens);
    }
    if is_kind(tokens, pos, Symbol::RBrace) {
        Ok((List::Nil, pos + 1))
    } else if is_kind(tokens, pos, Symbol::Spread) {
        let (inner, after_inner) = parse_binding_pattern(tokens, pos + 1)?;
        let after_close = expect_kind(tokens, after_inner, Symbol::RBrace, "`}`")?;
        Ok((List::Cons(Box::new(ObjectPatternMember::Rest { argument: inner }), Box::new(List::Nil)), after_close))
    } else {
        let (member, after_member) = parse_object_pattern_member(tokens, pos)?;
        if is_kind(tokens, after_member, Symbol::Comma) {
            let (rest, end) = collect_object_pattern(tokens, after_member + 1)?;
            Ok((List::Cons(Box::new(member), Box::new(rest)), end))
        } else {
            let after_close = expect_kind(tokens, after_member, Symbol::RBrace, "`}`")?;
            Ok((List::Cons(Box::new(member), Box::new(List::Nil)), after_close))
        }
    }
}

/// One member of an object pattern at `p`: `key: pattern`, or a
/// shorthand `name [= default]` (identifier keys only).
#[verifier::opaque]
pub open spec fn spec_parse_object_pattern_member(t: Seq<Token>, p: int) -> Result<(ObjectPatternMember, nat), Error>
    decreases rem(t, p), 1nat when p <= t.len()
{
    let computed = spec_is_kind(t, p, Symbol::LBracket);
    let keyed: Result<(PropertyKey, nat), Error> = if computed {
        match spec_parse_assignment_expression(t, p + 1) {
            Err(e) => Err(e),
            Ok((inner, k)) => match spec_expect_kind(t, p + 1 + k, Symbol::RBracket, "`]`") {
                Err(e) => Err(e),
                Ok(()) => Ok((PropertyKey::Computed(Box::new(inner)), k + 2)),
            },
        }
    } else {
        match spec_expect_identifier(t, p) {
            Err(e) => Err(e),
            Ok((id, k)) => Ok((PropertyKey::Identifier(id), k)),
        }
    };
    match keyed {
        Err(e) => Err(e),
        Ok((key, k1)) => {
            let after_key = p + k1;
            if spec_is_kind(t, after_key, Symbol::Colon) {
                match spec_parse_binding_pattern(t, after_key + 1) {
                    Err(e) => Err(e),
                    Ok((pattern, k)) => match spec_maybe_with_default(t, after_key + 1 + k, pattern) {
                        Err(e) => Err(e),
                        Ok((value, k2)) => Ok((
                            ObjectPatternMember::Property { key, value, computed, shorthand: false },
                            k1 + 1 + k + k2,
                        )),
                    },
                }
            } else {
                match spec_key_to_pattern(key, spec_span_at(t, p)) {
                    Err(e) => Err(e),
                    Ok(shorthand_value) => match spec_maybe_with_default(t, after_key, shorthand_value) {
                        Err(e) => Err(e),
                        Ok((value, k2)) => Ok((ObjectPatternMember::Property { key, value, computed, shorthand: true }, k1 + k2)),
                    },
                }
            }
        },
    }
}

fn parse_object_pattern_member(tokens: &[Token], pos: usize) -> (r: Result<(ObjectPatternMember, usize), Error>)
    requires
        pos <= tokens@.len(),
    ensures
        agrees(r, spec_parse_object_pattern_member(tokens@, pos as int), pos as int),
        advances(r, pos as int, tokens@.len() as int),
    decreases rem(tokens@, pos as int), 1nat,
{
    proof {
        reveal(spec_parse_object_pattern_member);
        reveal(spec_parse_assignment_expression);
        reveal(spec_parse_binding_pattern);
        reveal(spec_maybe_with_default);
        lemma_len_fits(tokens);
    }
    let computed = is_kind(tokens, pos, Symbol::LBracket);
    let (key, after_key) = if computed {
        let (inner, after_inner) = parse_assignment_expression(tokens, pos + 1)?;
        let after_close = expect_kind(tokens, after_inner, Symbol::RBracket, "`]`")?;
        (PropertyKey::Computed(Box::new(inner)), after_close)
    } else {
        let (id, after_id) = expect_identifier(tokens, pos)?;
        (PropertyKey::Identifier(id), after_id)
    };
    if is_kind(tokens, after_key, Symbol::Colon) {
        let (pattern, after_pattern) = parse_binding_pattern(tokens, after_key + 1)?;
        let (value, after_value) = maybe_with_default(tokens, after_pattern, pattern)?;
        Ok((ObjectPatternMember::Property { key, value, computed, shorthand: false }, after_value))
    } else {
        let shorthand_value = key_to_pattern(&key, span_at(tokens, pos))?;
        let (value, after_value) = maybe_with_default(tokens, after_key, shorthand_value)?;
        Ok((ObjectPatternMember::Property { key, value, computed, shorthand: true }, after_value))
    }
}

/// The pattern a shorthand object-pattern key binds: its identifier;
/// other keys need an explicit `: pattern`.
pub open spec fn spec_key_to_pattern(key: PropertyKey, span: Span) -> Result<Pattern, Error> {
    match key {
        PropertyKey::Identifier(id) => Ok(Pattern { kind: PatternKind::Identifier(id), span }),
        _ => Err(
            Error::UnexpectedToken {
                at: span,
                expected: "identifier shorthand key",
                found: Found::Note("non-identifier key without `:` value"),
            },
        ),
    }
}

fn key_to_pattern(key: &PropertyKey, span: Span) -> (r: Result<Pattern, Error>)
    ensures
        r == spec_key_to_pattern(*key, span),
{
    match key {
        PropertyKey::Identifier(id) => Ok(Pattern { kind: PatternKind::Identifier(Identifier { name: id.name.duplicate() }), span }),
        _ => Err(
            Error::UnexpectedToken {
                at: span,
                expected: "identifier shorthand key",
                found: Found::Note("non-identifier key without `:` value"),
            },
        ),
    }
}

} // verus!
