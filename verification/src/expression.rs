//! Expression parsing.
//!
//! Each parsing function has a `spec_*` counterpart that defines its
//! result: the expression (or other node) parsed at a position, with the
//! number of tokens consumed, or the error.  The measure that makes the
//! definitions terminate is the number of positions left ([`rem`]),
//! then a fixed rank that decreases along calls made at the same
//! position.

use vstd::prelude::*;
use crate::ast::{
    ArrowBody, ArrowFunction, Expression, ExpressionKind, Function, Identifier, List, Literal, Name,
    MemberProperty, ObjectMember, ObjectPropertyKind, Pattern, PatternKind, PropertyKey,
    UnaryOperator, UpdateOperator, AssignmentOperator,
};
use crate::checks::{check_regex, regex_check};
use crate::declaration::{parse_class, parse_formal_parameters, spec_parse_class, spec_parse_formal_parameters};
use crate::error::{Error, Found};
use crate::pattern::{
    assignment_target, is_assignment_target, reinterpret_expression_as_arrow_params, spec_reinterpret_arrow_params,
};
use crate::precedence::{
    BinaryInfo, BinaryKind, MIN_PRECEDENCE, assignment_operator, binary_info,
    spec_assignment_operator, spec_binary_info,
};
use crate::statement::{parse_block_body, spec_parse_block_body};
use crate::stream::{
    Peek, advances, agrees, expect_identifier, expect_identifier_or_keyword, expect_kind,
    expect_member_name, expect_private_identifier, is_kind, lemma_len_fits, make_identifier,
    peek, rem, shift, span_at, span_before, spec_expect_identifier,
    spec_expect_identifier_or_keyword, spec_expect_kind, spec_expect_member_name,
    spec_expect_private_identifier, spec_identifier, spec_is_kind, spec_peek, spec_span_at,
    spec_span_before, spec_unexpected, keyword_identifier, name_is, text_is, unexpected, within,
};
use crate::token::{Position, Span, Symbol, Token, TokenKind};

verus! {

// ---------------------------------------------------------------------
// Comma sequences
// ---------------------------------------------------------------------

/// The end of the last expression of `rest`, or `end` if it is empty.
pub open spec fn last_end(end: Position, rest: List<Expression>) -> Position
    decreases rest,
{
    match rest {
        List::Nil => end,
        List::Cons(head, tail) => last_end(head.span.end, *tail),
    }
}

fn find_last_end(end: Position, rest: &List<Expression>) -> (r: Position)
    ensures
        r == last_end(end, *rest),
    decreases rest,
{
    match rest {
        List::Nil => end,
        List::Cons(head, tail) => find_last_end(head.span.end, tail),
    }
}

/// A full expression: an assignment expression, followed by more of them
/// after commas, which then form a `Sequence` spanning from the first to
/// the last.
#[verifier::opaque]
pub open spec fn spec_parse_expression(t: Seq<Token>, p: int) -> Result<(Expression, nat), Error>
    decreases rem(t, p), 13nat when p <= t.len()
{
    match spec_parse_assignment_expression(t, p) {
        Err(e) => Err(e),
        Ok((first, k1)) => {
            if spec_is_kind(t, p + k1, Symbol::Comma) {
                match spec_collect_sequence(t, p + k1) {
                    Err(e) => Err(e),
                    Ok((rest, k2)) => {
                        let span = Span { start: first.span.start, end: last_end(first.span.end, rest) };
                        let exprs = List::Cons(Box::new(first), Box::new(rest));
                        Ok((Expression { kind: ExpressionKind::Sequence { expressions: exprs }, span }, k1 + k2))
                    },
                }
            } else {
                Ok((first, k1))
            }
        },
    }
}

/// The assignment expressions that follow commas from `p` on.
#[verifier::opaque]
pub open spec fn spec_collect_sequence(t: Seq<Token>, p: int) -> Result<(List<Expression>, nat), Error>
    decreases rem(t, p), 0nat when p <= t.len()
{
    if spec_is_kind(t, p, Symbol::Comma) {
        match spec_parse_assignment_expression(t, p + 1) {
            Err(e) => Err(e),
            Ok((next, k1)) => match spec_collect_sequence(t, p + 1 + k1) {
                Err(e) => Err(e),
                Ok((rest, k2)) => Ok((List::Cons(Box::new(next), Box::new(rest)), 1 + k1 + k2)),
            },
        }
    } else {
        Ok((List::Nil, 0))
    }
}

/// Parse a full expression, accepting comma-sequence at the top level.
pub fn parse_expression(tokens: &[Token], pos: usize) -> (r: Result<(Expression, usize), Error>)
    ensures
        pos <= tokens@.len() ==> agrees(r, spec_parse_expression(tokens@, pos as int), pos as int),
        advances(r, pos as int, tokens@.len() as int),
        pos > tokens@.len() ==> r == Err::<(Expression, usize), Error>(Error::UnexpectedEof { expected: "expression" }),
    decreases rem(tokens@, pos as int), 13nat,
{
    proof {
        reveal(spec_parse_expression);
        reveal(spec_parse_assignment_expression);
        reveal(spec_collect_sequence);
        lemma_len_fits(tokens);
    }
    if pos > tokens.len() {
        return Err(Error::UnexpectedEof { expected: "expression" });
    }
    let (first, after_first) = parse_assignment_expression(tokens, pos)?;
    parse_sequence_tail(tokens, after_first, first, pos)
}

fn parse_sequence_tail(tokens: &[Token], pos: usize, first: Expression, start: usize) -> (r: Result<(Expression, usize), Error>)
    requires
        start < pos <= tokens@.len(),
        spec_parse_assignment_expression(tokens@, start as int) == Ok::<(Expression, nat), Error>((first, (pos - start) as nat)),
    ensures
        agrees(r, spec_parse_expression(tokens@, start as int), start as int),
        advances(r, start as int, tokens@.len() as int),
    decreases rem(tokens@, start as int), 12nat,
{
    proof {
        reveal(spec_parse_expression);
        reveal(spec_parse_assignment_expression);
        reveal(spec_collect_sequence);
        lemma_len_fits(tokens);
    }
    if is_kind(tokens, pos, Symbol::Comma) {
        let (rest, after) = collect_sequence(tokens, pos)?;
        let end = find_last_end(first.span.end, &rest);
        let span = Span { start: first.span.start, end };
        Ok((Expression { kind: ExpressionKind::Sequence { expressions: List::Cons(Box::new(first), Box::new(rest)) }, span }, after))
    } else {
        Ok((first, pos))
    }
}

fn collect_sequence(tokens: &[Token], pos: usize) -> (r: Result<(List<Expression>, usize), Error>)
    requires
        pos <= tokens@.len(),
    ensures
        agrees(r, spec_collect_sequence(tokens@, pos as int), pos as int),
        within(r, pos as int, tokens@.len() as int),
    decreases rem(tokens@, pos as int), 0nat,
{
    proof {
        reveal(spec_collect_sequence);
        reveal(spec_parse_assignment_expression);
        lemma_len_fits(tokens);
    }
    if is_kind(tokens, pos, Symbol::Comma) {
        let (next, after_next) = parse_assignment_expression(tokens, pos + 1)?;
        let (rest, after_rest) = collect_sequence(tokens, after_next)?;
        Ok((List::Cons(Box::new(next), Box::new(rest)), after_rest))
    } else {
        Ok((List::Nil, pos))
    }
}

} // verus!

verus! {

// ---------------------------------------------------------------------
// Assignment expressions and arrow functions
// ---------------------------------------------------------------------

/// An assignment expression: an arrow function that can be recognised
/// from its first tokens, or else the assignment-expression tail.
#[verifier::opaque]
pub open spec fn spec_parse_assignment_expression(t: Seq<Token>, p: int) -> Result<(Expression, nat), Error>
    decreases rem(t, p), 12nat when p <= t.len()
{
    match spec_try_parse_arrow_starter(t, p) {
        Err(e) => Err(e),
        Ok(Some(parsed)) => Ok(parsed),
        Ok(None) => spec_parse_assignment_tail(t, p),
    }
}

/// Parse an expression that does not include the top-level comma.
pub fn parse_assignment_expression(tokens: &[Token], pos: usize) -> (r: Result<(Expression, usize), Error>)
    ensures
        pos <= tokens@.len() ==> agrees(r, spec_parse_assignment_expression(tokens@, pos as int), pos as int),
        advances(r, pos as int, tokens@.len() as int),
        pos > tokens@.len() ==> r == Err::<(Expression, usize), Error>(Error::UnexpectedEof { expected: "expression" }),
    decreases rem(tokens@, pos as int), 12nat,
{
    proof {
        reveal(spec_parse_assignment_expression);
        reveal(spec_try_parse_arrow_starter);
        reveal(spec_parse_assignment_tail);
        reveal(spec_try_parse_arrow_starter);
        lemma_len_fits(tokens);
    }
    if pos > tokens.len() {
        return Err(Error::UnexpectedEof { expected: "expression" });
    }
    if let Some(parsed) = try_parse_arrow_starter(tokens, pos)? {
        Ok(parsed)
    } else {
        parse_assignment_tail(tokens, pos)
    }
}

/// Whether `(`, `)`, `=>` start at `p`.
pub open spec fn spec_is_empty_paren_arrow(t: Seq<Token>, p: int) -> bool {
    spec_is_kind(t, p, Symbol::LParen) && spec_is_kind(t, p + 1, Symbol::RParen)
        && spec_is_kind(t, p + 2, Symbol::Arrow)
}

fn is_empty_paren_arrow(tokens: &[Token], pos: usize) -> (b: bool)
    requires
        pos <= tokens@.len(),
    ensures
        b == spec_is_empty_paren_arrow(tokens@, pos as int),
{
    proof { lemma_len_fits(tokens); }
    is_kind(tokens, pos, Symbol::LParen) && is_kind(tokens, pos + 1, Symbol::RParen)
        && is_kind(tokens, pos + 2, Symbol::Arrow)
}

/// Whether the token at `p` is the identifier `word`.
pub open spec fn spec_is_word(t: Seq<Token>, p: int, word: &'static str) -> bool {
    spec_peek(t, p) matches Some(tok) && tok.kind matches TokenKind::Identifier(name) && name@ == word@
}

/// Whether the token at `pos` is the identifier `word`.
pub fn is_word(tokens: &[Token], pos: usize, word: &'static str) -> (b: bool)
    ensures
        b == spec_is_word(tokens@, pos as int, word),
{
    proof { lemma_len_fits(tokens); }
    match peek(tokens, pos) {
        Peek::Eof => false,
        Peek::Token(tok) => match &tok.kind {
            TokenKind::Identifier(name) => text_is(name, word),
            _ => false,
        },
    }
}

/// Whether `async function` starts at `p`.
pub open spec fn spec_is_async_function(t: Seq<Token>, p: int) -> bool {
    spec_is_word(t, p, "async") && spec_is_kind(t, p + 1, Symbol::KwFunction)
}

fn is_async_function(tokens: &[Token], pos: usize) -> (b: bool)
    requires
        pos <= tokens@.len(),
    ensures
        b == spec_is_async_function(tokens@, pos as int),
{
    proof { lemma_len_fits(tokens); }
    is_word(tokens, pos, "async") && is_kind(tokens, pos + 1, Symbol::KwFunction)
}

/// Whether the token at `p` is an identifier.
pub open spec fn spec_is_kind_identifier(t: Seq<Token>, p: int) -> bool {
    spec_peek(t, p) matches Some(tok) && tok.kind is Identifier
}

fn is_kind_identifier(tokens: &[Token], pos: usize) -> (b: bool)
    ensures
        b == spec_is_kind_identifier(tokens@, pos as int),
{
    proof { lemma_len_fits(tokens); }
    match peek(tokens, pos) {
        Peek::Eof => false,
        Peek::Token(tok) => match &tok.kind {
            TokenKind::Identifier(_) => true,
            _ => false,
        },
    }
}

/// Whether `async <identifier> =>` starts at `p`.
pub open spec fn spec_is_async_single_param_arrow(t: Seq<Token>, p: int) -> bool {
    spec_is_word(t, p, "async") && spec_is_kind_identifier(t, p + 1) && spec_is_kind(t, p + 2, Symbol::Arrow)
}

fn is_async_single_param_arrow(tokens: &[Token], pos: usize) -> (b: bool)
    requires
        pos <= tokens@.len(),
    ensures
        b == spec_is_async_single_param_arrow(tokens@, pos as int),
{
    proof { lemma_len_fits(tokens); }
    is_word(tokens, pos, "async") && is_kind_identifier(tokens, pos + 1)
        && is_kind(tokens, pos + 2, Symbol::Arrow)
}

/// The forms that can only be arrow functions or async functions:
/// `() =>`, `async function`, and `async <identifier> =>`; `None` when
/// none of them starts at `p`.
#[verifier::opaque]
pub open spec fn spec_try_parse_arrow_starter(t: Seq<Token>, p: int) -> Result<Option<(Expression, nat)>, Error>
    decreases rem(t, p), 1nat when p <= t.len()
{
    if spec_is_empty_paren_arrow(t, p) {
        match spec_finish_arrow(t, p + 3, List::Nil, false, spec_span_at(t, p)) {
            Err(e) => Err(e),
            Ok((arrow, k)) => Ok(Some((arrow, k + 3))),
        }
    } else if spec_is_async_function(t, p) {
        match spec_parse_function_expression(t, p + 1, true) {
            Err(e) => Err(e),
            Ok((f, k)) => Ok(Some((f, k + 1))),
        }
    } else if spec_is_async_single_param_arrow(t, p) {
        match spec_parse_async_single_param_arrow(t, p) {
            Err(e) => Err(e),
            Ok(parsed) => Ok(Some(parsed)),
        }
    } else {
        Ok(None)
    }
}

/// Try to parse a form that can only be an arrow function: `async <ident> =>`,
/// `async (...) =>` (as `async function`), or `() =>`.
fn try_parse_arrow_starter(tokens: &[Token], pos: usize) -> (r: Result<Option<(Expression, usize)>, Error>)
    requires
        pos <= tokens@.len(),
    ensures
        match (r, spec_try_parse_arrow_starter(tokens@, pos as int)) {
            (Ok(None), Ok(None)) => true,
            (Ok(Some((v, q))), Ok(Some((w, k)))) => v == w && q == pos + k && pos < q <= tokens@.len(),
            (Err(e), Err(f)) => e == f,
            _ => false,
        },
    decreases rem(tokens@, pos as int), 1nat,
{
    proof {
        reveal(spec_try_parse_arrow_starter);
        reveal(spec_finish_arrow);
        reveal(spec_parse_function_expression);
        reveal(spec_parse_async_single_param_arrow);
        lemma_len_fits(tokens);
    }
    if is_empty_paren_arrow(tokens, pos) {
        let after_open = pos + 1;
        let after_close = after_open + 1;
        let after_arrow = expect_kind(tokens, after_close, Symbol::Arrow, "`=>`")?;
        let span = span_at(tokens, pos);
        let (arrow, end) = finish_arrow(tokens, after_arrow, List::Nil, false, span)?;
        Ok(Some((arrow, end)))
    } else if is_async_function(tokens, pos) {
        let after_async = pos + 1;
        let (f, end) = parse_function_expression(tokens, after_async, true)?;
        Ok(Some((f, end)))
    } else if is_async_single_param_arrow(tokens, pos) {
        let (arrow, end) = parse_async_single_param_arrow(tokens, pos)?;
        Ok(Some((arrow, end)))
    } else {
        Ok(None)
    }
}

/// `async <identifier> => body`.
#[verifier::opaque]
pub open spec fn spec_parse_async_single_param_arrow(t: Seq<Token>, p: int) -> Result<(Expression, nat), Error>
    decreases rem(t, p), 0nat when p <= t.len()
{
    let start_span = spec_span_at(t, p);
    match spec_expect_identifier(t, p + 1) {
        Err(e) => Err(e),
        Ok((param_id, k1)) => {
            let after_param = p + 1 + k1;
            let param_span = spec_span_before(t, after_param);
            match spec_expect_kind(t, after_param, Symbol::Arrow, "`=>`") {
                Err(e) => Err(e),
                Ok(()) => {
                    let pattern = Pattern { kind: PatternKind::Identifier(param_id), span: param_span };
                    let params = List::Cons(Box::new(pattern), Box::new(List::Nil));
                    shift(spec_finish_arrow(t, after_param + 1, params, true, start_span), (k1 + 2) as nat)
                },
            }
        },
    }
}

fn parse_async_single_param_arrow(tokens: &[Token], pos: usize) -> (r: Result<(Expression, usize), Error>)
    requires
        pos < tokens@.len(),
    ensures
        agrees(r, spec_parse_async_single_param_arrow(tokens@, pos as int), pos as int),
        advances(r, pos as int, tokens@.len() as int),
    decreases rem(tokens@, pos as int), 0nat,
{
    proof {
        reveal(spec_parse_async_single_param_arrow);
        reveal(spec_finish_arrow);
        lemma_len_fits(tokens);
    }
    let start_span = span_at(tokens, pos);
    let (param_id, after_param) = expect_identifier(tokens, pos + 1)?;
    let param_span = span_before(tokens, after_param);
    let after_arrow = expect_kind(tokens, after_param, Symbol::Arrow, "`=>`")?;
    let pattern = Pattern { kind: PatternKind::Identifier(param_id), span: param_span };
    finish_arrow(tokens, after_arrow, List::Cons(Box::new(pattern), Box::new(List::Nil)), true, start_span)
}

/// The arguments of a call whose callee is the bare identifier `async`.
pub open spec fn spec_async_call_arguments(expr: Expression) -> Option<List<Expression>> {
    match expr.kind {
        ExpressionKind::Call { callee, arguments, .. } => match callee.kind {
            ExpressionKind::Identifier(id) => if id.name@ == "async"@ {
                Some(arguments)
            } else {
                None
            },
            _ => None,
        },
        _ => None,
    }
}

/// Return the argument list when `expr` is a call whose callee is the
/// bare identifier `async`; otherwise hand `expr` back.
fn async_call_arguments(expr: Expression) -> (r: Result<List<Expression>, Expression>)
    ensures
        match r {
            Ok(args) => spec_async_call_arguments(expr) == Some(args),
            Err(back) => back == expr && spec_async_call_arguments(expr) is None,
        },
{
    let span = expr.span;
    match expr.kind {
        ExpressionKind::Call { callee, arguments, optional } => {
            let is_async = match &callee.kind {
                ExpressionKind::Identifier(id) => name_is(&id.name, "async"),
                _ => false,
            };
            if is_async {
                Ok(arguments)
            } else {
                Err(Expression { kind: ExpressionKind::Call { callee, arguments, optional }, span })
            }
        },
        kind => Err(Expression { kind, span }),
    }
}

/// Each argument of `async(...)` reinterpreted as arrow parameters, all
/// the resulting patterns in order.
pub open spec fn spec_async_params(args: List<Expression>) -> Result<List<Pattern>, Error>
    decreases args,
{
    match args {
        List::Nil => Ok(List::Nil),
        List::Cons(head, tail) => match spec_reinterpret_arrow_params(*head) {
            Err(e) => Err(e),
            Ok(ps) => match spec_async_params(*tail) {
                Err(e) => Err(e),
                Ok(rest) => Ok(ps.concat(rest)),
            },
        },
    }
}

fn async_params(args: List<Expression>) -> (r: Result<List<Pattern>, Error>)
    ensures
        r == spec_async_params(args),
    decreases args,
{
    match args {
        List::Nil => Ok(List::Nil),
        List::Cons(head, tail) => {
            let ps = reinterpret_expression_as_arrow_params(*head)?;
            let rest = async_params(*tail)?;
            Ok(ps.append(rest))
        },
    }
}

/// The parameters (and asyncness) of an arrow function whose head parsed
/// as `left`: the reinterpreted arguments of `async(...)`, or `left`
/// itself reinterpreted as a parameter list.
pub open spec fn spec_arrow_head(left: Expression) -> Result<(List<Pattern>, bool), Error> {
    match spec_async_call_arguments(left) {
        Some(args) => match spec_async_params(args) {
            Err(e) => Err(e),
            Ok(ps) => Ok((ps, true)),
        },
        None => match spec_reinterpret_arrow_params(left) {
            Err(e) => Err(e),
            Ok(ps) => Ok((ps, false)),
        },
    }
}

fn arrow_head(left: Expression) -> (r: Result<(List<Pattern>, bool), Error>)
    ensures
        r == spec_arrow_head(left),
{
    match async_call_arguments(left) {
        Ok(args) => {
            let ps = async_params(args)?;
            Ok((ps, true))
        },
        Err(left) => {
            let ps = reinterpret_expression_as_arrow_params(left)?;
            Ok((ps, false))
        },
    }
}

/// The assignment operator at `p`, if any.
pub open spec fn spec_peek_assignment_operator(t: Seq<Token>, p: int) -> Option<AssignmentOperator> {
    match spec_peek(t, p) {
        None => None,
        Some(tok) => spec_assignment_operator(tok.kind),
    }
}

fn peek_assignment_operator(tokens: &[Token], pos: usize) -> (r: Option<AssignmentOperator>)
    ensures
        r == spec_peek_assignment_operator(tokens@, pos as int),
{
    proof { lemma_len_fits(tokens); }
    match peek(tokens, pos) {
        Peek::Eof => None,
        Peek::Token(tok) => assignment_operator(&tok.kind),
    }
}

/// A conditional expression, then: `=>` makes it an arrow function's
/// head; an assignment operator makes it the target of a
/// right-associative assignment, provided it is one (an identifier, a
/// member access, or before a plain `=` an array or object literal;
/// [`Error::InvalidAssignmentTarget`] at its span otherwise); otherwise
/// it stands alone.
#[verifier::opaque]
pub open spec fn spec_parse_assignment_tail(t: Seq<Token>, p: int) -> Result<(Expression, nat), Error>
    decreases rem(t, p), 11nat when p <= t.len()
{
    match spec_parse_conditional_expression(t, p) {
        Err(e) => Err(e),
        Ok((left, k1)) => {
            let after_left = p + k1;
            if spec_is_kind(t, after_left, Symbol::Arrow) {
                match spec_arrow_head(left) {
                    Err(e) => Err(e),
                    Ok((params, is_async)) => shift(
                        spec_finish_arrow(t, after_left + 1, params, is_async, spec_span_at(t, p)),
                        k1 + 1,
                    ),
                }
            } else {
                match spec_peek_assignment_operator(t, after_left) {
                    Some(op) => if !is_assignment_target(left, op) {
                        Err(Error::InvalidAssignmentTarget { at: left.span })
                    } else {
                        match spec_parse_assignment_expression(t, after_left + 1) {
                        Err(e) => Err(e),
                        Ok((right, k2)) => {
                            let span = Span { start: left.span.start, end: right.span.end };
                            Ok((
                                Expression {
                                    kind: ExpressionKind::Assignment {
                                        operator: op,
                                        left: Box::new(left),
                                        right: Box::new(right),
                                    },
                                    span,
                                },
                                k1 + 1 + k2,
                            ))
                        },
                        }
                    },
                    None => Ok((left, k1)),
                }
            }
        },
    }
}

fn parse_assignment_tail(tokens: &[Token], pos: usize) -> (r: Result<(Expression, usize), Error>)
    requires
        pos <= tokens@.len(),
    ensures
        agrees(r, spec_parse_assignment_tail(tokens@, pos as int), pos as int),
        advances(r, pos as int, tokens@.len() as int),
    decreases rem(tokens@, pos as int), 11nat,
{
    proof {
        reveal(spec_parse_assignment_tail);
        reveal(spec_parse_conditional_expression);
        reveal(spec_finish_arrow);
        reveal(spec_parse_assignment_expression);
        lemma_len_fits(tokens);
    }
    let (left, after_left) = parse_conditional_expression(tokens, pos)?;
    if is_kind(tokens, after_left, Symbol::Arrow) {
        let (params, is_async) = arrow_head(left)?;
        finish_arrow(tokens, after_left + 1, params, is_async, span_at(tokens, pos))
    } else if let Some(op) = peek_assignment_operator(tokens, after_left) {
        if !assignment_target(&left, op) {
            return Err(Error::InvalidAssignmentTarget { at: left.span });
        }
        let (right, after_right) = parse_assignment_expression(tokens, after_left + 1)?;
        let span = Span { start: left.span.start, end: right.span.end };
        Ok((
            Expression {
                kind: ExpressionKind::Assignment { operator: op, left: Box::new(left), right: Box::new(right) },
                span,
            },
            after_right,
        ))
    } else {
        Ok((left, after_left))
    }
}

/// The arrow function with `params` whose body starts at `p`, spanning
/// from `start_span` to the end of its body.
#[verifier::opaque]
pub open spec fn spec_finish_arrow(
    t: Seq<Token>,
    p: int,
    params: List<Pattern>,
    is_async: bool,
    start_span: Span,
) -> Result<(Expression, nat), Error>
    decreases rem(t, p), 14nat when p <= t.len()
{
    match spec_parse_arrow_body(t, p) {
        Err(e) => Err(e),
        Ok(((body, body_span), k)) => {
            let arrow = ArrowFunction { params, body, is_async };
            let span = Span { start: start_span.start, end: body_span.end };
            Ok((Expression { kind: ExpressionKind::ArrowFunction(Box::new(arrow)), span }, k))
        },
    }
}

fn finish_arrow(
    tokens: &[Token],
    pos: usize,
    params: List<Pattern>,
    is_async: bool,
    start_span: Span,
) -> (r: Result<(Expression, usize), Error>)
    requires
        pos <= tokens@.len(),
    ensures
        agrees(r, spec_finish_arrow(tokens@, pos as int, params, is_async, start_span), pos as int),
        advances(r, pos as int, tokens@.len() as int),
    decreases rem(tokens@, pos as int), 14nat,
{
    proof {
        reveal(spec_finish_arrow);
        reveal(spec_parse_arrow_body);
    }
    let ((body, body_span), end_pos) = parse_arrow_body(tokens, pos)?;
    let arrow = ArrowFunction { params, body, is_async };
    let span = Span { start: start_span.start, end: body_span.end };
    Ok((Expression { kind: ExpressionKind::ArrowFunction(Box::new(arrow)), span }, end_pos))
}

/// An arrow body: a `{ ... }` block (whose span is that of its `{`), or an
/// assignment expression (with its own span).
#[verifier::opaque]
pub open spec fn spec_parse_arrow_body(t: Seq<Token>, p: int) -> Result<((ArrowBody, Span), nat), Error>
    decreases rem(t, p), 13nat when p <= t.len()
{
    if spec_is_kind(t, p, Symbol::LBrace) {
        match spec_parse_block_body(t, p) {
            Err(e) => Err(e),
            Ok((stmts, k)) => Ok(((ArrowBody::Block(stmts), spec_span_at(t, p)), k)),
        }
    } else {
        match spec_parse_assignment_expression(t, p) {
            Err(e) => Err(e),
            Ok((expr, k)) => {
                let span = expr.span;
                Ok(((ArrowBody::Expression(Box::new(expr)), span), k))
            },
        }
    }
}

fn parse_arrow_body(tokens: &[Token], pos: usize) -> (r: Result<((ArrowBody, Span), usize), Error>)
    requires
        pos <= tokens@.len(),
    ensures
        agrees(r, spec_parse_arrow_body(tokens@, pos as int), pos as int),
        advances(r, pos as int, tokens@.len() as int),
    decreases rem(tokens@, pos as int), 13nat,
{
    proof {
        reveal(spec_parse_arrow_body);
        reveal(spec_parse_block_body);
        reveal(spec_parse_assignment_expression);
        lemma_len_fits(tokens);
    }
    if is_kind(tokens, pos, Symbol::LBrace) {
        let (stmts, after_close) = parse_block_body(tokens, pos)?;
        let span = span_at(tokens, pos);
        Ok(((ArrowBody::Block(stmts), span), after_close))
    } else {
        let (expr, after_expr) = parse_assignment_expression(tokens, pos)?;
        let span = expr.span;
        Ok(((ArrowBody::Expression(Box::new(expr)), span), after_expr))
    }
}

} // verus!

verus! {

// ---------------------------------------------------------------------
// Conditional and binary expressions
// ---------------------------------------------------------------------

/// A binary expression, then optionally `? consequent : alternate`.
#[verifier::opaque]
pub open spec fn spec_parse_conditional_expression(t: Seq<Token>, p: int) -> Result<(Expression, nat), Error>
    decreases rem(t, p), 10nat when p <= t.len()
{
    match spec_parse_binary_expression(t, p, MIN_PRECEDENCE) {
        Err(e) => Err(e),
        Ok((test, k1)) => {
            let after_test = p + k1;
            if spec_is_kind(t, after_test, Symbol::Question) {
                match spec_parse_assignment_expression(t, after_test + 1) {
                    Err(e) => Err(e),
                    Ok((consequent, k2)) => {
                        let after_conseq = after_test + 1 + k2;
                        match spec_expect_kind(t, after_conseq, Symbol::Colon, "`:`") {
                            Err(e) => Err(e),
                            Ok(()) => match spec_parse_assignment_expression(t, after_conseq + 1) {
                                Err(e) => Err(e),
                                Ok((alternate, k3)) => {
                                    let span = Span { start: test.span.start, end: alternate.span.end };
                                    Ok((
                                        Expression {
                                            kind: ExpressionKind::Conditional {
                                                test: Box::new(test),
                                                consequent: Box::new(consequent),
                                                alternate: Box::new(alternate),
                                            },
                                            span,
                                        },
                                        k1 + 1 + k2 + 1 + k3,
                                    ))
                                },
                            },
                        }
                    },
                }
            } else {
                Ok((test, k1))
            }
        },
    }
}

fn parse_conditional_expression(tokens: &[Token], pos: usize) -> (r: Result<(Expression, usize), Error>)
    requires
        pos <= tokens@.len(),
    ensures
        agrees(r, spec_parse_conditional_expression(tokens@, pos as int), pos as int),
        advances(r, pos as int, tokens@.len() as int),
    decreases rem(tokens@, pos as int), 10nat,
{
    proof {
        reveal(spec_parse_conditional_expression);
        reveal(spec_parse_binary_expression);
        reveal(spec_parse_assignment_expression);
        lemma_len_fits(tokens);
    }
    let (test, after_test) = parse_binary_expression(tokens, pos, MIN_PRECEDENCE)?;
    if is_kind(tokens, after_test, Symbol::Question) {
        let (consequent, after_conseq) = parse_assignment_expression(tokens, after_test + 1)?;
        let after_colon = expect_kind(tokens, after_conseq, Symbol::Colon, "`:`")?;
        let (alternate, after_alt) = parse_assignment_expression(tokens, after_colon)?;
        let span = Span { start: test.span.start, end: alternate.span.end };
        Ok((
            Expression {
                kind: ExpressionKind::Conditional {
                    test: Box::new(test),
                    consequent: Box::new(consequent),
                    alternate: Box::new(alternate),
                },
                span,
            },
            after_alt,
        ))
    } else {
        Ok((test, after_test))
    }
}

/// A unary expression followed by the binary operators of precedence at
/// least `min_prec` (precedence climbing).
#[verifier::opaque]
pub open spec fn spec_parse_binary_expression(t: Seq<Token>, p: int, min_prec: u8) -> Result<(Expression, nat), Error>
    decreases rem(t, p), 9nat when p <= t.len()
{
    match spec_parse_unary_expression(t, p) {
        Err(e) => Err(e),
        Ok((lhs, k1)) => shift(spec_parse_binary_tail(t, p + k1, lhs, min_prec), k1),
    }
}

fn parse_binary_expression(tokens: &[Token], pos: usize, min_prec: u8) -> (r: Result<(Expression, usize), Error>)
    requires
        pos <= tokens@.len(),
    ensures
        agrees(r, spec_parse_binary_expression(tokens@, pos as int, min_prec), pos as int),
        advances(r, pos as int, tokens@.len() as int),
    decreases rem(tokens@, pos as int), 9nat,
{
    proof {
        reveal(spec_parse_binary_expression);
        reveal(spec_parse_unary_expression);
        reveal(spec_parse_binary_tail);
        lemma_len_fits(tokens);
    }
    let (lhs, after_lhs) = parse_unary_expression(tokens, pos)?;
    parse_binary_tail(tokens, after_lhs, lhs, min_prec)
}

/// The binary-operator information of the token at `p`, if any.
pub open spec fn spec_peek_binary_info(t: Seq<Token>, p: int) -> Option<BinaryInfo> {
    match spec_peek(t, p) {
        None => None,
        Some(tok) => spec_binary_info(tok.kind),
    }
}

fn peek_binary_info(tokens: &[Token], pos: usize) -> (r: Option<BinaryInfo>)
    ensures
        r == spec_peek_binary_info(tokens@, pos as int),
{
    proof { lemma_len_fits(tokens); }
    match peek(tokens, pos) {
        Peek::Eof => None,
        Peek::Token(tok) => binary_info(&tok.kind),
    }
}

/// `lhs op rhs` as a binary or logical expression spanning both sides.
pub open spec fn spec_build_binary(op: BinaryKind, lhs: Expression, rhs: Expression) -> Expression {
    let span = Span { start: lhs.span.start, end: rhs.span.end };
    let kind = match op {
        BinaryKind::Binary(binary_op) => ExpressionKind::Binary {
            operator: binary_op,
            left: Box::new(lhs),
            right: Box::new(rhs),
        },
        BinaryKind::Logical(logical_op) => ExpressionKind::Logical {
            operator: logical_op,
            left: Box::new(lhs),
            right: Box::new(rhs),
        },
    };
    Expression { kind, span }
}

fn build_binary(op: BinaryKind, lhs: Expression, rhs: Expression) -> (r: Expression)
    ensures
        r == spec_build_binary(op, lhs, rhs),
{
    let span = Span { start: lhs.span.start, end: rhs.span.end };
    let kind = match op {
        BinaryKind::Binary(binary_op) => ExpressionKind::Binary {
            operator: binary_op,
            left: Box::new(lhs),
            right: Box::new(rhs),
        },
        BinaryKind::Logical(logical_op) => ExpressionKind::Logical {
            operator: logical_op,
            left: Box::new(lhs),
            right: Box::new(rhs),
        },
    };
    Expression { kind, span }
}

/// The operand that follows a binary operator of `info` binds operators of
/// at least this precedence: the same for the right-associative `**`, one
/// more otherwise.
pub open spec fn next_min_precedence(info: BinaryInfo) -> u8 {
    if info.right_assoc {
        info.precedence
    } else {
        (info.precedence + 1) as u8
    }
}

/// While the operator at the cursor has precedence at least `min_prec`,
/// combine `lhs` with the operand that follows it.
#[verifier::opaque]
pub open spec fn spec_parse_binary_tail(t: Seq<Token>, p: int, lhs: Expression, min_prec: u8) -> Result<(Expression, nat), Error>
    decreases rem(t, p), 0nat when p <= t.len()
{
    match spec_peek_binary_info(t, p) {
        None => Ok((lhs, 0)),
        Some(info) => if info.precedence < min_prec {
            Ok((lhs, 0))
        } else {
            match spec_parse_binary_expression(t, p + 1, next_min_precedence(info)) {
                Err(e) => Err(e),
                Ok((rhs, k1)) => {
                    let combined = spec_build_binary(info.op, lhs, rhs);
                    shift(spec_parse_binary_tail(t, p + 1 + k1, combined, min_prec), 1 + k1)
                },
            }
        },
    }
}

fn parse_binary_tail(tokens: &[Token], pos: usize, lhs: Expression, min_prec: u8) -> (r: Result<(Expression, usize), Error>)
    requires
        pos <= tokens@.len(),
    ensures
        agrees(r, spec_parse_binary_tail(tokens@, pos as int, lhs, min_prec), pos as int),
        within(r, pos as int, tokens@.len() as int),
    decreases rem(tokens@, pos as int), 0nat,
{
    proof {
        reveal(spec_parse_binary_tail);
        reveal(spec_parse_binary_expression);
        lemma_len_fits(tokens);
    }
    match peek_binary_info(tokens, pos) {
        None => Ok((lhs, pos)),
        Some(info) => {
            if info.precedence < min_prec {
                Ok((lhs, pos))
            } else {
                let next_min = if info.right_assoc { info.precedence } else { info.precedence + 1 };
                let (rhs, after_rhs) = parse_binary_expression(tokens, pos + 1, next_min)?;
                let combined = build_binary(info.op, lhs, rhs);
                parse_binary_tail(tokens, after_rhs, combined, min_prec)
            }
        },
    }
}

// ---------------------------------------------------------------------
// Unary, update, await and yield expressions
// ---------------------------------------------------------------------

/// A prefix operator (`delete void typeof + - ~ !`, `++ --`, `await`,
/// `yield`) applied to what follows, or an update expression.
#[verifier::opaque]
pub open spec fn spec_parse_unary_expression(t: Seq<Token>, p: int) -> Result<(Expression, nat), Error>
    decreases rem(t, p), 8nat when p <= t.len()
{
    let start_span = spec_span_at(t, p);
    match spec_peek(t, p) {
        None => Err(Error::UnexpectedEof { expected: "expression" }),
        Some(tok) => match tok.kind {
            TokenKind::Symbol(Symbol::KwDelete) => spec_parse_unary_prefix(t, p, UnaryOperator::Delete, start_span),
            TokenKind::Symbol(Symbol::KwVoid) => spec_parse_unary_prefix(t, p, UnaryOperator::Void, start_span),
            TokenKind::Symbol(Symbol::KwTypeof) => spec_parse_unary_prefix(t, p, UnaryOperator::TypeOf, start_span),
            TokenKind::Symbol(Symbol::Plus) => spec_parse_unary_prefix(t, p, UnaryOperator::Plus, start_span),
            TokenKind::Symbol(Symbol::Minus) => spec_parse_unary_prefix(t, p, UnaryOperator::Minus, start_span),
            TokenKind::Symbol(Symbol::Tilde) => spec_parse_unary_prefix(t, p, UnaryOperator::BitwiseNot, start_span),
            TokenKind::Symbol(Symbol::Bang) => spec_parse_unary_prefix(t, p, UnaryOperator::LogicalNot, start_span),
            TokenKind::Symbol(Symbol::PlusPlus) => spec_parse_update_prefix(t, p, UpdateOperator::Increment, start_span),
            TokenKind::Symbol(Symbol::MinusMinus) => spec_parse_update_prefix(t, p, UpdateOperator::Decrement, start_span),
            TokenKind::Symbol(Symbol::KwAwait) => spec_parse_await(t, p, start_span),
            TokenKind::Symbol(Symbol::KwYield) => spec_parse_yield(t, p, start_span),
            _ => spec_parse_update_expression(t, p),
        },
    }
}

fn parse_unary_expression(tokens: &[Token], pos: usize) -> (r: Result<(Expression, usize), Error>)
    requires
        pos <= tokens@.len(),
    ensures
        agrees(r, spec_parse_unary_expression(tokens@, pos as int), pos as int),
        advances(r, pos as int, tokens@.len() as int),
    decreases rem(tokens@, pos as int), 8nat,
{
    proof {
        reveal(spec_parse_unary_expression);
        reveal(spec_parse_unary_prefix);
        reveal(spec_parse_update_prefix);
        reveal(spec_parse_await);
        reveal(spec_parse_yield);
        reveal(spec_parse_update_expression);
        lemma_len_fits(tokens);
    }
    let start_span = span_at(tokens, pos);
    match peek(tokens, pos) {
        Peek::Eof => Err(Error::UnexpectedEof { expected: "expression" }),
        Peek::Token(tok) => match &tok.kind {
            TokenKind::Symbol(Symbol::KwDelete) => parse_unary_prefix(tokens, pos, UnaryOperator::Delete, start_span),
            TokenKind::Symbol(Symbol::KwVoid) => parse_unary_prefix(tokens, pos, UnaryOperator::Void, start_span),
            TokenKind::Symbol(Symbol::KwTypeof) => parse_unary_prefix(tokens, pos, UnaryOperator::TypeOf, start_span),
            TokenKind::Symbol(Symbol::Plus) => parse_unary_prefix(tokens, pos, UnaryOperator::Plus, start_span),
            TokenKind::Symbol(Symbol::Minus) => parse_unary_prefix(tokens, pos, UnaryOperator::Minus, start_span),
            TokenKind::Symbol(Symbol::Tilde) => parse_unary_prefix(tokens, pos, UnaryOperator::BitwiseNot, start_span),
            TokenKind::Symbol(Symbol::Bang) => parse_unary_prefix(tokens, pos, UnaryOperator::LogicalNot, start_span),
            TokenKind::Symbol(Symbol::PlusPlus) => parse_update_prefix(tokens, pos, UpdateOperator::Increment, start_span),
            TokenKind::Symbol(Symbol::MinusMinus) => parse_update_prefix(tokens, pos, UpdateOperator::Decrement, start_span),
            TokenKind::Symbol(Symbol::KwAwait) => parse_await(tokens, pos, start_span),
            TokenKind::Symbol(Symbol::KwYield) => parse_yield(tokens, pos, start_span),
            _ => parse_update_expression(tokens, pos),
        },
    }
}

/// `operator argument` where the prefix operator is at `p`.
#[verifier::opaque]
pub open spec fn spec_parse_unary_prefix(t: Seq<Token>, p: int, operator: UnaryOperator, start_span: Span) -> Result<(Expression, nat), Error>
    decreases rem(t, p), 0nat when p <= t.len()
{
    match spec_parse_unary_expression(t, p + 1) {
        Err(e) => Err(e),
        Ok((operand, k)) => {
            let span = Span { start: start_span.start, end: operand.span.end };
            Ok((Expression { kind: ExpressionKind::Unary { operator, argument: Box::new(operand) }, span }, k + 1))
        },
    }
}

fn parse_unary_prefix(tokens: &[Token], pos: usize, operator: UnaryOperator, start_span: Span) -> (r: Result<(Expression, usize), Error>)
    requires
        pos < tokens@.len(),
    ensures
        agrees(r, spec_parse_unary_prefix(tokens@, pos as int, operator, start_span), pos as int),
        advances(r, pos as int, tokens@.len() as int),
    decreases rem(tokens@, pos as int), 0nat,
{
    proof {
        reveal(spec_parse_unary_prefix);
        reveal(spec_parse_unary_expression);
        lemma_len_fits(tokens);
    }
    let (operand, after) = parse_unary_expression(tokens, pos + 1)?;
    let span = Span { start: start_span.start, end: operand.span.end };
    Ok((Expression { kind: ExpressionKind::Unary { operator, argument: Box::new(operand) }, span }, after))
}

/// `++argument` / `--argument` where the operator is at `p`.
#[verifier::opaque]
pub open spec fn spec_parse_update_prefix(t: Seq<Token>, p: int, operator: UpdateOperator, start_span: Span) -> Result<(Expression, nat), Error>
    decreases rem(t, p), 0nat when p <= t.len()
{
    match spec_parse_unary_expression(t, p + 1) {
        Err(e) => Err(e),
        Ok((operand, k)) => {
            let span = Span { start: start_span.start, end: operand.span.end };
            Ok((
                Expression {
                    kind: ExpressionKind::Update { operator, argument: Box::new(operand), prefix: true },
                    span,
                },
                k + 1,
            ))
        },
    }
}

fn parse_update_prefix(tokens: &[Token], pos: usize, operator: UpdateOperator, start_span: Span) -> (r: Result<(Expression, usize), Error>)
    requires
        pos < tokens@.len(),
    ensures
        agrees(r, spec_parse_update_prefix(tokens@, pos as int, operator, start_span), pos as int),
        advances(r, pos as int, tokens@.len() as int),
    decreases rem(tokens@, pos as int), 0nat,
{
    proof {
        reveal(spec_parse_update_prefix);
        reveal(spec_parse_unary_expression);
        lemma_len_fits(tokens);
    }
    let (operand, after) = parse_unary_expression(tokens, pos + 1)?;
    let span = Span { start: start_span.start, end: operand.span.end };
    Ok((
        Expression { kind: ExpressionKind::Update { operator, argument: Box::new(operand), prefix: true }, span },
        after,
    ))
}

/// `await argument` where `await` is at `p`.
#[verifier::opaque]
pub open spec fn spec_parse_await(t: Seq<Token>, p: int, start_span: Span) -> Result<(Expression, nat), Error>
    decreases rem(t, p), 0nat when p <= t.len()
{
    match spec_parse_unary_expression(t, p + 1) {
        Err(e) => Err(e),
        Ok((arg, k)) => {
            let span = Span { start: start_span.start, end: arg.span.end };
            Ok((Expression { kind: ExpressionKind::Await { argument: Box::new(arg) }, span }, k + 1))
        },
    }
}

fn parse_await(tokens: &[Token], pos: usize, start_span: Span) -> (r: Result<(Expression, usize), Error>)
    requires
        pos < tokens@.len(),
    ensures
        agrees(r, spec_parse_await(tokens@, pos as int, start_span), pos as int),
        advances(r, pos as int, tokens@.len() as int),
    decreases rem(tokens@, pos as int), 0nat,
{
    proof {
        reveal(spec_parse_await);
        reveal(spec_parse_unary_expression);
        lemma_len_fits(tokens);
    }
    let (arg, after) = parse_unary_expression(tokens, pos + 1)?;
    let span = Span { start: start_span.start, end: arg.span.end };
    Ok((Expression { kind: ExpressionKind::Await { argument: Box::new(arg) }, span }, after))
}

/// Whether the token at `p` can start an expression (used after
/// `yield`): anything but `; , ) ] } :` and the end of input.
pub open spec fn spec_starts_expression(t: Seq<Token>, p: int) -> bool {
    match spec_peek(t, p) {
        None => false,
        Some(tok) => match tok.kind {
            TokenKind::Symbol(Symbol::Semicolon) | TokenKind::Symbol(Symbol::Comma)
            | TokenKind::Symbol(Symbol::RParen) | TokenKind::Symbol(Symbol::RBracket)
            | TokenKind::Symbol(Symbol::RBrace) | TokenKind::Symbol(Symbol::Colon)
            | TokenKind::Symbol(Symbol::Eof) => false,
            _ => true,
        },
    }
}

fn starts_expression(tokens: &[Token], pos: usize) -> (b: bool)
    ensures
        b == spec_starts_expression(tokens@, pos as int),
{
    proof { lemma_len_fits(tokens); }
    match peek(tokens, pos) {
        Peek::Eof => false,
        Peek::Token(tok) => match &tok.kind {
            TokenKind::Symbol(Symbol::Semicolon) | TokenKind::Symbol(Symbol::Comma)
            | TokenKind::Symbol(Symbol::RParen) | TokenKind::Symbol(Symbol::RBracket)
            | TokenKind::Symbol(Symbol::RBrace) | TokenKind::Symbol(Symbol::Colon)
            | TokenKind::Symbol(Symbol::Eof) => false,
            _ => true,
        },
    }
}

/// `yield`, `yield*`, with an argument when one follows.
#[verifier::opaque]
pub open spec fn spec_parse_yield(t: Seq<Token>, p: int, start_span: Span) -> Result<(Expression, nat), Error>
    decreases rem(t, p), 0nat when p <= t.len()
{
    let after_kw = p + 1;
    let delegate = spec_is_kind(t, after_kw, Symbol::Star);
    let after_star = if delegate { after_kw + 1 } else { after_kw };
    if spec_starts_expression(t, after_star) {
        match spec_parse_assignment_expression(t, after_star) {
            Err(e) => Err(e),
            Ok((expr, k)) => {
                let span = Span { start: start_span.start, end: expr.span.end };
                Ok((
                    Expression { kind: ExpressionKind::Yield { argument: Some(Box::new(expr)), delegate }, span },
                    (after_star - p + k) as nat,
                ))
            },
        }
    } else {
        let span = Span { start: start_span.start, end: start_span.end };
        Ok((Expression { kind: ExpressionKind::Yield { argument: None, delegate }, span }, (after_star - p) as nat))
    }
}

fn parse_yield(tokens: &[Token], pos: usize, start_span: Span) -> (r: Result<(Expression, usize), Error>)
    requires
        pos < tokens@.len(),
    ensures
        agrees(r, spec_parse_yield(tokens@, pos as int, start_span), pos as int),
        advances(r, pos as int, tokens@.len() as int),
    decreases rem(tokens@, pos as int), 0nat,
{
    proof {
        reveal(spec_parse_yield);
        reveal(spec_parse_assignment_expression);
        lemma_len_fits(tokens);
    }
    let after_kw = pos + 1;
    let delegate = is_kind(tokens, after_kw, Symbol::Star);
    let after_star = if delegate { after_kw + 1 } else { after_kw };
    let yields_arg = starts_expression(tokens, after_star);
    let (argument, end_pos, end_span) = if yields_arg {
        let (expr, after_expr) = parse_assignment_expression(tokens, after_star)?;
        let s = expr.span;
        (Some(Box::new(expr)), after_expr, s)
    } else {
        (None, after_star, start_span)
    };
    let span = Span { start: start_span.start, end: end_span.end };
    Ok((Expression { kind: ExpressionKind::Yield { argument, delegate }, span }, end_pos))
}

/// A left-hand-side expression followed by an optional postfix `++`/`--`.
#[verifier::opaque]
pub open spec fn spec_parse_update_expression(t: Seq<Token>, p: int) -> Result<(Expression, nat), Error>
    decreases rem(t, p), 7nat when p <= t.len()
{
    match spec_parse_lhs_expression(t, p) {
        Err(e) => Err(e),
        Ok((operand, k)) => {
            let after = p + k;
            if spec_is_kind(t, after, Symbol::PlusPlus) {
                let span = Span { start: operand.span.start, end: spec_span_at(t, after).end };
                Ok((
                    Expression {
                        kind: ExpressionKind::Update { operator: UpdateOperator::Increment, argument: Box::new(operand), prefix: false },
                        span,
                    },
                    k + 1,
                ))
            } else if spec_is_kind(t, after, Symbol::MinusMinus) {
                let span = Span { start: operand.span.start, end: spec_span_at(t, after).end };
                Ok((
                    Expression {
                        kind: ExpressionKind::Update { operator: UpdateOperator::Decrement, argument: Box::new(operand), prefix: false },
                        span,
                    },
                    k + 1,
                ))
            } else {
                Ok((operand, k))
            }
        },
    }
}

fn parse_update_expression(tokens: &[Token], pos: usize) -> (r: Result<(Expression, usize), Error>)
    requires
        pos <= tokens@.len(),
    ensures
        agrees(r, spec_parse_update_expression(tokens@, pos as int), pos as int),
        advances(r, pos as int, tokens@.len() as int),
    decreases rem(tokens@, pos as int), 7nat,
{
    proof {
        reveal(spec_parse_update_expression);
        reveal(spec_parse_lhs_expression);
        lemma_len_fits(tokens);
    }
    let (operand, after) = parse_lhs_expression(tokens, pos)?;
    if is_kind(tokens, after, Symbol::PlusPlus) {
        let span = Span { start: operand.span.start, end: span_at(tokens, after).end };
        Ok((
            Expression {
                kind: ExpressionKind::Update { operator: UpdateOperator::Increment, argument: Box::new(operand), prefix: false },
                span,
            },
            after + 1,
        ))
    } else if is_kind(tokens, after, Symbol::MinusMinus) {
        let span = Span { start: operand.span.start, end: span_at(tokens, after).end };
        Ok((
            Expression {
                kind: ExpressionKind::Update { operator: UpdateOperator::Decrement, argument: Box::new(operand), prefix: false },
                span,
            },
            after + 1,
        ))
    } else {
        Ok((operand, after))
    }
}

} // verus!

verus! {

// ---------------------------------------------------------------------
// Left-hand-side, member, call and `new` expressions
// ---------------------------------------------------------------------

/// A `new` or member expression followed by calls, member accesses and
/// optional chains.
#[verifier::opaque]
pub open spec fn spec_parse_lhs_expression(t: Seq<Token>, p: int) -> Result<(Expression, nat), Error>
    decreases rem(t, p), 6nat when p <= t.len()
{
    match spec_parse_new_or_member(t, p) {
        Err(e) => Err(e),
        Ok((lhs, k)) => shift(spec_parse_call_tail(t, p + k, lhs), k),
    }
}

pub(crate) fn parse_lhs_expression(tokens: &[Token], pos: usize) -> (r: Result<(Expression, usize), Error>)
    requires
        pos <= tokens@.len(),
    ensures
        agrees(r, spec_parse_lhs_expression(tokens@, pos as int), pos as int),
        advances(r, pos as int, tokens@.len() as int),
    decreases rem(tokens@, pos as int), 6nat,
{
    proof {
        reveal(spec_parse_lhs_expression);
        reveal(spec_parse_new_or_member);
        reveal(spec_parse_call_tail);
        lemma_len_fits(tokens);
    }
    let (lhs, after) = parse_new_or_member(tokens, pos)?;
    parse_call_tail(tokens, after, lhs)
}

/// A `new` expression when `new` is at `p`, a member expression otherwise.
#[verifier::opaque]
pub open spec fn spec_parse_new_or_member(t: Seq<Token>, p: int) -> Result<(Expression, nat), Error>
    decreases rem(t, p), 5nat when p <= t.len()
{
    if spec_is_kind(t, p, Symbol::KwNew) {
        spec_parse_new_expression(t, p)
    } else {
        spec_parse_member_expression(t, p)
    }
}

fn parse_new_or_member(tokens: &[Token], pos: usize) -> (r: Result<(Expression, usize), Error>)
    requires
        pos <= tokens@.len(),
    ensures
        agrees(r, spec_parse_new_or_member(tokens@, pos as int), pos as int),
        advances(r, pos as int, tokens@.len() as int),
    decreases rem(tokens@, pos as int), 5nat,
{
    proof {
        reveal(spec_parse_new_or_member);
        reveal(spec_parse_new_expression);
        reveal(spec_parse_member_expression);
        lemma_len_fits(tokens);
    }
    if is_kind(tokens, pos, Symbol::KwNew) {
        parse_new_expression(tokens, pos)
    } else {
        parse_member_expression(tokens, pos)
    }
}

/// `new.target` (its meta name the keyword `new`), or `new callee`
/// with optional arguments, followed by member accesses.
#[verifier::opaque]
pub open spec fn spec_parse_new_expression(t: Seq<Token>, p: int) -> Result<(Expression, nat), Error>
    decreases rem(t, p), 0nat when p <= t.len()
{
    let start_span = spec_span_at(t, p);
    let after_new = p + 1;
    if spec_is_kind(t, after_new, Symbol::Dot) && spec_is_word(t, after_new + 1, "target") {
        let span = Span { start: start_span.start, end: spec_span_at(t, after_new + 1).end };
        let meta = keyword_identifier("new");
        match t[after_new + 1].kind {
            TokenKind::Identifier(name) => match spec_identifier(name) {
                Err(e) => Err(e),
                Ok(property) => Ok((Expression { kind: ExpressionKind::MetaProperty { meta, property }, span }, 3)),
            },
            _ => Err(Error::UnexpectedEof { expected: "expression" }),
        }
    } else {
        match spec_parse_new_or_member(t, after_new) {
            Err(e) => Err(e),
            Ok((callee, k1)) => {
                let after_callee = after_new + k1;
                let args = if spec_is_kind(t, after_callee, Symbol::LParen) {
                    spec_parse_arguments(t, after_callee)
                } else {
                    Ok((List::Nil, 0nat))
                };
                match args {
                    Err(e) => Err(e),
                    Ok((arguments, k2)) => {
                        let after_args = after_callee + k2;
                        let span = Span { start: start_span.start, end: spec_span_at(t, after_args - 1).end };
                        let new_expr = Expression {
                            kind: ExpressionKind::New { callee: Box::new(callee), arguments },
                            span,
                        };
                        shift(spec_parse_member_tail(t, after_args, new_expr), 1 + k1 + k2)
                    },
                }
            },
        }
    }
}

fn parse_new_expression(tokens: &[Token], pos: usize) -> (r: Result<(Expression, usize), Error>)
    requires
        spec_is_kind(tokens@, pos as int, Symbol::KwNew),
    ensures
        agrees(r, spec_parse_new_expression(tokens@, pos as int), pos as int),
        advances(r, pos as int, tokens@.len() as int),
    decreases rem(tokens@, pos as int), 0nat,
{
    proof {
        reveal(spec_parse_new_expression);
        reveal(spec_parse_new_or_member);
        reveal(spec_parse_arguments);
        reveal(spec_parse_member_tail);
        lemma_len_fits(tokens);
    }
    let start_span = span_at(tokens, pos);
    let after_new = pos + 1;
    if is_kind(tokens, after_new, Symbol::Dot) && is_word(tokens, after_new + 1, "target") {
        let span = Span { start: start_span.start, end: span_at(tokens, after_new + 1).end };
        let meta = Identifier { name: Name::Keyword("new") };
        match &tokens[after_new + 1].kind {
            TokenKind::Identifier(name) => {
                let property = make_identifier(name)?;
                Ok((Expression { kind: ExpressionKind::MetaProperty { meta, property }, span }, after_new + 2))
            },
            _ => Err(Error::UnexpectedEof { expected: "expression" }),
        }
    } else {
        let (callee, after_callee) = parse_new_or_member(tokens, after_new)?;
        let (arguments, after_args) = if is_kind(tokens, after_callee, Symbol::LParen) {
            parse_arguments(tokens, after_callee)?
        } else {
            (List::Nil, after_callee)
        };
        let end_span = span_at(tokens, after_args - 1);
        let span = Span { start: start_span.start, end: end_span.end };
        let new_expr = Expression { kind: ExpressionKind::New { callee: Box::new(callee), arguments }, span };
        parse_member_tail(tokens, after_args, new_expr)
    }
}

/// A primary expression followed by member accesses.
#[verifier::opaque]
pub open spec fn spec_parse_member_expression(t: Seq<Token>, p: int) -> Result<(Expression, nat), Error>
    decreases rem(t, p), 4nat when p <= t.len()
{
    match spec_parse_primary_expression(t, p) {
        Err(e) => Err(e),
        Ok((base, k)) => shift(spec_parse_member_tail(t, p + k, base), k),
    }
}

fn parse_member_expression(tokens: &[Token], pos: usize) -> (r: Result<(Expression, usize), Error>)
    requires
        pos <= tokens@.len(),
    ensures
        agrees(r, spec_parse_member_expression(tokens@, pos as int), pos as int),
        advances(r, pos as int, tokens@.len() as int),
    decreases rem(tokens@, pos as int), 4nat,
{
    proof {
        reveal(spec_parse_member_expression);
        reveal(spec_parse_primary_expression);
        reveal(spec_parse_member_tail);
        lemma_len_fits(tokens);
    }
    let (base, after_base) = parse_primary_expression(tokens, pos)?;
    parse_member_tail(tokens, after_base, base)
}

/// `.name` and `[expression]` accesses applied to `base`, left to right.
#[verifier::opaque]
pub open spec fn spec_parse_member_tail(t: Seq<Token>, p: int, base: Expression) -> Result<(Expression, nat), Error>
    decreases rem(t, p), 0nat when p <= t.len()
{
    if spec_is_kind(t, p, Symbol::Dot) {
        match spec_expect_member_name(t, p + 1) {
            Err(e) => Err(e),
            Ok((name, k1)) => {
                let after_name = p + 1 + k1;
                let span = Span { start: base.span.start, end: spec_span_at(t, after_name - 1).end };
                let member = Expression {
                    kind: ExpressionKind::Member {
                        object: Box::new(base),
                        property: MemberProperty::Identifier(name),
                        optional: false,
                    },
                    span,
                };
                shift(spec_parse_member_tail(t, after_name, member), 1 + k1)
            },
        }
    } else if spec_is_kind(t, p, Symbol::LBracket) {
        match spec_parse_expression(t, p + 1) {
            Err(e) => Err(e),
            Ok((inner, k1)) => {
                let after_inner = p + 1 + k1;
                match spec_expect_kind(t, after_inner, Symbol::RBracket, "`]`") {
                    Err(e) => Err(e),
                    Ok(()) => {
                        let span = Span { start: base.span.start, end: spec_span_at(t, after_inner).end };
                        let member = Expression {
                            kind: ExpressionKind::Member {
                                object: Box::new(base),
                                property: MemberProperty::Computed(Box::new(inner)),
                                optional: false,
                            },
                            span,
                        };
                        shift(spec_parse_member_tail(t, after_inner + 1, member), 2 + k1)
                    },
                }
            },
        }
    } else {
        Ok((base, 0))
    }
}

#[verifier::spinoff_prover]
#[verifier::rlimit(30)]
fn parse_member_tail(tokens: &[Token], pos: usize, base: Expression) -> (r: Result<(Expression, usize), Error>)
    requires
        pos <= tokens@.len(),
    ensures
        agrees(r, spec_parse_member_tail(tokens@, pos as int, base), pos as int),
        within(r, pos as int, tokens@.len() as int),
        spec_is_kind(tokens@, pos as int, Symbol::Dot) || spec_is_kind(tokens@, pos as int, Symbol::LBracket)
            ==> advances(r, pos as int, tokens@.len() as int),
    decreases rem(tokens@, pos as int), 0nat,
{
    proof {
        reveal(spec_parse_member_tail);
        reveal(spec_parse_expression);
        lemma_len_fits(tokens);
    }
    if is_kind(tokens, pos, Symbol::Dot) {
        let (name, after_name) = expect_member_name(tokens, pos + 1)?;
        let span = Span { start: base.span.start, end: span_at(tokens, after_name - 1).end };
        let member = Expression {
            kind: ExpressionKind::Member { object: Box::new(base), property: MemberProperty::Identifier(name), optional: false },
            span,
        };
        parse_member_tail(tokens, after_name, member)
    } else if is_kind(tokens, pos, Symbol::LBracket) {
        let (inner, after_inner) = parse_expression(tokens, pos + 1)?;
        let after_close = expect_kind(tokens, after_inner, Symbol::RBracket, "`]`")?;
        let span = Span { start: base.span.start, end: span_at(tokens, after_close - 1).end };
        let member = Expression {
            kind: ExpressionKind::Member {
                object: Box::new(base),
                property: MemberProperty::Computed(Box::new(inner)),
                optional: false,
            },
            span,
        };
        parse_member_tail(tokens, after_close, member)
    } else {
        Ok((base, pos))
    }
}

/// Calls, member accesses and optional chains applied to `base`, left to
/// right.
/// Arguments and member accesses always take at least one token
/// (their parsers prove it); the test on the count taken only makes the definition
/// well-founded, and its other branch is never reached.
#[verifier::opaque]
pub open spec fn spec_parse_call_tail(t: Seq<Token>, p: int, base: Expression) -> Result<(Expression, nat), Error>
    decreases rem(t, p), 1nat when p <= t.len()
{
    if spec_is_kind(t, p, Symbol::LParen) {
        match spec_parse_arguments(t, p) {
            Err(e) => Err(e),
            Ok((args, k1)) => {
                let after_args = p + k1;
                let span = Span { start: base.span.start, end: spec_span_at(t, after_args - 1).end };
                let call = Expression {
                    kind: ExpressionKind::Call { callee: Box::new(base), arguments: args, optional: false },
                    span,
                };
                if k1 > 0 {
                    shift(spec_parse_call_tail(t, after_args, call), k1)
                } else {
                    Err(Error::UnexpectedEof { expected: "`(`" })
                }
            },
        }
    } else if spec_is_kind(t, p, Symbol::Dot) || spec_is_kind(t, p, Symbol::LBracket) {
        match spec_parse_member_tail(t, p, base) {
            Err(e) => Err(e),
            Ok((next, k1)) => if k1 > 0 {
                shift(spec_parse_call_tail(t, p + k1, next), k1)
            } else {
                Err(Error::UnexpectedEof { expected: "`.` or `[`" })
            },
        }
    } else if spec_is_kind(t, p, Symbol::OptionalChain) {
        spec_parse_optional_chain(t, p, base)
    } else {
        Ok((base, 0))
    }
}

fn parse_call_tail(tokens: &[Token], pos: usize, base: Expression) -> (r: Result<(Expression, usize), Error>)
    requires
        pos <= tokens@.len(),
    ensures
        agrees(r, spec_parse_call_tail(tokens@, pos as int, base), pos as int),
        within(r, pos as int, tokens@.len() as int),
    decreases rem(tokens@, pos as int), 1nat,
{
    proof {
        reveal(spec_parse_call_tail);
        reveal(spec_parse_arguments);
        reveal(spec_parse_member_tail);
        reveal(spec_parse_optional_chain);
        lemma_len_fits(tokens);
    }
    if is_kind(tokens, pos, Symbol::LParen) {
        let (args, after_args) = parse_arguments(tokens, pos)?;
        let span = Span { start: base.span.start, end: span_at(tokens, after_args - 1).end };
        let call = Expression {
            kind: ExpressionKind::Call { callee: Box::new(base), arguments: args, optional: false },
            span,
        };
        parse_call_tail(tokens, after_args, call)
    } else if is_kind(tokens, pos, Symbol::Dot) || is_kind(tokens, pos, Symbol::LBracket) {
        let (next, after_next) = parse_member_tail(tokens, pos, base)?;
        parse_call_tail(tokens, after_next, next)
    } else if is_kind(tokens, pos, Symbol::OptionalChain) {
        parse_optional_chain(tokens, pos, base)
    } else {
        Ok((base, pos))
    }
}

/// The chain wrapper around an optional call or member access.
pub open spec fn spec_wrap_in_chain(expr: Expression) -> Expression {
    let span = expr.span;
    Expression { kind: ExpressionKind::Chain { expression: Box::new(expr) }, span }
}

fn wrap_in_chain(expr: Expression) -> (r: Expression)
    ensures
        r == spec_wrap_in_chain(expr),
{
    let span = expr.span;
    Expression { kind: ExpressionKind::Chain { expression: Box::new(expr) }, span }
}

/// `?.(args)`, `?.[expression]` or `?.name` applied to `base` (the `?.`
/// at `p`), wrapped in a chain, then further calls and accesses.
#[verifier::opaque]
pub open spec fn spec_parse_optional_chain(t: Seq<Token>, p: int, base: Expression) -> Result<(Expression, nat), Error>
    decreases rem(t, p), 0nat when p <= t.len()
{
    let after_qmark = p + 1;
    if spec_is_kind(t, after_qmark, Symbol::LParen) {
        match spec_parse_arguments(t, after_qmark) {
            Err(e) => Err(e),
            Ok((args, k1)) => {
                let after_args = after_qmark + k1;
                let span = Span { start: base.span.start, end: spec_span_at(t, after_args - 1).end };
                let inner = Expression {
                    kind: ExpressionKind::Call { callee: Box::new(base), arguments: args, optional: true },
                    span,
                };
                shift(spec_parse_call_tail(t, after_args, spec_wrap_in_chain(inner)), 1 + k1)
            },
        }
    } else if spec_is_kind(t, after_qmark, Symbol::LBracket) {
        match spec_parse_expression(t, after_qmark + 1) {
            Err(e) => Err(e),
            Ok((inner_expr, k1)) => {
                let after_expr = after_qmark + 1 + k1;
                match spec_expect_kind(t, after_expr, Symbol::RBracket, "`]`") {
                    Err(e) => Err(e),
                    Ok(()) => {
                        let span = Span { start: base.span.start, end: spec_span_at(t, after_expr).end };
                        let member = Expression {
                            kind: ExpressionKind::Member {
                                object: Box::new(base),
                                property: MemberProperty::Computed(Box::new(inner_expr)),
                                optional: true,
                            },
                            span,
                        };
                        shift(spec_parse_call_tail(t, after_expr + 1, spec_wrap_in_chain(member)), 3 + k1)
                    },
                }
            },
        }
    } else {
        match spec_expect_member_name(t, after_qmark) {
            Err(e) => Err(e),
            Ok((name, k1)) => {
                let after_name = after_qmark + k1;
                let span = Span { start: base.span.start, end: spec_span_at(t, after_name - 1).end };
                let member = Expression {
                    kind: ExpressionKind::Member {
                        object: Box::new(base),
                        property: MemberProperty::Identifier(name),
                        optional: true,
                    },
                    span,
                };
                shift(spec_parse_call_tail(t, after_name, spec_wrap_in_chain(member)), 1 + k1)
            },
        }
    }
}

fn parse_optional_chain(tokens: &[Token], pos: usize, base: Expression) -> (r: Result<(Expression, usize), Error>)
    requires
        pos < tokens@.len(),
    ensures
        agrees(r, spec_parse_optional_chain(tokens@, pos as int, base), pos as int),
        advances(r, pos as int, tokens@.len() as int),
    decreases rem(tokens@, pos as int), 0nat,
{
    proof {
        reveal(spec_parse_optional_chain);
        reveal(spec_parse_arguments);
        reveal(spec_parse_call_tail);
        reveal(spec_parse_expression);
        lemma_len_fits(tokens);
    }
    let after_qmark = pos + 1;
    if is_kind(tokens, after_qmark, Symbol::LParen) {
        let (args, after_args) = parse_arguments(tokens, after_qmark)?;
        let span = Span { start: base.span.start, end: span_at(tokens, after_args - 1).end };
        let inner = Expression {
            kind: ExpressionKind::Call { callee: Box::new(base), arguments: args, optional: true },
            span,
        };
        let chained = wrap_in_chain(inner);
        parse_call_tail(tokens, after_args, chained)
    } else if is_kind(tokens, after_qmark, Symbol::LBracket) {
        let (inner_expr, after_expr) = parse_expression(tokens, after_qmark + 1)?;
        let after_close = expect_kind(tokens, after_expr, Symbol::RBracket, "`]`")?;
        let span = Span { start: base.span.start, end: span_at(tokens, after_close - 1).end };
        let member = Expression {
            kind: ExpressionKind::Member {
                object: Box::new(base),
                property: MemberProperty::Computed(Box::new(inner_expr)),
                optional: true,
            },
            span,
        };
        let chained = wrap_in_chain(member);
        parse_call_tail(tokens, after_close, chained)
    } else {
        let (name, after_name) = expect_member_name(tokens, after_qmark)?;
        let span = Span { start: base.span.start, end: span_at(tokens, after_name - 1).end };
        let member = Expression {
            kind: ExpressionKind::Member { object: Box::new(base), property: MemberProperty::Identifier(name), optional: true },
            span,
        };
        let chained = wrap_in_chain(member);
        parse_call_tail(tokens, after_name, chained)
    }
}

/// `( arguments )` at `p`: the arguments, with a trailing comma allowed.
#[verifier::opaque]
pub open spec fn spec_parse_arguments(t: Seq<Token>, p: int) -> Result<(List<Expression>, nat), Error>
    decreases rem(t, p), 0nat when p <= t.len()
{
    match spec_expect_kind(t, p, Symbol::LParen, "`(`") {
        Err(e) => Err(e),
        Ok(()) => if spec_is_kind(t, p + 1, Symbol::RParen) {
            Ok((List::Nil, 2))
        } else {
            shift(spec_collect_arguments(t, p + 1), 1)
        },
    }
}

fn parse_arguments(tokens: &[Token], pos: usize) -> (r: Result<(List<Expression>, usize), Error>)
    requires
        pos <= tokens@.len(),
    ensures
        agrees(r, spec_parse_arguments(tokens@, pos as int), pos as int),
        advances(r, pos as int, tokens@.len() as int),
    decreases rem(tokens@, pos as int), 0nat,
{
    proof {
        reveal(spec_parse_arguments);
        reveal(spec_collect_arguments);
        lemma_len_fits(tokens);
    }
    let after_open = expect_kind(tokens, pos, Symbol::LParen, "`(`")?;
    if is_kind(tokens, after_open, Symbol::RParen) {
        Ok((List::Nil, after_open + 1))
    } else {
        collect_arguments(tokens, after_open)
    }
}

/// An argument (possibly `...spread`) at `p`.
#[verifier::opaque]
pub open spec fn spec_parse_argument(t: Seq<Token>, p: int) -> Result<(Expression, nat), Error>
    decreases rem(t, p), 13nat when p <= t.len()
{
    if spec_is_kind(t, p, Symbol::Spread) {
        match spec_parse_assignment_expression(t, p + 1) {
            Err(e) => Err(e),
            Ok((inner, k)) => {
                let full_span = Span { start: spec_span_at(t, p).start, end: inner.span.end };
                Ok((Expression { kind: ExpressionKind::Spread { argument: Box::new(inner) }, span: full_span }, 1 + k))
            },
        }
    } else {
        spec_parse_assignment_expression(t, p)
    }
}

fn parse_argument(tokens: &[Token], pos: usize) -> (r: Result<(Expression, usize), Error>)
    requires
        pos <= tokens@.len(),
    ensures
        agrees(r, spec_parse_argument(tokens@, pos as int), pos as int),
        advances(r, pos as int, tokens@.len() as int),
    decreases rem(tokens@, pos as int), 13nat,
{
    proof {
        reveal(spec_parse_argument);
        reveal(spec_parse_assignment_expression);
        lemma_len_fits(tokens);
    }
    if is_kind(tokens, pos, Symbol::Spread) {
        let span = span_at(tokens, pos);
        let (inner, after_inner) = parse_assignment_expression(tokens, pos + 1)?;
        let full_span = Span { start: span.start, end: inner.span.end };
        Ok((Expression { kind: ExpressionKind::Spread { argument: Box::new(inner) }, span: full_span }, after_inner))
    } else {
        parse_assignment_expression(tokens, pos)
    }
}

/// The arguments from `p` up to and including the closing `)`.
#[verifier::opaque]
pub open spec fn spec_collect_arguments(t: Seq<Token>, p: int) -> Result<(List<Expression>, nat), Error>
    decreases rem(t, p), 14nat when p <= t.len()
{
    match spec_parse_argument(t, p) {
        Err(e) => Err(e),
        Ok((arg, k1)) => {
            let after_arg = p + k1;
            if spec_is_kind(t, after_arg, Symbol::Comma) {
                let next_pos = after_arg + 1;
                if spec_is_kind(t, next_pos, Symbol::RParen) {
                    Ok((List::Cons(Box::new(arg), Box::new(List::Nil)), k1 + 2))
                } else {
                    match spec_collect_arguments(t, next_pos) {
                        Err(e) => Err(e),
                        Ok((rest, k2)) => Ok((List::Cons(Box::new(arg), Box::new(rest)), k1 + 1 + k2)),
                    }
                }
            } else {
                match spec_expect_kind(t, after_arg, Symbol::RParen, "`)` or `,`") {
                    Err(e) => Err(e),
                    Ok(()) => Ok((List::Cons(Box::new(arg), Box::new(List::Nil)), k1 + 1)),
                }
            }
        },
    }
}

fn collect_arguments(tokens: &[Token], pos: usize) -> (r: Result<(List<Expression>, usize), Error>)
    requires
        pos <= tokens@.len(),
    ensures
        agrees(r, spec_collect_arguments(tokens@, pos as int), pos as int),
        advances(r, pos as int, tokens@.len() as int),
    decreases rem(tokens@, pos as int), 14nat,
{
    proof {
        reveal(spec_collect_arguments);
        reveal(spec_parse_argument);
        lemma_len_fits(tokens);
    }
    let (arg, after_arg) = parse_argument(tokens, pos)?;
    if is_kind(tokens, after_arg, Symbol::Comma) {
        let next_pos = after_arg + 1;
        if is_kind(tokens, next_pos, Symbol::RParen) {
            Ok((List::Cons(Box::new(arg), Box::new(List::Nil)), next_pos + 1))
        } else {
            let (rest, after_rest) = collect_arguments(tokens, next_pos)?;
            Ok((List::Cons(Box::new(arg), Box::new(rest)), after_rest))
        }
    } else {
        let after_close = expect_kind(tokens, after_arg, Symbol::RParen, "`)` or `,`")?;
        Ok((List::Cons(Box::new(arg), Box::new(List::Nil)), after_close))
    }
}

} // verus!

verus! {

// ---------------------------------------------------------------------
// Primary expressions
// ---------------------------------------------------------------------

/// A primary expression: the token at `p` decides which.
#[verifier::opaque]
pub open spec fn spec_parse_primary_expression(t: Seq<Token>, p: int) -> Result<(Expression, nat), Error>
    decreases rem(t, p), 3nat when p <= t.len()
{
    match spec_peek(t, p) {
        None => Err(Error::UnexpectedEof { expected: "expression" }),
        Some(tok) => spec_dispatch_primary(t, p, tok, spec_span_at(t, p)),
    }
}

fn parse_primary_expression(tokens: &[Token], pos: usize) -> (r: Result<(Expression, usize), Error>)
    requires
        pos <= tokens@.len(),
    ensures
        agrees(r, spec_parse_primary_expression(tokens@, pos as int), pos as int),
        advances(r, pos as int, tokens@.len() as int),
    decreases rem(tokens@, pos as int), 3nat,
{
    proof {
        reveal(spec_parse_primary_expression);
        reveal(spec_dispatch_primary);
        lemma_len_fits(tokens);
    }
    let start_span = span_at(tokens, pos);
    match peek(tokens, pos) {
        Peek::Eof => Err(Error::UnexpectedEof { expected: "expression" }),
        Peek::Token(tok) => dispatch_primary(tokens, pos, tok, start_span),
    }
}

/// A one-token expression of `kind` with `span`.
pub open spec fn single(kind: ExpressionKind, span: Span) -> Result<(Expression, nat), Error> {
    Ok((Expression { kind, span }, 1))
}

/// The primary expression that starts with `tok` (the token at `p`):
/// `this`, `super`, literals, templates, identifiers, private names,
/// parenthesised expressions, array and object literals, function and
/// class expressions, and `import(...)` / `import.meta`.
#[verifier::opaque]
pub open spec fn spec_dispatch_primary(t: Seq<Token>, p: int, tok: Token, span: Span) -> Result<(Expression, nat), Error>
    decreases rem(t, p), 2nat when p <= t.len()
{
    match tok.kind {
        TokenKind::Symbol(Symbol::KwThis) => single(ExpressionKind::This, span),
        TokenKind::Symbol(Symbol::KwSuper) => single(ExpressionKind::Super, span),
        TokenKind::Symbol(Symbol::KwTrue) => single(ExpressionKind::Literal(Literal::Boolean(true)), span),
        TokenKind::Symbol(Symbol::KwFalse) => single(ExpressionKind::Literal(Literal::Boolean(false)), span),
        TokenKind::Symbol(Symbol::KwNull) => single(ExpressionKind::Literal(Literal::Null), span),
        TokenKind::Number(n) => single(ExpressionKind::Literal(Literal::Number(n)), span),
        TokenKind::BigInt(digits) => single(ExpressionKind::Literal(Literal::BigInt(digits)), span),
        TokenKind::String(s) => single(ExpressionKind::Literal(Literal::String(s)), span),
        TokenKind::RegExp { pattern, flags } => match regex_check(pattern, flags) {
            Err(e) => Err(Error::Syntax(e)),
            Ok(()) => single(ExpressionKind::Literal(Literal::RegExp { pattern, flags }), span),
        },
        TokenKind::TemplateNoSubstitution(content) => single(
            ExpressionKind::Template {
                quasis: List::Cons(Box::new(content), Box::new(List::Nil)),
                expressions: List::Nil,
            },
            span,
        ),
        TokenKind::TemplateHead(_) => spec_parse_template_with_substitutions(t, p),
        TokenKind::Identifier(name) => match spec_identifier(name) {
            Err(e) => Err(e),
            Ok(id) => single(ExpressionKind::Identifier(id), span),
        },
        TokenKind::PrivateIdentifier(_) => match spec_expect_private_identifier(t, p) {
            Err(e) => Err(e),
            Ok((id, k)) => Ok((Expression { kind: ExpressionKind::PrivateIdentifier(id), span }, k)),
        },
        TokenKind::Symbol(Symbol::LParen) => spec_parse_parenthesised(t, p),
        TokenKind::Symbol(Symbol::LBracket) => spec_parse_array_literal(t, p),
        TokenKind::Symbol(Symbol::LBrace) => spec_parse_object_literal(t, p),
        TokenKind::Symbol(Symbol::KwFunction) => spec_parse_function_expression(t, p, false),
        TokenKind::Symbol(Symbol::KwClass) => spec_parse_class_expression(t, p),
        TokenKind::Symbol(Symbol::KwImport) => spec_parse_import_expression(t, p),
        _ => Err(spec_unexpected(tok, "expression")),
    }
}

fn dispatch_primary(tokens: &[Token], pos: usize, tok: &Token, span: Span) -> (r: Result<(Expression, usize), Error>)
    requires
        spec_peek(tokens@, pos as int) == Some(*tok),
        span == tok.span,
    ensures
        agrees(r, spec_dispatch_primary(tokens@, pos as int, *tok, span), pos as int),
        advances(r, pos as int, tokens@.len() as int),
    decreases rem(tokens@, pos as int), 2nat,
{
    proof {
        reveal(spec_dispatch_primary);
        reveal(spec_parse_template_with_substitutions);
        reveal(spec_parse_parenthesised);
        reveal(spec_parse_array_literal);
        reveal(spec_parse_object_literal);
        reveal(spec_parse_function_expression);
        reveal(spec_parse_class_expression);
        reveal(spec_parse_import_expression);
        lemma_len_fits(tokens);
    }
    match &tok.kind {
        TokenKind::Symbol(Symbol::KwThis) => Ok((Expression { kind: ExpressionKind::This, span }, pos + 1)),
        TokenKind::Symbol(Symbol::KwSuper) => Ok((Expression { kind: ExpressionKind::Super, span }, pos + 1)),
        TokenKind::Symbol(Symbol::KwTrue) => Ok(literal_token(pos, span, Literal::Boolean(true))),
        TokenKind::Symbol(Symbol::KwFalse) => Ok(literal_token(pos, span, Literal::Boolean(false))),
        TokenKind::Symbol(Symbol::KwNull) => Ok(literal_token(pos, span, Literal::Null)),
        TokenKind::Number(n) => Ok(literal_token(pos, span, Literal::Number(*n))),
        TokenKind::BigInt(digits) => Ok(literal_token(pos, span, Literal::BigInt(digits.clone()))),
        TokenKind::String(s) => Ok(literal_token(pos, span, Literal::String(s.clone()))),
        TokenKind::RegExp { pattern, flags } => {
            match check_regex(pattern, flags) {
                Err(e) => Err(Error::Syntax(e)),
                Ok(()) => Ok(literal_token(pos, span, Literal::RegExp { pattern: pattern.clone(), flags: flags.clone() })),
            }
        },
        TokenKind::TemplateNoSubstitution(content) => Ok((
            Expression {
                kind: ExpressionKind::Template {
                    quasis: List::Cons(Box::new(content.clone()), Box::new(List::Nil)),
                    expressions: List::Nil,
                },
                span,
            },
            pos + 1,
        )),
        TokenKind::TemplateHead(_) => parse_template_with_substitutions(tokens, pos),
        TokenKind::Identifier(name) => {
            let id = make_identifier(name)?;
            Ok((Expression { kind: ExpressionKind::Identifier(id), span }, pos + 1))
        },
        TokenKind::PrivateIdentifier(_) => {
            let (id, after) = expect_private_identifier(tokens, pos)?;
            Ok((Expression { kind: ExpressionKind::PrivateIdentifier(id), span }, after))
        },
        TokenKind::Symbol(Symbol::LParen) => parse_parenthesised(tokens, pos),
        TokenKind::Symbol(Symbol::LBracket) => parse_array_literal(tokens, pos),
        TokenKind::Symbol(Symbol::LBrace) => parse_object_literal(tokens, pos),
        TokenKind::Symbol(Symbol::KwFunction) => parse_function_expression(tokens, pos, false),
        TokenKind::Symbol(Symbol::KwClass) => parse_class_expression(tokens, pos),
        TokenKind::Symbol(Symbol::KwImport) => parse_import_expression(tokens, pos),
        _ => Err(unexpected(tok, "expression")),
    }
}

fn literal_token(pos: usize, span: Span, literal: Literal) -> (r: (Expression, usize))
    requires
        pos < usize::MAX,
    ensures
        r == (Expression { kind: ExpressionKind::Literal(literal), span }, (pos + 1) as usize),
{
    (Expression { kind: ExpressionKind::Literal(literal), span }, pos + 1)
}

/// `( expression )` at `p`, spanning both parentheses.
#[verifier::opaque]
pub open spec fn spec_parse_parenthesised(t: Seq<Token>, p: int) -> Result<(Expression, nat), Error>
    decreases rem(t, p), 0nat when p <= t.len()
{
    match spec_parse_expression(t, p + 1) {
        Err(e) => Err(e),
        Ok((inner, k)) => {
            let after_inner = p + 1 + k;
            match spec_expect_kind(t, after_inner, Symbol::RParen, "`)`") {
                Err(e) => Err(e),
                Ok(()) => {
                    let span = Span { start: spec_span_at(t, p).start, end: spec_span_at(t, after_inner).end };
                    Ok((Expression { kind: ExpressionKind::Parenthesized { expression: Box::new(inner) }, span }, k + 2))
                },
            }
        },
    }
}

fn parse_parenthesised(tokens: &[Token], pos: usize) -> (r: Result<(Expression, usize), Error>)
    requires
        pos < tokens@.len(),
    ensures
        agrees(r, spec_parse_parenthesised(tokens@, pos as int), pos as int),
        advances(r, pos as int, tokens@.len() as int),
    decreases rem(tokens@, pos as int), 0nat,
{
    proof {
        reveal(spec_parse_parenthesised);
        reveal(spec_parse_expression);
        lemma_len_fits(tokens);
    }
    let (inner, after_inner) = parse_expression(tokens, pos + 1)?;
    let after_close = expect_kind(tokens, after_inner, Symbol::RParen, "`)`")?;
    let span = Span { start: span_at(tokens, pos).start, end: span_at(tokens, after_close - 1).end };
    Ok((Expression { kind: ExpressionKind::Parenthesized { expression: Box::new(inner) }, span }, after_close))
}

/// A template with substitutions, from its head at `p` to its tail.  It
/// has one text chunk more than substitutions: each head or middle chunk
/// is followed by one, the tail chunk by none.
#[verifier::opaque]
pub open spec fn spec_parse_template_with_substitutions(t: Seq<Token>, p: int) -> Result<(Expression, nat), Error>
    decreases rem(t, p), 1nat when p <= t.len()
{
    match spec_collect_template(t, p) {
        Err(e) => Err(e),
        Ok(((quasis, expressions), k)) => {
            let span = Span { start: spec_span_at(t, p).start, end: spec_span_at(t, p + k - 1).end };
            Ok((Expression { kind: ExpressionKind::Template { quasis, expressions }, span }, k))
        },
    }
}

fn parse_template_with_substitutions(tokens: &[Token], pos: usize) -> (r: Result<(Expression, usize), Error>)
    requires
        pos <= tokens@.len(),
    ensures
        agrees(r, spec_parse_template_with_substitutions(tokens@, pos as int), pos as int),
        advances(r, pos as int, tokens@.len() as int),
        r matches Ok((e, _)) ==> e.kind matches ExpressionKind::Template { quasis, expressions }
            && quasis.to_seq().len() == expressions.to_seq().len() + 1,
    decreases rem(tokens@, pos as int), 1nat,
{
    proof {
        reveal(spec_parse_template_with_substitutions);
        reveal(spec_collect_template);
        lemma_len_fits(tokens);
    }
    let start_span = span_at(tokens, pos);
    let ((quasis, expressions), end) = collect_template(tokens, pos)?;
    let span = Span { start: start_span.start, end: span_at(tokens, end - 1).end };
    Ok((Expression { kind: ExpressionKind::Template { quasis, expressions }, span }, end))
}

/// The chunks and substitutions of a template from `p` through its tail.
#[verifier::opaque]
pub open spec fn spec_collect_template(t: Seq<Token>, p: int) -> Result<((List<String>, List<Expression>), nat), Error>
    decreases rem(t, p), 0nat when p <= t.len()
{
    match spec_peek(t, p) {
        None => Err(Error::UnexpectedEof { expected: "template continuation" }),
        Some(tok) => {
            let chunk = match tok.kind {
                TokenKind::TemplateHead(content) => Some(content),
                TokenKind::TemplateMiddle(content) => Some(content),
                _ => None,
            };
            match chunk {
                Some(content) => match spec_parse_expression(t, p + 1) {
                    Err(e) => Err(e),
                    Ok((expr, k1)) => match spec_collect_template(t, p + 1 + k1) {
                        Err(e) => Err(e),
                        Ok(((quasis, exprs), k2)) => Ok((
                            (List::Cons(Box::new(content), Box::new(quasis)), List::Cons(Box::new(expr), Box::new(exprs))),
                            1 + k1 + k2,
                        )),
                    },
                },
                None => match tok.kind {
                    TokenKind::TemplateTail(content) => Ok(((List::Cons(Box::new(content), Box::new(List::Nil)), List::Nil), 1)),
                    _ => Err(spec_unexpected(tok, "template continuation")),
                },
            }
        },
    }
}

#[verifier::spinoff_prover]
#[verifier::rlimit(30)]
fn collect_template(tokens: &[Token], pos: usize) -> (r: Result<((List<String>, List<Expression>), usize), Error>)
    requires
        pos <= tokens@.len(),
    ensures
        agrees(r, spec_collect_template(tokens@, pos as int), pos as int),
        advances(r, pos as int, tokens@.len() as int),
        r matches Ok(((quasis, exprs), _)) ==> quasis.to_seq().len() == exprs.to_seq().len() + 1,
    decreases rem(tokens@, pos as int), 0nat,
{
    proof {
        reveal(spec_collect_template);
        reveal(spec_parse_expression);
        lemma_len_fits(tokens);
    }
    match peek(tokens, pos) {
        Peek::Eof => Err(Error::UnexpectedEof { expected: "template continuation" }),
        Peek::Token(tok) => {
            let chunk = match &tok.kind {
                TokenKind::TemplateHead(content) => Some(content.clone()),
                TokenKind::TemplateMiddle(content) => Some(content.clone()),
                _ => None,
            };
            match chunk {
                Some(content) => {
                    let (expr, after_expr) = parse_expression(tokens, pos + 1)?;
                    let ((quasis, exprs), end) = collect_template(tokens, after_expr)?;
                    let all_quasis = List::Cons(Box::new(content), Box::new(quasis));
                    let all_exprs = List::Cons(Box::new(expr), Box::new(exprs));
                    assert(all_quasis.to_seq().len() == quasis.to_seq().len() + 1);
                    assert(all_exprs.to_seq().len() == exprs.to_seq().len() + 1);
                    Ok(((all_quasis, all_exprs), end))
                },
                None => match &tok.kind {
                    TokenKind::TemplateTail(content) => {
                        let last = List::Cons(Box::new(content.clone()), Box::new(List::Nil));
                        assert(last.to_seq().len() == 1);
                        assert(List::<Expression>::Nil.to_seq().len() == 0);
                        Ok(((last, List::Nil), pos + 1))
                    },
                    _ => Err(unexpected(tok, "template continuation")),
                },
            }
        },
    }
}

/// `[ elements ]` at `p`, spanning both brackets.
#[verifier::opaque]
pub open spec fn spec_parse_array_literal(t: Seq<Token>, p: int) -> Result<(Expression, nat), Error>
    decreases rem(t, p), 0nat when p <= t.len()
{
    match spec_collect_array_elements(t, p + 1) {
        Err(e) => Err(e),
        Ok((elements, k)) => {
            let span = Span { start: spec_span_at(t, p).start, end: spec_span_at(t, p + k).end };
            Ok((Expression { kind: ExpressionKind::Array { elements }, span }, k + 1))
        },
    }
}

#[verifier::spinoff_prover]
#[verifier::rlimit(60)]
fn parse_array_literal(tokens: &[Token], pos: usize) -> (r: Result<(Expression, usize), Error>)
    requires
        pos < tokens@.len(),
    ensures
        agrees(r, spec_parse_array_literal(tokens@, pos as int), pos as int),
        advances(r, pos as int, tokens@.len() as int),
    decreases rem(tokens@, pos as int), 0nat,
{
    proof {
        reveal(spec_parse_array_literal);
        reveal(spec_collect_array_elements);
        lemma_len_fits(tokens);
    }
    let start_span = span_at(tokens, pos);
    let (elements, end) = collect_array_elements(tokens, pos + 1)?;
    let span = Span { start: start_span.start, end: span_at(tokens, end - 1).end };
    Ok((Expression { kind: ExpressionKind::Array { elements }, span }, end))
}

/// The elements of an array literal from `p` through its `]`: a comma
/// with nothing before it is a hole; a trailing comma adds none.
#[verifier::opaque]
pub open spec fn spec_collect_array_elements(t: Seq<Token>, p: int) -> Result<(List<Option<Expression>>, nat), Error>
    decreases rem(t, p), 14nat when p <= t.len()
{
    if spec_is_kind(t, p, Symbol::RBracket) {
        Ok((List::Nil, 1))
    } else if spec_is_kind(t, p, Symbol::Comma) {
        match spec_collect_array_elements(t, p + 1) {
            Err(e) => Err(e),
            Ok((rest, k)) => Ok((List::Cons(Box::new(None), Box::new(rest)), 1 + k)),
        }
    } else {
        match spec_parse_argument(t, p) {
            Err(e) => Err(e),
            Ok((element, k1)) => {
                let after_element = p + k1;
                if spec_is_kind(t, after_element, Symbol::Comma) {
                    match spec_collect_array_elements(t, after_element + 1) {
                        Err(e) => Err(e),
                        Ok((rest, k2)) => Ok((List::Cons(Box::new(Some(element)), Box::new(rest)), k1 + 1 + k2)),
                    }
                } else {
                    match spec_expect_kind(t, after_element, Symbol::RBracket, "`]`") {
                        Err(e) => Err(e),
                        Ok(()) => Ok((List::Cons(Box::new(Some(element)), Box::new(List::Nil)), k1 + 1)),
                    }
                }
            },
        }
    }
}

fn collect_array_elements(tokens: &[Token], pos: usize) -> (r: Result<(List<Option<Expression>>, usize), Error>)
    requires
        pos <= tokens@.len(),
    ensures
        agrees(r, spec_collect_array_elements(tokens@, pos as int), pos as int),
        advances(r, pos as int, tokens@.len() as int),
    decreases rem(tokens@, pos as int), 14nat,
{
    proof {
        reveal(spec_collect_array_elements);
        reveal(spec_parse_argument);
        lemma_len_fits(tokens);
    }
    if is_kind(tokens, pos, Symbol::RBracket) {
        Ok((List::Nil, pos + 1))
    } else if is_kind(tokens, pos, Symbol::Comma) {
        let (rest, end) = collect_array_elements(tokens, pos + 1)?;
        Ok((List::Cons(Box::new(None), Box::new(rest)), end))
    } else {
        let (element, after_element) = parse_argument(tokens, pos)?;
        if is_kind(tokens, after_element, Symbol::Comma) {
            let (rest, end) = collect_array_elements(tokens, after_element + 1)?;
            Ok((List::Cons(Box::new(Some(element)), Box::new(rest)), end))
        } else {
            let after_close = expect_kind(tokens, after_element, Symbol::RBracket, "`]`")?;
            Ok((List::Cons(Box::new(Some(element)), Box::new(List::Nil)), after_close))
        }
    }
}

} // verus!

verus! {

// ---------------------------------------------------------------------
// Object literals
// ---------------------------------------------------------------------

/// `{ members }` at `p`, spanning both braces.
#[verifier::opaque]
pub open spec fn spec_parse_object_literal(t: Seq<Token>, p: int) -> Result<(Expression, nat), Error>
    decreases rem(t, p), 0nat when p <= t.len()
{
    match spec_collect_object_members(t, p + 1) {
        Err(e) => Err(e),
        Ok((properties, k)) => {
            let span = Span { start: spec_span_at(t, p).start, end: spec_span_at(t, p + k).end };
            Ok((Expression { kind: ExpressionKind::Object { properties }, span }, k + 1))
        },
    }
}

fn parse_object_literal(tokens: &[Token], pos: usize) -> (r: Result<(Expression, usize), Error>)
    requires
        pos < tokens@.len(),
    ensures
        agrees(r, spec_parse_object_literal(tokens@, pos as int), pos as int),
        advances(r, pos as int, tokens@.len() as int),
    decreases rem(tokens@, pos as int), 0nat,
{
    proof {
        reveal(spec_parse_object_literal);
        reveal(spec_collect_object_members);
        lemma_len_fits(tokens);
    }
    let start_span = span_at(tokens, pos);
    let (properties, end) = collect_object_members(tokens, pos + 1)?;
    let span = Span { start: start_span.start, end: span_at(tokens, end - 1).end };
    Ok((Expression { kind: ExpressionKind::Object { properties }, span }, end))
}

/// The members of an object literal from `p` through its `}`, separated
/// by commas, a trailing comma allowed.
#[verifier::opaque]
pub open spec fn spec_collect_object_members(t: Seq<Token>, p: int) -> Result<(List<ObjectMember>, nat), Error>
    decreases rem(t, p), 4nat when p <= t.len()
{
    if spec_is_kind(t, p, Symbol::RBrace) {
        Ok((List::Nil, 1))
    } else {
        match spec_parse_object_member(t, p) {
            Err(e) => Err(e),
            Ok((member, k1)) => {
                let after_member = p + k1;
                if spec_is_kind(t, after_member, Symbol::Comma) {
                    match spec_collect_object_members(t, after_member + 1) {
                        Err(e) => Err(e),
                        Ok((rest, k2)) => Ok((List::Cons(Box::new(member), Box::new(rest)), k1 + 1 + k2)),
                    }
                } else {
                    match spec_expect_kind(t, after_member, Symbol::RBrace, "`}`") {
                        Err(e) => Err(e),
                        Ok(()) => Ok((List::Cons(Box::new(member), Box::new(List::Nil)), k1 + 1)),
                    }
                }
            },
        }
    }
}

fn collect_object_members(tokens: &[Token], pos: usize) -> (r: Result<(List<ObjectMember>, usize), Error>)
    requires
        pos <= tokens@.len(),
    ensures
        agrees(r, spec_collect_object_members(tokens@, pos as int), pos as int),
        advances(r, pos as int, tokens@.len() as int),
    decreases rem(tokens@, pos as int), 4nat,
{
    proof {
        reveal(spec_collect_object_members);
        reveal(spec_parse_object_member);
        lemma_len_fits(tokens);
    }
    if is_kind(tokens, pos, Symbol::RBrace) {
        Ok((List::Nil, pos + 1))
    } else {
        let (member, after_member) = parse_object_member(tokens, pos)?;
        if is_kind(tokens, after_member, Symbol::Comma) {
            let (rest, end) = collect_object_members(tokens, after_member + 1)?;
            Ok((List::Cons(Box::new(member), Box::new(rest)), end))
        } else {
            let after_close = expect_kind(tokens, after_member, Symbol::RBrace, "`}`")?;
            Ok((List::Cons(Box::new(member), Box::new(List::Nil)), after_close))
        }
    }
}

/// One member of an object literal: `...spread`, a `get`/`set`
/// accessor, `key: value`, a shorthand method `key(params) { body }`, or
/// a shorthand property `key` (identifier keys only).
#[verifier::opaque]
pub open spec fn spec_parse_object_member(t: Seq<Token>, p: int) -> Result<(ObjectMember, nat), Error>
    decreases rem(t, p), 3nat when p <= t.len()
{
    if spec_is_kind(t, p, Symbol::Spread) {
        match spec_parse_assignment_expression(t, p + 1) {
            Err(e) => Err(e),
            Ok((inner, k)) => Ok((ObjectMember::Spread { argument: inner }, k + 1)),
        }
    } else {
        match spec_accessor_keyword_followed_by_key(t, p) {
            Some(kind) => shift(spec_parse_accessor_member(t, p + 1, kind), 1),
            None => match spec_parse_property_key(t, p) {
                Err(e) => Err(e),
                Ok(((key, computed), k1)) => {
                    let after_key = p + k1;
                    if spec_is_kind(t, after_key, Symbol::Colon) {
                        match spec_parse_assignment_expression(t, after_key + 1) {
                            Err(e) => Err(e),
                            Ok((value, k2)) => Ok((
                                ObjectMember::Property { key, value, kind: ObjectPropertyKind::Init, computed, shorthand: false },
                                k1 + 1 + k2,
                            )),
                        }
                    } else if spec_is_kind(t, after_key, Symbol::LParen) {
                        shift(spec_parse_shorthand_method(t, after_key, key, computed), k1)
                    } else {
                        match spec_shorthand_value(key, spec_span_at(t, p)) {
                            Err(e) => Err(e),
                            Ok(value) => Ok((
                                ObjectMember::Property { key, value, kind: ObjectPropertyKind::Init, computed, shorthand: true },
                                k1,
                            )),
                        }
                    }
                },
            },
        }
    }
}

fn parse_object_member(tokens: &[Token], pos: usize) -> (r: Result<(ObjectMember, usize), Error>)
    requires
        pos <= tokens@.len(),
    ensures
        agrees(r, spec_parse_object_member(tokens@, pos as int), pos as int),
        advances(r, pos as int, tokens@.len() as int),
    decreases rem(tokens@, pos as int), 3nat,
{
    proof {
        reveal(spec_parse_object_member);
        reveal(spec_parse_assignment_expression);
        reveal(spec_parse_accessor_member);
        reveal(spec_parse_property_key);
        reveal(spec_parse_shorthand_method);
        lemma_len_fits(tokens);
    }
    if is_kind(tokens, pos, Symbol::Spread) {
        let (inner, after_inner) = parse_assignment_expression(tokens, pos + 1)?;
        Ok((ObjectMember::Spread { argument: inner }, after_inner))
    } else if let Some(kind) = accessor_keyword_followed_by_key(tokens, pos) {
        parse_accessor_member(tokens, pos + 1, kind)
    } else {
        let ((key, computed), after_key) = parse_property_key(tokens, pos)?;
        if is_kind(tokens, after_key, Symbol::Colon) {
            let (value, after_value) = parse_assignment_expression(tokens, after_key + 1)?;
            Ok((
                ObjectMember::Property { key, value, kind: ObjectPropertyKind::Init, computed, shorthand: false },
                after_value,
            ))
        } else if is_kind(tokens, after_key, Symbol::LParen) {
            parse_shorthand_method(tokens, after_key, key, computed)
        } else {
            let value = property_key_to_shorthand_value(&key, span_at(tokens, pos))?;
            Ok((
                ObjectMember::Property { key, value, kind: ObjectPropertyKind::Init, computed, shorthand: true },
                after_key,
            ))
        }
    }
}

/// `get` or `set` at `p`, as the accessor kind it introduces.
pub open spec fn spec_accessor_keyword(t: Seq<Token>, p: int) -> Option<ObjectPropertyKind> {
    if spec_is_word(t, p, "get") {
        Some(ObjectPropertyKind::Getter)
    } else if spec_is_word(t, p, "set") {
        Some(ObjectPropertyKind::Setter)
    } else {
        None
    }
}

fn accessor_keyword(tokens: &[Token], pos: usize) -> (r: Option<ObjectPropertyKind>)
    ensures
        r == spec_accessor_keyword(tokens@, pos as int),
{
    proof { lemma_len_fits(tokens); }
    if is_word(tokens, pos, "get") {
        Some(ObjectPropertyKind::Getter)
    } else if is_word(tokens, pos, "set") {
        Some(ObjectPropertyKind::Setter)
    } else {
        None
    }
}

/// Whether the token at `p` can start a property key after `get`/`set`:
/// an identifier, a string, a number or `[`.
pub open spec fn spec_is_property_key_start(t: Seq<Token>, p: int) -> bool {
    spec_peek(t, p) matches Some(tok) && (tok.kind matches TokenKind::Identifier(_)
        || tok.kind matches TokenKind::String(_) || tok.kind matches TokenKind::Number(_)
        || tok.kind == TokenKind::Symbol(Symbol::LBracket))
}

fn is_property_key_start(tokens: &[Token], pos: usize) -> (b: bool)
    ensures
        b == spec_is_property_key_start(tokens@, pos as int),
{
    proof { lemma_len_fits(tokens); }
    match peek(tokens, pos) {
        Peek::Eof => false,
        Peek::Token(tok) => match &tok.kind {
            TokenKind::Identifier(_) | TokenKind::String(_) | TokenKind::Number(_)
            | TokenKind::Symbol(Symbol::LBracket) => true,
            _ => false,
        },
    }
}

/// An accessor introduced at `p`: `get` or `set` followed by the start of
/// a property key.  `{ get }`, `{ get: v }` and `{ get() {} }` are none.
pub open spec fn spec_accessor_keyword_followed_by_key(t: Seq<Token>, p: int) -> Option<ObjectPropertyKind> {
    if spec_is_property_key_start(t, p + 1) {
        spec_accessor_keyword(t, p)
    } else {
        None
    }
}

fn accessor_keyword_followed_by_key(tokens: &[Token], pos: usize) -> (r: Option<ObjectPropertyKind>)
    requires
        pos <= tokens@.len(),
    ensures
        r == spec_accessor_keyword_followed_by_key(tokens@, pos as int),
{
    proof { lemma_len_fits(tokens); }
    match accessor_keyword(tokens, pos) {
        Some(kind) => if is_property_key_start(tokens, pos + 1) {
            Some(kind)
        } else {
            None
        },
        None => None,
    }
}

/// The accessor member whose key starts at `p` (just after `get`/`set`).
#[verifier::opaque]
pub open spec fn spec_parse_accessor_member(t: Seq<Token>, p: int, kind: ObjectPropertyKind) -> Result<(ObjectMember, nat), Error>
    decreases rem(t, p), 2nat when p <= t.len()
{
    let start_span = spec_span_before(t, p);
    match spec_parse_property_key(t, p) {
        Err(e) => Err(e),
        Ok(((key, computed), k1)) => match spec_parse_method_function(t, p + k1, start_span) {
            Err(e) => Err(e),
            Ok((value, k2)) => Ok((ObjectMember::Property { key, value, kind, computed, shorthand: false }, k1 + k2)),
        },
    }
}

fn parse_accessor_member(tokens: &[Token], pos: usize, kind: ObjectPropertyKind) -> (r: Result<(ObjectMember, usize), Error>)
    requires
        pos <= tokens@.len(),
    ensures
        agrees(r, spec_parse_accessor_member(tokens@, pos as int, kind), pos as int),
        advances(r, pos as int, tokens@.len() as int),
    decreases rem(tokens@, pos as int), 2nat,
{
    proof {
        reveal(spec_parse_accessor_member);
        reveal(spec_parse_property_key);
        reveal(spec_parse_method_function);
        lemma_len_fits(tokens);
    }
    let start_span = span_before(tokens, pos);
    let ((key, computed), after_key) = parse_property_key(tokens, pos)?;
    let (value, after_body) = parse_method_function(tokens, after_key, start_span)?;
    Ok((ObjectMember::Property { key, value, kind, computed, shorthand: false }, after_body))
}

/// A shorthand method `key(params) { body }` whose `(` is at `p`.
#[verifier::opaque]
pub open spec fn spec_parse_shorthand_method(t: Seq<Token>, p: int, key: PropertyKey, computed: bool) -> Result<(ObjectMember, nat), Error>
    decreases rem(t, p), 2nat when p <= t.len()
{
    match spec_parse_method_function(t, p, spec_span_before(t, p)) {
        Err(e) => Err(e),
        Ok((value, k)) => Ok((
            ObjectMember::Property { key, value, kind: ObjectPropertyKind::Method, computed, shorthand: false },
            k,
        )),
    }
}

fn parse_shorthand_method(tokens: &[Token], pos: usize, key: PropertyKey, computed: bool) -> (r: Result<(ObjectMember, usize), Error>)
    requires
        pos <= tokens@.len(),
    ensures
        agrees(r, spec_parse_shorthand_method(tokens@, pos as int, key, computed), pos as int),
        advances(r, pos as int, tokens@.len() as int),
    decreases rem(tokens@, pos as int), 2nat,
{
    proof {
        reveal(spec_parse_shorthand_method);
        reveal(spec_parse_method_function);
        lemma_len_fits(tokens);
    }
    let start_span = span_before(tokens, pos);
    let (value, after_body) = parse_method_function(tokens, pos, start_span)?;
    Ok((
        ObjectMember::Property { key, value, kind: ObjectPropertyKind::Method, computed, shorthand: false },
        after_body,
    ))
}

/// The `(params) { body }` of a getter, setter or shorthand method at
/// `p`, as an anonymous function expression spanning from `start_span`.
#[verifier::opaque]
pub open spec fn spec_parse_method_function(t: Seq<Token>, p: int, start_span: Span) -> Result<(Expression, nat), Error>
    decreases rem(t, p), 1nat when p <= t.len()
{
    match spec_parse_formal_parameters(t, p) {
        Err(e) => Err(e),
        Ok((params, k1)) => match spec_parse_block_body(t, p + k1) {
            Err(e) => Err(e),
            Ok((body, k2)) => {
                let span = Span { start: start_span.start, end: spec_span_at(t, p + k1 + k2 - 1).end };
                let func = Function { id: None, params, body, is_async: false, is_generator: false };
                Ok((Expression { kind: ExpressionKind::FunctionExpression(Box::new(func)), span }, k1 + k2))
            },
        },
    }
}

fn parse_method_function(tokens: &[Token], pos: usize, start_span: Span) -> (r: Result<(Expression, usize), Error>)
    requires
        pos <= tokens@.len(),
    ensures
        agrees(r, spec_parse_method_function(tokens@, pos as int, start_span), pos as int),
        advances(r, pos as int, tokens@.len() as int),
    decreases rem(tokens@, pos as int), 1nat,
{
    proof {
        reveal(spec_parse_method_function);
        reveal(spec_parse_formal_parameters);
        reveal(spec_parse_block_body);
        lemma_len_fits(tokens);
    }
    let (params, after_params) = parse_formal_parameters(tokens, pos)?;
    let (body, after_body) = parse_block_body(tokens, after_params)?;
    let span = Span { start: start_span.start, end: span_at(tokens, after_body - 1).end };
    let func = Function { id: None, params, body, is_async: false, is_generator: false };
    Ok((Expression { kind: ExpressionKind::FunctionExpression(Box::new(func)), span }, after_body))
}

/// The value of a shorthand property: the key's identifier as an
/// expression; other keys need an explicit `: value`.
pub open spec fn spec_shorthand_value(key: PropertyKey, span: Span) -> Result<Expression, Error> {
    match key {
        PropertyKey::Identifier(id) => Ok(Expression { kind: ExpressionKind::Identifier(id), span }),
        _ => Err(
            Error::UnexpectedToken {
                at: span,
                expected: "`:` (computed or literal keys require an explicit value)",
                found: Found::Note("shorthand-key without identifier"),
            },
        ),
    }
}

fn property_key_to_shorthand_value(key: &PropertyKey, span: Span) -> (r: Result<Expression, Error>)
    ensures
        r == spec_shorthand_value(*key, span),
{
    match key {
        PropertyKey::Identifier(id) => Ok(
            Expression { kind: ExpressionKind::Identifier(Identifier { name: id.name.duplicate() }), span },
        ),
        _ => Err(
            Error::UnexpectedToken {
                at: span,
                expected: "`:` (computed or literal keys require an explicit value)",
                found: Found::Note("shorthand-key without identifier"),
            },
        ),
    }
}

/// A property key at `p` (with whether it is computed): `[expression]`,
/// a string, a number, a private name, or an identifier or keyword.
#[verifier::opaque]
pub open spec fn spec_parse_property_key(t: Seq<Token>, p: int) -> Result<((PropertyKey, bool), nat), Error>
    decreases rem(t, p), 0nat when p <= t.len()
{
    match spec_peek(t, p) {
        None => Err(Error::UnexpectedEof { expected: "property key" }),
        Some(tok) => match tok.kind {
            TokenKind::Symbol(Symbol::LBracket) => match spec_parse_assignment_expression(t, p + 1) {
                Err(e) => Err(e),
                Ok((inner, k)) => match spec_expect_kind(t, p + 1 + k, Symbol::RBracket, "`]`") {
                    Err(e) => Err(e),
                    Ok(()) => Ok(((PropertyKey::Computed(Box::new(inner)), true), k + 2)),
                },
            },
            TokenKind::String(s) => Ok(((PropertyKey::String(s), false), 1)),
            TokenKind::Number(n) => Ok(((PropertyKey::Number(n), false), 1)),
            TokenKind::PrivateIdentifier(_) => match spec_expect_private_identifier(t, p) {
                Err(e) => Err(e),
                Ok((id, k)) => Ok(((PropertyKey::Private(id), false), k)),
            },
            _ => match spec_expect_identifier_or_keyword(t, p) {
                Err(e) => Err(e),
                Ok((id, k)) => Ok(((PropertyKey::Identifier(id), false), k)),
            },
        },
    }
}

fn parse_property_key(tokens: &[Token], pos: usize) -> (r: Result<((PropertyKey, bool), usize), Error>)
    requires
        pos <= tokens@.len(),
    ensures
        agrees(r, spec_parse_property_key(tokens@, pos as int), pos as int),
        advances(r, pos as int, tokens@.len() as int),
    decreases rem(tokens@, pos as int), 0nat,
{
    proof {
        reveal(spec_parse_property_key);
        reveal(spec_parse_assignment_expression);
        lemma_len_fits(tokens);
    }
    match peek(tokens, pos) {
        Peek::Eof => Err(Error::UnexpectedEof { expected: "property key" }),
        Peek::Token(tok) => match &tok.kind {
            TokenKind::Symbol(Symbol::LBracket) => {
                let (inner, after_inner) = parse_assignment_expression(tokens, pos + 1)?;
                let after_close = expect_kind(tokens, after_inner, Symbol::RBracket, "`]`")?;
                Ok(((PropertyKey::Computed(Box::new(inner)), true), after_close))
            },
            TokenKind::String(s) => Ok(((PropertyKey::String(s.clone()), false), pos + 1)),
            TokenKind::Number(n) => Ok(((PropertyKey::Number(*n), false), pos + 1)),
            TokenKind::PrivateIdentifier(_) => {
                let (id, after) = expect_private_identifier(tokens, pos)?;
                Ok(((PropertyKey::Private(id), false), after))
            },
            _ => {
                let (id, after) = expect_identifier_or_keyword(tokens, pos)?;
                Ok(((PropertyKey::Identifier(id), false), after))
            },
        },
    }
}

// ---------------------------------------------------------------------
// Function, class and import expressions
// ---------------------------------------------------------------------

/// `function [*] [name] (params) { body }` at `p`.
#[verifier::opaque]
pub open spec fn spec_parse_function_expression(t: Seq<Token>, p: int, is_async: bool) -> Result<(Expression, nat), Error>
    decreases rem(t, p), 0nat when p <= t.len()
{
    let start_span = spec_span_at(t, p);
    match spec_expect_kind(t, p, Symbol::KwFunction, "keyword `function`") {
        Err(e) => Err(e),
        Ok(()) => {
            let after_kw = p + 1;
            let is_generator = spec_is_kind(t, after_kw, Symbol::Star);
            let after_star = if is_generator { after_kw + 1 } else { after_kw };
            let named: Result<(Option<Identifier>, nat), Error> = if spec_is_kind_identifier(t, after_star) {
                match spec_expect_identifier(t, after_star) {
                    Err(e) => Err(e),
                    Ok((id, k)) => Ok((Some(id), k)),
                }
            } else {
                Ok((None, 0))
            };
            match named {
                Err(e) => Err(e),
                Ok((id, k1)) => {
                    let after_id = after_star + k1;
                    match spec_parse_formal_parameters(t, after_id) {
                        Err(e) => Err(e),
                        Ok((params, k2)) => match spec_parse_block_body(t, after_id + k2) {
                            Err(e) => Err(e),
                            Ok((body, k3)) => {
                                let after_body = after_id + k2 + k3;
                                let span = Span { start: start_span.start, end: spec_span_at(t, after_body - 1).end };
                                let func = Function { id, params, body, is_async, is_generator };
                                Ok((
                                    Expression { kind: ExpressionKind::FunctionExpression(Box::new(func)), span },
                                    (after_body - p) as nat,
                                ))
                            },
                        },
                    }
                },
            }
        },
    }
}

fn parse_function_expression(tokens: &[Token], pos: usize, is_async: bool) -> (r: Result<(Expression, usize), Error>)
    requires
        pos <= tokens@.len(),
    ensures
        agrees(r, spec_parse_function_expression(tokens@, pos as int, is_async), pos as int),
        advances(r, pos as int, tokens@.len() as int),
    decreases rem(tokens@, pos as int), 0nat,
{
    proof {
        reveal(spec_parse_function_expression);
        reveal(spec_parse_formal_parameters);
        reveal(spec_parse_block_body);
        lemma_len_fits(tokens);
    }
    let start_span = span_at(tokens, pos);
    let after_kw = expect_kind(tokens, pos, Symbol::KwFunction, "keyword `function`")?;
    let is_generator = is_kind(tokens, after_kw, Symbol::Star);
    let after_star = if is_generator { after_kw + 1 } else { after_kw };
    let (id, after_id) = if is_kind_identifier(tokens, after_star) {
        let (name, after) = expect_identifier(tokens, after_star)?;
        (Some(name), after)
    } else {
        (None, after_star)
    };
    let (params, after_params) = parse_formal_parameters(tokens, after_id)?;
    let (body, after_body) = parse_block_body(tokens, after_params)?;
    let span = Span { start: start_span.start, end: span_at(tokens, after_body - 1).end };
    let func = Function { id, params, body, is_async, is_generator };
    Ok((Expression { kind: ExpressionKind::FunctionExpression(Box::new(func)), span }, after_body))
}

/// A class expression at `p`, spanning from `class` to its `}`.
#[verifier::opaque]
pub open spec fn spec_parse_class_expression(t: Seq<Token>, p: int) -> Result<(Expression, nat), Error>
    decreases rem(t, p), 1nat when p <= t.len()
{
    match spec_parse_class(t, p) {
        Err(e) => Err(e),
        Ok((class, k)) => {
            let span = Span { start: spec_span_at(t, p).start, end: spec_span_at(t, p + k - 1).end };
            Ok((Expression { kind: ExpressionKind::ClassExpression(Box::new(class)), span }, k))
        },
    }
}

fn parse_class_expression(tokens: &[Token], pos: usize) -> (r: Result<(Expression, usize), Error>)
    requires
        pos <= tokens@.len(),
    ensures
        agrees(r, spec_parse_class_expression(tokens@, pos as int), pos as int),
        advances(r, pos as int, tokens@.len() as int),
    decreases rem(tokens@, pos as int), 1nat,
{
    proof {
        reveal(spec_parse_class_expression);
        reveal(spec_parse_class);
        lemma_len_fits(tokens);
    }
    let (class, end_pos) = parse_class(tokens, pos)?;
    let span = Span { start: span_at(tokens, pos).start, end: span_at(tokens, end_pos - 1).end };
    Ok((Expression { kind: ExpressionKind::ClassExpression(Box::new(class)), span }, end_pos))
}

/// `import.name` (its meta name the keyword `import`) or
/// `import(source [, options])`, with `import` at `p`.
#[verifier::opaque]
pub open spec fn spec_parse_import_expression(t: Seq<Token>, p: int) -> Result<(Expression, nat), Error>
    decreases rem(t, p), 0nat when p <= t.len()
{
    let start_span = spec_span_at(t, p);
    let after_kw = p + 1;
    if spec_is_kind(t, after_kw, Symbol::Dot) {
        match spec_expect_identifier_or_keyword(t, after_kw + 1) {
            Err(e) => Err(e),
            Ok((property, k1)) => {
                let meta = keyword_identifier("import");
                let after_name = after_kw + 1 + k1;
                let span = Span { start: start_span.start, end: spec_span_at(t, after_name - 1).end };
                Ok((Expression { kind: ExpressionKind::MetaProperty { meta, property }, span }, 2 + k1))
            },
        }
    } else {
        match spec_expect_kind(t, after_kw, Symbol::LParen, "`(`") {
            Err(e) => Err(e),
            Ok(()) => {
                let after_open = after_kw + 1;
                match spec_parse_assignment_expression(t, after_open) {
                    Err(e) => Err(e),
                    Ok((source, k1)) => {
                        let after_source = after_open + k1;
                        let opts: Result<(Option<Box<Expression>>, nat), Error> = if spec_is_kind(t, after_source, Symbol::Comma) {
                            match spec_parse_assignment_expression(t, after_source + 1) {
                                Err(e) => Err(e),
                                Ok((o, k)) => Ok((Some(Box::new(o)), k + 1)),
                            }
                        } else {
                            Ok((None, 0))
                        };
                        match opts {
                            Err(e) => Err(e),
                            Ok((options, k2)) => {
                                let after_options = after_source + k2;
                                match spec_expect_kind(t, after_options, Symbol::RParen, "`)`") {
                                    Err(e) => Err(e),
                                    Ok(()) => {
                                        let span = Span { start: start_span.start, end: spec_span_at(t, after_options).end };
                                        Ok((
                                            Expression {
                                                kind: ExpressionKind::ImportExpression { source: Box::new(source), options },
                                                span,
                                            },
                                            (after_options + 1 - p) as nat,
                                        ))
                                    },
                                }
                            },
                        }
                    },
                }
            },
        }
    }
}

#[verifier::spinoff_prover]
#[verifier::rlimit(60)]
fn parse_import_expression(tokens: &[Token], pos: usize) -> (r: Result<(Expression, usize), Error>)
    requires
        pos < tokens@.len(),
    ensures
        agrees(r, spec_parse_import_expression(tokens@, pos as int), pos as int),
        advances(r, pos as int, tokens@.len() as int),
    decreases rem(tokens@, pos as int), 0nat,
{
    proof {
        reveal(spec_parse_import_expression);
        reveal(spec_parse_assignment_expression);
        lemma_len_fits(tokens);
    }
    let start_span = span_at(tokens, pos);
    let after_kw = pos + 1;
    if is_kind(tokens, after_kw, Symbol::Dot) {
        let (property, after_name) = expect_identifier_or_keyword(tokens, after_kw + 1)?;
        let meta = Identifier { name: Name::Keyword("import") };
        let span = Span { start: start_span.start, end: span_at(tokens, after_name - 1).end };
        Ok((Expression { kind: ExpressionKind::MetaProperty { meta, property }, span }, after_name))
    } else {
        let after_open = expect_kind(tokens, after_kw, Symbol::LParen, "`(`")?;
        let (source, after_source) = parse_assignment_expression(tokens, after_open)?;
        let (options, after_options) = if is_kind(tokens, after_source, Symbol::Comma) {
            let (opts, after_opts) = parse_assignment_expression(tokens, after_source + 1)?;
            (Some(Box::new(opts)), after_opts)
        } else {
            (None, after_source)
        };
        let after_close = expect_kind(tokens, after_options, Symbol::RParen, "`)`")?;
        let span = Span { start: start_span.start, end: span_at(tokens, after_close - 1).end };
        Ok((
            Expression { kind: ExpressionKind::ImportExpression { source: Box::new(source), options }, span },
            after_close,
        ))
    }
}

} // verus!
