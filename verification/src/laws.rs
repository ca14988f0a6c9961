//! Properties of the parser as a whole.
//!
//! The parsing functions are each specified exactly by their `spec_*`
//! counterparts; the proof functions here state consequences that span
//! several of them: what distinguishes a Script from a Module, how
//! optional semicolons behave, how operator precedence and
//! parenthesised arrow parameters are read.

use vstd::prelude::*;
use crate::ast::{
    AssignmentOperator, BinaryOperator, Expression, ExpressionKind, Identifier, ImportSpecifier, List, LogicalOperator, Name,
    Class, ExportSpecifier, Function, VariableKind, ObjectMember, ObjectPatternMember, Pattern, PatternKind, UnaryOperator, UpdateOperator, ObjectPropertyKind, ModuleItem, ModuleItemKind, Program, ProgramKind, Statement,
    StatementKind,
};
use crate::error::Error;
use crate::expression::{
    spec_accessor_keyword_followed_by_key, spec_is_property_key_start, spec_is_word, next_min_precedence, spec_build_binary, spec_parse_binary_tail,
    spec_parse_call_tail, spec_parse_member_tail, spec_dispatch_primary, spec_parse_assignment_expression, spec_parse_assignment_tail,
    spec_parse_binary_expression, spec_parse_conditional_expression, spec_parse_expression,
    spec_parse_import_expression, spec_parse_lhs_expression, spec_parse_member_expression,
    spec_parse_new_or_member, spec_parse_primary_expression, spec_parse_unary_expression,
    spec_parse_update_expression, spec_try_parse_arrow_starter, spec_is_kind_identifier, spec_parse_unary_prefix,
    spec_parse_update_prefix,
};
use crate::pattern::{
    spec_convert_array, spec_convert_object, spec_reinterpret, spec_reinterpret_arrow_params, spec_unwrap_parenthesized,
};
use crate::precedence::{BinaryKind, MIN_PRECEDENCE, spec_assignment_operator, spec_binary_info};
use crate::program::{
    spec_collect_module_items, spec_collect_script_statements, spec_parse_module, spec_parse_script,
};
use crate::statement::{
    spec_dispatch_statement, spec_finish_classic_for, spec_finish_for_in, spec_finish_for_of,
    spec_parse_block_statement, spec_parse_break_or_continue, spec_parse_debugger,
    spec_parse_do_while, spec_parse_expression_statement, spec_parse_for,
    spec_parse_for_head, spec_parse_for_with_declaration, spec_parse_for_with_expression,
    spec_parse_for_with_full_expression, spec_lhs_before_in, spec_parse_array_binding_pattern,
    spec_parse_binding_pattern, spec_parse_object_binding_pattern,
    spec_parse_if, spec_parse_labeled, spec_parse_let_or_expression, spec_parse_return,
    spec_parse_statement, spec_parse_switch, spec_parse_throw, spec_parse_try,
    spec_parse_variable_declaration_statement, spec_parse_while, spec_parse_variable_declaration,
    spec_parse_block_body, spec_parse_catch_clause,
};
use crate::declaration::{spec_collect_class_members, spec_parse_class, spec_parse_function_declaration, spec_parse_function_declaration_optional_name};
use crate::module::{spec_collect_export_specifiers, spec_collect_named_imports, spec_is_import_call};
use crate::stream::{
    rem, spec_expect_identifier, spec_expect_kind, spec_identifier, spec_identifier_name, spec_is_kind, spec_peek, spec_span_at, spec_unexpected,
};
use crate::token::{Position, Span, Symbol, Token, TokenKind};

verus! {

// ---------------------------------------------------------------------
// Operator table
// ---------------------------------------------------------------------

/// Every binary operator binds at least as tightly as the precedence the
/// parser starts from, and `**` is the only right-associative one.
pub proof fn lemma_operator_table(kind: TokenKind)
    ensures
        spec_binary_info(kind) matches Some(info) ==> info.precedence >= MIN_PRECEDENCE
            && (info.right_assoc <==> kind == TokenKind::Symbol(Symbol::StarStar)),
{
}

// ---------------------------------------------------------------------
// Operator precedence
// ---------------------------------------------------------------------

/// The identifier expression that the identifier token at `q` stands
/// for.
pub open spec fn operand_at(t: Seq<Token>, q: int) -> Expression {
    match t[q].kind {
        TokenKind::Identifier(name) => Expression {
            kind: ExpressionKind::Identifier(Identifier { name: Name::Text(name) }),
            span: spec_span_at(t, q),
        },
        _ => Expression { kind: ExpressionKind::This, span: spec_span_at(t, q) },
    }
}

/// The token at `q` is an identifier that names a valid identifier.
pub open spec fn valid_identifier_at(t: Seq<Token>, q: int) -> bool {
    &&& 0 <= q < t.len()
    &&& t[q].kind matches TokenKind::Identifier(name) && spec_identifier(name) is Ok
}

/// Nothing at `q` extends an operand: no member access, call, optional
/// chain or postfix update.
pub open spec fn ends_operand(t: Seq<Token>, q: int) -> bool {
    &&& !spec_is_kind(t, q, Symbol::Dot)
    &&& !spec_is_kind(t, q, Symbol::LBracket)
    &&& !spec_is_kind(t, q, Symbol::LParen)
    &&& !spec_is_kind(t, q, Symbol::OptionalChain)
    &&& !spec_is_kind(t, q, Symbol::PlusPlus)
    &&& !spec_is_kind(t, q, Symbol::MinusMinus)
}

/// A valid identifier that nothing extends is a one-token operand.
proof fn lemma_identifier_operand(t: Seq<Token>, q: int)
    requires
        valid_identifier_at(t, q),
        ends_operand(t, q + 1),
    ensures
        spec_parse_unary_expression(t, q) == Ok::<(Expression, nat), Error>((operand_at(t, q), 1)),
{
    let a = operand_at(t, q);
    let tok = t[q];
    assert(spec_peek(t, q) == Some(tok));
    assert(spec_dispatch_primary(t, q, tok, spec_span_at(t, q)) == Ok::<(Expression, nat), Error>((a, 1))) by {
        reveal(spec_dispatch_primary);
    }
    assert(spec_parse_primary_expression(t, q) == Ok::<(Expression, nat), Error>((a, 1))) by {
        reveal(spec_parse_primary_expression);
        reveal(spec_dispatch_primary);
    }
    assert(spec_parse_member_tail(t, q + 1, a) == Ok::<(Expression, nat), Error>((a, 0))) by {
        reveal(spec_parse_member_tail);
    }
    assert(spec_parse_member_expression(t, q) == Ok::<(Expression, nat), Error>((a, 1))) by {
        reveal(spec_parse_member_expression);
        reveal(spec_parse_primary_expression);
        reveal(spec_parse_member_tail);
    }
    assert(spec_parse_new_or_member(t, q) == Ok::<(Expression, nat), Error>((a, 1))) by {
        reveal(spec_parse_new_or_member);
        reveal(spec_parse_member_expression);
    }
    assert(spec_parse_call_tail(t, q + 1, a) == Ok::<(Expression, nat), Error>((a, 0))) by {
        reveal(spec_parse_call_tail);
    }
    assert(spec_parse_lhs_expression(t, q) == Ok::<(Expression, nat), Error>((a, 1))) by {
        reveal(spec_parse_lhs_expression);
        reveal(spec_parse_new_or_member);
        reveal(spec_parse_call_tail);
    }
    assert(spec_parse_update_expression(t, q) == Ok::<(Expression, nat), Error>((a, 1))) by {
        reveal(spec_parse_update_expression);
        reveal(spec_parse_lhs_expression);
    }
    assert(spec_parse_unary_expression(t, q) == Ok::<(Expression, nat), Error>((a, 1))) by {
        reveal(spec_parse_unary_expression);
        reveal(spec_parse_update_expression);
    }
}

/// The tail of a binary expression stops before a token that is not a
/// binary operator.
proof fn lemma_tail_stops(t: Seq<Token>, q: int, lhs: Expression, min_prec: u8)
    requires
        0 <= q <= t.len(),
        spec_peek(t, q) matches Some(tok) ==> spec_binary_info(tok.kind) is None,
    ensures
        spec_parse_binary_tail(t, q, lhs, min_prec) == Ok::<(Expression, nat), Error>((lhs, 0)),
{
    reveal(spec_parse_binary_tail);
}

/// A valid identifier followed by a non-operator is a one-token binary
/// expression.
proof fn lemma_single_operand(t: Seq<Token>, q: int, min_prec: u8)
    requires
        valid_identifier_at(t, q),
        q + 1 <= t.len(),
        ends_operand(t, q + 1),
        spec_peek(t, q + 1) matches Some(tok) ==> spec_binary_info(tok.kind) is None,
    ensures
        spec_parse_binary_expression(t, q, min_prec) == Ok::<(Expression, nat), Error>((operand_at(t, q), 1)),
{
    lemma_identifier_operand(t, q);
    lemma_tail_stops(t, q + 1, operand_at(t, q), min_prec);
    reveal(spec_parse_binary_expression);
    reveal(spec_parse_unary_expression);
    reveal(spec_parse_binary_tail);
}

/// Whether the token at `q` is a binary operator that ends no operand.
pub open spec fn binary_operator_at(t: Seq<Token>, q: int) -> bool {
    0 <= q < t.len() && t[q].kind != TokenKind::Symbol(Symbol::Eof) && spec_binary_info(t[q].kind) is Some
}

/// Tokens `a op1 b op2 c` at `p`, with identifiers `a`, `b`, `c`, binary
/// operators `op1`, `op2`, and then a `;` or the end of input.
pub open spec fn two_operator_expression(t: Seq<Token>, p: int) -> bool {
    &&& valid_identifier_at(t, p)
    &&& binary_operator_at(t, p + 1)
    &&& valid_identifier_at(t, p + 2)
    &&& binary_operator_at(t, p + 3)
    &&& valid_identifier_at(t, p + 4)
    &&& p + 5 <= t.len()
    &&& spec_peek(t, p + 5) matches Some(tok) ==> tok.kind == TokenKind::Symbol(Symbol::Semicolon)
}

/// The grouping precedence climbing gives `a op1 b op2 c` at `p`.
pub open spec fn climbed(t: Seq<Token>, p: int) -> Expression {
    let info1 = spec_binary_info(t[p + 1].kind)->0;
    let info2 = spec_binary_info(t[p + 3].kind)->0;
    let (a, b, c) = (operand_at(t, p), operand_at(t, p + 2), operand_at(t, p + 4));
    if info2.precedence >= next_min_precedence(info1) {
        spec_build_binary(info1.op, a, spec_build_binary(info2.op, b, c))
    } else {
        spec_build_binary(info2.op, spec_build_binary(info1.op, a, b), c)
    }
}

/// Each operand of `a op1 b op2 c` is one token, and both operators
/// bind at least as tightly as the starting precedence.
proof fn lemma_operands(t: Seq<Token>, p: int)
    requires
        two_operator_expression(t, p),
    ensures
        spec_parse_unary_expression(t, p) == Ok::<(Expression, nat), Error>((operand_at(t, p), 1)),
        spec_parse_unary_expression(t, p + 2) == Ok::<(Expression, nat), Error>((operand_at(t, p + 2), 1)),
        spec_parse_binary_expression(t, p + 4, next_min_precedence(spec_binary_info(t[p + 3].kind)->0))
            == Ok::<(Expression, nat), Error>((operand_at(t, p + 4), 1)),
        spec_binary_info(t[p + 1].kind)->0.precedence >= MIN_PRECEDENCE,
        spec_binary_info(t[p + 3].kind)->0.precedence >= MIN_PRECEDENCE,
        spec_peek(t, p + 1) == Some(t[p + 1]),
        spec_peek(t, p + 3) == Some(t[p + 3]),
{
    lemma_operator_table(t[p + 1].kind);
    lemma_operator_table(t[p + 3].kind);
    assert(spec_peek(t, p + 1) == Some(t[p + 1]));
    assert(spec_peek(t, p + 3) == Some(t[p + 3]));
    assert(ends_operand(t, p + 1));
    assert(ends_operand(t, p + 3));
    assert(ends_operand(t, p + 5));
    lemma_identifier_operand(t, p);
    lemma_identifier_operand(t, p + 2);
    lemma_single_operand(t, p + 4, next_min_precedence(spec_binary_info(t[p + 3].kind)->0));
}

/// `a op1 (b op2 c)` when `op2` binds at least as tightly as the operand
/// after `op1` must.
#[verifier::rlimit(30)]
proof fn lemma_groups_right(t: Seq<Token>, p: int)
    requires
        two_operator_expression(t, p),
        spec_binary_info(t[p + 3].kind)->0.precedence >= next_min_precedence(spec_binary_info(t[p + 1].kind)->0),
    ensures
        spec_parse_binary_expression(t, p, MIN_PRECEDENCE) == Ok::<(Expression, nat), Error>((climbed(t, p), 5)),
{
    let info1 = spec_binary_info(t[p + 1].kind)->0;
    let info2 = spec_binary_info(t[p + 3].kind)->0;
    let (a, b, c) = (operand_at(t, p), operand_at(t, p + 2), operand_at(t, p + 4));
    lemma_operands(t, p);
    let bc = spec_build_binary(info2.op, b, c);
    lemma_tail_stops(t, p + 5, bc, next_min_precedence(info1));
    assert(spec_parse_binary_tail(t, p + 3, b, next_min_precedence(info1)) == Ok::<(Expression, nat), Error>((bc, 2))) by {
        reveal(spec_parse_binary_tail);
        reveal(spec_parse_binary_expression);
    }
    assert(spec_parse_binary_expression(t, p + 2, next_min_precedence(info1)) == Ok::<(Expression, nat), Error>((bc, 3))) by {
        reveal(spec_parse_binary_expression);
        reveal(spec_parse_unary_expression);
        reveal(spec_parse_binary_tail);
    }
    let abc = spec_build_binary(info1.op, a, bc);
    lemma_tail_stops(t, p + 5, abc, MIN_PRECEDENCE);
    assert(spec_parse_binary_tail(t, p + 1, a, MIN_PRECEDENCE) == Ok::<(Expression, nat), Error>((abc, 4))) by {
        reveal(spec_parse_binary_tail);
        reveal(spec_parse_binary_expression);
    }
    assert(spec_parse_binary_expression(t, p, MIN_PRECEDENCE) == Ok::<(Expression, nat), Error>((abc, 5))) by {
        reveal(spec_parse_binary_expression);
        reveal(spec_parse_unary_expression);
        reveal(spec_parse_binary_tail);
    }
}

/// `(a op1 b) op2 c` when `op2` binds less tightly than the operand after
/// `op1` must.
#[verifier::rlimit(30)]
proof fn lemma_groups_left(t: Seq<Token>, p: int)
    requires
        two_operator_expression(t, p),
        spec_binary_info(t[p + 3].kind)->0.precedence < next_min_precedence(spec_binary_info(t[p + 1].kind)->0),
    ensures
        spec_parse_binary_expression(t, p, MIN_PRECEDENCE) == Ok::<(Expression, nat), Error>((climbed(t, p), 5)),
{
    let info1 = spec_binary_info(t[p + 1].kind)->0;
    let info2 = spec_binary_info(t[p + 3].kind)->0;
    let (a, b, c) = (operand_at(t, p), operand_at(t, p + 2), operand_at(t, p + 4));
    lemma_operands(t, p);
    assert(spec_parse_binary_tail(t, p + 3, b, next_min_precedence(info1)) == Ok::<(Expression, nat), Error>((b, 0))) by {
        reveal(spec_parse_binary_tail);
    }
    assert(spec_parse_binary_expression(t, p + 2, next_min_precedence(info1)) == Ok::<(Expression, nat), Error>((b, 1))) by {
        reveal(spec_parse_binary_expression);
        reveal(spec_parse_unary_expression);
        reveal(spec_parse_binary_tail);
    }
    let ab = spec_build_binary(info1.op, a, b);
    let abc = spec_build_binary(info2.op, ab, c);
    lemma_tail_stops(t, p + 5, abc, MIN_PRECEDENCE);
    assert(spec_parse_binary_tail(t, p + 3, ab, MIN_PRECEDENCE) == Ok::<(Expression, nat), Error>((abc, 2))) by {
        reveal(spec_parse_binary_tail);
        reveal(spec_parse_binary_expression);
    }
    assert(spec_parse_binary_tail(t, p + 1, a, MIN_PRECEDENCE) == Ok::<(Expression, nat), Error>((abc, 4))) by {
        reveal(spec_parse_binary_tail);
        reveal(spec_parse_binary_expression);
    }
    assert(spec_parse_binary_expression(t, p, MIN_PRECEDENCE) == Ok::<(Expression, nat), Error>((abc, 5))) by {
        reveal(spec_parse_binary_expression);
        reveal(spec_parse_unary_expression);
        reveal(spec_parse_binary_tail);
    }
}

/// The expression `a op1 b op2 c` is grouped by precedence climbing:
/// `a op1 (b op2 c)` when `op2` binds tighter than `op1`, or as tightly
/// and `op1` is the right-associative `**`; `(a op1 b) op2 c` otherwise.
/// The five tokens are consumed; the `;` or end of input after them is not.
pub proof fn lemma_precedence(t: Seq<Token>, p: int)
    requires
        two_operator_expression(t, p),
    ensures
        spec_parse_expression(t, p) == Ok::<(Expression, nat), Error>((climbed(t, p), 5)),
{
    let grouped = climbed(t, p);
    if spec_binary_info(t[p + 3].kind)->0.precedence >= next_min_precedence(spec_binary_info(t[p + 1].kind)->0) {
        lemma_groups_right(t, p);
    } else {
        lemma_groups_left(t, p);
    }
    assert(spec_parse_conditional_expression(t, p) == Ok::<(Expression, nat), Error>((grouped, 5))) by {
        reveal(spec_parse_conditional_expression);
        reveal(spec_parse_binary_expression);
    }
    assert(spec_parse_assignment_tail(t, p) == Ok::<(Expression, nat), Error>((grouped, 5))) by {
        reveal(spec_parse_assignment_tail);
        reveal(spec_parse_conditional_expression);
    }
    assert(spec_try_parse_arrow_starter(t, p) == Ok::<Option<(Expression, nat)>, Error>(None)) by {
        reveal(spec_try_parse_arrow_starter);
    }
    assert(spec_parse_assignment_expression(t, p) == Ok::<(Expression, nat), Error>((grouped, 5))) by {
        reveal(spec_parse_assignment_expression);
        reveal(spec_try_parse_arrow_starter);
        reveal(spec_parse_assignment_tail);
    }
    assert(spec_parse_expression(t, p) == Ok::<(Expression, nat), Error>((grouped, 5))) by {
        reveal(spec_parse_expression);
        reveal(spec_parse_assignment_expression);
    }
}

// ---------------------------------------------------------------------
// Scripts and modules
// ---------------------------------------------------------------------

/// The error a statement reports when its first token cannot start an
/// expression.
proof fn lemma_not_an_expression(t: Seq<Token>, p: int, tok: Token)
    requires
        0 <= p < t.len(),
        t[p] == tok,
        tok.kind != TokenKind::Symbol(Symbol::Eof),
        spec_dispatch_primary(t, p, tok, spec_span_at(t, p)) == Err::<(Expression, nat), Error>(spec_unexpected(tok, "expression")),
        !(tok.kind matches TokenKind::Identifier(_)),
        tok.kind != TokenKind::Symbol(Symbol::LParen),
        tok.kind != TokenKind::Symbol(Symbol::KwNew),
        spec_binary_info(tok.kind) is None,
        spec_parse_unary_expression(t, p) == spec_parse_update_expression(t, p),
    ensures
        spec_parse_expression(t, p) == Err::<(Expression, nat), Error>(spec_unexpected(tok, "expression")),
{
    let e = spec_unexpected(tok, "expression");
    assert(spec_parse_primary_expression(t, p) == Err::<(Expression, nat), Error>(e)) by {
        reveal(spec_parse_primary_expression);
        reveal(spec_dispatch_primary);
    }
    assert(spec_parse_member_expression(t, p) == Err::<(Expression, nat), Error>(e)) by {
        reveal(spec_parse_member_expression);
        reveal(spec_parse_primary_expression);
    }
    assert(spec_parse_new_or_member(t, p) == Err::<(Expression, nat), Error>(e)) by {
        reveal(spec_parse_new_or_member);
        reveal(spec_parse_member_expression);
    }
    assert(spec_parse_lhs_expression(t, p) == Err::<(Expression, nat), Error>(e)) by {
        reveal(spec_parse_lhs_expression);
        reveal(spec_parse_new_or_member);
    }
    assert(spec_parse_update_expression(t, p) == Err::<(Expression, nat), Error>(e)) by {
        reveal(spec_parse_update_expression);
        reveal(spec_parse_lhs_expression);
    }
    assert(spec_parse_binary_expression(t, p, MIN_PRECEDENCE) == Err::<(Expression, nat), Error>(e)) by {
        reveal(spec_parse_binary_expression);
        reveal(spec_parse_unary_expression);
    }
    assert(spec_parse_conditional_expression(t, p) == Err::<(Expression, nat), Error>(e)) by {
        reveal(spec_parse_conditional_expression);
        reveal(spec_parse_binary_expression);
    }
    assert(spec_parse_assignment_tail(t, p) == Err::<(Expression, nat), Error>(e)) by {
        reveal(spec_parse_assignment_tail);
        reveal(spec_parse_conditional_expression);
    }
    assert(spec_try_parse_arrow_starter(t, p) == Ok::<Option<(Expression, nat)>, Error>(None)) by {
        reveal(spec_try_parse_arrow_starter);
    }
    assert(spec_parse_assignment_expression(t, p) == Err::<(Expression, nat), Error>(e)) by {
        reveal(spec_parse_assignment_expression);
        reveal(spec_try_parse_arrow_starter);
        reveal(spec_parse_assignment_tail);
    }
    assert(spec_parse_expression(t, p) == Err::<(Expression, nat), Error>(e)) by {
        reveal(spec_parse_expression);
        reveal(spec_parse_assignment_expression);
    }
}

/// No statement starts with `export`: where a Script's statement would
/// begin with it, parsing fails, reporting the `export` token where an
/// expression was expected.
pub proof fn lemma_statement_rejects_export(t: Seq<Token>, p: int)
    requires
        0 <= p < t.len(),
        t[p].kind == TokenKind::Symbol(Symbol::KwExport),
    ensures
        spec_parse_statement(t, p) == Err::<(Statement, nat), Error>(spec_unexpected(t[p], "expression")),
{
    let tok = t[p];
    let span = spec_span_at(t, p);
    let e = spec_unexpected(tok, "expression");
    assert(spec_dispatch_primary(t, p, tok, span) == Err::<(Expression, nat), Error>(e)) by {
        reveal(spec_dispatch_primary);
    }
    assert(spec_parse_unary_expression(t, p) == spec_parse_update_expression(t, p)) by {
        reveal(spec_parse_unary_expression);
        reveal(spec_parse_update_expression);
    }
    lemma_not_an_expression(t, p, tok);
    assert(spec_parse_expression_statement(t, p, span) == Err::<(Statement, nat), Error>(e)) by {
        reveal(spec_parse_expression_statement);
        reveal(spec_parse_expression);
    }
    assert(spec_dispatch_statement(t, p, tok, span) == Err::<(Statement, nat), Error>(e)) by {
        reveal(spec_dispatch_statement);
        reveal(spec_parse_expression_statement);
    }
    reveal(spec_parse_statement);
    reveal(spec_dispatch_statement);
}

/// No statement starts with an `import` declaration: `import` that is
/// not followed by `(` or `.` is read as an `import(...)` call and
/// fails where the `(` is missing.
pub proof fn lemma_statement_rejects_import(t: Seq<Token>, p: int)
    requires
        0 <= p < t.len(),
        t[p].kind == TokenKind::Symbol(Symbol::KwImport),
        !spec_is_kind(t, p + 1, Symbol::LParen),
        !spec_is_kind(t, p + 1, Symbol::Dot),
    ensures
        match spec_expect_kind(t, p + 1, Symbol::LParen, "`(`") {
            Err(e) => spec_parse_statement(t, p) == Err::<(Statement, nat), Error>(e),
            Ok(()) => false,
        },
{
    let tok = t[p];
    let span = spec_span_at(t, p);
    let e = match spec_expect_kind(t, p + 1, Symbol::LParen, "`(`") {
        Err(e) => e,
        Ok(()) => arbitrary(),
    };
    assert(spec_parse_import_expression(t, p) == Err::<(Expression, nat), Error>(e)) by {
        reveal(spec_parse_import_expression);
    }
    assert(spec_dispatch_primary(t, p, tok, span) == Err::<(Expression, nat), Error>(e)) by {
        reveal(spec_dispatch_primary);
        reveal(spec_parse_import_expression);
    }
    assert(spec_parse_primary_expression(t, p) == Err::<(Expression, nat), Error>(e)) by {
        reveal(spec_parse_primary_expression);
        reveal(spec_dispatch_primary);
    }
    assert(spec_parse_member_expression(t, p) == Err::<(Expression, nat), Error>(e)) by {
        reveal(spec_parse_member_expression);
        reveal(spec_parse_primary_expression);
    }
    assert(spec_parse_new_or_member(t, p) == Err::<(Expression, nat), Error>(e)) by {
        reveal(spec_parse_new_or_member);
        reveal(spec_parse_member_expression);
    }
    assert(spec_parse_lhs_expression(t, p) == Err::<(Expression, nat), Error>(e)) by {
        reveal(spec_parse_lhs_expression);
        reveal(spec_parse_new_or_member);
    }
    assert(spec_parse_update_expression(t, p) == Err::<(Expression, nat), Error>(e)) by {
        reveal(spec_parse_update_expression);
        reveal(spec_parse_lhs_expression);
    }
    assert(spec_parse_unary_expression(t, p) == Err::<(Expression, nat), Error>(e)) by {
        reveal(spec_parse_unary_expression);
        reveal(spec_parse_update_expression);
    }
    assert(spec_parse_binary_expression(t, p, MIN_PRECEDENCE) == Err::<(Expression, nat), Error>(e)) by {
        reveal(spec_parse_binary_expression);
        reveal(spec_parse_unary_expression);
    }
    assert(spec_parse_conditional_expression(t, p) == Err::<(Expression, nat), Error>(e)) by {
        reveal(spec_parse_conditional_expression);
        reveal(spec_parse_binary_expression);
    }
    assert(spec_parse_assignment_tail(t, p) == Err::<(Expression, nat), Error>(e)) by {
        reveal(spec_parse_assignment_tail);
        reveal(spec_parse_conditional_expression);
    }
    assert(spec_try_parse_arrow_starter(t, p) == Ok::<Option<(Expression, nat)>, Error>(None)) by {
        reveal(spec_try_parse_arrow_starter);
    }
    assert(spec_parse_assignment_expression(t, p) == Err::<(Expression, nat), Error>(e)) by {
        reveal(spec_parse_assignment_expression);
        reveal(spec_try_parse_arrow_starter);
        reveal(spec_parse_assignment_tail);
    }
    assert(spec_parse_expression(t, p) == Err::<(Expression, nat), Error>(e)) by {
        reveal(spec_parse_expression);
        reveal(spec_parse_assignment_expression);
    }
    assert(spec_parse_expression_statement(t, p, span) == Err::<(Statement, nat), Error>(e)) by {
        reveal(spec_parse_expression_statement);
        reveal(spec_parse_expression);
    }
    assert(spec_dispatch_statement(t, p, tok, span) == Err::<(Statement, nat), Error>(e)) by {
        reveal(spec_dispatch_statement);
        reveal(spec_parse_expression_statement);
    }
    reveal(spec_parse_statement);
    reveal(spec_dispatch_statement);
}

/// A Script whose first token is `export` is rejected.
pub proof fn lemma_script_rejects_export(t: Seq<Token>)
    requires
        t.len() > 0,
        t[0].kind == TokenKind::Symbol(Symbol::KwExport),
    ensures
        spec_parse_script(t) == Err::<Program, Error>(spec_unexpected(t[0], "expression")),
{
    lemma_statement_rejects_export(t, 0);
    reveal(spec_collect_script_statements);
    reveal(spec_parse_statement);
}

/// Every item of a module body is a statement, and these are
/// `statements`, one for one and in order.
pub open spec fn items_are_statements(items: List<ModuleItem>, statements: List<Statement>) -> bool
    decreases items,
{
    match (items, statements) {
        (List::Nil, List::Nil) => true,
        (List::Cons(item, rest_items), List::Cons(statement, rest)) => item.kind == ModuleItemKind::Statement(*statement)
            && items_are_statements(*rest_items, *rest),
        _ => false,
    }
}

/// No token is `import` or `export`.
pub open spec fn without_module_keywords(t: Seq<Token>) -> bool {
    forall|i: int| 0 <= i < t.len() ==> #[trigger] t[i].kind != TokenKind::Symbol(Symbol::KwImport)
        && t[i].kind != TokenKind::Symbol(Symbol::KwExport)
}

/// A Module and a Script parsed from the same tokens agree: both fail
/// with the same error, or both succeed with the same span and every
/// item of the Module is a statement, the Script's statements one for
/// one.
pub open spec fn same_program(module: Result<Program, Error>, script: Result<Program, Error>) -> bool {
    match (module, script) {
        (Ok(m), Ok(s)) => m.span == s.span && match (m.kind, s.kind) {
            (ProgramKind::Module { body: items }, ProgramKind::Script { body: statements }) =>
                items_are_statements(items, statements),
            _ => false,
        },
        (Err(e1), Err(e2)) => e1 == e2,
        _ => false,
    }
}

/// The Module items and the Script statements collected from `p` on
/// agree, where the Script's statements parse or no token is `import`
/// or `export`.
proof fn lemma_collectors_agree(t: Seq<Token>, p: int)
    requires
        0 <= p <= t.len(),
        without_module_keywords(t) || spec_collect_script_statements(t, p) is Ok,
    ensures
        match (spec_collect_module_items(t, p), spec_collect_script_statements(t, p)) {
            (Ok((items, k1)), Ok((statements, k2))) => items_are_statements(items, statements) && k1 == k2,
            (Err(e1), Err(e2)) => e1 == e2,
            _ => false,
        },
    decreases rem(t, p),
{
    reveal(spec_collect_module_items);
    reveal(spec_collect_script_statements);
    match spec_peek(t, p) {
        None => {},
        Some(tok) => {
            assert(tok == t[p]);
            if !without_module_keywords(t) {
                if tok.kind == TokenKind::Symbol(Symbol::KwExport) {
                    lemma_statement_rejects_export(t, p);
                } else if tok.kind == TokenKind::Symbol(Symbol::KwImport) && !spec_is_import_call(t, p) {
                    lemma_statement_rejects_import(t, p);
                }
            }
            match spec_parse_statement(t, p) {
                Err(_) => {},
                Ok((stmt, k)) => {
                    if k > 0 && p + k <= t.len() {
                        lemma_collectors_agree(t, p + k);
                    }
                },
            }
        },
    }
}

/// On tokens with no `import` or `export` keyword, parsing as a Module and
/// parsing as a Script agree: the same error, or the same span and the
/// Module's items being exactly the Script's statements.
pub proof fn lemma_module_agrees_with_script(t: Seq<Token>)
    requires
        without_module_keywords(t),
    ensures
        same_program(spec_parse_module(t), spec_parse_script(t)),
{
    lemma_collectors_agree(t, 0);
}

/// Whatever parses as a Script parses as a Module too, with the same
/// span, and the Module's items are the Script's statements one for one.
pub proof fn lemma_script_parses_as_module(t: Seq<Token>)
    requires
        spec_parse_script(t) is Ok,
    ensures
        spec_parse_module(t) is Ok,
        same_program(spec_parse_module(t), spec_parse_script(t)),
{
    lemma_collectors_agree(t, 0);
}

// ---------------------------------------------------------------------
// Statement spans
// ---------------------------------------------------------------------

/// Whether a statement parse result, if any, starts at `start`.
pub open spec fn starts_at(r: Result<(Statement, nat), Error>, start: Position) -> bool {
    r matches Ok((s, _)) ==> s.span.start == start
}

/// Every kind of `for` loop spans from `start_span` on.
proof fn lemma_for_starts(t: Seq<Token>, p: int, start_span: Span)
    requires
        0 <= p <= t.len(),
    ensures
        starts_at(spec_parse_for(t, p, start_span), start_span.start),
{
    let is_await = spec_is_kind(t, p + 1, Symbol::KwAwait);
    let q = if is_await { p + 3 } else { p + 2 };
    if q <= t.len() {
        assert(starts_at(spec_parse_for_head(t, q, is_await, start_span), start_span.start)) by {
            reveal(spec_parse_for_head);
            reveal(spec_finish_classic_for);
            reveal(spec_parse_for_with_declaration);
            reveal(spec_parse_for_with_expression);
            reveal(spec_lhs_before_in);
            reveal(spec_parse_for_with_full_expression);
            reveal(spec_finish_for_in);
            reveal(spec_finish_for_of);
        }
    }
    reveal(spec_parse_for);
    reveal(spec_parse_for_head);
}

/// Every statement spans from the start of its first token.
pub proof fn lemma_statement_starts_at_first_token(t: Seq<Token>, p: int)
    requires
        0 <= p <= t.len(),
    ensures
        starts_at(spec_parse_statement(t, p), t[p].span.start),
{
    if p < t.len() {
        let tok = t[p];
        let span = spec_span_at(t, p);
        lemma_for_starts(t, p, span);
        assert(starts_at(spec_dispatch_statement(t, p, tok, span), span.start)) by {
            reveal(spec_dispatch_statement);
            reveal(spec_parse_block_statement);
            reveal(spec_parse_debugger);
            reveal(spec_parse_if);
            reveal(spec_parse_switch);
            reveal(spec_parse_for);
            reveal(spec_parse_while);
            reveal(spec_parse_do_while);
            reveal(spec_parse_return);
            reveal(spec_parse_throw);
            reveal(spec_parse_try);
            reveal(spec_parse_break_or_continue);
            reveal(spec_parse_variable_declaration_statement);
            reveal(spec_parse_let_or_expression);
            reveal(spec_parse_labeled);
            reveal(spec_parse_expression_statement);
        }
    }
    reveal(spec_parse_statement);
    reveal(spec_dispatch_statement);
}

// ---------------------------------------------------------------------
// Optional semicolons
// ---------------------------------------------------------------------

/// An expression statement ends with `;`, which it consumes; before `}`
/// or at the end of input the `;` may be left out; any other token after
/// the expression is an error asking for `;` or `}`.  The statement's
/// span never covers the `;`.
pub proof fn lemma_optional_semicolon(t: Seq<Token>, p: int, start_span: Span)
    requires
        0 <= p <= t.len(),
    ensures
        match spec_parse_expression(t, p) {
            Err(e) => spec_parse_expression_statement(t, p, start_span) == Err::<(Statement, nat), Error>(e),
            Ok((expression, k)) => {
                let span = Span { start: start_span.start, end: spec_span_at(t, p + k - 1).end };
                let stmt = Statement { kind: StatementKind::Expression { expression }, span };
                match spec_peek(t, p + k) {
                    None => spec_parse_expression_statement(t, p, start_span) == Ok::<(Statement, nat), Error>((stmt, k)),
                    Some(tok) => if tok.kind == TokenKind::Symbol(Symbol::Semicolon) {
                        spec_parse_expression_statement(t, p, start_span) == Ok::<(Statement, nat), Error>((stmt, k + 1))
                    } else if tok.kind == TokenKind::Symbol(Symbol::RBrace) {
                        spec_parse_expression_statement(t, p, start_span) == Ok::<(Statement, nat), Error>((stmt, k))
                    } else {
                        spec_parse_expression_statement(t, p, start_span) == Err::<(Statement, nat), Error>(
                            spec_unexpected(tok, "`;` or `}`"),
                        )
                    },
                }
            },
        },
{
    reveal(spec_parse_expression_statement);
    reveal(spec_parse_expression);
}

// ---------------------------------------------------------------------
// Accessors in object literals
// ---------------------------------------------------------------------

/// `get` or `set` introduces an accessor only when a property key
/// follows it: before `,`, `}`, `:` or `(` it is an ordinary property
/// name (`{ get }`, `{ get: v }`, `{ get() {} }`), and before an
/// identifier, a string, a number or `[` it is an accessor of its kind.
pub proof fn lemma_accessor_needs_key(t: Seq<Token>, p: int)
    requires
        0 <= p,
    ensures
        spec_is_kind(t, p + 1, Symbol::Comma) || spec_is_kind(t, p + 1, Symbol::RBrace)
            || spec_is_kind(t, p + 1, Symbol::Colon) || spec_is_kind(t, p + 1, Symbol::LParen)
            ==> spec_accessor_keyword_followed_by_key(t, p) is None,
        spec_is_word(t, p, "get") && spec_is_property_key_start(t, p + 1)
            ==> spec_accessor_keyword_followed_by_key(t, p) == Some(ObjectPropertyKind::Getter),
        spec_is_word(t, p, "set") && spec_is_property_key_start(t, p + 1)
            ==> spec_accessor_keyword_followed_by_key(t, p) == Some(ObjectPropertyKind::Setter),
{
    reveal_strlit("get");
    reveal_strlit("set");
    assert("get"@[0] != "set"@[0]);
}

// ---------------------------------------------------------------------
// Arrow parameters
// ---------------------------------------------------------------------

/// Parentheses around a destructuring target or an arrow function's
/// parameter list do not change what it stands for.
pub proof fn lemma_parentheses_transparent(inner: Expression, span: Span)
    ensures
        ({
            let wrapped = Expression { kind: ExpressionKind::Parenthesized { expression: Box::new(inner) }, span };
            &&& spec_reinterpret(wrapped) == spec_reinterpret(inner)
            &&& spec_reinterpret_arrow_params(wrapped) == spec_reinterpret_arrow_params(inner)
        }),
{
    let wrapped = Expression { kind: ExpressionKind::Parenthesized { expression: Box::new(inner) }, span };
    assert(spec_unwrap_parenthesized(wrapped) == spec_unwrap_parenthesized(inner));
}

// ---------------------------------------------------------------------
// Functions
// ---------------------------------------------------------------------

/// A function declaration that parses with its name parses the same where
/// the name may be left out.
#[verifier::spinoff_prover]
#[verifier::rlimit(30)]
pub proof fn lemma_named_function_parses_with_optional_name(t: Seq<Token>, p: int)
    requires
        0 <= p <= t.len(),
        spec_parse_function_declaration(t, p) is Ok,
    ensures
        spec_parse_function_declaration_optional_name(t, p) == spec_parse_function_declaration(t, p),
{
    reveal(spec_parse_function_declaration);
    let after_star = if spec_is_kind(t, p + 1, Symbol::Star) { p + 2 } else { p + 1 };
    assert(spec_expect_identifier(t, after_star) is Ok);
    assert(spec_is_kind_identifier(t, after_star));
}

// ---------------------------------------------------------------------
// Binding patterns
// ---------------------------------------------------------------------

/// A binding pattern (what a declarator, a `catch` parameter or a rest
/// element binds) never takes a default: an `=` after it is left to the
/// declarator, whose initialiser it starts.
pub proof fn lemma_binding_pattern_takes_no_default(t: Seq<Token>, p: int)
    requires
        0 <= p <= t.len(),
    ensures
        spec_parse_binding_pattern(t, p) matches Ok((pattern, _)) ==> !(pattern.kind is Assignment),
{
    reveal(spec_parse_binding_pattern);
    reveal(spec_parse_array_binding_pattern);
    reveal(spec_parse_object_binding_pattern);
}

// ---------------------------------------------------------------------
// Operators by their spelling
// ---------------------------------------------------------------------

/// How a binary or logical operator token is written in source text;
/// `None` for every other symbol.
pub open spec fn operator_symbol_spelling(s: Symbol) -> Option<&'static str> {
    match s {
        Symbol::QQ => Some("??"),
        Symbol::PipePipe => Some("||"),
        Symbol::AmpAmp => Some("&&"),
        Symbol::Pipe => Some("|"),
        Symbol::Caret => Some("^"),
        Symbol::Amp => Some("&"),
        Symbol::EqEq => Some("=="),
        Symbol::BangEq => Some("!="),
        Symbol::EqEqEq => Some("==="),
        Symbol::BangEqEq => Some("!=="),
        Symbol::Lt => Some("<"),
        Symbol::LtEq => Some("<="),
        Symbol::Gt => Some(">"),
        Symbol::GtEq => Some(">="),
        Symbol::KwInstanceof => Some("instanceof"),
        Symbol::KwIn => Some("in"),
        Symbol::LtLt => Some("<<"),
        Symbol::GtGt => Some(">>"),
        Symbol::GtGtGt => Some(">>>"),
        Symbol::Plus => Some("+"),
        Symbol::Minus => Some("-"),
        Symbol::Star => Some("*"),
        Symbol::Slash => Some("/"),
        Symbol::Percent => Some("%"),
        Symbol::StarStar => Some("**"),
        _ => None,
    }
}

/// How a binary operator of the tree is written in source text.
pub open spec fn binary_operator_spelling(op: BinaryOperator) -> &'static str {
    match op {
        BinaryOperator::Equal => "==",
        BinaryOperator::NotEqual => "!=",
        BinaryOperator::StrictEqual => "===",
        BinaryOperator::StrictNotEqual => "!==",
        BinaryOperator::LessThan => "<",
        BinaryOperator::LessThanOrEqual => "<=",
        BinaryOperator::GreaterThan => ">",
        BinaryOperator::GreaterThanOrEqual => ">=",
        BinaryOperator::LeftShift => "<<",
        BinaryOperator::RightShift => ">>",
        BinaryOperator::UnsignedRightShift => ">>>",
        BinaryOperator::Add => "+",
        BinaryOperator::Subtract => "-",
        BinaryOperator::Multiply => "*",
        BinaryOperator::Divide => "/",
        BinaryOperator::Remainder => "%",
        BinaryOperator::Exponentiation => "**",
        BinaryOperator::BitwiseOr => "|",
        BinaryOperator::BitwiseXor => "^",
        BinaryOperator::BitwiseAnd => "&",
        BinaryOperator::In => "in",
        BinaryOperator::InstanceOf => "instanceof",
    }
}

/// How a logical operator of the tree is written in source text.
pub open spec fn logical_operator_spelling(op: LogicalOperator) -> &'static str {
    match op {
        LogicalOperator::And => "&&",
        LogicalOperator::Or => "||",
        LogicalOperator::NullishCoalescing => "??",
    }
}

/// How the operator a table entry classifies is written.
pub open spec fn binary_kind_spelling(op: BinaryKind) -> &'static str {
    match op {
        BinaryKind::Binary(b) => binary_operator_spelling(b),
        BinaryKind::Logical(l) => logical_operator_spelling(l),
    }
}

/// The operator table classifies exactly the binary and logical operator
/// tokens, each as the operator of the same spelling.
pub proof fn lemma_operator_table_spelling(kind: TokenKind)
    ensures
        spec_binary_info(kind) matches Some(info) ==> kind matches TokenKind::Symbol(s)
            && operator_symbol_spelling(s) == Some(binary_kind_spelling(info.op)),
        kind matches TokenKind::Symbol(s) && operator_symbol_spelling(s) is Some ==> spec_binary_info(kind) is Some,
{
}

/// The spelling of the operator at the root of a binary or logical
/// expression.
pub open spec fn root_operator_spelling(e: Expression) -> Option<&'static str> {
    match e.kind {
        ExpressionKind::Binary { operator, .. } => Some(binary_operator_spelling(operator)),
        ExpressionKind::Logical { operator, .. } => Some(logical_operator_spelling(operator)),
        _ => None,
    }
}

/// The operands of a binary or logical expression.
pub open spec fn root_operands(e: Expression) -> Option<(Expression, Expression)> {
    match e.kind {
        ExpressionKind::Binary { left, right, .. } => Some((*left, *right)),
        ExpressionKind::Logical { left, right, .. } => Some((*left, *right)),
        _ => None,
    }
}

/// The spelling of the operator token at `q`.
pub open spec fn token_operator_spelling(t: Seq<Token>, q: int) -> Option<&'static str> {
    match t[q].kind {
        TokenKind::Symbol(s) => operator_symbol_spelling(s),
        _ => None,
    }
}

/// Tokens `a op b` at `p`, with identifiers `a`, `b` and a binary
/// operator `op`, and then a `;` or the end of input.
pub open spec fn one_operator_expression(t: Seq<Token>, p: int) -> bool {
    &&& valid_identifier_at(t, p)
    &&& binary_operator_at(t, p + 1)
    &&& valid_identifier_at(t, p + 2)
    &&& p + 3 <= t.len()
    &&& spec_peek(t, p + 3) matches Some(tok) ==> tok.kind == TokenKind::Symbol(Symbol::Semicolon)
}

/// `a op b` parses to the expression whose operator is written as the
/// token `op` and whose operands are `a` and `b`, taking three tokens.
pub proof fn lemma_operator_as_written(t: Seq<Token>, p: int)
    requires
        one_operator_expression(t, p),
    ensures
        spec_parse_expression(t, p) matches Ok((e, k)) && k == 3
            && root_operator_spelling(e) == token_operator_spelling(t, p + 1)
            && root_operator_spelling(e) is Some
            && root_operands(e) == Some((operand_at(t, p), operand_at(t, p + 2))),
{
    let info = spec_binary_info(t[p + 1].kind)->0;
    let (a, b) = (operand_at(t, p), operand_at(t, p + 2));
    lemma_operator_table(t[p + 1].kind);
    lemma_operator_table_spelling(t[p + 1].kind);
    assert(spec_peek(t, p + 1) == Some(t[p + 1]));
    assert(ends_operand(t, p + 1));
    assert(ends_operand(t, p + 3));
    lemma_identifier_operand(t, p);
    lemma_single_operand(t, p + 2, next_min_precedence(info));
    let ab = spec_build_binary(info.op, a, b);
    lemma_tail_stops(t, p + 3, ab, MIN_PRECEDENCE);
    assert(spec_parse_binary_tail(t, p + 1, a, MIN_PRECEDENCE) == Ok::<(Expression, nat), Error>((ab, 2))) by {
        reveal(spec_parse_binary_tail);
        reveal(spec_parse_binary_expression);
    }
    assert(spec_parse_binary_expression(t, p, MIN_PRECEDENCE) == Ok::<(Expression, nat), Error>((ab, 3))) by {
        reveal(spec_parse_binary_expression);
        reveal(spec_parse_unary_expression);
        reveal(spec_parse_binary_tail);
    }
    assert(spec_parse_conditional_expression(t, p) == Ok::<(Expression, nat), Error>((ab, 3))) by {
        reveal(spec_parse_conditional_expression);
        reveal(spec_parse_binary_expression);
    }
    assert(spec_parse_assignment_tail(t, p) == Ok::<(Expression, nat), Error>((ab, 3))) by {
        reveal(spec_parse_assignment_tail);
        reveal(spec_parse_conditional_expression);
    }
    assert(spec_try_parse_arrow_starter(t, p) == Ok::<Option<(Expression, nat)>, Error>(None)) by {
        reveal(spec_try_parse_arrow_starter);
    }
    assert(spec_parse_assignment_expression(t, p) == Ok::<(Expression, nat), Error>((ab, 3))) by {
        reveal(spec_parse_assignment_expression);
        reveal(spec_try_parse_arrow_starter);
        reveal(spec_parse_assignment_tail);
    }
    assert(spec_parse_expression(t, p) == Ok::<(Expression, nat), Error>((ab, 3))) by {
        reveal(spec_parse_expression);
        reveal(spec_parse_assignment_expression);
    }
}

// ---------------------------------------------------------------------
// Reinterpreting expressions as patterns
// ---------------------------------------------------------------------

/// What reinterpreting keeps: an identifier binds itself where it stands;
/// `...e` becomes a rest element that binds what `e` binds; `target =
/// default` becomes `target` with the same default; an array literal
/// becomes an array pattern, and an object literal an object pattern.
pub proof fn lemma_reinterpret_keeps_shape(expr: Expression)
    ensures
        expr.kind matches ExpressionKind::Identifier(id)
            ==> spec_reinterpret(expr) == Ok::<Pattern, Error>(Pattern { kind: PatternKind::Identifier(id), span: expr.span }),
        expr.kind matches ExpressionKind::Spread { argument } ==> match spec_reinterpret(*argument) {
            Ok(inner) => spec_reinterpret(expr) == Ok::<Pattern, Error>(
                Pattern { kind: PatternKind::Rest { argument: Box::new(inner) }, span: expr.span },
            ),
            Err(e) => spec_reinterpret(expr) == Err::<Pattern, Error>(e),
        },
        match expr.kind {
            ExpressionKind::Assignment { operator, left, right } => operator == AssignmentOperator::Assign
                ==> match spec_reinterpret(*left) {
                Ok(target) => spec_reinterpret(expr) == Ok::<Pattern, Error>(
                    Pattern { kind: PatternKind::Assignment { left: Box::new(target), right }, span: expr.span },
                ),
                Err(e) => spec_reinterpret(expr) == Err::<Pattern, Error>(e),
            },
            _ => true,
        },
        expr.kind is Array ==> (spec_reinterpret(expr) matches Ok(pattern) ==> pattern.kind is Array && pattern.span == expr.span),
        expr.kind is Object ==> (spec_reinterpret(expr) matches Ok(pattern) ==> pattern.kind is Object && pattern.span == expr.span),
{
}

/// An array literal reinterprets element by element: the same number of
/// elements, a hole for each hole, and each element the pattern its
/// expression stands for (so `...rest` becomes a rest element).
pub proof fn lemma_array_reinterprets_elementwise(elements: List<Option<Expression>>)
    ensures
        spec_convert_array(elements) matches Ok(patterns) ==> {
            &&& patterns.to_seq().len() == elements.to_seq().len()
            &&& forall|i: int| 0 <= i < elements.to_seq().len() ==> match (#[trigger] elements.to_seq()[i], patterns.to_seq()[i]) {
                (None, None) => true,
                (Some(e), Some(q)) => spec_reinterpret(e) == Ok::<Pattern, Error>(q),
                _ => false,
            }
        },
    decreases elements,
{
    match elements {
        List::Nil => {},
        List::Cons(head, tail) => {
            lemma_array_reinterprets_elementwise(*tail);
            if let Ok(patterns) = spec_convert_array(elements) {
                let rest = spec_convert_array(*tail)->Ok_0;
                assert forall|i: int| 0 <= i < elements.to_seq().len() implies match (#[trigger] elements.to_seq()[i], patterns.to_seq()[i]) {
                    (None, None) => true,
                    (Some(e), Some(q)) => spec_reinterpret(e) == Ok::<Pattern, Error>(q),
                    _ => false,
                } by {
                    if i > 0 {
                        assert(elements.to_seq()[i] == tail.to_seq()[i - 1]);
                        assert(patterns.to_seq()[i] == rest.to_seq()[i - 1]);
                    }
                }
            }
        },
    }
}

/// An object literal reinterprets member by member: the same number of
/// members, each `key: value` the same key with the pattern its value
/// stands for, and each `...e` a rest member binding what `e` binds.
pub proof fn lemma_object_reinterprets_memberwise(properties: List<ObjectMember>, span: Span)
    ensures
        spec_convert_object(properties, span) matches Ok(members) ==> {
            &&& members.to_seq().len() == properties.to_seq().len()
            &&& forall|i: int| 0 <= i < properties.to_seq().len() ==> match (#[trigger] properties.to_seq()[i], members.to_seq()[i]) {
                (ObjectMember::Property { key, value, computed, shorthand, .. },
                 ObjectPatternMember::Property { key: k, value: v, computed: c, shorthand: sh }) =>
                    k == key && c == computed && sh == shorthand && spec_reinterpret(value) == Ok::<Pattern, Error>(v),
                (ObjectMember::Spread { argument }, ObjectPatternMember::Rest { argument: a }) =>
                    spec_reinterpret(argument) == Ok::<Pattern, Error>(a),
                _ => false,
            }
        },
    decreases properties,
{
    match properties {
        List::Nil => {},
        List::Cons(head, tail) => {
            lemma_object_reinterprets_memberwise(*tail, span);
            if let Ok(members) = spec_convert_object(properties, span) {
                let rest = spec_convert_object(*tail, span)->Ok_0;
                assert forall|i: int| 0 <= i < properties.to_seq().len() implies match (#[trigger] properties.to_seq()[i], members.to_seq()[i]) {
                    (ObjectMember::Property { key, value, computed, shorthand, .. },
                     ObjectPatternMember::Property { key: k, value: v, computed: c, shorthand: sh }) =>
                        k == key && c == computed && sh == shorthand && spec_reinterpret(value) == Ok::<Pattern, Error>(v),
                    (ObjectMember::Spread { argument }, ObjectPatternMember::Rest { argument: a }) =>
                        spec_reinterpret(argument) == Ok::<Pattern, Error>(a),
                    _ => false,
                } by {
                    if i > 0 {
                        assert(properties.to_seq()[i] == tail.to_seq()[i - 1]);
                        assert(members.to_seq()[i] == rest.to_seq()[i - 1]);
                    }
                }
            }
        },
    }
}

// ---------------------------------------------------------------------
// break and continue
// ---------------------------------------------------------------------

/// The identifier that the identifier token at `q` names, if the token
/// at `q` is one.
pub open spec fn identifier_token_at(t: Seq<Token>, q: int) -> Option<Identifier> {
    match spec_peek(t, q) {
        Some(tok) => match tok.kind {
            TokenKind::Identifier(name) => Some(Identifier { name: Name::Text(name) }),
            _ => None,
        },
        None => None,
    }
}

/// A statement that starts with `break` is a `break`, and one that
/// starts with `continue` a `continue`; either carries the identifier
/// right after the keyword as its label, or no label.
pub proof fn lemma_break_and_continue(t: Seq<Token>, p: int)
    requires
        0 <= p < t.len(),
    ensures
        t[p].kind == TokenKind::Symbol(Symbol::KwBreak) ==> (spec_parse_statement(t, p) matches Ok((s, _))
            ==> s.kind == StatementKind::Break { label: identifier_token_at(t, p + 1) }),
        t[p].kind == TokenKind::Symbol(Symbol::KwContinue) ==> (spec_parse_statement(t, p) matches Ok((s, _))
            ==> s.kind == StatementKind::Continue { label: identifier_token_at(t, p + 1) }),
{
    if t[p].kind == TokenKind::Symbol(Symbol::KwBreak) || t[p].kind == TokenKind::Symbol(Symbol::KwContinue) {
        assert(spec_peek(t, p) == Some(t[p]));
        reveal(spec_parse_statement);
        reveal(spec_dispatch_statement);
    }
}

// ---------------------------------------------------------------------
// Classes
// ---------------------------------------------------------------------

/// The position after `class` and its name, if it has one.
pub open spec fn after_class_name(t: Seq<Token>, p: int) -> int {
    if spec_is_kind_identifier(t, p + 1) {
        p + 2
    } else {
        p + 1
    }
}

/// `class` is named by the identifier after it, if there is one, and
/// extends the expression after `extends`, if that follows the name; it
/// extends nothing where `extends` does not follow.
pub open spec fn class_as_written(t: Seq<Token>, p: int, class: Class) -> bool {
    let q = after_class_name(t, p);
    &&& class.id == identifier_token_at(t, p + 1)
    &&& (class.super_class is Some <==> spec_is_kind(t, q, Symbol::KwExtends))
    &&& spec_is_kind(t, q, Symbol::KwExtends) ==> (spec_parse_assignment_expression(t, q + 1) matches Ok((e, _))
        && class.super_class == Some(Box::new(e)))
}

/// A parsed class has the name and the heritage written after `class`.
pub proof fn lemma_class_name_and_heritage(t: Seq<Token>, p: int)
    requires
        0 <= p <= t.len(),
    ensures
        spec_parse_class(t, p) matches Ok((class, _)) ==> class_as_written(t, p, class),
{
    reveal(spec_parse_class);
    reveal(spec_parse_assignment_expression);
    reveal(spec_collect_class_members);
}

// ---------------------------------------------------------------------
// Imports
// ---------------------------------------------------------------------

/// The local name of the named import whose imported name is at `p`:
/// the identifier after `as`, or the imported name itself.
pub open spec fn local_import_name(t: Seq<Token>, p: int) -> Identifier {
    if spec_is_word(t, p + 1, "as") {
        identifier_token_at(t, p + 2)->0
    } else {
        identifier_token_at(t, p)->0
    }
}

/// The first of `specifiers` imports the export named at `p` under its
/// local name.
pub open spec fn first_import_as_written(t: Seq<Token>, p: int, specifiers: List<ImportSpecifier>) -> bool {
    &&& specifiers matches List::Cons(first, _)
    &&& *first == ImportSpecifier::Named { imported: identifier_token_at(t, p)->0, local: local_import_name(t, p) }
}

/// In a list of named imports, `x as y` imports the export `x` under the
/// local name `y`, and `x` alone imports `x` under its own name.
pub proof fn lemma_named_import_names(t: Seq<Token>, p: int)
    requires
        0 <= p <= t.len(),
        identifier_token_at(t, p) is Some,
    ensures
        spec_collect_named_imports(t, p) matches Ok((specifiers, _)) ==> first_import_as_written(t, p, specifiers),
{
    reveal(spec_collect_named_imports);
}

/// The identifier a token names where an identifier or a contextual
/// keyword is allowed, if it names one.
pub open spec fn name_token_at(t: Seq<Token>, q: int) -> Option<Identifier> {
    match spec_peek(t, q) {
        Some(tok) => match spec_identifier_name(tok) {
            Some(name) => Some(Identifier { name }),
            None => None,
        },
        None => None,
    }
}

/// The exported name of the export specifier whose local name is at `p`:
/// the name after `as`, or the local name itself.
pub open spec fn exported_name(t: Seq<Token>, p: int) -> Identifier {
    if spec_is_word(t, p + 1, "as") {
        name_token_at(t, p + 2)->0
    } else {
        name_token_at(t, p)->0
    }
}

/// The first of `specifiers` exports the binding named at `p` under its
/// exported name.
pub open spec fn first_export_as_written(t: Seq<Token>, p: int, specifiers: List<ExportSpecifier>) -> bool {
    &&& specifiers matches List::Cons(first, _)
    &&& *first == ExportSpecifier { local: name_token_at(t, p)->0, exported: exported_name(t, p) }
}

/// In a list of export specifiers, `x as y` exports the local binding `x`
/// under the name `y`, and `x` alone exports `x` under its own name.
pub proof fn lemma_export_specifier_names(t: Seq<Token>, p: int)
    requires
        0 <= p <= t.len(),
        name_token_at(t, p) is Some,
    ensures
        spec_collect_export_specifiers(t, p) matches Ok((specifiers, _)) ==> first_export_as_written(t, p, specifiers),
{
    reveal(spec_collect_export_specifiers);
}

// ---------------------------------------------------------------------
// Assignment, prefix and update operators by their spelling
// ---------------------------------------------------------------------

/// How an assignment operator token is written; `None` for every other
/// symbol.
pub open spec fn assignment_symbol_spelling(s: Symbol) -> Option<&'static str> {
    match s {
        Symbol::Eq => Some("="),
        Symbol::PlusEq => Some("+="),
        Symbol::MinusEq => Some("-="),
        Symbol::StarEq => Some("*="),
        Symbol::SlashEq => Some("/="),
        Symbol::PercentEq => Some("%="),
        Symbol::StarStarEq => Some("**="),
        Symbol::LtLtEq => Some("<<="),
        Symbol::GtGtEq => Some(">>="),
        Symbol::GtGtGtEq => Some(">>>="),
        Symbol::AmpEq => Some("&="),
        Symbol::PipeEq => Some("|="),
        Symbol::CaretEq => Some("^="),
        Symbol::AmpAmpEq => Some("&&="),
        Symbol::PipePipeEq => Some("||="),
        Symbol::QQEq => Some("??="),
        _ => None,
    }
}

/// How an assignment operator of the tree is written.
pub open spec fn assignment_operator_spelling(op: AssignmentOperator) -> &'static str {
    match op {
        AssignmentOperator::Assign => "=",
        AssignmentOperator::AddAssign => "+=",
        AssignmentOperator::SubtractAssign => "-=",
        AssignmentOperator::MultiplyAssign => "*=",
        AssignmentOperator::DivideAssign => "/=",
        AssignmentOperator::RemainderAssign => "%=",
        AssignmentOperator::ExponentiationAssign => "**=",
        AssignmentOperator::LeftShiftAssign => "<<=",
        AssignmentOperator::RightShiftAssign => ">>=",
        AssignmentOperator::UnsignedRightShiftAssign => ">>>=",
        AssignmentOperator::BitwiseOrAssign => "|=",
        AssignmentOperator::BitwiseXorAssign => "^=",
        AssignmentOperator::BitwiseAndAssign => "&=",
        AssignmentOperator::LogicalOrAssign => "||=",
        AssignmentOperator::LogicalAndAssign => "&&=",
        AssignmentOperator::NullishCoalescingAssign => "??=",
    }
}

/// The assignment-operator table classifies exactly the assignment
/// operator tokens, each as the operator of the same spelling.
pub proof fn lemma_assignment_table_spelling(kind: TokenKind)
    ensures
        spec_assignment_operator(kind) matches Some(op) ==> kind matches TokenKind::Symbol(s)
            && assignment_symbol_spelling(s) == Some(assignment_operator_spelling(op)),
        kind matches TokenKind::Symbol(s) && assignment_symbol_spelling(s) is Some ==> spec_assignment_operator(kind) is Some,
{
}

/// How a prefix operator token is written; `None` for every other symbol.
pub open spec fn prefix_symbol_spelling(s: Symbol) -> Option<&'static str> {
    match s {
        Symbol::KwDelete => Some("delete"),
        Symbol::KwVoid => Some("void"),
        Symbol::KwTypeof => Some("typeof"),
        Symbol::Plus => Some("+"),
        Symbol::Minus => Some("-"),
        Symbol::Tilde => Some("~"),
        Symbol::Bang => Some("!"),
        Symbol::PlusPlus => Some("++"),
        Symbol::MinusMinus => Some("--"),
        _ => None,
    }
}

/// How a unary operator of the tree is written.
pub open spec fn unary_operator_spelling(op: UnaryOperator) -> &'static str {
    match op {
        UnaryOperator::Minus => "-",
        UnaryOperator::Plus => "+",
        UnaryOperator::LogicalNot => "!",
        UnaryOperator::BitwiseNot => "~",
        UnaryOperator::TypeOf => "typeof",
        UnaryOperator::Void => "void",
        UnaryOperator::Delete => "delete",
    }
}

/// How an update operator of the tree is written.
pub open spec fn update_operator_spelling(op: UpdateOperator) -> &'static str {
    match op {
        UpdateOperator::Increment => "++",
        UpdateOperator::Decrement => "--",
    }
}

/// The spelling of the prefix operator at the root of `e`, and its
/// operand.
pub open spec fn root_prefix(e: Expression) -> Option<(&'static str, Expression)> {
    match e.kind {
        ExpressionKind::Unary { operator, argument } => Some((unary_operator_spelling(operator), *argument)),
        ExpressionKind::Update { operator, argument, prefix } => if prefix {
            Some((update_operator_spelling(operator), *argument))
        } else {
            None
        },
        _ => None,
    }
}

/// A prefix operator applies the operator of its own spelling to the
/// unary expression after it, one token more.
pub proof fn lemma_prefix_operator_as_written(t: Seq<Token>, p: int, s: Symbol)
    requires
        0 <= p < t.len(),
        t[p].kind == TokenKind::Symbol(s),
        prefix_symbol_spelling(s) is Some,
    ensures
        spec_parse_unary_expression(t, p) matches Ok((e, k)) ==> (spec_parse_unary_expression(t, p + 1) matches Ok((operand, j))
            && k == j + 1 && root_prefix(e) == Some((prefix_symbol_spelling(s)->0, operand))),
{
    assert(spec_peek(t, p) == Some(t[p]));
    reveal(spec_parse_unary_expression);
    reveal(spec_parse_unary_prefix);
    reveal(spec_parse_update_prefix);
}

// ---------------------------------------------------------------------
// Statements by their first token
// ---------------------------------------------------------------------

/// The kind of statement that the keyword or punctuator `s` begins.
pub open spec fn kind_begun_by(s: Symbol, kind: StatementKind) -> bool {
    match s {
        Symbol::LBrace => kind is Block,
        Symbol::Semicolon => kind is Empty,
        Symbol::KwDebugger => kind is Debugger,
        Symbol::KwIf => kind is If,
        Symbol::KwSwitch => kind is Switch,
        Symbol::KwFor => kind is For || kind is ForIn || kind is ForOf,
        Symbol::KwWhile => kind is While,
        Symbol::KwDo => kind is DoWhile,
        Symbol::KwReturn => kind is Return,
        Symbol::KwThrow => kind is Throw,
        Symbol::KwTry => kind is Try,
        Symbol::KwBreak => kind is Break,
        Symbol::KwContinue => kind is Continue,
        Symbol::KwVar => kind matches StatementKind::VariableDeclaration(d) && d.kind == VariableKind::Var,
        Symbol::KwConst => kind matches StatementKind::VariableDeclaration(d) && d.kind == VariableKind::Const,
        Symbol::KwFunction => kind is FunctionDeclaration,
        Symbol::KwClass => kind is ClassDeclaration,
        _ => true,
    }
}

/// Every `for` statement is one of the three kinds of `for` loop.
proof fn lemma_for_kinds(t: Seq<Token>, p: int, start_span: Span)
    requires
        0 <= p <= t.len(),
    ensures
        spec_parse_for(t, p, start_span) matches Ok((stmt, _)) ==> (stmt.kind is For || stmt.kind is ForIn
            || stmt.kind is ForOf),
{
    let is_await = spec_is_kind(t, p + 1, Symbol::KwAwait);
    let q = if is_await { p + 3 } else { p + 2 };
    if q <= t.len() {
        assert(spec_parse_for_head(t, q, is_await, start_span) matches Ok((stmt, _)) ==> (stmt.kind is For || stmt.kind is ForIn
            || stmt.kind is ForOf)) by {
            reveal(spec_parse_for_head);
            reveal(spec_finish_classic_for);
            reveal(spec_parse_for_with_declaration);
            reveal(spec_parse_for_with_expression);
            reveal(spec_lhs_before_in);
            reveal(spec_parse_for_with_full_expression);
            reveal(spec_finish_for_in);
            reveal(spec_finish_for_of);
        }
    }
    reveal(spec_parse_for);
    reveal(spec_parse_for_head);
}

/// A `var` or `const` statement declares with that keyword's kind.
proof fn lemma_declaration_kind(t: Seq<Token>, p: int, start_span: Span)
    requires
        0 <= p < t.len(),
        t[p].kind != TokenKind::Symbol(Symbol::Eof),
    ensures
        spec_parse_variable_declaration_statement(t, p, start_span) matches Ok((stmt, _)) ==> (
            stmt.kind matches StatementKind::VariableDeclaration(d)
            && (t[p].kind == TokenKind::Symbol(Symbol::KwVar) ==> d.kind == VariableKind::Var)
            && (t[p].kind == TokenKind::Symbol(Symbol::KwConst) ==> d.kind == VariableKind::Const)),
{
    assert(spec_peek(t, p) == Some(t[p]));
    reveal(spec_parse_variable_declaration_statement);
    reveal(spec_parse_variable_declaration);
}

/// A statement's first token decides its kind: `{` a block, `;` an empty
/// statement, `if` an `if`, `for` a loop of one of the three `for`
/// kinds, `var` and `const` declarations of that kind, and so on for
/// every statement keyword.
#[verifier::rlimit(30)]
pub proof fn lemma_statement_kind_follows_first_token(t: Seq<Token>, p: int)
    requires
        0 <= p < t.len(),
    ensures
        spec_parse_statement(t, p) matches Ok((stmt, _)) ==> (t[p].kind matches TokenKind::Symbol(s)
            ==> kind_begun_by(s, stmt.kind)),
{
    let tok = t[p];
    let span = spec_span_at(t, p);
    if tok.kind != TokenKind::Symbol(Symbol::Eof) {
        assert(spec_peek(t, p) == Some(tok));
        lemma_for_kinds(t, p, span);
        lemma_declaration_kind(t, p, span);
        assert(spec_dispatch_statement(t, p, tok, span) matches Ok((stmt, _)) ==> (tok.kind matches TokenKind::Symbol(s)
            ==> kind_begun_by(s, stmt.kind))) by {
            reveal(spec_dispatch_statement);
            reveal(spec_parse_block_statement);
            reveal(spec_parse_debugger);
            reveal(spec_parse_if);
            reveal(spec_parse_switch);
            reveal(spec_parse_while);
            reveal(spec_parse_do_while);
            reveal(spec_parse_return);
            reveal(spec_parse_throw);
            reveal(spec_parse_try);
            reveal(spec_parse_for);
            reveal(spec_parse_variable_declaration_statement);
        }
    }
    reveal(spec_parse_statement);
    reveal(spec_dispatch_statement);
}

// ---------------------------------------------------------------------
// The parts of `if` and of conditional expressions
// ---------------------------------------------------------------------

/// `if (test) consequent [else alternate]` at `p`: the test is the
/// expression after `(`, the consequent the statement after `)`, and the
/// alternate the statement after `else`, present exactly when `else`
/// follows the consequent.
pub open spec fn if_as_written(t: Seq<Token>, p: int, kind: StatementKind) -> bool {
    match kind {
        StatementKind::If { test, consequent, alternate } => match spec_parse_expression(t, p + 2) {
            Ok((e, k1)) => e == test && (match spec_parse_statement(t, p + 3 + k1) {
                Ok((c, k2)) => *consequent == c && (match alternate {
                    Some(a) => spec_is_kind(t, p + 3 + k1 + k2, Symbol::KwElse)
                        && (spec_parse_statement(t, p + 4 + k1 + k2) matches Ok((s, _)) && s == *a),
                    None => !spec_is_kind(t, p + 3 + k1 + k2, Symbol::KwElse),
                }),
                Err(_) => false,
            }),
            Err(_) => false,
        },
        _ => false,
    }
}

/// An `if` statement has the test, branches and `else` as written.
pub proof fn lemma_if_parts(t: Seq<Token>, p: int, start_span: Span)
    requires
        0 <= p <= t.len(),
    ensures
        spec_parse_if(t, p, start_span) matches Ok((stmt, _)) ==> if_as_written(t, p, stmt.kind),
{
    reveal(spec_parse_if);
    reveal(spec_parse_expression);
    reveal(spec_parse_statement);
}

/// `test ? consequent : alternate` at `p`: the test is the binary
/// expression at `p`, the consequent the assignment expression after `?`
/// and the alternate the one after `:`.
pub open spec fn conditional_as_written(t: Seq<Token>, p: int, e: Expression) -> bool {
    match e.kind {
        ExpressionKind::Conditional { test, consequent, alternate } => match spec_parse_binary_expression(t, p, MIN_PRECEDENCE) {
            Ok((first, k1)) => first == *test && spec_is_kind(t, p + k1, Symbol::Question) && (match spec_parse_assignment_expression(t, p + k1 + 1) {
                Ok((second, k2)) => second == *consequent && spec_is_kind(t, p + k1 + 1 + k2, Symbol::Colon)
                    && (spec_parse_assignment_expression(t, p + k1 + 2 + k2) matches Ok((third, _)) && third == *alternate),
                Err(_) => false,
            }),
            Err(_) => false,
        },
        _ => false,
    }
}

/// Whether `?` follows the binary expression at `p`.
pub open spec fn question_follows(t: Seq<Token>, p: int) -> bool {
    spec_parse_binary_expression(t, p, MIN_PRECEDENCE) matches Ok((_, k)) && spec_is_kind(t, p + k, Symbol::Question)
}

/// A conditional expression has its three parts in the order written.
pub proof fn lemma_conditional_parts(t: Seq<Token>, p: int)
    requires
        0 <= p <= t.len(),
    ensures
        question_follows(t, p) ==> (spec_parse_conditional_expression(t, p) matches Ok((e, _))
            ==> conditional_as_written(t, p, e)),
{
    reveal(spec_parse_conditional_expression);
    reveal(spec_parse_binary_expression);
    reveal(spec_parse_assignment_expression);
}

// ---------------------------------------------------------------------
// The parts of loops and labelled statements
// ---------------------------------------------------------------------

/// `while (test) body` at `p`: the test is the expression after `(`, the
/// body the statement after `)`.
pub open spec fn while_as_written(t: Seq<Token>, p: int, kind: StatementKind) -> bool {
    match kind {
        StatementKind::While { test, body } => match spec_parse_expression(t, p + 2) {
            Ok((e, k1)) => e == test && (spec_parse_statement(t, p + 3 + k1) matches Ok((b, _)) && b == *body),
            Err(_) => false,
        },
        _ => false,
    }
}

/// A `while` loop has the test and the body as written.
pub proof fn lemma_while_parts(t: Seq<Token>, p: int, start_span: Span)
    requires
        0 <= p <= t.len(),
    ensures
        spec_parse_while(t, p, start_span) matches Ok((stmt, _)) ==> while_as_written(t, p, stmt.kind),
{
    reveal(spec_parse_while);
    reveal(spec_parse_expression);
    reveal(spec_parse_statement);
}

/// `do body while (test)` at `p`: the body is the statement after `do`,
/// the test the expression after `while (`.
pub open spec fn do_while_as_written(t: Seq<Token>, p: int, kind: StatementKind) -> bool {
    match kind {
        StatementKind::DoWhile { body, test } => match spec_parse_statement(t, p + 1) {
            Ok((b, k1)) => b == *body && (spec_parse_expression(t, p + 3 + k1) matches Ok((e, _)) && e == test),
            Err(_) => false,
        },
        _ => false,
    }
}

/// A `do`-`while` loop has the body and the test as written.
pub proof fn lemma_do_while_parts(t: Seq<Token>, p: int, start_span: Span)
    requires
        0 <= p <= t.len(),
    ensures
        spec_parse_do_while(t, p, start_span) matches Ok((stmt, _)) ==> do_while_as_written(t, p, stmt.kind),
{
    reveal(spec_parse_do_while);
    reveal(spec_parse_expression);
    reveal(spec_parse_statement);
}

/// `label: body` at `p`: the label is the identifier at `p`, the body the
/// statement after `:`.
pub open spec fn labeled_as_written(t: Seq<Token>, p: int, kind: StatementKind) -> bool {
    match kind {
        StatementKind::Labeled { label, body } => identifier_token_at(t, p) == Some(label)
            && (spec_parse_statement(t, p + 2) matches Ok((b, _)) && b == *body),
        _ => false,
    }
}

/// A labelled statement has the label and the body as written.
pub proof fn lemma_labeled_parts(t: Seq<Token>, p: int, start_span: Span)
    requires
        0 <= p <= t.len(),
    ensures
        spec_parse_labeled(t, p, start_span) matches Ok((stmt, _)) ==> labeled_as_written(t, p, stmt.kind),
{
    reveal(spec_parse_labeled);
    reveal(spec_parse_statement);
}

/// A `for` loop is a `for await` loop exactly when `await` follows `for`:
/// a `for`-`of` loop is marked as awaiting then, and only then.
pub proof fn lemma_for_await_as_written(t: Seq<Token>, p: int, start_span: Span)
    requires
        0 <= p <= t.len(),
    ensures
        spec_parse_for(t, p, start_span) matches Ok((stmt, _)) ==> (stmt.kind matches StatementKind::ForOf { is_await, .. }
            ==> is_await == spec_is_kind(t, p + 1, Symbol::KwAwait)),
{
    let is_await = spec_is_kind(t, p + 1, Symbol::KwAwait);
    let q = if is_await { p + 3 } else { p + 2 };
    if q <= t.len() {
        assert(spec_parse_for_head(t, q, is_await, start_span) matches Ok((stmt, _)) ==> (stmt.kind matches StatementKind::ForOf {
            is_await: a, .. } ==> a == is_await)) by {
            reveal(spec_parse_for_head);
            reveal(spec_finish_classic_for);
            reveal(spec_parse_for_with_declaration);
            reveal(spec_parse_for_with_expression);
            reveal(spec_lhs_before_in);
            reveal(spec_parse_for_with_full_expression);
            reveal(spec_finish_for_in);
            reveal(spec_finish_for_of);
        }
    }
    reveal(spec_parse_for);
    reveal(spec_parse_for_head);
}

/// `function [*] [name] ...` at `p`: a generator exactly when `*`
/// follows `function`, never `async`, and named by the identifier after
/// `function` and the `*`, if there is one.
pub open spec fn function_as_written(t: Seq<Token>, p: int, f: Function) -> bool {
    let star = spec_is_kind(t, p + 1, Symbol::Star);
    let name_at = if star { p + 2 } else { p + 1 };
    &&& f.is_generator == star
    &&& !f.is_async
    &&& f.id == identifier_token_at(t, name_at)
}

/// A function declaration, its name required or optional, has the
/// generator mark and the name as written.
pub proof fn lemma_function_head_as_written(t: Seq<Token>, p: int)
    requires
        0 <= p <= t.len(),
    ensures
        spec_parse_function_declaration(t, p) matches Ok((f, _)) ==> function_as_written(t, p, f),
        spec_parse_function_declaration_optional_name(t, p) matches Ok((f, _)) ==> function_as_written(t, p, f),
{
    reveal(spec_parse_function_declaration);
}

// ---------------------------------------------------------------------
// return, throw and try
// ---------------------------------------------------------------------

/// `return [argument]` at `p`: the argument is the expression after
/// `return`, absent exactly when `;`, `}` or the end of input follows.
pub open spec fn return_as_written(t: Seq<Token>, p: int, kind: StatementKind) -> bool {
    match kind {
        StatementKind::Return { argument } => match argument {
            Some(a) => !(spec_peek(t, p + 1) is None || spec_is_kind(t, p + 1, Symbol::Semicolon)
                || spec_is_kind(t, p + 1, Symbol::RBrace))
                && (spec_parse_expression(t, p + 1) matches Ok((e, _)) && e == a),
            None => spec_peek(t, p + 1) is None || spec_is_kind(t, p + 1, Symbol::Semicolon)
                || spec_is_kind(t, p + 1, Symbol::RBrace),
        },
        _ => false,
    }
}

/// A `return` statement returns the expression written after it, if any.
#[verifier::rlimit(30)]
pub proof fn lemma_return_argument(t: Seq<Token>, p: int, start_span: Span)
    requires
        0 <= p <= t.len(),
    ensures
        spec_parse_return(t, p, start_span) matches Ok((stmt, _)) ==> return_as_written(t, p, stmt.kind),
{
    reveal(spec_parse_return);
    reveal(spec_parse_expression);
}

/// A `throw` statement throws the expression written after it.
#[verifier::rlimit(30)]
pub proof fn lemma_throw_argument(t: Seq<Token>, p: int, start_span: Span)
    requires
        0 <= p < t.len(),
    ensures
        spec_parse_throw(t, p, start_span) matches Ok((stmt, _)) ==> (stmt.kind matches StatementKind::Throw { argument }
            && (spec_parse_expression(t, p + 1) matches Ok((e, _)) && e == argument)),
{
    reveal(spec_parse_throw);
    reveal(spec_parse_expression);
}

/// `try block [catch ...] [finally block]` at `p`: the block is the one
/// after `try`; there is a handler exactly when `catch` follows it, and
/// then it is the clause at that `catch`.
pub open spec fn try_as_written(t: Seq<Token>, p: int, kind: StatementKind) -> bool {
    match kind {
        StatementKind::Try { block, handler, finalizer } => match spec_parse_block_body(t, p + 1) {
            Ok((b, k1)) => b == block && (handler is Some <==> spec_is_kind(t, p + 1 + k1, Symbol::KwCatch))
                && (handler matches Some(h) ==> (spec_parse_catch_clause(t, p + 1 + k1) matches Ok((c, _)) && c == h)),
            Err(_) => false,
        },
        _ => false,
    }
}

/// A `try` statement has its block and handler as written.
#[verifier::rlimit(30)]
pub proof fn lemma_try_parts(t: Seq<Token>, p: int, start_span: Span)
    requires
        0 <= p < t.len(),
    ensures
        spec_parse_try(t, p, start_span) matches Ok((stmt, _)) ==> try_as_written(t, p, stmt.kind),
{
    reveal(spec_parse_try);
    reveal(spec_parse_block_body);
    reveal(spec_parse_catch_clause);
    reveal(spec_parse_statement);
}

} // verus!
