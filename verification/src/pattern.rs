//! Expression-to-pattern reinterpretation.
//!
//! Arrow-function parameter lists are parsed first as expressions (the
//! parser cannot tell that `(a, b)` is a parameter list until it sees the
//! trailing `=>`).  [`reinterpret_expression_as_pattern`] turns the parsed
//! expression back into the pattern it stands for once the cover grammar
//! resolves.

use vstd::prelude::*;
use crate::ast::{
    AssignmentOperator, Expression, ExpressionKind, List, ObjectMember, ObjectPatternMember,
    ObjectPropertyKind, Pattern, PatternKind,
};
use crate::error::Error;
use crate::token::Span;

verus! {

/// The pattern an expression stands for as an arrow parameter or a
/// destructuring target: identifiers, array and object literals (with
/// holes, spreads and `=` defaults), spreads and plain `=` assignments
/// convert member by member, parentheses are transparent, and anything
/// else is [`Error::InvalidArrowParameter`] at the expression's span.
pub open spec fn spec_reinterpret(expr: Expression) -> Result<Pattern, Error>
    decreases expr,
{
    let span = expr.span;
    match expr.kind {
        ExpressionKind::Identifier(id) => Ok(Pattern { kind: PatternKind::Identifier(id), span }),
        ExpressionKind::Parenthesized { expression } => spec_reinterpret(*expression),
        ExpressionKind::Array { elements } => match spec_convert_array(elements) {
            Ok(converted) => Ok(Pattern { kind: PatternKind::Array { elements: converted }, span }),
            Err(e) => Err(e),
        },
        ExpressionKind::Object { properties } => match spec_convert_object(properties, span) {
            Ok(members) => Ok(Pattern { kind: PatternKind::Object { properties: members }, span }),
            Err(e) => Err(e),
        },
        ExpressionKind::Spread { argument } => match spec_reinterpret(*argument) {
            Ok(inner) => Ok(Pattern { kind: PatternKind::Rest { argument: Box::new(inner) }, span }),
            Err(e) => Err(e),
        },
        ExpressionKind::Assignment { operator, left, right } => {
            if operator == AssignmentOperator::Assign {
                match spec_reinterpret(*left) {
                    Ok(pat) => Ok(
                        Pattern {
                            kind: PatternKind::Assignment { left: Box::new(pat), right },
                            span,
                        },
                    ),
                    Err(e) => Err(e),
                }
            } else {
                Err(Error::InvalidArrowParameter { at: span })
            }
        },
        _ => Err(Error::InvalidArrowParameter { at: span }),
    }
}

/// The elements of an array literal as pattern elements, holes kept.
pub open spec fn spec_convert_array(elements: List<Option<Expression>>) -> Result<List<Option<Pattern>>, Error>
    decreases elements,
{
    match elements {
        List::Nil => Ok(List::Nil),
        List::Cons(head, tail) => {
            let first = match *head {
                None => Ok(None),
                Some(e) => match spec_reinterpret(e) {
                    Ok(p) => Ok(Some(p)),
                    Err(err) => Err(err),
                },
            };
            match first {
                Err(err) => Err(err),
                Ok(p) => match spec_convert_array(*tail) {
                    Err(err) => Err(err),
                    Ok(rest) => Ok(List::Cons(Box::new(p), Box::new(rest))),
                },
            }
        },
    }
}

/// The members of an object literal as object-pattern members; accessor
/// and method members are [`Error::InvalidArrowParameter`] at the
/// literal's span.
pub open spec fn spec_convert_object(properties: List<ObjectMember>, span: Span) -> Result<List<ObjectPatternMember>, Error>
    decreases properties,
{
    match properties {
        List::Nil => Ok(List::Nil),
        List::Cons(head, tail) => {
            let first = match *head {
                ObjectMember::Property { key, value, kind, computed, shorthand } => {
                    if kind == ObjectPropertyKind::Init {
                        match spec_reinterpret(value) {
                            Ok(p) => Ok(ObjectPatternMember::Property { key, value: p, computed, shorthand }),
                            Err(err) => Err(err),
                        }
                    } else {
                        Err(Error::InvalidArrowParameter { at: span })
                    }
                },
                ObjectMember::Spread { argument } => match spec_reinterpret(argument) {
                    Ok(p) => Ok(ObjectPatternMember::Rest { argument: p }),
                    Err(err) => Err(err),
                },
            };
            match first {
                Err(err) => Err(err),
                Ok(m) => match spec_convert_object(*tail, span) {
                    Err(err) => Err(err),
                    Ok(rest) => Ok(List::Cons(Box::new(m), Box::new(rest))),
                },
            }
        },
    }
}

/// Convert an [`Expression`] into the [`Pattern`] it would represent if
/// used as an arrow-function parameter or destructuring target.
pub fn reinterpret_expression_as_pattern(expr: Expression) -> (r: Result<Pattern, Error>)
    ensures
        r == spec_reinterpret(expr),
    decreases expr,
{
    let span = expr.span;
    match expr.kind {
        ExpressionKind::Identifier(id) => Ok(Pattern { kind: PatternKind::Identifier(id), span }),
        ExpressionKind::Parenthesized { expression } => reinterpret_expression_as_pattern(*expression),
        ExpressionKind::Array { elements } => {
            let converted = convert_array(elements)?;
            Ok(Pattern { kind: PatternKind::Array { elements: converted }, span })
        },
        ExpressionKind::Object { properties } => {
            let members = convert_object(properties, span)?;
            Ok(Pattern { kind: PatternKind::Object { properties: members }, span })
        },
        ExpressionKind::Spread { argument } => {
            let inner = reinterpret_expression_as_pattern(*argument)?;
            Ok(Pattern { kind: PatternKind::Rest { argument: Box::new(inner) }, span })
        },
        ExpressionKind::Assignment { operator, left, right } => {
            match operator {
                AssignmentOperator::Assign => {
                    let pat = reinterpret_expression_as_pattern(*left)?;
                    Ok(Pattern { kind: PatternKind::Assignment { left: Box::new(pat), right }, span })
                },
                _ => Err(Error::InvalidArrowParameter { at: span }),
            }
        },
        _ => Err(Error::InvalidArrowParameter { at: span }),
    }
}

fn convert_array(elements: List<Option<Expression>>) -> (r: Result<List<Option<Pattern>>, Error>)
    ensures
        r == spec_convert_array(elements),
    decreases elements,
{
    match elements {
        List::Nil => Ok(List::Nil),
        List::Cons(head, tail) => {
            let first = match *head {
                None => None,
                Some(e) => Some(reinterpret_expression_as_pattern(e)?),
            };
            let rest = convert_array(*tail)?;
            Ok(List::Cons(Box::new(first), Box::new(rest)))
        },
    }
}

fn convert_object(properties: List<ObjectMember>, span: Span) -> (r: Result<List<ObjectPatternMember>, Error>)
    ensures
        r == spec_convert_object(properties, span),
    decreases properties,
{
    match properties {
        List::Nil => Ok(List::Nil),
        List::Cons(head, tail) => {
            let first = match *head {
                ObjectMember::Property { key, value, kind, computed, shorthand } => {
                    match kind {
                        ObjectPropertyKind::Init => {
                            let p = reinterpret_expression_as_pattern(value)?;
                            ObjectPatternMember::Property { key, value: p, computed, shorthand }
                        },
                        _ => {
                            return Err(Error::InvalidArrowParameter { at: span });
                        },
                    }
                },
                ObjectMember::Spread { argument } => {
                    let p = reinterpret_expression_as_pattern(argument)?;
                    ObjectPatternMember::Rest { argument: p }
                },
            };
            let rest = convert_object(*tail, span)?;
            Ok(List::Cons(Box::new(first), Box::new(rest)))
        },
    }
}

/// Strip any number of parentheses around an expression.
pub open spec fn spec_unwrap_parenthesized(expr: Expression) -> Expression
    decreases expr,
{
    match expr.kind {
        ExpressionKind::Parenthesized { expression } => spec_unwrap_parenthesized(*expression),
        _ => expr,
    }
}

fn unwrap_parenthesized(expr: Expression) -> (r: Expression)
    ensures
        r == spec_unwrap_parenthesized(expr),
    decreases expr,
{
    match expr.kind {
        ExpressionKind::Parenthesized { expression } => unwrap_parenthesized(*expression),
        kind => Expression { kind, span: expr.span },
    }
}

/// Every expression of a list as a pattern, in order.
pub open spec fn spec_reinterpret_all(exprs: List<Expression>) -> Result<List<Pattern>, Error>
    decreases exprs,
{
    match exprs {
        List::Nil => Ok(List::Nil),
        List::Cons(head, tail) => match spec_reinterpret(*head) {
            Err(e) => Err(e),
            Ok(p) => match spec_reinterpret_all(*tail) {
                Err(e) => Err(e),
                Ok(rest) => Ok(List::Cons(Box::new(p), Box::new(rest))),
            },
        },
    }
}

fn reinterpret_all(exprs: List<Expression>) -> (r: Result<List<Pattern>, Error>)
    ensures
        r == spec_reinterpret_all(exprs),
    decreases exprs,
{
    match exprs {
        List::Nil => Ok(List::Nil),
        List::Cons(head, tail) => {
            let p = reinterpret_expression_as_pattern(*head)?;
            let rest = reinterpret_all(*tail)?;
            Ok(List::Cons(Box::new(p), Box::new(rest)))
        },
    }
}

/// The parameter list an expression stands for before `=>`: after
/// stripping parentheses, each element of a comma sequence is one
/// parameter; any other expression is a single parameter.
pub open spec fn spec_reinterpret_arrow_params(expr: Expression) -> Result<List<Pattern>, Error> {
    let unwrapped = spec_unwrap_parenthesized(expr);
    match unwrapped.kind {
        ExpressionKind::Sequence { expressions } => spec_reinterpret_all(expressions),
        _ => match spec_reinterpret(unwrapped) {
            Ok(p) => Ok(List::Cons(Box::new(p), Box::new(List::Nil))),
            Err(e) => Err(e),
        },
    }
}

/// Convert an [`Expression`] into the parameter list it would represent
/// if used as an arrow-function parameter list.
pub fn reinterpret_expression_as_arrow_params(expr: Expression) -> (r: Result<List<Pattern>, Error>)
    ensures
        r == spec_reinterpret_arrow_params(expr),
{
    let unwrapped = unwrap_parenthesized(expr);
    let span = unwrapped.span;
    match unwrapped.kind {
        ExpressionKind::Sequence { expressions } => reinterpret_all(expressions),
        kind => {
            let p = reinterpret_expression_as_pattern(Expression { kind, span })?;
            Ok(List::Cons(Box::new(p), Box::new(List::Nil)))
        },
    }
}

/// Whether `expr` is a simple assignment target: an identifier or a
/// member access, possibly in parentheses.
pub open spec fn is_simple_target(expr: Expression) -> bool
    decreases expr,
{
    match expr.kind {
        ExpressionKind::Identifier(_) | ExpressionKind::Member { .. } => true,
        ExpressionKind::Parenthesized { expression } => is_simple_target(*expression),
        _ => false,
    }
}

/// Whether `left` may stand before the assignment operator `op`: a
/// simple target always, and before a plain `=` also an array or object
/// literal, which destructures.
pub open spec fn is_assignment_target(left: Expression, op: AssignmentOperator) -> bool {
    ||| is_simple_target(left)
    ||| (op == AssignmentOperator::Assign && (left.kind is Array || left.kind is Object))
}

fn simple_target(expr: &Expression) -> (b: bool)
    ensures
        b == is_simple_target(*expr),
    decreases expr,
{
    match &expr.kind {
        ExpressionKind::Identifier(_) | ExpressionKind::Member { .. } => true,
        ExpressionKind::Parenthesized { expression } => simple_target(expression),
        _ => false,
    }
}

/// Whether `left` may be assigned with `op` (see [`is_assignment_target`]).
pub fn assignment_target(left: &Expression, op: AssignmentOperator) -> (b: bool)
    ensures
        b == is_assignment_target(*left, op),
{
    if simple_target(left) {
        true
    } else {
        let plain = match op {
            AssignmentOperator::Assign => true,
            _ => false,
        };
        let destructures = match &left.kind {
            ExpressionKind::Array { .. } | ExpressionKind::Object { .. } => true,
            _ => false,
        };
        plain && destructures
    }
}

} // verus!
