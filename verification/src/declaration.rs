//! Function, class, and formal-parameter parsing.

use vstd::prelude::*;
use crate::ast::{Class, ClassMember, Expression, Function, Identifier, List, MethodKind, Pattern, PatternKind, PropertyKey};
use crate::error::Error;
use crate::expression::{
    is_word, parse_assignment_expression, spec_is_kind_identifier, spec_is_word,
    spec_parse_assignment_expression,
};
use crate::statement::{
    maybe_with_default, parse_binding_pattern, parse_block_body, spec_maybe_with_default, spec_parse_binding_pattern,
    spec_parse_block_body,
};
use crate::stream::{
    Peek, advances, agrees, expect_identifier, expect_identifier_or_keyword, expect_kind,
    expect_private_identifier, is_kind, lemma_len_fits, peek, rem, shift, span_at,
    spec_expect_identifier, spec_expect_identifier_or_keyword, spec_expect_kind,
    spec_expect_private_identifier, spec_is_kind, spec_peek, spec_span_at,
};
use crate::token::{Span, Symbol, Token, TokenKind};

verus! {

// ---------------------------------------------------------------------
// Functions and parameters
// ---------------------------------------------------------------------

/// `function [*] name (params) { body }` at `p`.
#[verifier::opaque]
pub open spec fn spec_parse_function_declaration(t: Seq<Token>, p: int) -> Result<(Function, nat), Error>
    decreases rem(t, p), 0nat when p <= t.len()
{
    match spec_expect_kind(t, p, Symbol::KwFunction, "keyword `function`") {
        Err(e) => Err(e),
        Ok(()) => {
            let is_generator = spec_is_kind(t, p + 1, Symbol::Star);
            let after_star = if is_generator { p + 2 } else { p + 1 };
            match spec_expect_identifier(t, after_star) {
                Err(e) => Err(e),
                Ok((id, k1)) => {
                    let after_id = after_star + k1;
                    match spec_parse_formal_parameters(t, after_id) {
                        Err(e) => Err(e),
                        Ok((params, k2)) => match spec_parse_block_body(t, after_id + k2) {
                            Err(e) => Err(e),
                            Ok((body, k3)) => Ok((
                                Function { id: Some(id), params, body, is_async: false, is_generator },
                                (after_id + k2 + k3 - p) as nat,
                            )),
                        },
                    }
                },
            }
        },
    }
}

/// Parse a function declaration (`function name(params) { body }`).
pub fn parse_function_declaration(tokens: &[Token], pos: usize) -> (r: Result<(Function, usize), Error>)
    ensures
        pos <= tokens@.len() ==> agrees(r, spec_parse_function_declaration(tokens@, pos as int), pos as int),
        advances(r, pos as int, tokens@.len() as int),
        pos > tokens@.len() ==> r == Err::<(Function, usize), Error>(Error::UnexpectedEof { expected: "keyword `function`" }),
    decreases rem(tokens@, pos as int), 0nat,
{
    proof {
        reveal(spec_parse_function_declaration);
        reveal(spec_parse_formal_parameters);
        reveal(spec_parse_block_body);
        lemma_len_fits(tokens);
    }
    if pos > tokens.len() {
        return Err(Error::UnexpectedEof { expected: "keyword `function`" });
    }
    let after_kw = expect_kind(tokens, pos, Symbol::KwFunction, "keyword `function`")?;
    let is_generator = is_kind(tokens, after_kw, Symbol::Star);
    let after_star = if is_generator { after_kw + 1 } else { after_kw };
    let (id, after_id) = expect_identifier(tokens, after_star)?;
    let (params, after_params) = parse_formal_parameters(tokens, after_id)?;
    let (body, after_body) = parse_block_body(tokens, after_params)?;
    Ok((Function { id: Some(id), params, body, is_async: false, is_generator }, after_body))
}

/// `function [*] [name] (params) { body }` at `p`: a declaration whose
/// name may be left out.
pub open spec fn spec_parse_function_declaration_optional_name(t: Seq<Token>, p: int) -> Result<(Function, nat), Error> {
    match spec_expect_kind(t, p, Symbol::KwFunction, "keyword `function`") {
        Err(e) => Err(e),
        Ok(()) => {
            let is_generator = spec_is_kind(t, p + 1, Symbol::Star);
            let after_star = if is_generator { p + 2 } else { p + 1 };
            let named: Result<(Option<Identifier>, nat), Error> = if spec_is_kind_identifier(t, after_star) {
                match spec_expect_identifier(t, after_star) {
                    Err(e) => Err(e),
                    Ok((id, k)) => Ok((Some(id), k)),
                }
            } else {
                Ok((None, 0))
            };
            match named {
                Err(e) => Err(e),
                Ok((id, k1)) => {
                    let after_id = after_star + k1;
                    match spec_parse_formal_parameters(t, after_id) {
                        Err(e) => Err(e),
                        Ok((params, k2)) => match spec_parse_block_body(t, after_id + k2) {
                            Err(e) => Err(e),
                            Ok((body, k3)) => Ok((
                                Function { id, params, body, is_async: false, is_generator },
                                (after_id + k2 + k3 - p) as nat,
                            )),
                        },
                    }
                },
            }
        },
    }
}

/// Parse a function declaration where the identifier may be omitted.  Used
/// by `export default function() {}`.
pub fn parse_function_declaration_optional_name(tokens: &[Token], pos: usize) -> (r: Result<(Function, usize), Error>)
    ensures
        pos <= tokens@.len() ==> agrees(r, spec_parse_function_declaration_optional_name(tokens@, pos as int), pos as int),
        advances(r, pos as int, tokens@.len() as int),
        pos > tokens@.len() ==> r == Err::<(Function, usize), Error>(Error::UnexpectedEof { expected: "keyword `function`" }),
{
    proof { lemma_len_fits(tokens); }
    if pos > tokens.len() {
        return Err(Error::UnexpectedEof { expected: "keyword `function`" });
    }
    let after_kw = expect_kind(tokens, pos, Symbol::KwFunction, "keyword `function`")?;
    let is_generator = is_kind(tokens, after_kw, Symbol::Star);
    let after_star = if is_generator { after_kw + 1 } else { after_kw };
    let named = match peek(tokens, after_star) {
        Peek::Token(tok) => match &tok.kind {
            TokenKind::Identifier(_) => true,
            _ => false,
        },
        Peek::Eof => false,
    };
    let (id, after_id) = if named {
        let (name, after_name) = expect_identifier(tokens, after_star)?;
        (Some(name), after_name)
    } else {
        (None, after_star)
    };
    let (params, after_params) = parse_formal_parameters(tokens, after_id)?;
    let (body, after_body) = parse_block_body(tokens, after_params)?;
    Ok((Function { id, params, body, is_async: false, is_generator }, after_body))
}

/// `( params )` at `p`, a trailing comma allowed.
#[verifier::opaque]
pub open spec fn spec_parse_formal_parameters(t: Seq<Token>, p: int) -> Result<(List<Pattern>, nat), Error>
    decreases rem(t, p), 0nat when p <= t.len()
{
    match spec_expect_kind(t, p, Symbol::LParen, "`(`") {
        Err(e) => Err(e),
        Ok(()) => if spec_is_kind(t, p + 1, Symbol::RParen) {
            Ok((List::Nil, 2))
        } else {
            shift(spec_collect_formal_params(t, p + 1), 1)
        },
    }
}

/// Parse a `(params)` list.  Returns the patterns and the position after
/// the closing paren.
pub fn parse_formal_parameters(tokens: &[Token], pos: usize) -> (r: Result<(List<Pattern>, usize), Error>)
    ensures
        pos <= tokens@.len() ==> agrees(r, spec_parse_formal_parameters(tokens@, pos as int), pos as int),
        advances(r, pos as int, tokens@.len() as int),
        pos > tokens@.len() ==> r == Err::<(List<Pattern>, usize), Error>(Error::UnexpectedEof { expected: "`(`" }),
    decreases rem(tokens@, pos as int), 0nat,
{
    proof {
        reveal(spec_parse_formal_parameters);
        reveal(spec_collect_formal_params);
        lemma_len_fits(tokens);
    }
    if pos > tokens.len() {
        return Err(Error::UnexpectedEof { expected: "`(`" });
    }
    let after_open = expect_kind(tokens, pos, Symbol::LParen, "`(`")?;
    if is_kind(tokens, after_open, Symbol::RParen) {
        Ok((List::Nil, after_open + 1))
    } else {
        collect_formal_params(tokens, after_open)
    }
}

/// The parameters from `p` through the closing `)`.
#[verifier::opaque]
pub open spec fn spec_collect_formal_params(t: Seq<Token>, p: int) -> Result<(List<Pattern>, nat), Error>
    decreases rem(t, p), 3nat when p <= t.len()
{
    match spec_parse_formal_parameter(t, p) {
        Err(e) => Err(e),
        Ok((param, k1)) => {
            let after_param = p + k1;
            if spec_is_kind(t, after_param, Symbol::Comma) {
                let next = after_param + 1;
                if spec_is_kind(t, next, Symbol::RParen) {
                    Ok((List::Cons(Box::new(param), Box::new(List::Nil)), k1 + 2))
                } else {
                    match spec_collect_formal_params(t, next) {
                        Err(e) => Err(e),
                        Ok((rest, k2)) => Ok((List::Cons(Box::new(param), Box::new(rest)), k1 + 1 + k2)),
                    }
                }
            } else {
                match spec_expect_kind(t, after_param, Symbol::RParen, "`)` or `,`") {
                    Err(e) => Err(e),
                    Ok(()) => Ok((List::Cons(Box::new(param), Box::new(List::Nil)), k1 + 1)),
                }
            }
        },
    }
}

fn collect_formal_params(tokens: &[Token], pos: usize) -> (r: Result<(List<Pattern>, usize), Error>)
    requires
        pos <= tokens@.len(),
    ensures
        agrees(r, spec_collect_formal_params(tokens@, pos as int), pos as int),
        advances(r, pos as int, tokens@.len() as int),
    decreases rem(tokens@, pos as int), 3nat,
{
    proof {
        reveal(spec_collect_formal_params);
        reveal(spec_parse_formal_parameter);
        lemma_len_fits(tokens);
    }
    let (param, after_param) = parse_formal_parameter(tokens, pos)?;
    if is_kind(tokens, after_param, Symbol::Comma) {
        let next = after_param + 1;
        if is_kind(tokens, next, Symbol::RParen) {
            Ok((List::Cons(Box::new(param), Box::new(List::Nil)), next + 1))
        } else {
            let (rest, end) = collect_formal_params(tokens, next)?;
            Ok((List::Cons(Box::new(param), Box::new(rest)), end))
        }
    } else {
        let after_close = expect_kind(tokens, after_param, Symbol::RParen, "`)` or `,`")?;
        Ok((List::Cons(Box::new(param), Box::new(List::Nil)), after_close))
    }
}

/// One parameter at `p`: `...pattern` or a binding pattern with an
/// optional default.
#[verifier::opaque]
pub open spec fn spec_parse_formal_parameter(t: Seq<Token>, p: int) -> Result<(Pattern, nat), Error>
    decreases rem(t, p), 2nat when p <= t.len()
{
    if spec_is_kind(t, p, Symbol::Spread) {
        match spec_parse_binding_pattern(t, p + 1) {
            Err(e) => Err(e),
            Ok((inner, k)) => {
                let span = Span { start: spec_span_at(t, p).start, end: inner.span.end };
                Ok((Pattern { kind: PatternKind::Rest { argument: Box::new(inner) }, span }, k + 1))
            },
        }
    } else {
        match spec_parse_binding_pattern(t, p) {
            Err(e) => Err(e),
            Ok((pattern, k)) => shift(spec_maybe_with_default(t, p + k, pattern), k),
        }
    }
}

fn parse_formal_parameter(tokens: &[Token], pos: usize) -> (r: Result<(Pattern, usize), Error>)
    requires
        pos <= tokens@.len(),
    ensures
        agrees(r, spec_parse_formal_parameter(tokens@, pos as int), pos as int),
        advances(r, pos as int, tokens@.len() as int),
    decreases rem(tokens@, pos as int), 2nat,
{
    proof {
        reveal(spec_parse_formal_parameter);
        reveal(spec_parse_binding_pattern);
        reveal(spec_maybe_with_default);
        lemma_len_fits(tokens);
    }
    if is_kind(tokens, pos, Symbol::Spread) {
        let start_span = span_at(tokens, pos);
        let (inner, after_inner) = parse_binding_pattern(tokens, pos + 1)?;
        let span = Span { start: start_span.start, end: inner.span.end };
        Ok((Pattern { kind: PatternKind::Rest { argument: Box::new(inner) }, span }, after_inner))
    } else {
        let (pattern, after_pattern) = parse_binding_pattern(tokens, pos)?;
        maybe_with_default(tokens, after_pattern, pattern)
    }
}

} // verus!

verus! {

// ---------------------------------------------------------------------
// Classes
// ---------------------------------------------------------------------

/// `class [name] [extends expression] { members }` at `p`.
#[verifier::opaque]
pub open spec fn spec_parse_class(t: Seq<Token>, p: int) -> Result<(Class, nat), Error>
    decreases rem(t, p), 0nat when p <= t.len()
{
    match spec_expect_kind(t, p, Symbol::KwClass, "keyword `class`") {
        Err(e) => Err(e),
        Ok(()) => {
            let after_kw = p + 1;
            let named: Result<(Option<Identifier>, nat), Error> = if spec_is_kind_identifier(t, after_kw) {
                match spec_expect_identifier(t, after_kw) {
                    Err(e) => Err(e),
                    Ok((id, k)) => Ok((Some(id), k)),
                }
            } else {
                Ok((None, 0))
            };
            match named {
                Err(e) => Err(e),
                Ok((id, k1)) => {
                    let after_id = after_kw + k1;
                    let extended: Result<(Option<Box<Expression>>, nat), Error> = if spec_is_kind(t, after_id, Symbol::KwExtends) {
                        match spec_parse_assignment_expression(t, after_id + 1) {
                            Err(e) => Err(e),
                            Ok((e, k)) => Ok((Some(Box::new(e)), k + 1)),
                        }
                    } else {
                        Ok((None, 0))
                    };
                    match extended {
                        Err(e) => Err(e),
                        Ok((super_class, k2)) => {
                            let after_super = after_id + k2;
                            match spec_expect_kind(t, after_super, Symbol::LBrace, "`{`") {
                                Err(e) => Err(e),
                                Ok(()) => match spec_collect_class_members(t, after_super + 1) {
                                    Err(e) => Err(e),
                                    Ok((body, k3)) => Ok((
                                        Class { id, super_class, body },
                                        (after_super + 1 + k3 - p) as nat,
                                    )),
                                },
                            }
                        },
                    }
                },
            }
        },
    }
}

/// Parse a class declaration or expression body (the parser does not
/// distinguish; the calling site wraps the result in either `ClassDeclaration`
/// or `ClassExpression`).
#[verifier::spinoff_prover]
#[verifier::rlimit(30)]
pub fn parse_class(tokens: &[Token], pos: usize) -> (r: Result<(Class, usize), Error>)
    ensures
        pos <= tokens@.len() ==> agrees(r, spec_parse_class(tokens@, pos as int), pos as int),
        advances(r, pos as int, tokens@.len() as int),
        pos > tokens@.len() ==> r == Err::<(Class, usize), Error>(Error::UnexpectedEof { expected: "keyword `class`" }),
    decreases rem(tokens@, pos as int), 0nat,
{
    proof {
        reveal(spec_parse_class);
        reveal(spec_parse_assignment_expression);
        reveal(spec_collect_class_members);
        lemma_len_fits(tokens);
    }
    if pos > tokens.len() {
        return Err(Error::UnexpectedEof { expected: "keyword `class`" });
    }
    let after_kw = expect_kind(tokens, pos, Symbol::KwClass, "keyword `class`")?;
    let named = match peek(tokens, after_kw) {
        Peek::Token(tok) => match &tok.kind {
            TokenKind::Identifier(_) => true,
            _ => false,
        },
        Peek::Eof => false,
    };
    let (id, after_id) = if named {
        let (name, after_name) = expect_identifier(tokens, after_kw)?;
        (Some(name), after_name)
    } else {
        (None, after_kw)
    };
    let (super_class, after_super) = if is_kind(tokens, after_id, Symbol::KwExtends) {
        let (expr, after_expr) = parse_assignment_expression(tokens, after_id + 1)?;
        (Some(Box::new(expr)), after_expr)
    } else {
        (None, after_id)
    };
    let after_lbrace = expect_kind(tokens, after_super, Symbol::LBrace, "`{`")?;
    let (body, after_rbrace) = collect_class_members(tokens, after_lbrace)?;
    Ok((Class { id, super_class, body }, after_rbrace))
}

/// The members of a class body from `p` through its `}`; stray `;` are
/// skipped.
/// A class member always takes at least one token (the parser of
/// members proves it); the test on the count taken only makes the definition
/// well-founded, and its other branch is never reached.
#[verifier::opaque]
pub open spec fn spec_collect_class_members(t: Seq<Token>, p: int) -> Result<(List<ClassMember>, nat), Error>
    decreases rem(t, p), 3nat when p <= t.len()
{
    if spec_is_kind(t, p, Symbol::RBrace) {
        Ok((List::Nil, 1))
    } else if spec_is_kind(t, p, Symbol::Semicolon) {
        shift(spec_collect_class_members(t, p + 1), 1)
    } else {
        match spec_parse_class_member(t, p) {
            Err(e) => Err(e),
            Ok((member, k1)) => if k1 > 0 {
                match spec_collect_class_members(t, p + k1) {
                    Err(e) => Err(e),
                    Ok((rest, k2)) => Ok((List::Cons(Box::new(member), Box::new(rest)), k1 + k2)),
                }
            } else {
                Err(Error::UnexpectedEof { expected: "class member name" })
            },
        }
    }
}

fn collect_class_members(tokens: &[Token], pos: usize) -> (r: Result<(List<ClassMember>, usize), Error>)
    requires
        pos <= tokens@.len(),
    ensures
        agrees(r, spec_collect_class_members(tokens@, pos as int), pos as int),
        advances(r, pos as int, tokens@.len() as int),
    decreases rem(tokens@, pos as int), 3nat,
{
    proof {
        reveal(spec_collect_class_members);
        reveal(spec_parse_class_member);
        lemma_len_fits(tokens);
    }
    if is_kind(tokens, pos, Symbol::RBrace) {
        Ok((List::Nil, pos + 1))
    } else if is_kind(tokens, pos, Symbol::Semicolon) {
        collect_class_members(tokens, pos + 1)
    } else {
        let (member, after_member) = parse_class_member(tokens, pos)?;
        let (rest, end) = collect_class_members(tokens, after_member)?;
        Ok((List::Cons(Box::new(member), Box::new(rest)), end))
    }
}

/// Whether `static` at `p` is a modifier: it is not followed by `=`, `;`
/// or `(`, which would make it a member named `static`.
pub open spec fn spec_is_static_keyword_at(t: Seq<Token>, p: int) -> bool {
    spec_is_kind(t, p, Symbol::KwStatic) && !(spec_is_kind(t, p + 1, Symbol::Eq)
        || spec_is_kind(t, p + 1, Symbol::Semicolon) || spec_is_kind(t, p + 1, Symbol::LParen))
}

fn is_static_keyword_at(tokens: &[Token], pos: usize) -> (b: bool)
    requires
        pos <= tokens@.len(),
    ensures
        b == spec_is_static_keyword_at(tokens@, pos as int),
{
    proof { lemma_len_fits(tokens); }
    if is_kind(tokens, pos, Symbol::KwStatic) {
        !(is_kind(tokens, pos + 1, Symbol::Eq) || is_kind(tokens, pos + 1, Symbol::Semicolon)
            || is_kind(tokens, pos + 1, Symbol::LParen))
    } else {
        false
    }
}

/// One class member at `p`: a `static { ... }` block, or a method or
/// field, `static` or not.
#[verifier::opaque]
pub open spec fn spec_parse_class_member(t: Seq<Token>, p: int) -> Result<(ClassMember, nat), Error>
    decreases rem(t, p), 2nat when p <= t.len()
{
    let is_static = spec_is_static_keyword_at(t, p);
    let after_static = if is_static { p + 1 } else { p };
    if spec_is_kind(t, after_static, Symbol::LBrace) && is_static {
        match spec_parse_block_body(t, after_static) {
            Err(e) => Err(e),
            Ok((body, k)) => Ok((ClassMember::StaticBlock { body }, k + 1)),
        }
    } else {
        shift(spec_parse_class_method_or_field(t, after_static, is_static), (after_static - p) as nat)
    }
}

fn parse_class_member(tokens: &[Token], pos: usize) -> (r: Result<(ClassMember, usize), Error>)
    requires
        pos <= tokens@.len(),
    ensures
        agrees(r, spec_parse_class_member(tokens@, pos as int), pos as int),
        advances(r, pos as int, tokens@.len() as int),
    decreases rem(tokens@, pos as int), 2nat,
{
    proof {
        reveal(spec_parse_class_member);
        reveal(spec_parse_block_body);
        reveal(spec_parse_class_method_or_field);
        lemma_len_fits(tokens);
    }
    let is_static = is_static_keyword_at(tokens, pos);
    let after_static = if is_static { pos + 1 } else { pos };
    if is_kind(tokens, after_static, Symbol::LBrace) && is_static {
        let (body, after_body) = parse_block_body(tokens, after_static)?;
        Ok((ClassMember::StaticBlock { body }, after_body))
    } else {
        parse_class_method_or_field(tokens, after_static, is_static)
    }
}

/// A method (`key(params) { body }`) or a field (`key [= value] [;]`)
/// whose key, or `get`/`set` before it, is at `p`.
#[verifier::opaque]
pub open spec fn spec_parse_class_method_or_field(t: Seq<Token>, p: int, is_static: bool) -> Result<(ClassMember, nat), Error>
    decreases rem(t, p), 1nat when p <= t.len()
{
    let (method_kind, k0) = spec_detect_method_kind(t, p);
    let after_kind = p + k0;
    match spec_parse_class_property_key(t, after_kind) {
        Err(e) => Err(e),
        Ok(((key, computed), k1)) => {
            let after_key = after_kind + k1;
            if spec_is_kind(t, after_key, Symbol::LParen) {
                match spec_parse_formal_parameters(t, after_key) {
                    Err(e) => Err(e),
                    Ok((params, k2)) => match spec_parse_block_body(t, after_key + k2) {
                        Err(e) => Err(e),
                        Ok((body, k3)) => {
                            let value = Function { id: None, params, body, is_async: false, is_generator: false };
                            Ok((
                                ClassMember::Method { key, value, kind: method_kind, is_static, computed },
                                (after_key + k2 + k3 - p) as nat,
                            ))
                        },
                    },
                }
            } else if spec_is_kind(t, after_key, Symbol::Eq) {
                match spec_parse_assignment_expression(t, after_key + 1) {
                    Err(e) => Err(e),
                    Ok((value, k2)) => {
                        let after_value = after_key + 1 + k2;
                        let after_semi = if spec_is_kind(t, after_value, Symbol::Semicolon) { after_value + 1 } else { after_value };
                        Ok((
                            ClassMember::Property { key, value: Some(value), is_static, computed },
                            (after_semi - p) as nat,
                        ))
                    },
                }
            } else {
                let after_semi = if spec_is_kind(t, after_key, Symbol::Semicolon) { after_key + 1 } else { after_key };
                Ok((ClassMember::Property { key, value: None, is_static, computed }, (after_semi - p) as nat))
            }
        },
    }
}

fn parse_class_method_or_field(tokens: &[Token], pos: usize, is_static: bool) -> (r: Result<(ClassMember, usize), Error>)
    requires
        pos <= tokens@.len(),
    ensures
        agrees(r, spec_parse_class_method_or_field(tokens@, pos as int, is_static), pos as int),
        advances(r, pos as int, tokens@.len() as int),
    decreases rem(tokens@, pos as int), 1nat,
{
    proof {
        reveal(spec_parse_class_method_or_field);
        reveal(spec_parse_class_property_key);
        reveal(spec_parse_formal_parameters);
        reveal(spec_parse_block_body);
        reveal(spec_parse_assignment_expression);
        lemma_len_fits(tokens);
    }
    let (method_kind, after_kind) = detect_method_kind(tokens, pos);
    let ((key, computed), after_key) = parse_class_property_key(tokens, after_kind)?;
    if is_kind(tokens, after_key, Symbol::LParen) {
        let (params, after_params) = parse_formal_parameters(tokens, after_key)?;
        let (body, after_body) = parse_block_body(tokens, after_params)?;
        let value = Function { id: None, params, body, is_async: false, is_generator: false };
        Ok((ClassMember::Method { key, value, kind: method_kind, is_static, computed }, after_body))
    } else if is_kind(tokens, after_key, Symbol::Eq) {
        let (value, after_value) = parse_assignment_expression(tokens, after_key + 1)?;
        let after_semi = if is_kind(tokens, after_value, Symbol::Semicolon) { after_value + 1 } else { after_value };
        Ok((ClassMember::Property { key, value: Some(value), is_static, computed }, after_semi))
    } else {
        let after_semi = if is_kind(tokens, after_key, Symbol::Semicolon) { after_key + 1 } else { after_key };
        Ok((ClassMember::Property { key, value: None, is_static, computed }, after_semi))
    }
}

/// The kind of method that starts at `p`, with the number of tokens its
/// `get`/`set` modifier takes: `constructor` names the constructor, and
/// `get`/`set` followed by a key are accessors.
pub open spec fn spec_detect_method_kind(t: Seq<Token>, p: int) -> (MethodKind, nat) {
    if spec_is_word(t, p, "constructor") {
        (MethodKind::Constructor, 0)
    } else if spec_is_word(t, p, "get") && spec_peek_after_modifier(t, p) {
        (MethodKind::Getter, 1)
    } else if spec_is_word(t, p, "set") && spec_peek_after_modifier(t, p) {
        (MethodKind::Setter, 1)
    } else {
        (MethodKind::Method, 0)
    }
}

fn detect_method_kind(tokens: &[Token], pos: usize) -> (r: (MethodKind, usize))
    requires
        pos <= tokens@.len(),
    ensures
        r.0 == spec_detect_method_kind(tokens@, pos as int).0,
        r.1 == pos + spec_detect_method_kind(tokens@, pos as int).1,
{
    proof { lemma_len_fits(tokens); }
    if is_word(tokens, pos, "constructor") {
        (MethodKind::Constructor, pos)
    } else if is_word(tokens, pos, "get") && peek_after_modifier(tokens, pos) {
        (MethodKind::Getter, pos + 1)
    } else if is_word(tokens, pos, "set") && peek_after_modifier(tokens, pos) {
        (MethodKind::Setter, pos + 1)
    } else {
        (MethodKind::Method, pos)
    }
}

/// Whether the token after `p` can start a class member key: an
/// identifier, a private name, a string, a number or `[`.
pub open spec fn spec_peek_after_modifier(t: Seq<Token>, p: int) -> bool {
    spec_peek(t, p + 1) matches Some(tok) && (tok.kind matches TokenKind::Identifier(_)
        || tok.kind matches TokenKind::PrivateIdentifier(_) || tok.kind matches TokenKind::String(_)
        || tok.kind matches TokenKind::Number(_) || tok.kind == TokenKind::Symbol(Symbol::LBracket))
}

fn peek_after_modifier(tokens: &[Token], pos: usize) -> (b: bool)
    requires
        pos < tokens@.len(),
    ensures
        b == spec_peek_after_modifier(tokens@, pos as int),
{
    proof { lemma_len_fits(tokens); }
    match peek(tokens, pos + 1) {
        Peek::Eof => false,
        Peek::Token(tok) => match &tok.kind {
            TokenKind::Identifier(_) | TokenKind::PrivateIdentifier(_) | TokenKind::String(_)
            | TokenKind::Number(_) | TokenKind::Symbol(Symbol::LBracket) => true,
            _ => false,
        },
    }
}

/// A class member key at `p` (with whether it is computed): `[expression]`,
/// a string, a number, a private name, or an identifier or keyword.
#[verifier::opaque]
pub open spec fn spec_parse_class_property_key(t: Seq<Token>, p: int) -> Result<((PropertyKey, bool), nat), Error>
    decreases rem(t, p), 0nat when p <= t.len()
{
    match spec_peek(t, p) {
        None => Err(Error::UnexpectedEof { expected: "class member name" }),
        Some(tok) => match tok.kind {
            TokenKind::Symbol(Symbol::LBracket) => match spec_parse_assignment_expression(t, p + 1) {
                Err(e) => Err(e),
                Ok((inner, k)) => match spec_expect_kind(t, p + 1 + k, Symbol::RBracket, "`]`") {
                    Err(e) => Err(e),
                    Ok(()) => Ok(((PropertyKey::Computed(Box::new(inner)), true), k + 2)),
                },
            },
            TokenKind::String(s) => Ok(((PropertyKey::String(s), false), 1)),
            TokenKind::Number(n) => Ok(((PropertyKey::Number(n), false), 1)),
            TokenKind::PrivateIdentifier(_) => match spec_expect_private_identifier(t, p) {
                Err(e) => Err(e),
                Ok((id, k)) => Ok(((PropertyKey::Private(id), false), k)),
            },
            _ => match spec_expect_identifier_or_keyword(t, p) {
                Err(e) => Err(e),
                Ok((id, k)) => Ok(((PropertyKey::Identifier(id), false), k)),
            },
        },
    }
}

fn parse_class_property_key(tokens: &[Token], pos: usize) -> (r: Result<((PropertyKey, bool), usize), Error>)
    requires
        pos <= tokens@.len(),
    ensures
        agrees(r, spec_parse_class_property_key(tokens@, pos as int), pos as int),
        advances(r, pos as int, tokens@.len() as int),
    decreases rem(tokens@, pos as int), 0nat,
{
    proof {
        reveal(spec_parse_class_property_key);
        reveal(spec_parse_assignment_expression);
        lemma_len_fits(tokens);
    }
    match peek(tokens, pos) {
        Peek::Eof => Err(Error::UnexpectedEof { expected: "class member name" }),
        Peek::Token(tok) => match &tok.kind {
            TokenKind::Symbol(Symbol::LBracket) => {
                let (inner, after_inner) = parse_assignment_expression(tokens, pos + 1)?;
                let after_close = expect_kind(tokens, after_inner, Symbol::RBracket, "`]`")?;
                Ok(((PropertyKey::Computed(Box::new(inner)), true), after_close))
            },
            TokenKind::String(s) => Ok(((PropertyKey::String(s.clone()), false), pos + 1)),
            TokenKind::Number(n) => Ok(((PropertyKey::Number(*n), false), pos + 1)),
            TokenKind::PrivateIdentifier(_) => {
                let (id, after) = expect_private_identifier(tokens, pos)?;
                Ok(((PropertyKey::Private(id), false), after))
            },
            _ => {
                let (id, after) = expect_identifier_or_keyword(tokens, pos)?;
                Ok(((PropertyKey::Identifier(id), false), after))
            },
        },
    }
}

} // verus!
