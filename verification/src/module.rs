//! Module-level item parsing: `import` and `export` declarations.

use vstd::prelude::*;
use crate::ast::{
    ExportDeclaration, ExportDefault, ExportSpecifier, Identifier, ImportDeclaration,
    ImportSpecifier, List, ModuleItem, ModuleItemKind, StatementKind,
};
use crate::declaration::{
    parse_class, parse_function_declaration_optional_name, spec_parse_class,
    spec_parse_function_declaration_optional_name,
};
use crate::error::{Error, Found};
use crate::expression::{is_word, parse_assignment_expression, spec_is_word, spec_parse_assignment_expression};
use crate::statement::{parse_statement, spec_parse_statement};
use crate::stream::{
    Peek, advances, agrees, eat_semicolon, expect_identifier, expect_identifier_or_keyword,
    expect_kind, is_kind, lemma_len_fits, peek, rem, shift, span_at, spec_eat_semicolon,
    spec_expect_identifier, spec_expect_identifier_or_keyword, spec_expect_kind, spec_is_kind,
    spec_peek, spec_span_at, spec_unexpected, unexpected,
};
use crate::token::{Span, Symbol, Token, TokenKind};

verus! {

// ---------------------------------------------------------------------
// Module items
// ---------------------------------------------------------------------

/// Whether `import` at `p` starts an expression (`import(...)` or
/// `import.meta`) rather than a declaration.
pub open spec fn spec_is_import_call(t: Seq<Token>, p: int) -> bool {
    spec_is_kind(t, p + 1, Symbol::LParen) || spec_is_kind(t, p + 1, Symbol::Dot)
}

fn is_import_call(tokens: &[Token], pos: usize) -> (b: bool)
    requires
        pos < tokens@.len(),
    ensures
        b == spec_is_import_call(tokens@, pos as int),
{
    proof { lemma_len_fits(tokens); }
    is_kind(tokens, pos + 1, Symbol::LParen) || is_kind(tokens, pos + 1, Symbol::Dot)
}

/// The module item at `p`: an `import` declaration, an `export`
/// declaration, or a statement; each spans from its first token to its
/// last.
pub open spec fn spec_parse_module_item(t: Seq<Token>, p: int) -> Result<(ModuleItem, nat), Error> {
    match spec_peek(t, p) {
        None => Err(Error::UnexpectedEof { expected: "module item" }),
        Some(tok) => if tok.kind == TokenKind::Symbol(Symbol::KwImport) && !spec_is_import_call(t, p) {
            match spec_parse_import_declaration(t, p) {
                Err(e) => Err(e),
                Ok((decl, k)) => Ok((ModuleItem { kind: ModuleItemKind::Import(decl), span: spec_item_span(t, p, k) }, k)),
            }
        } else if tok.kind == TokenKind::Symbol(Symbol::KwExport) {
            match spec_parse_export_declaration(t, p) {
                Err(e) => Err(e),
                Ok((decl, k)) => Ok((ModuleItem { kind: ModuleItemKind::Export(decl), span: spec_item_span(t, p, k) }, k)),
            }
        } else {
            match spec_parse_statement(t, p) {
                Err(e) => Err(e),
                Ok((stmt, k)) => Ok((ModuleItem { kind: ModuleItemKind::Statement(stmt), span: spec_item_span(t, p, k) }, k)),
            }
        },
    }
}

/// The span from the token at `p` to the last of the `k` tokens from `p`.
pub open spec fn spec_item_span(t: Seq<Token>, p: int, k: nat) -> Span {
    Span { start: spec_span_at(t, p).start, end: spec_span_at(t, p + k - 1).end }
}

/// Parse a module-level item (statement, import, or export).
pub fn parse_module_item(tokens: &[Token], pos: usize) -> (r: Result<(ModuleItem, usize), Error>)
    ensures
        pos <= tokens@.len() ==> agrees(r, spec_parse_module_item(tokens@, pos as int), pos as int),
        advances(r, pos as int, tokens@.len() as int),
        pos > tokens@.len() ==> r == Err::<(ModuleItem, usize), Error>(Error::UnexpectedEof { expected: "module item" }),
{
    proof { lemma_len_fits(tokens); }
    if pos > tokens.len() {
        return Err(Error::UnexpectedEof { expected: "module item" });
    }
    let start_span = span_at(tokens, pos);
    match peek(tokens, pos) {
        Peek::Eof => Err(Error::UnexpectedEof { expected: "module item" }),
        Peek::Token(tok) => {
            let is_import = match &tok.kind {
                TokenKind::Symbol(Symbol::KwImport) => !is_import_call(tokens, pos),
                _ => false,
            };
            let is_export = match &tok.kind {
                TokenKind::Symbol(Symbol::KwExport) => true,
                _ => false,
            };
            if is_import {
                let (decl, after) = parse_import_declaration(tokens, pos)?;
                let span = Span { start: start_span.start, end: span_at(tokens, after - 1).end };
                Ok((ModuleItem { kind: ModuleItemKind::Import(decl), span }, after))
            } else if is_export {
                let (decl, after) = parse_export_declaration(tokens, pos)?;
                let span = Span { start: start_span.start, end: span_at(tokens, after - 1).end };
                Ok((ModuleItem { kind: ModuleItemKind::Export(decl), span }, after))
            } else {
                let (stmt, after) = parse_statement(tokens, pos)?;
                let span = Span { start: start_span.start, end: span_at(tokens, after - 1).end };
                Ok((ModuleItem { kind: ModuleItemKind::Statement(stmt), span }, after))
            }
        },
    }
}

// ---------------------------------------------------------------------
// Imports
// ---------------------------------------------------------------------

/// The string literal at `p`, if there is one.
pub open spec fn spec_bare_import_source(t: Seq<Token>, p: int) -> Option<String> {
    match spec_peek(t, p) {
        Some(tok) => match tok.kind {
            TokenKind::String(s) => Some(s),
            _ => None,
        },
        None => None,
    }
}

fn bare_import_source(tokens: &[Token], pos: usize) -> (r: Option<String>)
    ensures
        r == spec_bare_import_source(tokens@, pos as int),
{
    proof { lemma_len_fits(tokens); }
    match peek(tokens, pos) {
        Peek::Eof => None,
        Peek::Token(tok) => match &tok.kind {
            TokenKind::String(s) => Some(s.clone()),
            _ => None,
        },
    }
}

/// `import "source"`, or `import specifiers from "source"`, with `import`
/// at `p` and an optional `;`.
pub open spec fn spec_parse_import_declaration(t: Seq<Token>, p: int) -> Result<(ImportDeclaration, nat), Error> {
    match spec_bare_import_source(t, p + 1) {
        Some(source) => match spec_eat_semicolon(t, p + 2) {
            Err(e) => Err(e),
            Ok(k) => Ok((ImportDeclaration { specifiers: List::Nil, source }, k + 2)),
        },
        None => shift(spec_parse_import_with_specifiers(t, p + 1), 1),
    }
}

fn parse_import_declaration(tokens: &[Token], pos: usize) -> (r: Result<(ImportDeclaration, usize), Error>)
    requires
        pos < tokens@.len(),
    ensures
        agrees(r, spec_parse_import_declaration(tokens@, pos as int), pos as int),
        advances(r, pos as int, tokens@.len() as int),
{
    proof { lemma_len_fits(tokens); }
    let after_kw = pos + 1;
    match bare_import_source(tokens, after_kw) {
        Some(source) => {
            let after_semi = eat_semicolon(tokens, after_kw + 1)?;
            Ok((ImportDeclaration { specifiers: List::Nil, source }, after_semi))
        },
        None => parse_import_with_specifiers(tokens, after_kw),
    }
}

/// `specifiers from "source" [;]` at `p`.
pub open spec fn spec_parse_import_with_specifiers(t: Seq<Token>, p: int) -> Result<(ImportDeclaration, nat), Error> {
    match spec_parse_import_specifiers(t, p) {
        Err(e) => Err(e),
        Ok((specifiers, k1)) => match spec_expect_identifier_matching(t, p + k1, "from") {
            Err(e) => Err(e),
            Ok(()) => match spec_expect_string(t, p + k1 + 1) {
                Err(e) => Err(e),
                Ok((source, k2)) => match spec_eat_semicolon(t, p + k1 + 1 + k2) {
                    Err(e) => Err(e),
                    Ok(k3) => Ok((ImportDeclaration { specifiers, source }, k1 + 1 + k2 + k3)),
                },
            },
        },
    }
}

fn parse_import_with_specifiers(tokens: &[Token], pos: usize) -> (r: Result<(ImportDeclaration, usize), Error>)
    requires
        pos <= tokens@.len(),
    ensures
        agrees(r, spec_parse_import_with_specifiers(tokens@, pos as int), pos as int),
        advances(r, pos as int, tokens@.len() as int),
{
    proof { lemma_len_fits(tokens); }
    let (specifiers, after_specs) = parse_import_specifiers(tokens, pos)?;
    let after_from = expect_identifier_matching(tokens, after_specs, "from")?;
    let (source, after_source) = expect_string(tokens, after_from)?;
    let after_semi = eat_semicolon(tokens, after_source)?;
    Ok((ImportDeclaration { specifiers, source }, after_semi))
}

/// The specifiers at `p`: `* as name`, `{ names }`, or a default name
/// optionally followed by one of the other two.
pub open spec fn spec_parse_import_specifiers(t: Seq<Token>, p: int) -> Result<(List<ImportSpecifier>, nat), Error> {
    match spec_peek(t, p) {
        None => Err(Error::UnexpectedEof { expected: "import specifier" }),
        Some(tok) => if tok.kind == TokenKind::Symbol(Symbol::Star) {
            spec_parse_namespace_import(t, p)
        } else if tok.kind == TokenKind::Symbol(Symbol::LBrace) {
            spec_parse_named_imports(t, p)
        } else {
            spec_parse_default_then_optional(t, p)
        },
    }
}

fn parse_import_specifiers(tokens: &[Token], pos: usize) -> (r: Result<(List<ImportSpecifier>, usize), Error>)
    requires
        pos <= tokens@.len(),
    ensures
        agrees(r, spec_parse_import_specifiers(tokens@, pos as int), pos as int),
        advances(r, pos as int, tokens@.len() as int),
{
    proof { lemma_len_fits(tokens); }
    match peek(tokens, pos) {
        Peek::Eof => Err(Error::UnexpectedEof { expected: "import specifier" }),
        Peek::Token(tok) => match &tok.kind {
            TokenKind::Symbol(Symbol::Star) => parse_namespace_import(tokens, pos),
            TokenKind::Symbol(Symbol::LBrace) => parse_named_imports(tokens, pos),
            _ => parse_default_then_optional(tokens, pos),
        },
    }
}

/// `* as name` with `*` at `p`.
pub open spec fn spec_parse_namespace_import(t: Seq<Token>, p: int) -> Result<(List<ImportSpecifier>, nat), Error> {
    match spec_expect_identifier_matching(t, p + 1, "as") {
        Err(e) => Err(e),
        Ok(()) => match spec_expect_identifier(t, p + 2) {
            Err(e) => Err(e),
            Ok((local, k)) => Ok((List::Cons(Box::new(ImportSpecifier::Namespace { local }), Box::new(List::Nil)), k + 2)),
        },
    }
}

fn parse_namespace_import(tokens: &[Token], pos: usize) -> (r: Result<(List<ImportSpecifier>, usize), Error>)
    requires
        pos < tokens@.len(),
    ensures
        agrees(r, spec_parse_namespace_import(tokens@, pos as int), pos as int),
        advances(r, pos as int, tokens@.len() as int),
{
    proof { lemma_len_fits(tokens); }
    let after_as = expect_identifier_matching(tokens, pos + 1, "as")?;
    let (local, after_local) = expect_identifier(tokens, after_as)?;
    Ok((List::Cons(Box::new(ImportSpecifier::Namespace { local }), Box::new(List::Nil)), after_local))
}

/// `{ names }` with `{` at `p`.
pub open spec fn spec_parse_named_imports(t: Seq<Token>, p: int) -> Result<(List<ImportSpecifier>, nat), Error> {
    shift(spec_collect_named_imports(t, p + 1), 1)
}

fn parse_named_imports(tokens: &[Token], pos: usize) -> (r: Result<(List<ImportSpecifier>, usize), Error>)
    requires
        pos < tokens@.len(),
    ensures
        agrees(r, spec_parse_named_imports(tokens@, pos as int), pos as int),
        advances(r, pos as int, tokens@.len() as int),
{
    proof { lemma_len_fits(tokens); }
    collect_named_imports(tokens, pos + 1)
}

/// The names `imported [as local]` from `p` through the `}`.
#[verifier::opaque]
pub open spec fn spec_collect_named_imports(t: Seq<Token>, p: int) -> Result<(List<ImportSpecifier>, nat), Error>
    decreases rem(t, p) when p <= t.len()
{
    if spec_is_kind(t, p, Symbol::RBrace) {
        Ok((List::Nil, 1))
    } else {
        match spec_expect_identifier_or_keyword(t, p) {
            Err(e) => Err(e),
            Ok((imported, k1)) => {
                let after_imported = p + k1;
                let renamed: Result<(Identifier, nat), Error> = if spec_is_word(t, after_imported, "as") {
                    match spec_expect_identifier(t, after_imported + 1) {
                        Err(e) => Err(e),
                        Ok((name, k)) => Ok((name, k + 1)),
                    }
                } else {
                    Ok((imported, 0))
                };
                match renamed {
                    Err(e) => Err(e),
                    Ok((local, k2)) => {
                        let after_local = after_imported + k2;
                        let specifier = ImportSpecifier::Named { imported, local };
                        if spec_is_kind(t, after_local, Symbol::Comma) {
                            match spec_collect_named_imports(t, after_local + 1) {
                                Err(e) => Err(e),
                                Ok((rest, k3)) => Ok((List::Cons(Box::new(specifier), Box::new(rest)), k1 + k2 + 1 + k3)),
                            }
                        } else {
                            match spec_expect_kind(t, after_local, Symbol::RBrace, "`}`") {
                                Err(e) => Err(e),
                                Ok(()) => Ok((List::Cons(Box::new(specifier), Box::new(List::Nil)), k1 + k2 + 1)),
                            }
                        }
                    },
                }
            },
        }
    }
}

fn collect_named_imports(tokens: &[Token], pos: usize) -> (r: Result<(List<ImportSpecifier>, usize), Error>)
    requires
        pos <= tokens@.len(),
    ensures
        agrees(r, spec_collect_named_imports(tokens@, pos as int), pos as int),
        advances(r, pos as int, tokens@.len() as int),
    decreases rem(tokens@, pos as int),
{
    proof {
        reveal(spec_collect_named_imports);
        lemma_len_fits(tokens);
    }
    if is_kind(tokens, pos, Symbol::RBrace) {
        Ok((List::Nil, pos + 1))
    } else {
        let (imported, after_imported) = expect_identifier_or_keyword(tokens, pos)?;
        let (local, after_local) = if is_word(tokens, after_imported, "as") {
            let (name, after_name) = expect_identifier(tokens, after_imported + 1)?;
            (name, after_name)
        } else {
            (Identifier { name: imported.name.duplicate() }, after_imported)
        };
        let specifier = ImportSpecifier::Named { imported, local };
        if is_kind(tokens, after_local, Symbol::Comma) {
            let (rest, end) = collect_named_imports(tokens, after_local + 1)?;
            Ok((List::Cons(Box::new(specifier), Box::new(rest)), end))
        } else {
            let after_close = expect_kind(tokens, after_local, Symbol::RBrace, "`}`")?;
            Ok((List::Cons(Box::new(specifier), Box::new(List::Nil)), after_close))
        }
    }
}

/// A default import name at `p`, optionally followed by `,` and a
/// namespace or named import.
pub open spec fn spec_parse_default_then_optional(t: Seq<Token>, p: int) -> Result<(List<ImportSpecifier>, nat), Error> {
    match spec_expect_identifier(t, p) {
        Err(e) => Err(e),
        Ok((local, k1)) => {
            let head = ImportSpecifier::Default { local };
            let after_local = p + k1;
            if spec_is_kind(t, after_local, Symbol::Comma) {
                let rest: Result<(List<ImportSpecifier>, nat), Error> = match spec_peek(t, after_local + 1) {
                    None => Err(Error::UnexpectedEof { expected: "import specifier" }),
                    Some(tok) => if tok.kind == TokenKind::Symbol(Symbol::Star) {
                        spec_parse_namespace_import(t, after_local + 1)
                    } else if tok.kind == TokenKind::Symbol(Symbol::LBrace) {
                        spec_parse_named_imports(t, after_local + 1)
                    } else {
                        Err(spec_unexpected(tok, "`*` or `{`"))
                    },
                };
                match rest {
                    Err(e) => Err(e),
                    Ok((others, k2)) => Ok((List::Cons(Box::new(head), Box::new(others)), k1 + 1 + k2)),
                }
            } else {
                Ok((List::Cons(Box::new(head), Box::new(List::Nil)), k1))
            }
        },
    }
}

fn parse_default_then_optional(tokens: &[Token], pos: usize) -> (r: Result<(List<ImportSpecifier>, usize), Error>)
    requires
        pos <= tokens@.len(),
    ensures
        agrees(r, spec_parse_default_then_optional(tokens@, pos as int), pos as int),
        advances(r, pos as int, tokens@.len() as int),
{
    proof { lemma_len_fits(tokens); }
    let (local, after_local) = expect_identifier(tokens, pos)?;
    let head = ImportSpecifier::Default { local };
    if is_kind(tokens, after_local, Symbol::Comma) {
        let (others, after_rest) = match peek(tokens, after_local + 1) {
            Peek::Eof => Err(Error::UnexpectedEof { expected: "import specifier" }),
            Peek::Token(tok) => match &tok.kind {
                TokenKind::Symbol(Symbol::Star) => parse_namespace_import(tokens, after_local + 1),
                TokenKind::Symbol(Symbol::LBrace) => parse_named_imports(tokens, after_local + 1),
                _ => Err(unexpected(tok, "`*` or `{`")),
            },
        }?;
        Ok((List::Cons(Box::new(head), Box::new(others)), after_rest))
    } else {
        Ok((List::Cons(Box::new(head), Box::new(List::Nil)), after_local))
    }
}

} // verus!

verus! {

// ---------------------------------------------------------------------
// Exports
// ---------------------------------------------------------------------

/// `export ...` with `export` at `p`: `*`, `{` and `default` decide the
/// form; anything else must be a declaration.
pub open spec fn spec_parse_export_declaration(t: Seq<Token>, p: int) -> Result<(ExportDeclaration, nat), Error> {
    let after_kw = p + 1;
    match spec_peek(t, after_kw) {
        None => Err(Error::UnexpectedEof { expected: "export form" }),
        Some(tok) => shift(
            if tok.kind == TokenKind::Symbol(Symbol::Star) {
                spec_parse_export_all(t, after_kw)
            } else if tok.kind == TokenKind::Symbol(Symbol::LBrace) {
                spec_parse_export_named(t, after_kw)
            } else if tok.kind == TokenKind::Symbol(Symbol::KwDefault) {
                spec_parse_export_default(t, after_kw)
            } else {
                spec_parse_export_declaration_inline(t, after_kw)
            },
            1,
        ),
    }
}

fn parse_export_declaration(tokens: &[Token], pos: usize) -> (r: Result<(ExportDeclaration, usize), Error>)
    requires
        pos < tokens@.len(),
    ensures
        agrees(r, spec_parse_export_declaration(tokens@, pos as int), pos as int),
        advances(r, pos as int, tokens@.len() as int),
{
    proof { lemma_len_fits(tokens); }
    let after_kw = pos + 1;
    match peek(tokens, after_kw) {
        Peek::Eof => Err(Error::UnexpectedEof { expected: "export form" }),
        Peek::Token(tok) => match &tok.kind {
            TokenKind::Symbol(Symbol::Star) => parse_export_all(tokens, after_kw),
            TokenKind::Symbol(Symbol::LBrace) => parse_export_named(tokens, after_kw),
            TokenKind::Symbol(Symbol::KwDefault) => parse_export_default(tokens, after_kw),
            _ => parse_export_declaration_inline(tokens, after_kw),
        },
    }
}

/// `* [as name] from "source" [;]` with `*` at `p`.
pub open spec fn spec_parse_export_all(t: Seq<Token>, p: int) -> Result<(ExportDeclaration, nat), Error> {
    let after_star = p + 1;
    let renamed: Result<(Option<Identifier>, nat), Error> = if spec_is_word(t, after_star, "as") {
        match spec_expect_identifier(t, after_star + 1) {
            Err(e) => Err(e),
            Ok((id, k)) => Ok((Some(id), k + 1)),
        }
    } else {
        Ok((None, 0))
    };
    match renamed {
        Err(e) => Err(e),
        Ok((exported, k1)) => {
            let after_as = after_star + k1;
            match spec_expect_identifier_matching(t, after_as, "from") {
                Err(e) => Err(e),
                Ok(()) => match spec_expect_string(t, after_as + 1) {
                    Err(e) => Err(e),
                    Ok((source, k2)) => match spec_eat_semicolon(t, after_as + 1 + k2) {
                        Err(e) => Err(e),
                        Ok(k3) => Ok((ExportDeclaration::All { exported, source }, 2 + k1 + k2 + k3)),
                    },
                },
            }
        },
    }
}

fn parse_export_all(tokens: &[Token], pos: usize) -> (r: Result<(ExportDeclaration, usize), Error>)
    requires
        pos < tokens@.len(),
    ensures
        agrees(r, spec_parse_export_all(tokens@, pos as int), pos as int),
        advances(r, pos as int, tokens@.len() as int),
{
    proof { lemma_len_fits(tokens); }
    let after_star = pos + 1;
    let (exported, after_as) = if is_word(tokens, after_star, "as") {
        let (id, after_id) = expect_identifier(tokens, after_star + 1)?;
        (Some(id), after_id)
    } else {
        (None, after_star)
    };
    let after_from = expect_identifier_matching(tokens, after_as, "from")?;
    let (source, after_source) = expect_string(tokens, after_from)?;
    let after_semi = eat_semicolon(tokens, after_source)?;
    Ok((ExportDeclaration::All { exported, source }, after_semi))
}

/// `{ specifiers } [from "source"] [;]` with `{` at `p`.
pub open spec fn spec_parse_export_named(t: Seq<Token>, p: int) -> Result<(ExportDeclaration, nat), Error> {
    match spec_collect_export_specifiers(t, p + 1) {
        Err(e) => Err(e),
        Ok((specifiers, k1)) => {
            let after_close = p + 1 + k1;
            let sourced: Result<(Option<String>, nat), Error> = if spec_is_word(t, after_close, "from") {
                match spec_expect_string(t, after_close + 1) {
                    Err(e) => Err(e),
                    Ok((s, k)) => Ok((Some(s), k + 1)),
                }
            } else {
                Ok((None, 0))
            };
            match sourced {
                Err(e) => Err(e),
                Ok((source, k2)) => match spec_eat_semicolon(t, after_close + k2) {
                    Err(e) => Err(e),
                    Ok(k3) => Ok((ExportDeclaration::Named { specifiers, source }, 1 + k1 + k2 + k3)),
                },
            }
        },
    }
}

fn parse_export_named(tokens: &[Token], pos: usize) -> (r: Result<(ExportDeclaration, usize), Error>)
    requires
        pos < tokens@.len(),
    ensures
        agrees(r, spec_parse_export_named(tokens@, pos as int), pos as int),
        advances(r, pos as int, tokens@.len() as int),
{
    proof { lemma_len_fits(tokens); }
    let (specifiers, after_close) = collect_export_specifiers(tokens, pos + 1)?;
    let (source, after_source) = if is_word(tokens, after_close, "from") {
        let (s, after_s) = expect_string(tokens, after_close + 1)?;
        (Some(s), after_s)
    } else {
        (None, after_close)
    };
    let after_semi = eat_semicolon(tokens, after_source)?;
    Ok((ExportDeclaration::Named { specifiers, source }, after_semi))
}

/// The specifiers `local [as exported]` from `p` through the `}`.
#[verifier::opaque]
pub open spec fn spec_collect_export_specifiers(t: Seq<Token>, p: int) -> Result<(List<ExportSpecifier>, nat), Error>
    decreases rem(t, p) when p <= t.len()
{
    if spec_is_kind(t, p, Symbol::RBrace) {
        Ok((List::Nil, 1))
    } else {
        match spec_expect_identifier_or_keyword(t, p) {
            Err(e) => Err(e),
            Ok((local, k1)) => {
                let after_local = p + k1;
                let renamed: Result<(Identifier, nat), Error> = if spec_is_word(t, after_local, "as") {
                    match spec_expect_identifier_or_keyword(t, after_local + 1) {
                        Err(e) => Err(e),
                        Ok((name, k)) => Ok((name, k + 1)),
                    }
                } else {
                    Ok((local, 0))
                };
                match renamed {
                    Err(e) => Err(e),
                    Ok((exported, k2)) => {
                        let after_exported = after_local + k2;
                        let specifier = ExportSpecifier { local, exported };
                        if spec_is_kind(t, after_exported, Symbol::Comma) {
                            match spec_collect_export_specifiers(t, after_exported + 1) {
                                Err(e) => Err(e),
                                Ok((rest, k3)) => Ok((List::Cons(Box::new(specifier), Box::new(rest)), k1 + k2 + 1 + k3)),
                            }
                        } else {
                            match spec_expect_kind(t, after_exported, Symbol::RBrace, "`}`") {
                                Err(e) => Err(e),
                                Ok(()) => Ok((List::Cons(Box::new(specifier), Box::new(List::Nil)), k1 + k2 + 1)),
                            }
                        }
                    },
                }
            },
        }
    }
}

fn collect_export_specifiers(tokens: &[Token], pos: usize) -> (r: Result<(List<ExportSpecifier>, usize), Error>)
    requires
        pos <= tokens@.len(),
    ensures
        agrees(r, spec_collect_export_specifiers(tokens@, pos as int), pos as int),
        advances(r, pos as int, tokens@.len() as int),
    decreases rem(tokens@, pos as int),
{
    proof {
        reveal(spec_collect_export_specifiers);
        lemma_len_fits(tokens);
    }
    if is_kind(tokens, pos, Symbol::RBrace) {
        Ok((List::Nil, pos + 1))
    } else {
        let (local, after_local) = expect_identifier_or_keyword(tokens, pos)?;
        let (exported, after_exported) = if is_word(tokens, after_local, "as") {
            let (name, after_name) = expect_identifier_or_keyword(tokens, after_local + 1)?;
            (name, after_name)
        } else {
            (Identifier { name: local.name.duplicate() }, after_local)
        };
        let specifier = ExportSpecifier { local, exported };
        if is_kind(tokens, after_exported, Symbol::Comma) {
            let (rest, end) = collect_export_specifiers(tokens, after_exported + 1)?;
            Ok((List::Cons(Box::new(specifier), Box::new(rest)), end))
        } else {
            let after_close = expect_kind(tokens, after_exported, Symbol::RBrace, "`}`")?;
            Ok((List::Cons(Box::new(specifier), Box::new(List::Nil)), after_close))
        }
    }
}

/// `default` at `p` followed by a function, a class, or an assignment
/// expression with an optional `;`.
pub open spec fn spec_parse_export_default(t: Seq<Token>, p: int) -> Result<(ExportDeclaration, nat), Error> {
    let after_kw = p + 1;
    if spec_is_kind(t, after_kw, Symbol::KwFunction) {
        match spec_parse_function_declaration_optional_name(t, after_kw) {
            Err(e) => Err(e),
            Ok((func, k)) => Ok((ExportDeclaration::Default { declaration: ExportDefault::Function(func) }, k + 1)),
        }
    } else if spec_is_kind(t, after_kw, Symbol::KwClass) {
        match spec_parse_class(t, after_kw) {
            Err(e) => Err(e),
            Ok((class, k)) => Ok((ExportDeclaration::Default { declaration: ExportDefault::Class(class) }, k + 1)),
        }
    } else {
        match spec_parse_assignment_expression(t, after_kw) {
            Err(e) => Err(e),
            Ok((expr, k1)) => match spec_eat_semicolon(t, after_kw + k1) {
                Err(e) => Err(e),
                Ok(k2) => Ok((ExportDeclaration::Default { declaration: ExportDefault::Expression(expr) }, 1 + k1 + k2)),
            },
        }
    }
}

fn parse_export_default(tokens: &[Token], pos: usize) -> (r: Result<(ExportDeclaration, usize), Error>)
    requires
        pos < tokens@.len(),
    ensures
        agrees(r, spec_parse_export_default(tokens@, pos as int), pos as int),
        advances(r, pos as int, tokens@.len() as int),
{
    proof { lemma_len_fits(tokens); }
    let after_kw = pos + 1;
    if is_kind(tokens, after_kw, Symbol::KwFunction) {
        let (func, after_func) = parse_function_declaration_optional_name(tokens, after_kw)?;
        Ok((ExportDeclaration::Default { declaration: ExportDefault::Function(func) }, after_func))
    } else if is_kind(tokens, after_kw, Symbol::KwClass) {
        let (class, after_class) = parse_class(tokens, after_kw)?;
        Ok((ExportDeclaration::Default { declaration: ExportDefault::Class(class) }, after_class))
    } else {
        let (expr, after_expr) = parse_assignment_expression(tokens, after_kw)?;
        let after_semi = eat_semicolon(tokens, after_expr)?;
        Ok((ExportDeclaration::Default { declaration: ExportDefault::Expression(expr) }, after_semi))
    }
}

/// Whether a statement is a declaration that `export` may precede.
pub open spec fn spec_is_exportable(kind: StatementKind) -> bool {
    kind matches StatementKind::VariableDeclaration(_) || kind matches StatementKind::FunctionDeclaration(_)
        || kind matches StatementKind::ClassDeclaration(_)
}

/// The statement at `p` after `export`, which must be a variable,
/// function or class declaration.
pub open spec fn spec_parse_export_declaration_inline(t: Seq<Token>, p: int) -> Result<(ExportDeclaration, nat), Error> {
    match spec_parse_statement(t, p) {
        Err(e) => Err(e),
        Ok((stmt, k)) => if spec_is_exportable(stmt.kind) {
            Ok((ExportDeclaration::Declaration { declaration: stmt }, k))
        } else {
            Err(Error::UnexpectedToken {
                at: stmt.span,
                expected: "declaration after `export`",
                found: Found::Note("non-declaration statement"),
            })
        },
    }
}

fn parse_export_declaration_inline(tokens: &[Token], pos: usize) -> (r: Result<(ExportDeclaration, usize), Error>)
    requires
        pos <= tokens@.len(),
    ensures
        agrees(r, spec_parse_export_declaration_inline(tokens@, pos as int), pos as int),
        advances(r, pos as int, tokens@.len() as int),
{
    proof { lemma_len_fits(tokens); }
    let (stmt, after_stmt) = parse_statement(tokens, pos)?;
    let is_decl = match &stmt.kind {
        StatementKind::VariableDeclaration(_) | StatementKind::FunctionDeclaration(_)
        | StatementKind::ClassDeclaration(_) => true,
        _ => false,
    };
    if is_decl {
        Ok((ExportDeclaration::Declaration { declaration: stmt }, after_stmt))
    } else {
        Err(Error::UnexpectedToken {
            at: stmt.span,
            expected: "declaration after `export`",
            found: Found::Note("non-declaration statement"),
        })
    }
}

// ---------------------------------------------------------------------
// Contextual words and string literals
// ---------------------------------------------------------------------

/// The outcome of expecting the contextual word `target` at `p`.
pub open spec fn spec_expect_identifier_matching(t: Seq<Token>, p: int, target: &'static str) -> Result<(), Error> {
    match spec_peek(t, p) {
        None => Err(Error::UnexpectedEof { expected: target }),
        Some(tok) => if spec_is_word(t, p, target) {
            Ok(())
        } else {
            Err(spec_unexpected(tok, target))
        },
    }
}

fn expect_identifier_matching(tokens: &[Token], pos: usize, target: &'static str) -> (r: Result<usize, Error>)
    requires
        pos <= tokens@.len(),
    ensures
        match (r, spec_expect_identifier_matching(tokens@, pos as int, target)) {
            (Ok(q), Ok(())) => q == pos + 1,
            (Err(e), Err(f)) => e == f,
            _ => false,
        },
        r matches Ok(q) ==> q <= tokens@.len(),
{
    proof { lemma_len_fits(tokens); }
    match peek(tokens, pos) {
        Peek::Eof => Err(Error::UnexpectedEof { expected: target }),
        Peek::Token(tok) => if is_word(tokens, pos, target) {
            Ok(pos + 1)
        } else {
            Err(unexpected(tok, target))
        },
    }
}

/// The string literal at `p`.
pub open spec fn spec_expect_string(t: Seq<Token>, p: int) -> Result<(String, nat), Error> {
    match spec_peek(t, p) {
        None => Err(Error::UnexpectedEof { expected: "string literal" }),
        Some(tok) => match tok.kind {
            TokenKind::String(s) => Ok((s, 1)),
            _ => Err(spec_unexpected(tok, "string literal")),
        },
    }
}

fn expect_string(tokens: &[Token], pos: usize) -> (r: Result<(String, usize), Error>)
    requires
        pos <= tokens@.len(),
    ensures
        agrees(r, spec_expect_string(tokens@, pos as int), pos as int),
        advances(r, pos as int, tokens@.len() as int),
{
    proof { lemma_len_fits(tokens); }
    match peek(tokens, pos) {
        Peek::Eof => Err(Error::UnexpectedEof { expected: "string literal" }),
        Peek::Token(tok) => match &tok.kind {
            TokenKind::String(s) => Ok((s.clone(), pos + 1)),
            _ => Err(unexpected(tok, "string literal")),
        },
    }
}

} // verus!
