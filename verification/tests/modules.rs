//! Module-level parsing (import/export), driven by source text lexed
//! with `ecma_lex_cat`.

use ecma_lex_cat::TokenKind as LexKind;
use ecma_parse_cat::ast::{ExportDeclaration, ImportSpecifier, List, ModuleItemKind, ProgramKind};
use ecma_parse_cat::token::{Position, Span, Symbol, Token, TokenKind};
use ecma_parse_cat::{Error, parse_module};

fn module_kind(kind: &LexKind) -> TokenKind {
    match kind {
        LexKind::Identifier(s) => TokenKind::Identifier(s.clone()),
        LexKind::PrivateIdentifier(s) => TokenKind::PrivateIdentifier(s.clone()),
        LexKind::Number(n) => TokenKind::Number(n.to_bits()),
        LexKind::BigInt(s) => TokenKind::BigInt(s.clone()),
        LexKind::String(s) => TokenKind::String(s.clone()),
        LexKind::RegExp { pattern, flags } => TokenKind::RegExp { pattern: pattern.clone(), flags: flags.clone() },
        LexKind::TemplateNoSubstitution(s) => TokenKind::TemplateNoSubstitution(s.clone()),
        LexKind::TemplateHead(s) => TokenKind::TemplateHead(s.clone()),
        LexKind::TemplateMiddle(s) => TokenKind::TemplateMiddle(s.clone()),
        LexKind::TemplateTail(s) => TokenKind::TemplateTail(s.clone()),
        LexKind::KwAwait => TokenKind::Symbol(Symbol::KwAwait),
        LexKind::KwBreak => TokenKind::Symbol(Symbol::KwBreak),
        LexKind::KwCase => TokenKind::Symbol(Symbol::KwCase),
        LexKind::KwCatch => TokenKind::Symbol(Symbol::KwCatch),
        LexKind::KwClass => TokenKind::Symbol(Symbol::KwClass),
        LexKind::KwConst => TokenKind::Symbol(Symbol::KwConst),
        LexKind::KwContinue => TokenKind::Symbol(Symbol::KwContinue),
        LexKind::KwDebugger => TokenKind::Symbol(Symbol::KwDebugger),
        LexKind::KwDefault => TokenKind::Symbol(Symbol::KwDefault),
        LexKind::KwDelete => TokenKind::Symbol(Symbol::KwDelete),
        LexKind::KwDo => TokenKind::Symbol(Symbol::KwDo),
        LexKind::KwElse => TokenKind::Symbol(Symbol::KwElse),
        LexKind::KwEnum => TokenKind::Symbol(Symbol::KwEnum),
        LexKind::KwExport => TokenKind::Symbol(Symbol::KwExport),
        LexKind::KwExtends => TokenKind::Symbol(Symbol::KwExtends),
        LexKind::KwFalse => TokenKind::Symbol(Symbol::KwFalse),
        LexKind::KwFinally => TokenKind::Symbol(Symbol::KwFinally),
        LexKind::KwFor => TokenKind::Symbol(Symbol::KwFor),
        LexKind::KwFunction => TokenKind::Symbol(Symbol::KwFunction),
        LexKind::KwIf => TokenKind::Symbol(Symbol::KwIf),
        LexKind::KwImplements => TokenKind::Symbol(Symbol::KwImplements),
        LexKind::KwImport => TokenKind::Symbol(Symbol::KwImport),
        LexKind::KwIn => TokenKind::Symbol(Symbol::KwIn),
        LexKind::KwInstanceof => TokenKind::Symbol(Symbol::KwInstanceof),
        LexKind::KwInterface => TokenKind::Symbol(Symbol::KwInterface),
        LexKind::KwLet => TokenKind::Symbol(Symbol::KwLet),
        LexKind::KwNew => TokenKind::Symbol(Symbol::KwNew),
        LexKind::KwNull => TokenKind::Symbol(Symbol::KwNull),
        LexKind::KwPackage => TokenKind::Symbol(Symbol::KwPackage),
        LexKind::KwPrivate => TokenKind::Symbol(Symbol::KwPrivate),
        LexKind::KwProtected => TokenKind::Symbol(Symbol::KwProtected),
        LexKind::KwPublic => TokenKind::Symbol(Symbol::KwPublic),
        LexKind::KwReturn => TokenKind::Symbol(Symbol::KwReturn),
        LexKind::KwStatic => TokenKind::Symbol(Symbol::KwStatic),
        LexKind::KwSuper => TokenKind::Symbol(Symbol::KwSuper),
        LexKind::KwSwitch => TokenKind::Symbol(Symbol::KwSwitch),
        LexKind::KwThis => TokenKind::Symbol(Symbol::KwThis),
        LexKind::KwThrow => TokenKind::Symbol(Symbol::KwThrow),
        LexKind::KwTrue => TokenKind::Symbol(Symbol::KwTrue),
        LexKind::KwTry => TokenKind::Symbol(Symbol::KwTry),
        LexKind::KwTypeof => TokenKind::Symbol(Symbol::KwTypeof),
        LexKind::KwVar => TokenKind::Symbol(Symbol::KwVar),
        LexKind::KwVoid => TokenKind::Symbol(Symbol::KwVoid),
        LexKind::KwWhile => TokenKind::Symbol(Symbol::KwWhile),
        LexKind::KwWith => TokenKind::Symbol(Symbol::KwWith),
        LexKind::KwYield => TokenKind::Symbol(Symbol::KwYield),
        LexKind::LParen => TokenKind::Symbol(Symbol::LParen),
        LexKind::RParen => TokenKind::Symbol(Symbol::RParen),
        LexKind::LBracket => TokenKind::Symbol(Symbol::LBracket),
        LexKind::RBracket => TokenKind::Symbol(Symbol::RBracket),
        LexKind::LBrace => TokenKind::Symbol(Symbol::LBrace),
        LexKind::RBrace => TokenKind::Symbol(Symbol::RBrace),
        LexKind::Comma => TokenKind::Symbol(Symbol::Comma),
        LexKind::Semicolon => TokenKind::Symbol(Symbol::Semicolon),
        LexKind::Colon => TokenKind::Symbol(Symbol::Colon),
        LexKind::Dot => TokenKind::Symbol(Symbol::Dot),
        LexKind::OptionalChain => TokenKind::Symbol(Symbol::OptionalChain),
        LexKind::Spread => TokenKind::Symbol(Symbol::Spread),
        LexKind::Arrow => TokenKind::Symbol(Symbol::Arrow),
        LexKind::Question => TokenKind::Symbol(Symbol::Question),
        LexKind::EqEq => TokenKind::Symbol(Symbol::EqEq),
        LexKind::EqEqEq => TokenKind::Symbol(Symbol::EqEqEq),
        LexKind::BangEq => TokenKind::Symbol(Symbol::BangEq),
        LexKind::BangEqEq => TokenKind::Symbol(Symbol::BangEqEq),
        LexKind::Lt => TokenKind::Symbol(Symbol::Lt),
        LexKind::LtEq => TokenKind::Symbol(Symbol::LtEq),
        LexKind::Gt => TokenKind::Symbol(Symbol::Gt),
        LexKind::GtEq => TokenKind::Symbol(Symbol::GtEq),
        LexKind::Plus => TokenKind::Symbol(Symbol::Plus),
        LexKind::Minus => TokenKind::Symbol(Symbol::Minus),
        LexKind::Star => TokenKind::Symbol(Symbol::Star),
        LexKind::Slash => TokenKind::Symbol(Symbol::Slash),
        LexKind::Percent => TokenKind::Symbol(Symbol::Percent),
        LexKind::StarStar => TokenKind::Symbol(Symbol::StarStar),
        LexKind::PlusPlus => TokenKind::Symbol(Symbol::PlusPlus),
        LexKind::MinusMinus => TokenKind::Symbol(Symbol::MinusMinus),
        LexKind::Amp => TokenKind::Symbol(Symbol::Amp),
        LexKind::Pipe => TokenKind::Symbol(Symbol::Pipe),
        LexKind::Caret => TokenKind::Symbol(Symbol::Caret),
        LexKind::Tilde => TokenKind::Symbol(Symbol::Tilde),
        LexKind::LtLt => TokenKind::Symbol(Symbol::LtLt),
        LexKind::GtGt => TokenKind::Symbol(Symbol::GtGt),
        LexKind::GtGtGt => TokenKind::Symbol(Symbol::GtGtGt),
        LexKind::AmpAmp => TokenKind::Symbol(Symbol::AmpAmp),
        LexKind::PipePipe => TokenKind::Symbol(Symbol::PipePipe),
        LexKind::QQ => TokenKind::Symbol(Symbol::QQ),
        LexKind::Bang => TokenKind::Symbol(Symbol::Bang),
        LexKind::Eq => TokenKind::Symbol(Symbol::Eq),
        LexKind::PlusEq => TokenKind::Symbol(Symbol::PlusEq),
        LexKind::MinusEq => TokenKind::Symbol(Symbol::MinusEq),
        LexKind::StarEq => TokenKind::Symbol(Symbol::StarEq),
        LexKind::SlashEq => TokenKind::Symbol(Symbol::SlashEq),
        LexKind::PercentEq => TokenKind::Symbol(Symbol::PercentEq),
        LexKind::StarStarEq => TokenKind::Symbol(Symbol::StarStarEq),
        LexKind::LtLtEq => TokenKind::Symbol(Symbol::LtLtEq),
        LexKind::GtGtEq => TokenKind::Symbol(Symbol::GtGtEq),
        LexKind::GtGtGtEq => TokenKind::Symbol(Symbol::GtGtGtEq),
        LexKind::AmpEq => TokenKind::Symbol(Symbol::AmpEq),
        LexKind::PipeEq => TokenKind::Symbol(Symbol::PipeEq),
        LexKind::CaretEq => TokenKind::Symbol(Symbol::CaretEq),
        LexKind::AmpAmpEq => TokenKind::Symbol(Symbol::AmpAmpEq),
        LexKind::PipePipeEq => TokenKind::Symbol(Symbol::PipePipeEq),
        LexKind::QQEq => TokenKind::Symbol(Symbol::QQEq),
        LexKind::Eof => TokenKind::Symbol(Symbol::Eof),
    }
}

fn module_position(p: ecma_syntax_cat::span::Position) -> Position {
    Position { line: p.line(), column: p.column(), offset: p.offset() }
}

/// Lexes `source` and converts the lexer's tokens into the parser's.
fn module_tokens(source: &str) -> Result<Vec<Token>, Error> {
    let lexed = ecma_lex_cat::lex(source)?;
    Ok(lexed
        .iter()
        .map(|t| Token {
            kind: module_kind(t.value()),
            span: Span::new(module_position(t.span().start()), module_position(t.span().end())),
            text: format!("{}", t.value()),
        })
        .collect())
}

fn first_module_item(source: &str) -> Result<ModuleItemKind, Error> {
    let tokens = module_tokens(source)?;
    let program = parse_module(&tokens)?;
    match program.kind {
        ProgramKind::Module { body } => match body {
            List::Cons(first, _) => Ok(first.kind),
            List::Nil => Err(Error::UnexpectedEof {
                expected: "first module item",
            }),
        },
        ProgramKind::Script { .. } => Err(Error::UnexpectedEof {
            expected: "module-mode program",
        }),
    }
}

#[test]
fn parses_default_import() -> Result<(), Error> {
    let item = first_module_item("import foo from \"./foo.js\";")?;
    match item {
        ModuleItemKind::Import(decl) => match decl.specifiers.first() {
            Some(ImportSpecifier::Default { .. }) => Ok(()),
            _other => Err(Error::UnexpectedEof {
                expected: "default import specifier",
            }),
        },
        _other => Err(Error::UnexpectedEof {
            expected: "import declaration",
        }),
    }
}

#[test]
fn parses_named_imports() -> Result<(), Error> {
    let item = first_module_item("import { a, b as c } from \"./m.js\";")?;
    match item {
        ModuleItemKind::Import(decl) if decl.specifiers.len() == 2 => Ok(()),
        _other => Err(Error::UnexpectedEof {
            expected: "named import",
        }),
    }
}

#[test]
fn parses_namespace_import() -> Result<(), Error> {
    let item = first_module_item("import * as ns from \"./m.js\";")?;
    match item {
        ModuleItemKind::Import(decl) => match decl.specifiers.first() {
            Some(ImportSpecifier::Namespace { .. }) => Ok(()),
            _other => Err(Error::UnexpectedEof {
                expected: "namespace import",
            }),
        },
        _other => Err(Error::UnexpectedEof {
            expected: "import declaration",
        }),
    }
}

#[test]
fn parses_bare_import() -> Result<(), Error> {
    let item = first_module_item("import \"./side-effect.js\";")?;
    match item {
        ModuleItemKind::Import(decl) if decl.specifiers.is_empty() => Ok(()),
        _other => Err(Error::UnexpectedEof {
            expected: "bare import",
        }),
    }
}

#[test]
fn parses_named_export() -> Result<(), Error> {
    let item = first_module_item("export { foo, bar as baz };")?;
    match item {
        ModuleItemKind::Export(ExportDeclaration::Named { specifiers, .. })
            if specifiers.len() == 2 =>
        {
            Ok(())
        }
        _other => Err(Error::UnexpectedEof {
            expected: "named export",
        }),
    }
}

#[test]
fn parses_export_default_expression() -> Result<(), Error> {
    let item = first_module_item("export default 42;")?;
    match item {
        ModuleItemKind::Export(ExportDeclaration::Default { .. }) => Ok(()),
        _other => Err(Error::UnexpectedEof {
            expected: "export default",
        }),
    }
}

#[test]
fn parses_export_all() -> Result<(), Error> {
    let item = first_module_item("export * from \"./m.js\";")?;
    match item {
        ModuleItemKind::Export(ExportDeclaration::All { .. }) => Ok(()),
        _other => Err(Error::UnexpectedEof {
            expected: "export all",
        }),
    }
}

#[test]
fn parses_export_declaration() -> Result<(), Error> {
    let item = first_module_item("export let x = 1;")?;
    match item {
        ModuleItemKind::Export(ExportDeclaration::Declaration { .. }) => Ok(()),
        _other => Err(Error::UnexpectedEof {
            expected: "export declaration",
        }),
    }
}
