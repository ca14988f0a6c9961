//! Statement parsing, driven by source text lexed with `ecma_lex_cat`.

use ecma_lex_cat::TokenKind as LexKind;
use ecma_parse_cat::ast::{List, ProgramKind, StatementKind, VariableKind};
use ecma_parse_cat::token::{Position, Span, Symbol, Token, TokenKind};
use ecma_parse_cat::{Error, parse_script};

fn stmt_kind(kind: &LexKind) -> TokenKind {
    match kind {
        LexKind::Identifier(s) => TokenKind::Identifier(s.clone()),
        LexKind::PrivateIdentifier(s) => TokenKind::PrivateIdentifier(s.clone()),
        LexKind::Number(n) => TokenKind::Number(n.to_bits()),
        LexKind::BigInt(s) => TokenKind::BigInt(s.clone()),
        LexKind::String(s) => TokenKind::String(s.clone()),
        LexKind::RegExp { pattern, flags } => TokenKind::RegExp { pattern: pattern.clone(), flags: flags.clone() },
        LexKind::TemplateNoSubstitution(s) => TokenKind::TemplateNoSubstitution(s.clone()),
        LexKind::TemplateHead(s) => TokenKind::TemplateHead(s.clone()),
        LexKind::TemplateMiddle(s) => TokenKind::TemplateMiddle(s.clone()),
        LexKind::TemplateTail(s) => TokenKind::TemplateTail(s.clone()),
        LexKind::KwAwait => TokenKind::Symbol(Symbol::KwAwait),
        LexKind::KwBreak => TokenKind::Symbol(Symbol::KwBreak),
        LexKind::KwCase => TokenKind::Symbol(Symbol::KwCase),
        LexKind::KwCatch => TokenKind::Symbol(Symbol::KwCatch),
        LexKind::KwClass => TokenKind::Symbol(Symbol::KwClass),
        LexKind::KwConst => TokenKind::Symbol(Symbol::KwConst),
        LexKind::KwContinue => TokenKind::Symbol(Symbol::KwContinue),
        LexKind::KwDebugger => TokenKind::Symbol(Symbol::KwDebugger),
        LexKind::KwDefault => TokenKind::Symbol(Symbol::KwDefault),
        LexKind::KwDelete => TokenKind::Symbol(Symbol::KwDelete),
        LexKind::KwDo => TokenKind::Symbol(Symbol::KwDo),
        LexKind::KwElse => TokenKind::Symbol(Symbol::KwElse),
        LexKind::KwEnum => TokenKind::Symbol(Symbol::KwEnum),
        LexKind::KwExport => TokenKind::Symbol(Symbol::KwExport),
        LexKind::KwExtends => TokenKind::Symbol(Symbol::KwExtends),
        LexKind::KwFalse => TokenKind::Symbol(Symbol::KwFalse),
        LexKind::KwFinally => TokenKind::Symbol(Symbol::KwFinally),
        LexKind::KwFor => TokenKind::Symbol(Symbol::KwFor),
        LexKind::KwFunction => TokenKind::Symbol(Symbol::KwFunction),
        LexKind::KwIf => TokenKind::Symbol(Symbol::KwIf),
        LexKind::KwImplements => TokenKind::Symbol(Symbol::KwImplements),
        LexKind::KwImport => TokenKind::Symbol(Symbol::KwImport),
        LexKind::KwIn => TokenKind::Symbol(Symbol::KwIn),
        LexKind::KwInstanceof => TokenKind::Symbol(Symbol::KwInstanceof),
        LexKind::KwInterface => TokenKind::Symbol(Symbol::KwInterface),
        LexKind::KwLet => TokenKind::Symbol(Symbol::KwLet),
        LexKind::KwNew => TokenKind::Symbol(Symbol::KwNew),
        LexKind::KwNull => TokenKind::Symbol(Symbol::KwNull),
        LexKind::KwPackage => TokenKind::Symbol(Symbol::KwPackage),
        LexKind::KwPrivate => TokenKind::Symbol(Symbol::KwPrivate),
        LexKind::KwProtected => TokenKind::Symbol(Symbol::KwProtected),
        LexKind::KwPublic => TokenKind::Symbol(Symbol::KwPublic),
        LexKind::KwReturn => TokenKind::Symbol(Symbol::KwReturn),
        LexKind::KwStatic => TokenKind::Symbol(Symbol::KwStatic),
        LexKind::KwSuper => TokenKind::Symbol(Symbol::KwSuper),
        LexKind::KwSwitch => TokenKind::Symbol(Symbol::KwSwitch),
        LexKind::KwThis => TokenKind::Symbol(Symbol::KwThis),
        LexKind::KwThrow => TokenKind::Symbol(Symbol::KwThrow),
        LexKind::KwTrue => TokenKind::Symbol(Symbol::KwTrue),
        LexKind::KwTry => TokenKind::Symbol(Symbol::KwTry),
        LexKind::KwTypeof => TokenKind::Symbol(Symbol::KwTypeof),
        LexKind::KwVar => TokenKind::Symbol(Symbol::KwVar),
        LexKind::KwVoid => TokenKind::Symbol(Symbol::KwVoid),
        LexKind::KwWhile => TokenKind::Symbol(Symbol::KwWhile),
        LexKind::KwWith => TokenKind::Symbol(Symbol::KwWith),
        LexKind::KwYield => TokenKind::Symbol(Symbol::KwYield),
        LexKind::LParen => TokenKind::Symbol(Symbol::LParen),
        LexKind::RParen => TokenKind::Symbol(Symbol::RParen),
        LexKind::LBracket => TokenKind::Symbol(Symbol::LBracket),
        LexKind::RBracket => TokenKind::Symbol(Symbol::RBracket),
        LexKind::LBrace => TokenKind::Symbol(Symbol::LBrace),
        LexKind::RBrace => TokenKind::Symbol(Symbol::RBrace),
        LexKind::Comma => TokenKind::Symbol(Symbol::Comma),
        LexKind::Semicolon => TokenKind::Symbol(Symbol::Semicolon),
        LexKind::Colon => TokenKind::Symbol(Symbol::Colon),
        LexKind::Dot => TokenKind::Symbol(Symbol::Dot),
        LexKind::OptionalChain => TokenKind::Symbol(Symbol::OptionalChain),
        LexKind::Spread => TokenKind::Symbol(Symbol::Spread),
        LexKind::Arrow => TokenKind::Symbol(Symbol::Arrow),
        LexKind::Question => TokenKind::Symbol(Symbol::Question),
        LexKind::EqEq => TokenKind::Symbol(Symbol::EqEq),
        LexKind::EqEqEq => TokenKind::Symbol(Symbol::EqEqEq),
        LexKind::BangEq => TokenKind::Symbol(Symbol::BangEq),
        LexKind::BangEqEq => TokenKind::Symbol(Symbol::BangEqEq),
        LexKind::Lt => TokenKind::Symbol(Symbol::Lt),
        LexKind::LtEq => TokenKind::Symbol(Symbol::LtEq),
        LexKind::Gt => TokenKind::Symbol(Symbol::Gt),
        LexKind::GtEq => TokenKind::Symbol(Symbol::GtEq),
        LexKind::Plus => TokenKind::Symbol(Symbol::Plus),
        LexKind::Minus => TokenKind::Symbol(Symbol::Minus),
        LexKind::Star => TokenKind::Symbol(Symbol::Star),
        LexKind::Slash => TokenKind::Symbol(Symbol::Slash),
        LexKind::Percent => TokenKind::Symbol(Symbol::Percent),
        LexKind::StarStar => TokenKind::Symbol(Symbol::StarStar),
        LexKind::PlusPlus => TokenKind::Symbol(Symbol::PlusPlus),
        LexKind::MinusMinus => TokenKind::Symbol(Symbol::MinusMinus),
        LexKind::Amp => TokenKind::Symbol(Symbol::Amp),
        LexKind::Pipe => TokenKind::Symbol(Symbol::Pipe),
        LexKind::Caret => TokenKind::Symbol(Symbol::Caret),
        LexKind::Tilde => TokenKind::Symbol(Symbol::Tilde),
        LexKind::LtLt => TokenKind::Symbol(Symbol::LtLt),
        LexKind::GtGt => TokenKind::Symbol(Symbol::GtGt),
        LexKind::GtGtGt => TokenKind::Symbol(Symbol::GtGtGt),
        LexKind::AmpAmp => TokenKind::Symbol(Symbol::AmpAmp),
        LexKind::PipePipe => TokenKind::Symbol(Symbol::PipePipe),
        LexKind::QQ => TokenKind::Symbol(Symbol::QQ),
        LexKind::Bang => TokenKind::Symbol(Symbol::Bang),
        LexKind::Eq => TokenKind::Symbol(Symbol::Eq),
        LexKind::PlusEq => TokenKind::Symbol(Symbol::PlusEq),
        LexKind::MinusEq => TokenKind::Symbol(Symbol::MinusEq),
        LexKind::StarEq => TokenKind::Symbol(Symbol::StarEq),
        LexKind::SlashEq => TokenKind::Symbol(Symbol::SlashEq),
        LexKind::PercentEq => TokenKind::Symbol(Symbol::PercentEq),
        LexKind::StarStarEq => TokenKind::Symbol(Symbol::StarStarEq),
        LexKind::LtLtEq => TokenKind::Symbol(Symbol::LtLtEq),
        LexKind::GtGtEq => TokenKind::Symbol(Symbol::GtGtEq),
        LexKind::GtGtGtEq => TokenKind::Symbol(Symbol::GtGtGtEq),
        LexKind::AmpEq => TokenKind::Symbol(Symbol::AmpEq),
        LexKind::PipeEq => TokenKind::Symbol(Symbol::PipeEq),
        LexKind::CaretEq => TokenKind::Symbol(Symbol::CaretEq),
        LexKind::AmpAmpEq => TokenKind::Symbol(Symbol::AmpAmpEq),
        LexKind::PipePipeEq => TokenKind::Symbol(Symbol::PipePipeEq),
        LexKind::QQEq => TokenKind::Symbol(Symbol::QQEq),
        LexKind::Eof => TokenKind::Symbol(Symbol::Eof),
    }
}

fn stmt_position(p: ecma_syntax_cat::span::Position) -> Position {
    Position { line: p.line(), column: p.column(), offset: p.offset() }
}

/// Lexes `source` and converts the lexer's tokens into the parser's.
fn stmt_tokens(source: &str) -> Result<Vec<Token>, Error> {
    let lexed = ecma_lex_cat::lex(source)?;
    Ok(lexed
        .iter()
        .map(|t| Token {
            kind: stmt_kind(t.value()),
            span: Span::new(stmt_position(t.span().start()), stmt_position(t.span().end())),
            text: format!("{}", t.value()),
        })
        .collect())
}

fn first_statement_kind(source: &str) -> Result<StatementKind, Error> {
    let tokens = stmt_tokens(source)?;
    let program = parse_script(&tokens)?;
    match program.kind {
        ProgramKind::Script { body } => match body {
            List::Cons(first, _) => Ok(first.kind),
            List::Nil => Err(Error::UnexpectedEof {
                expected: "first statement",
            }),
        },
        ProgramKind::Module { .. } => Err(Error::UnexpectedEof {
            expected: "script-mode program",
        }),
    }
}

#[test]
fn parses_empty_statement() -> Result<(), Error> {
    let kind = first_statement_kind(";")?;
    matches!(kind, StatementKind::Empty)
        .then_some(())
        .ok_or(Error::UnexpectedEof {
            expected: "empty statement",
        })
}

#[test]
fn parses_let_declaration() -> Result<(), Error> {
    let kind = first_statement_kind("let x = 1;")?;
    match kind {
        StatementKind::VariableDeclaration(decl) if decl.kind == VariableKind::Let => Ok(()),
        _other => Err(Error::UnexpectedEof { expected: "let" }),
    }
}

#[test]
fn parses_const_destructuring() -> Result<(), Error> {
    let kind = first_statement_kind("const { a, b } = obj;")?;
    match kind {
        StatementKind::VariableDeclaration(decl)
            if decl.kind == VariableKind::Const && decl.declarators.len() == 1 =>
        {
            Ok(())
        }
        _other => Err(Error::UnexpectedEof {
            expected: "const destructure",
        }),
    }
}

#[test]
fn parses_if_else() -> Result<(), Error> {
    let kind = first_statement_kind("if (x) { y; } else { z; }")?;
    match kind {
        StatementKind::If {
            alternate: Some(_), ..
        } => Ok(()),
        _other => Err(Error::UnexpectedEof {
            expected: "if-else",
        }),
    }
}

#[test]
fn parses_for_classic() -> Result<(), Error> {
    let kind = first_statement_kind("for (let i = 0; i < 10; i++) {}")?;
    match kind {
        StatementKind::For {
            init: Some(_),
            test: Some(_),
            update: Some(_),
            ..
        } => Ok(()),
        _other => Err(Error::UnexpectedEof {
            expected: "classic for loop",
        }),
    }
}

#[test]
fn parses_for_of() -> Result<(), Error> {
    let kind = first_statement_kind("for (const x of arr) {}")?;
    match kind {
        StatementKind::ForOf {
            is_await: false, ..
        } => Ok(()),
        _other => Err(Error::UnexpectedEof { expected: "for-of" }),
    }
}

#[test]
fn parses_for_in() -> Result<(), Error> {
    let kind = first_statement_kind("for (const k in obj) {}")?;
    match kind {
        StatementKind::ForIn { .. } => Ok(()),
        _other => Err(Error::UnexpectedEof { expected: "for-in" }),
    }
}

#[test]
fn parses_while() -> Result<(), Error> {
    let kind = first_statement_kind("while (x) { x = next(); }")?;
    matches!(kind, StatementKind::While { .. })
        .then_some(())
        .ok_or(Error::UnexpectedEof { expected: "while" })
}

#[test]
fn parses_try_catch_finally() -> Result<(), Error> {
    let kind = first_statement_kind("try { a; } catch (e) { b; } finally { c; }")?;
    match kind {
        StatementKind::Try {
            handler: Some(_),
            finalizer: Some(_),
            ..
        } => Ok(()),
        _other => Err(Error::UnexpectedEof {
            expected: "try with catch and finally",
        }),
    }
}

#[test]
fn parses_throw() -> Result<(), Error> {
    let kind = first_statement_kind("throw new Error();")?;
    matches!(kind, StatementKind::Throw { .. })
        .then_some(())
        .ok_or(Error::UnexpectedEof { expected: "throw" })
}

#[test]
fn parses_return_with_argument() -> Result<(), Error> {
    let tokens = stmt_tokens("function f() { return 1; }")?;
    let program = parse_script(&tokens)?;
    match program.kind {
        ProgramKind::Script { body } => match body.first().map(|s| &s.kind) {
            Some(StatementKind::FunctionDeclaration(func)) => match func.body.first() {
                Some(stmt) => match &stmt.kind {
                    StatementKind::Return { argument: Some(_) } => Ok(()),
                    _other => Err(Error::UnexpectedEof {
                        expected: "return with argument",
                    }),
                },
                None => Err(Error::UnexpectedEof {
                    expected: "function body return statement",
                }),
            },
            _other => Err(Error::UnexpectedEof {
                expected: "function declaration",
            }),
        },
        ProgramKind::Module { .. } => Err(Error::UnexpectedEof { expected: "script" }),
    }
}

#[test]
fn parses_switch() -> Result<(), Error> {
    let kind = first_statement_kind("switch (x) { case 1: a; break; default: b; }")?;
    match kind {
        StatementKind::Switch { cases, .. } if cases.len() == 2 => Ok(()),
        _other => Err(Error::UnexpectedEof {
            expected: "switch with two cases",
        }),
    }
}

#[test]
fn parses_class_declaration() -> Result<(), Error> {
    let kind =
        first_statement_kind("class Foo extends Bar { constructor() {} method() { return 1; } }")?;
    match kind {
        StatementKind::ClassDeclaration(class) if class.body.len() == 2 => Ok(()),
        _other => Err(Error::UnexpectedEof {
            expected: "class with two members",
        }),
    }
}

#[test]
fn parses_labeled_break() -> Result<(), Error> {
    let kind = first_statement_kind("outer: while (true) { break outer; }")?;
    matches!(kind, StatementKind::Labeled { .. })
        .then_some(())
        .ok_or(Error::UnexpectedEof {
            expected: "labeled statement",
        })
}
