//! Scenarios across the grammar: each source text parses to the tree
//! shape its construct calls for.

use ecma_lex_cat::TokenKind as LexKind;
use ecma_parse_cat::ast::{
    ArrowBody, ClassMember, ExportDeclaration, ExportDefault, ExpressionKind, ForLeft,
    ImportSpecifier, List, Literal, MethodKind, ModuleItemKind, ProgramKind, PropertyKey,
    Statement, StatementKind,
};
use ecma_parse_cat::token::{Position, Span, Symbol, Token, TokenKind};
use ecma_parse_cat::{Error, parse_module, parse_script};

fn gram_kind(kind: &LexKind) -> TokenKind {
    match kind {
        LexKind::Identifier(s) => TokenKind::Identifier(s.clone()),
        LexKind::PrivateIdentifier(s) => TokenKind::PrivateIdentifier(s.clone()),
        LexKind::Number(n) => TokenKind::Number(n.to_bits()),
        LexKind::BigInt(s) => TokenKind::BigInt(s.clone()),
        LexKind::String(s) => TokenKind::String(s.clone()),
        LexKind::RegExp { pattern, flags } => TokenKind::RegExp { pattern: pattern.clone(), flags: flags.clone() },
        LexKind::TemplateNoSubstitution(s) => TokenKind::TemplateNoSubstitution(s.clone()),
        LexKind::TemplateHead(s) => TokenKind::TemplateHead(s.clone()),
        LexKind::TemplateMiddle(s) => TokenKind::TemplateMiddle(s.clone()),
        LexKind::TemplateTail(s) => TokenKind::TemplateTail(s.clone()),
        LexKind::KwAwait => TokenKind::Symbol(Symbol::KwAwait),
        LexKind::KwBreak => TokenKind::Symbol(Symbol::KwBreak),
        LexKind::KwCase => TokenKind::Symbol(Symbol::KwCase),
        LexKind::KwCatch => TokenKind::Symbol(Symbol::KwCatch),
        LexKind::KwClass => TokenKind::Symbol(Symbol::KwClass),
        LexKind::KwConst => TokenKind::Symbol(Symbol::KwConst),
        LexKind::KwContinue => TokenKind::Symbol(Symbol::KwContinue),
        LexKind::KwDebugger => TokenKind::Symbol(Symbol::KwDebugger),
        LexKind::KwDefault => TokenKind::Symbol(Symbol::KwDefault),
        LexKind::KwDelete => TokenKind::Symbol(Symbol::KwDelete),
        LexKind::KwDo => TokenKind::Symbol(Symbol::KwDo),
        LexKind::KwElse => TokenKind::Symbol(Symbol::KwElse),
        LexKind::KwEnum => TokenKind::Symbol(Symbol::KwEnum),
        LexKind::KwExport => TokenKind::Symbol(Symbol::KwExport),
        LexKind::KwExtends => TokenKind::Symbol(Symbol::KwExtends),
        LexKind::KwFalse => TokenKind::Symbol(Symbol::KwFalse),
        LexKind::KwFinally => TokenKind::Symbol(Symbol::KwFinally),
        LexKind::KwFor => TokenKind::Symbol(Symbol::KwFor),
        LexKind::KwFunction => TokenKind::Symbol(Symbol::KwFunction),
        LexKind::KwIf => TokenKind::Symbol(Symbol::KwIf),
        LexKind::KwImplements => TokenKind::Symbol(Symbol::KwImplements),
        LexKind::KwImport => TokenKind::Symbol(Symbol::KwImport),
        LexKind::KwIn => TokenKind::Symbol(Symbol::KwIn),
        LexKind::KwInstanceof => TokenKind::Symbol(Symbol::KwInstanceof),
        LexKind::KwInterface => TokenKind::Symbol(Symbol::KwInterface),
        LexKind::KwLet => TokenKind::Symbol(Symbol::KwLet),
        LexKind::KwNew => TokenKind::Symbol(Symbol::KwNew),
        LexKind::KwNull => TokenKind::Symbol(Symbol::KwNull),
        LexKind::KwPackage => TokenKind::Symbol(Symbol::KwPackage),
        LexKind::KwPrivate => TokenKind::Symbol(Symbol::KwPrivate),
        LexKind::KwProtected => TokenKind::Symbol(Symbol::KwProtected),
        LexKind::KwPublic => TokenKind::Symbol(Symbol::KwPublic),
        LexKind::KwReturn => TokenKind::Symbol(Symbol::KwReturn),
        LexKind::KwStatic => TokenKind::Symbol(Symbol::KwStatic),
        LexKind::KwSuper => TokenKind::Symbol(Symbol::KwSuper),
        LexKind::KwSwitch => TokenKind::Symbol(Symbol::KwSwitch),
        LexKind::KwThis => TokenKind::Symbol(Symbol::KwThis),
        LexKind::KwThrow => TokenKind::Symbol(Symbol::KwThrow),
        LexKind::KwTrue => TokenKind::Symbol(Symbol::KwTrue),
        LexKind::KwTry => TokenKind::Symbol(Symbol::KwTry),
        LexKind::KwTypeof => TokenKind::Symbol(Symbol::KwTypeof),
        LexKind::KwVar => TokenKind::Symbol(Symbol::KwVar),
        LexKind::KwVoid => TokenKind::Symbol(Symbol::KwVoid),
        LexKind::KwWhile => TokenKind::Symbol(Symbol::KwWhile),
        LexKind::KwWith => TokenKind::Symbol(Symbol::KwWith),
        LexKind::KwYield => TokenKind::Symbol(Symbol::KwYield),
        LexKind::LParen => TokenKind::Symbol(Symbol::LParen),
        LexKind::RParen => TokenKind::Symbol(Symbol::RParen),
        LexKind::LBracket => TokenKind::Symbol(Symbol::LBracket),
        LexKind::RBracket => TokenKind::Symbol(Symbol::RBracket),
        LexKind::LBrace => TokenKind::Symbol(Symbol::LBrace),
        LexKind::RBrace => TokenKind::Symbol(Symbol::RBrace),
        LexKind::Comma => TokenKind::Symbol(Symbol::Comma),
        LexKind::Semicolon => TokenKind::Symbol(Symbol::Semicolon),
        LexKind::Colon => TokenKind::Symbol(Symbol::Colon),
        LexKind::Dot => TokenKind::Symbol(Symbol::Dot),
        LexKind::OptionalChain => TokenKind::Symbol(Symbol::OptionalChain),
        LexKind::Spread => TokenKind::Symbol(Symbol::Spread),
        LexKind::Arrow => TokenKind::Symbol(Symbol::Arrow),
        LexKind::Question => TokenKind::Symbol(Symbol::Question),
        LexKind::EqEq => TokenKind::Symbol(Symbol::EqEq),
        LexKind::EqEqEq => TokenKind::Symbol(Symbol::EqEqEq),
        LexKind::BangEq => TokenKind::Symbol(Symbol::BangEq),
        LexKind::BangEqEq => TokenKind::Symbol(Symbol::BangEqEq),
        LexKind::Lt => TokenKind::Symbol(Symbol::Lt),
        LexKind::LtEq => TokenKind::Symbol(Symbol::LtEq),
        LexKind::Gt => TokenKind::Symbol(Symbol::Gt),
        LexKind::GtEq => TokenKind::Symbol(Symbol::GtEq),
        LexKind::Plus => TokenKind::Symbol(Symbol::Plus),
        LexKind::Minus => TokenKind::Symbol(Symbol::Minus),
        LexKind::Star => TokenKind::Symbol(Symbol::Star),
        LexKind::Slash => TokenKind::Symbol(Symbol::Slash),
        LexKind::Percent => TokenKind::Symbol(Symbol::Percent),
        LexKind::StarStar => TokenKind::Symbol(Symbol::StarStar),
        LexKind::PlusPlus => TokenKind::Symbol(Symbol::PlusPlus),
        LexKind::MinusMinus => TokenKind::Symbol(Symbol::MinusMinus),
        LexKind::Amp => TokenKind::Symbol(Symbol::Amp),
        LexKind::Pipe => TokenKind::Symbol(Symbol::Pipe),
        LexKind::Caret => TokenKind::Symbol(Symbol::Caret),
        LexKind::Tilde => TokenKind::Symbol(Symbol::Tilde),
        LexKind::LtLt => TokenKind::Symbol(Symbol::LtLt),
        LexKind::GtGt => TokenKind::Symbol(Symbol::GtGt),
        LexKind::GtGtGt => TokenKind::Symbol(Symbol::GtGtGt),
        LexKind::AmpAmp => TokenKind::Symbol(Symbol::AmpAmp),
        LexKind::PipePipe => TokenKind::Symbol(Symbol::PipePipe),
        LexKind::QQ => TokenKind::Symbol(Symbol::QQ),
        LexKind::Bang => TokenKind::Symbol(Symbol::Bang),
        LexKind::Eq => TokenKind::Symbol(Symbol::Eq),
        LexKind::PlusEq => TokenKind::Symbol(Symbol::PlusEq),
        LexKind::MinusEq => TokenKind::Symbol(Symbol::MinusEq),
        LexKind::StarEq => TokenKind::Symbol(Symbol::StarEq),
        LexKind::SlashEq => TokenKind::Symbol(Symbol::SlashEq),
        LexKind::PercentEq => TokenKind::Symbol(Symbol::PercentEq),
        LexKind::StarStarEq => TokenKind::Symbol(Symbol::StarStarEq),
        LexKind::LtLtEq => TokenKind::Symbol(Symbol::LtLtEq),
        LexKind::GtGtEq => TokenKind::Symbol(Symbol::GtGtEq),
        LexKind::GtGtGtEq => TokenKind::Symbol(Symbol::GtGtGtEq),
        LexKind::AmpEq => TokenKind::Symbol(Symbol::AmpEq),
        LexKind::PipeEq => TokenKind::Symbol(Symbol::PipeEq),
        LexKind::CaretEq => TokenKind::Symbol(Symbol::CaretEq),
        LexKind::AmpAmpEq => TokenKind::Symbol(Symbol::AmpAmpEq),
        LexKind::PipePipeEq => TokenKind::Symbol(Symbol::PipePipeEq),
        LexKind::QQEq => TokenKind::Symbol(Symbol::QQEq),
        LexKind::Eof => TokenKind::Symbol(Symbol::Eof),
    }
}

fn gram_position(p: ecma_syntax_cat::span::Position) -> Position {
    Position { line: p.line(), column: p.column(), offset: p.offset() }
}

/// Lexes `source` and converts the lexer's tokens into the parser's.
fn gram_tokens(source: &str) -> Result<Vec<Token>, Error> {
    let lexed = ecma_lex_cat::lex(source)?;
    Ok(lexed
        .iter()
        .map(|t| Token {
            kind: gram_kind(t.value()),
            span: Span::new(gram_position(t.span().start()), gram_position(t.span().end())),
            text: format!("{}", t.value()),
        })
        .collect())
}

fn statements(source: &str) -> List<Statement> {
    let tokens = gram_tokens(source).expect("lexes");
    match parse_script(&tokens).expect("parses").kind {
        ProgramKind::Script { body } => body,
        ProgramKind::Module { .. } => panic!("script expected"),
    }
}

fn first_statement(source: &str) -> StatementKind {
    match statements(source) {
        List::Cons(stmt, _) => stmt.kind,
        List::Nil => panic!("no statement"),
    }
}

fn first_expression_kind(source: &str) -> ExpressionKind {
    match first_statement(source) {
        StatementKind::Expression { expression } => expression.kind,
        other => panic!("not an expression statement: {other:?}"),
    }
}

fn first_item(source: &str) -> ModuleItemKind {
    let tokens = gram_tokens(source).expect("lexes");
    match parse_module(&tokens).expect("parses").kind {
        ProgramKind::Module { body: List::Cons(item, _) } => item.kind,
        other => panic!("module with an item expected: {other:?}"),
    }
}

#[test]
fn await_and_yield_parse_anywhere() {
    assert!(matches!(first_expression_kind("await x;"), ExpressionKind::Await { .. }));
    match first_expression_kind("yield* g;") {
        ExpressionKind::Yield { argument: Some(_), delegate: true } => {}
        other => panic!("unexpected: {other:?}"),
    }
    match first_expression_kind("yield;") {
        ExpressionKind::Yield { argument: None, delegate: false } => {}
        other => panic!("unexpected: {other:?}"),
    }
}

#[test]
fn for_await_of_loop() {
    match first_statement("for await (const x of xs) {}") {
        StatementKind::ForOf { is_await: true, left: ForLeft::Declaration(_), .. } => {}
        other => panic!("unexpected: {other:?}"),
    }
}

#[test]
fn for_of_with_pattern_target() {
    match first_statement("for ([a, b] of pairs) ;") {
        StatementKind::ForOf { left: ForLeft::Pattern(_), is_await: false, .. } => {}
        other => panic!("unexpected: {other:?}"),
    }
}

#[test]
fn do_while_and_continue() {
    match first_statement("do { continue; } while (x);") {
        StatementKind::DoWhile { body, .. } => match &body.kind {
            StatementKind::Block { body } => {
                assert!(matches!(body.first().map(|s| &s.kind), Some(StatementKind::Continue { label: None })));
            }
            other => panic!("unexpected: {other:?}"),
        },
        other => panic!("unexpected: {other:?}"),
    }
}

#[test]
fn meta_properties() {
    match first_expression_kind("new.target;") {
        ExpressionKind::MetaProperty { meta, property } => {
            assert_eq!(meta.name.as_str(), "new");
            assert_eq!(property.name.as_str(), "target");
        }
        other => panic!("unexpected: {other:?}"),
    }
    match first_expression_kind("import.meta;") {
        ExpressionKind::MetaProperty { meta, property } => {
            assert_eq!(meta.name.as_str(), "import");
            assert_eq!(property.name.as_str(), "meta");
        }
        other => panic!("unexpected: {other:?}"),
    }
    match first_expression_kind("import(\"m\", opts);") {
        ExpressionKind::ImportExpression { options: Some(_), .. } => {}
        other => panic!("unexpected: {other:?}"),
    }
}

#[test]
fn new_with_member_callee_and_arguments() {
    match first_expression_kind("new a.B(1);") {
        ExpressionKind::New { callee, arguments } => {
            assert_eq!(arguments.len(), 1);
            assert!(matches!(callee.kind, ExpressionKind::Member { .. }));
        }
        other => panic!("unexpected: {other:?}"),
    }
}

#[test]
fn class_members_of_every_kind() {
    let source = "class A { static #count = 0; static { init(); } get x() { return 1; } set x(v) {} constructor() {} m() {} y; }";
    match first_statement(source) {
        StatementKind::ClassDeclaration(class) => {
            assert_eq!(class.body.len(), 7);
            match class.body.get(0).expect("field") {
                ClassMember::Property { key: PropertyKey::Private(id), is_static: true, value: Some(_), .. } => {
                    assert_eq!(id.name.as_str(), "count");
                }
                other => panic!("unexpected: {other:?}"),
            }
            assert!(matches!(class.body.get(1), Some(ClassMember::StaticBlock { .. })));
            assert!(matches!(class.body.get(2), Some(ClassMember::Method { kind: MethodKind::Getter, .. })));
            assert!(matches!(class.body.get(3), Some(ClassMember::Method { kind: MethodKind::Setter, .. })));
            assert!(matches!(class.body.get(4), Some(ClassMember::Method { kind: MethodKind::Constructor, .. })));
            assert!(matches!(class.body.get(5), Some(ClassMember::Method { kind: MethodKind::Method, .. })));
            assert!(matches!(class.body.get(6), Some(ClassMember::Property { value: None, .. })));
        }
        other => panic!("unexpected: {other:?}"),
    }
}

#[test]
fn arrow_forms() {
    match first_expression_kind("async x => { return x; };") {
        ExpressionKind::ArrowFunction(arrow) => {
            assert!(arrow.is_async);
            assert!(matches!(arrow.body, ArrowBody::Block(_)));
        }
        other => panic!("unexpected: {other:?}"),
    }
    match first_expression_kind("async (a, b) => a;") {
        ExpressionKind::ArrowFunction(arrow) => {
            assert!(arrow.is_async);
            assert_eq!(arrow.params.len(), 2);
        }
        other => panic!("unexpected: {other:?}"),
    }
    match first_expression_kind("({ a, b }) => a;") {
        ExpressionKind::ArrowFunction(arrow) => assert_eq!(arrow.params.len(), 1),
        other => panic!("unexpected: {other:?}"),
    }
}

#[test]
fn async_function_expression() {
    match first_expression_kind("async function* g() {};") {
        ExpressionKind::FunctionExpression(func) => {
            assert!(func.is_async);
            assert!(func.is_generator);
            assert_eq!(func.id.as_ref().map(|id| id.name.as_str()), Some("g"));
        }
        other => panic!("unexpected: {other:?}"),
    }
}

#[test]
fn optional_calls_and_indexing() {
    match first_expression_kind("a?.(1)[0];") {
        ExpressionKind::Member { object, optional: false, .. } => {
            assert!(matches!(object.kind, ExpressionKind::Chain { .. }));
        }
        other => panic!("unexpected: {other:?}"),
    }
}

#[test]
fn literals() {
    assert!(matches!(first_expression_kind("10n;"), ExpressionKind::Literal(Literal::BigInt(_))));
    assert!(matches!(first_expression_kind("null;"), ExpressionKind::Literal(Literal::Null)));
    match first_expression_kind("1.5;") {
        ExpressionKind::Literal(Literal::Number(bits)) => assert_eq!(f64::from_bits(bits), 1.5),
        other => panic!("unexpected: {other:?}"),
    }
    match first_expression_kind("/x+/g;") {
        ExpressionKind::Literal(Literal::RegExp { pattern, flags }) => {
            assert_eq!(pattern, "x+");
            assert_eq!(flags, "g");
        }
        other => panic!("unexpected: {other:?}"),
    }
}

#[test]
fn computed_and_literal_keys() {
    match first_expression_kind("({ [k]: 1, \"s\": 2, 3: 4 });") {
        ExpressionKind::Parenthesized { expression } => match expression.kind {
            ExpressionKind::Object { properties } => assert_eq!(properties.len(), 3),
            other => panic!("unexpected: {other:?}"),
        },
        other => panic!("unexpected: {other:?}"),
    }
}

#[test]
fn module_forms() {
    match first_item("export default function () {}") {
        ModuleItemKind::Export(ExportDeclaration::Default { declaration: ExportDefault::Function(f) }) => {
            assert!(f.id.is_none());
        }
        other => panic!("unexpected: {other:?}"),
    }
    assert!(matches!(
        first_item("export default class {}"),
        ModuleItemKind::Export(ExportDeclaration::Default { declaration: ExportDefault::Class(_) })
    ));
    match first_item("export * as ns from \"m\";") {
        ModuleItemKind::Export(ExportDeclaration::All { exported: Some(id), source }) => {
            assert_eq!(id.name.as_str(), "ns");
            assert_eq!(source, "m");
        }
        other => panic!("unexpected: {other:?}"),
    }
    match first_item("import d, { a as b } from \"m\";") {
        ModuleItemKind::Import(decl) => {
            assert_eq!(decl.specifiers.len(), 2);
            assert!(matches!(decl.specifiers.get(0), Some(ImportSpecifier::Default { .. })));
            assert!(matches!(decl.specifiers.get(1), Some(ImportSpecifier::Named { .. })));
        }
        other => panic!("unexpected: {other:?}"),
    }
    match first_item("export { a as b } from \"m\";") {
        ModuleItemKind::Export(ExportDeclaration::Named { specifiers, source: Some(_) }) => {
            assert_eq!(specifiers.len(), 1);
        }
        other => panic!("unexpected: {other:?}"),
    }
    assert!(matches!(first_item("import(\"m\");"), ModuleItemKind::Statement(_)));
}

#[test]
fn parse_errors_are_reported() -> Result<(), Error> {
    let tokens = gram_tokens("let x = ;")?;
    assert!(parse_script(&tokens).is_err());
    Ok(())
}
