//! Properties of the parser as a whole, on concrete inputs: operator
//! grouping, the Script/Module distinction, optional semicolons, arrow
//! parameters, spans, every error variant, and the cursor helpers.

use ecma_lex_cat::TokenKind as LexKind;
use ecma_parse_cat::ast::{
    BinaryOperator, Expression, ExpressionKind, ForLeft, List, Literal, ModuleItemKind, ObjectPatternMember,
    PatternKind, Program, ProgramKind, Statement, StatementKind, VariableKind,
};
use ecma_parse_cat::checks::{
    IDENTIFIER_REASON, PRIVATE_IDENTIFIER_REASON, check_identifier, check_private_identifier,
    check_regex,
};
use ecma_parse_cat::error::{Found, SyntaxError};
use ecma_parse_cat::declaration::{parse_function_declaration, parse_function_declaration_optional_name};
use ecma_parse_cat::expression::{parse_assignment_expression, parse_expression};
use ecma_parse_cat::pattern::{reinterpret_expression_as_arrow_params, reinterpret_expression_as_pattern};
use ecma_parse_cat::precedence::{BinaryKind, MIN_PRECEDENCE, assignment_operator, binary_info};
use ecma_parse_cat::statement::{parse_statement, parse_variable_declaration};
use ecma_parse_cat::stream::{
    Peek, consume_if, eat_semicolon, expect_identifier, expect_identifier_or_keyword, expect_kind,
    expect_private_identifier, identifier_text, is_kind, peek, span_at, span_before,
};
use ecma_parse_cat::token::{Position, Span, Symbol, Token, TokenKind};
use ecma_parse_cat::{Error, parse_module, parse_script};

fn prop_kind(kind: &LexKind) -> TokenKind {
    match kind {
        LexKind::Identifier(s) => TokenKind::Identifier(s.clone()),
        LexKind::PrivateIdentifier(s) => TokenKind::PrivateIdentifier(s.clone()),
        LexKind::Number(n) => TokenKind::Number(n.to_bits()),
        LexKind::BigInt(s) => TokenKind::BigInt(s.clone()),
        LexKind::String(s) => TokenKind::String(s.clone()),
        LexKind::RegExp { pattern, flags } => TokenKind::RegExp { pattern: pattern.clone(), flags: flags.clone() },
        LexKind::TemplateNoSubstitution(s) => TokenKind::TemplateNoSubstitution(s.clone()),
        LexKind::TemplateHead(s) => TokenKind::TemplateHead(s.clone()),
        LexKind::TemplateMiddle(s) => TokenKind::TemplateMiddle(s.clone()),
        LexKind::TemplateTail(s) => TokenKind::TemplateTail(s.clone()),
        LexKind::KwAwait => TokenKind::Symbol(Symbol::KwAwait),
        LexKind::KwBreak => TokenKind::Symbol(Symbol::KwBreak),
        LexKind::KwCase => TokenKind::Symbol(Symbol::KwCase),
        LexKind::KwCatch => TokenKind::Symbol(Symbol::KwCatch),
        LexKind::KwClass => TokenKind::Symbol(Symbol::KwClass),
        LexKind::KwConst => TokenKind::Symbol(Symbol::KwConst),
        LexKind::KwContinue => TokenKind::Symbol(Symbol::KwContinue),
        LexKind::KwDebugger => TokenKind::Symbol(Symbol::KwDebugger),
        LexKind::KwDefault => TokenKind::Symbol(Symbol::KwDefault),
        LexKind::KwDelete => TokenKind::Symbol(Symbol::KwDelete),
        LexKind::KwDo => TokenKind::Symbol(Symbol::KwDo),
        LexKind::KwElse => TokenKind::Symbol(Symbol::KwElse),
        LexKind::KwEnum => TokenKind::Symbol(Symbol::KwEnum),
        LexKind::KwExport => TokenKind::Symbol(Symbol::KwExport),
        LexKind::KwExtends => TokenKind::Symbol(Symbol::KwExtends),
        LexKind::KwFalse => TokenKind::Symbol(Symbol::KwFalse),
        LexKind::KwFinally => TokenKind::Symbol(Symbol::KwFinally),
        LexKind::KwFor => TokenKind::Symbol(Symbol::KwFor),
        LexKind::KwFunction => TokenKind::Symbol(Symbol::KwFunction),
        LexKind::KwIf => TokenKind::Symbol(Symbol::KwIf),
        LexKind::KwImplements => TokenKind::Symbol(Symbol::KwImplements),
        LexKind::KwImport => TokenKind::Symbol(Symbol::KwImport),
        LexKind::KwIn => TokenKind::Symbol(Symbol::KwIn),
        LexKind::KwInstanceof => TokenKind::Symbol(Symbol::KwInstanceof),
        LexKind::KwInterface => TokenKind::Symbol(Symbol::KwInterface),
        LexKind::KwLet => TokenKind::Symbol(Symbol::KwLet),
        LexKind::KwNew => TokenKind::Symbol(Symbol::KwNew),
        LexKind::KwNull => TokenKind::Symbol(Symbol::KwNull),
        LexKind::KwPackage => TokenKind::Symbol(Symbol::KwPackage),
        LexKind::KwPrivate => TokenKind::Symbol(Symbol::KwPrivate),
        LexKind::KwProtected => TokenKind::Symbol(Symbol::KwProtected),
        LexKind::KwPublic => TokenKind::Symbol(Symbol::KwPublic),
        LexKind::KwReturn => TokenKind::Symbol(Symbol::KwReturn),
        LexKind::KwStatic => TokenKind::Symbol(Symbol::KwStatic),
        LexKind::KwSuper => TokenKind::Symbol(Symbol::KwSuper),
        LexKind::KwSwitch => TokenKind::Symbol(Symbol::KwSwitch),
        LexKind::KwThis => TokenKind::Symbol(Symbol::KwThis),
        LexKind::KwThrow => TokenKind::Symbol(Symbol::KwThrow),
        LexKind::KwTrue => TokenKind::Symbol(Symbol::KwTrue),
        LexKind::KwTry => TokenKind::Symbol(Symbol::KwTry),
        LexKind::KwTypeof => TokenKind::Symbol(Symbol::KwTypeof),
        LexKind::KwVar => TokenKind::Symbol(Symbol::KwVar),
        LexKind::KwVoid => TokenKind::Symbol(Symbol::KwVoid),
        LexKind::KwWhile => TokenKind::Symbol(Symbol::KwWhile),
        LexKind::KwWith => TokenKind::Symbol(Symbol::KwWith),
        LexKind::KwYield => TokenKind::Symbol(Symbol::KwYield),
        LexKind::LParen => TokenKind::Symbol(Symbol::LParen),
        LexKind::RParen => TokenKind::Symbol(Symbol::RParen),
        LexKind::LBracket => TokenKind::Symbol(Symbol::LBracket),
        LexKind::RBracket => TokenKind::Symbol(Symbol::RBracket),
        LexKind::LBrace => TokenKind::Symbol(Symbol::LBrace),
        LexKind::RBrace => TokenKind::Symbol(Symbol::RBrace),
        LexKind::Comma => TokenKind::Symbol(Symbol::Comma),
        LexKind::Semicolon => TokenKind::Symbol(Symbol::Semicolon),
        LexKind::Colon => TokenKind::Symbol(Symbol::Colon),
        LexKind::Dot => TokenKind::Symbol(Symbol::Dot),
        LexKind::OptionalChain => TokenKind::Symbol(Symbol::OptionalChain),
        LexKind::Spread => TokenKind::Symbol(Symbol::Spread),
        LexKind::Arrow => TokenKind::Symbol(Symbol::Arrow),
        LexKind::Question => TokenKind::Symbol(Symbol::Question),
        LexKind::EqEq => TokenKind::Symbol(Symbol::EqEq),
        LexKind::EqEqEq => TokenKind::Symbol(Symbol::EqEqEq),
        LexKind::BangEq => TokenKind::Symbol(Symbol::BangEq),
        LexKind::BangEqEq => TokenKind::Symbol(Symbol::BangEqEq),
        LexKind::Lt => TokenKind::Symbol(Symbol::Lt),
        LexKind::LtEq => TokenKind::Symbol(Symbol::LtEq),
        LexKind::Gt => TokenKind::Symbol(Symbol::Gt),
        LexKind::GtEq => TokenKind::Symbol(Symbol::GtEq),
        LexKind::Plus => TokenKind::Symbol(Symbol::Plus),
        LexKind::Minus => TokenKind::Symbol(Symbol::Minus),
        LexKind::Star => TokenKind::Symbol(Symbol::Star),
        LexKind::Slash => TokenKind::Symbol(Symbol::Slash),
        LexKind::Percent => TokenKind::Symbol(Symbol::Percent),
        LexKind::StarStar => TokenKind::Symbol(Symbol::StarStar),
        LexKind::PlusPlus => TokenKind::Symbol(Symbol::PlusPlus),
        LexKind::MinusMinus => TokenKind::Symbol(Symbol::MinusMinus),
        LexKind::Amp => TokenKind::Symbol(Symbol::Amp),
        LexKind::Pipe => TokenKind::Symbol(Symbol::Pipe),
        LexKind::Caret => TokenKind::Symbol(Symbol::Caret),
        LexKind::Tilde => TokenKind::Symbol(Symbol::Tilde),
        LexKind::LtLt => TokenKind::Symbol(Symbol::LtLt),
        LexKind::GtGt => TokenKind::Symbol(Symbol::GtGt),
        LexKind::GtGtGt => TokenKind::Symbol(Symbol::GtGtGt),
        LexKind::AmpAmp => TokenKind::Symbol(Symbol::AmpAmp),
        LexKind::PipePipe => TokenKind::Symbol(Symbol::PipePipe),
        LexKind::QQ => TokenKind::Symbol(Symbol::QQ),
        LexKind::Bang => TokenKind::Symbol(Symbol::Bang),
        LexKind::Eq => TokenKind::Symbol(Symbol::Eq),
        LexKind::PlusEq => TokenKind::Symbol(Symbol::PlusEq),
        LexKind::MinusEq => TokenKind::Symbol(Symbol::MinusEq),
        LexKind::StarEq => TokenKind::Symbol(Symbol::StarEq),
        LexKind::SlashEq => TokenKind::Symbol(Symbol::SlashEq),
        LexKind::PercentEq => TokenKind::Symbol(Symbol::PercentEq),
        LexKind::StarStarEq => TokenKind::Symbol(Symbol::StarStarEq),
        LexKind::LtLtEq => TokenKind::Symbol(Symbol::LtLtEq),
        LexKind::GtGtEq => TokenKind::Symbol(Symbol::GtGtEq),
        LexKind::GtGtGtEq => TokenKind::Symbol(Symbol::GtGtGtEq),
        LexKind::AmpEq => TokenKind::Symbol(Symbol::AmpEq),
        LexKind::PipeEq => TokenKind::Symbol(Symbol::PipeEq),
        LexKind::CaretEq => TokenKind::Symbol(Symbol::CaretEq),
        LexKind::AmpAmpEq => TokenKind::Symbol(Symbol::AmpAmpEq),
        LexKind::PipePipeEq => TokenKind::Symbol(Symbol::PipePipeEq),
        LexKind::QQEq => TokenKind::Symbol(Symbol::QQEq),
        LexKind::Eof => TokenKind::Symbol(Symbol::Eof),
    }
}

fn prop_position(p: ecma_syntax_cat::span::Position) -> Position {
    Position { line: p.line(), column: p.column(), offset: p.offset() }
}

/// Lexes `source` and converts the lexer's tokens into the parser's.
fn prop_tokens(source: &str) -> Result<Vec<Token>, Error> {
    let lexed = ecma_lex_cat::lex(source)?;
    Ok(lexed
        .iter()
        .map(|t| Token {
            kind: prop_kind(t.value()),
            span: Span::new(prop_position(t.span().start()), prop_position(t.span().end())),
            text: format!("{}", t.value()),
        })
        .collect())
}

/// A token of `kind` rendered as `text`, at column `column` of line 1.
fn token(kind: TokenKind, text: &str, column: u32) -> Token {
    let start = Position { line: 1, column, offset: column - 1 };
    let end = Position { line: 1, column: column + 1, offset: column };
    Token { kind, span: Span::new(start, end), text: text.to_owned() }
}

fn ident(name: &str, column: u32) -> Token {
    token(TokenKind::Identifier(name.to_owned()), name, column)
}

fn symbol(s: Symbol, text: &str, column: u32) -> Token {
    token(TokenKind::Symbol(s), text, column)
}

fn script_statements(source: &str) -> Result<List<Statement>, Error> {
    let tokens = prop_tokens(source)?;
    match parse_script(&tokens)?.kind {
        ProgramKind::Script { body } => Ok(body),
        ProgramKind::Module { .. } => Err(Error::UnexpectedEof { expected: "script" }),
    }
}

fn only_expression(source: &str) -> Expression {
    let statements = script_statements(source).expect("parses");
    match statements {
        List::Cons(stmt, rest) => {
            assert!(rest.is_empty());
            match stmt.kind {
                StatementKind::Expression { expression } => expression,
                other => panic!("not an expression statement: {other:?}"),
            }
        }
        List::Nil => panic!("no statement"),
    }
}

fn identifier_name(expr: &Expression) -> String {
    match &expr.kind {
        ExpressionKind::Identifier(id) => id.name.as_str().to_owned(),
        other => panic!("not an identifier: {other:?}"),
    }
}

/// `(left op right)` as operator and operand names, for nested binaries.
fn binary_parts(expr: &Expression) -> (BinaryOperator, &Expression, &Expression) {
    match &expr.kind {
        ExpressionKind::Binary { operator, left, right } => (*operator, &**left, &**right),
        other => panic!("not a binary expression: {other:?}"),
    }
}

#[test]
fn tighter_operator_groups_to_the_right() {
    let expr = only_expression("a + b * c;");
    let (op, left, right) = binary_parts(&expr);
    assert_eq!(op, BinaryOperator::Add);
    assert_eq!(identifier_name(left), "a");
    let (inner, b, c) = binary_parts(right);
    assert_eq!(inner, BinaryOperator::Multiply);
    assert_eq!(identifier_name(b), "b");
    assert_eq!(identifier_name(c), "c");
}

#[test]
fn looser_operator_groups_to_the_left() {
    let expr = only_expression("a * b + c;");
    let (op, left, right) = binary_parts(&expr);
    assert_eq!(op, BinaryOperator::Add);
    assert_eq!(identifier_name(right), "c");
    let (inner, a, b) = binary_parts(left);
    assert_eq!(inner, BinaryOperator::Multiply);
    assert_eq!(identifier_name(a), "a");
    assert_eq!(identifier_name(b), "b");
}

#[test]
fn equal_precedence_is_left_associative() {
    let expr = only_expression("a - b - c;");
    let (op, left, right) = binary_parts(&expr);
    assert_eq!(op, BinaryOperator::Subtract);
    assert_eq!(identifier_name(right), "c");
    let (inner, _, _) = binary_parts(left);
    assert_eq!(inner, BinaryOperator::Subtract);
}

#[test]
fn exponentiation_is_right_associative() {
    let expr = only_expression("a ** b ** c;");
    let (op, left, right) = binary_parts(&expr);
    assert_eq!(op, BinaryOperator::Exponentiation);
    assert_eq!(identifier_name(left), "a");
    let (inner, _, _) = binary_parts(right);
    assert_eq!(inner, BinaryOperator::Exponentiation);
}

#[test]
fn operator_table_entries() {
    let pow = binary_info(&TokenKind::Symbol(Symbol::StarStar)).expect("`**` is binary");
    assert!(pow.right_assoc);
    assert_eq!(pow.precedence, 14);
    let plus = binary_info(&TokenKind::Symbol(Symbol::Plus)).expect("`+` is binary");
    assert!(!plus.right_assoc);
    assert_eq!(plus.precedence, 12);
    assert!(matches!(plus.op, BinaryKind::Binary(BinaryOperator::Add)));
    let nullish = binary_info(&TokenKind::Symbol(Symbol::QQ)).expect("`??` is binary");
    assert_eq!(nullish.precedence, 3);
    assert!(nullish.precedence >= MIN_PRECEDENCE);
    assert!(binary_info(&TokenKind::Symbol(Symbol::Eq)).is_none());
    assert!(assignment_operator(&TokenKind::Symbol(Symbol::PlusEq)).is_some());
    assert!(assignment_operator(&TokenKind::Symbol(Symbol::Plus)).is_none());
}

#[test]
fn script_rejects_export() {
    let tokens = prop_tokens("export let x = 1;").expect("lexes");
    match parse_script(&tokens) {
        Err(Error::UnexpectedToken { at, expected, found }) => {
            assert_eq!(at, tokens[0].span);
            assert_eq!(expected, "expression");
            assert_eq!(found, Found::Token("export".to_owned()));
        }
        other => panic!("unexpected result: {other:?}"),
    }
}

#[test]
fn script_rejects_import_declaration() {
    let tokens = prop_tokens("import x from \"m\";").expect("lexes");
    match parse_script(&tokens) {
        Err(Error::UnexpectedToken { at, expected, found }) => {
            assert_eq!(at, tokens[1].span);
            assert_eq!(expected, "`(`");
            assert_eq!(found, Found::Token("x".to_owned()));
        }
        other => panic!("unexpected result: {other:?}"),
    }
}

#[test]
fn module_and_script_agree_without_module_keywords() {
    let tokens = prop_tokens("let x = 1; x + 2; if (x) { x = 3; }").expect("lexes");
    let script = parse_script(&tokens).expect("script parses");
    let module = parse_module(&tokens).expect("module parses");
    assert_eq!(script.span, module.span);
    let statements = match script.kind {
        ProgramKind::Script { body } => body,
        ProgramKind::Module { .. } => panic!("script expected"),
    };
    let items = match module.kind {
        ProgramKind::Module { body } => body,
        ProgramKind::Script { .. } => panic!("module expected"),
    };
    assert_eq!(statements.len(), 3);
    assert_eq!(items.len(), 3);
    for i in 0..3 {
        let stmt = statements.get(i).expect("statement");
        match &items.get(i).expect("item").kind {
            ModuleItemKind::Statement(s) => assert_eq!(format!("{s:?}"), format!("{stmt:?}")),
            other => panic!("not a statement item: {other:?}"),
        }
    }
}

#[test]
fn module_and_script_fail_alike() {
    let tokens = prop_tokens("let = ;").expect("lexes");
    let script = format!("{:?}", parse_script(&tokens).expect_err("script fails"));
    let module = format!("{:?}", parse_module(&tokens).expect_err("module fails"));
    assert_eq!(script, module);
}

#[test]
fn semicolon_required_between_statements() {
    let tokens = prop_tokens("a b").expect("lexes");
    match parse_script(&tokens) {
        Err(Error::UnexpectedToken { at, expected, found }) => {
            assert_eq!(at, tokens[1].span);
            assert_eq!(expected, "`;` or `}`");
            assert_eq!(found, Found::Token("b".to_owned()));
        }
        other => panic!("unexpected result: {other:?}"),
    }
}

#[test]
fn semicolon_optional_before_brace_and_at_end() {
    let statements = script_statements("{ a } b").expect("parses");
    assert_eq!(statements.len(), 2);
    match &statements.get(0).expect("block").kind {
        StatementKind::Block { body } => assert_eq!(body.len(), 1),
        other => panic!("not a block: {other:?}"),
    }
}

#[test]
fn statement_span_leaves_out_semicolon() {
    let tokens = prop_tokens("a;").expect("lexes");
    let (stmt, after) = parse_statement(&tokens, 0).expect("parses");
    assert_eq!(after, 2);
    assert_eq!(stmt.span, Span::new(tokens[0].span.start, tokens[0].span.end));
}

#[test]
fn empty_statement_takes_one_token() {
    let tokens = prop_tokens(";").expect("lexes");
    let (stmt, after) = parse_statement(&tokens, 0).expect("parses");
    assert_eq!(after, 1);
    assert!(matches!(stmt.kind, StatementKind::Empty));
    assert_eq!(stmt.span, tokens[0].span);
}

#[test]
fn program_span_covers_all_tokens() {
    let tokens = prop_tokens("x;\ny;").expect("lexes");
    let program: Program = parse_script(&tokens).expect("parses");
    let last = tokens.len() - 1;
    assert_eq!(program.span, Span::new(tokens[0].span.start, tokens[last].span.end));
    let empty = parse_script(&[]).expect("empty input parses");
    assert_eq!(empty.span, Span::synthetic());
}

#[test]
fn parenthesised_arrow_parameters() {
    let expr = only_expression("((a)) => a;");
    match expr.kind {
        ExpressionKind::ArrowFunction(arrow) => {
            assert_eq!(arrow.params.len(), 1);
            match &arrow.params.first().expect("param").kind {
                PatternKind::Identifier(id) => assert_eq!(id.name.as_str(), "a"),
                other => panic!("not an identifier pattern: {other:?}"),
            }
        }
        other => panic!("not an arrow: {other:?}"),
    }
}

#[test]
fn arrow_parameters_from_sequence() {
    let tokens = prop_tokens("(a, b = 1, [c])").expect("lexes");
    let (expr, _) = parse_expression(&tokens, 0).expect("parses");
    let params = reinterpret_expression_as_arrow_params(expr).expect("converts");
    assert_eq!(params.len(), 3);
    assert!(matches!(params.get(0).expect("a").kind, PatternKind::Identifier(_)));
    assert!(matches!(params.get(1).expect("b").kind, PatternKind::Assignment { .. }));
    assert!(matches!(params.get(2).expect("c").kind, PatternKind::Array { .. }));
}

#[test]
fn pattern_from_object_literal() {
    let tokens = prop_tokens("({ a, b: [c, , d] })").expect("lexes");
    let (expr, _) = parse_expression(&tokens, 0).expect("parses");
    let pattern = reinterpret_expression_as_pattern(expr).expect("converts");
    match pattern.kind {
        PatternKind::Object { properties } => assert_eq!(properties.len(), 2),
        other => panic!("not an object pattern: {other:?}"),
    }
}

#[test]
fn invalid_arrow_parameter() {
    let tokens = prop_tokens("(a + b) => 1;").expect("lexes");
    match parse_script(&tokens) {
        Err(Error::InvalidArrowParameter { at }) => {
            assert_eq!(at.start, tokens[1].span.start);
            assert_eq!(at.end, tokens[3].span.end);
        }
        other => panic!("unexpected result: {other:?}"),
    }
}

#[test]
fn unexpected_end_of_input() {
    let tokens = prop_tokens("a +").expect("lexes");
    match parse_script(&tokens) {
        Err(Error::UnexpectedEof { expected }) => assert_eq!(expected, "expression"),
        other => panic!("unexpected result: {other:?}"),
    }
}

#[test]
fn switch_reports_end_of_input() {
    let tokens = prop_tokens("switch (x) {").expect("lexes");
    match parse_script(&tokens) {
        Err(Error::UnexpectedToken { expected, found, .. }) => {
            assert_eq!(expected, "`case`, `default`, or `}`");
            assert_eq!(found, Found::Note("EOF"));
        }
        other => panic!("unexpected result: {other:?}"),
    }
}

#[test]
fn shorthand_needs_identifier_key() {
    let tokens = prop_tokens("({ \"a\" });").expect("lexes");
    match parse_script(&tokens) {
        Err(Error::UnexpectedToken { found, .. }) => {
            assert_eq!(found, Found::Note("shorthand-key without identifier"));
        }
        other => panic!("unexpected result: {other:?}"),
    }
    let tokens = prop_tokens("let { [k] } = o;").expect("lexes");
    match parse_script(&tokens) {
        Err(Error::UnexpectedToken { expected, found, .. }) => {
            assert_eq!(expected, "identifier shorthand key");
            assert_eq!(found, Found::Note("non-identifier key without `:` value"));
        }
        other => panic!("unexpected result: {other:?}"),
    }
}

#[test]
fn export_requires_declaration() {
    let tokens = prop_tokens("export x;").expect("lexes");
    match parse_module(&tokens) {
        Err(Error::UnexpectedToken { expected, found, .. }) => {
            assert_eq!(expected, "declaration after `export`");
            assert_eq!(found, Found::Note("non-declaration statement"));
        }
        other => panic!("unexpected result: {other:?}"),
    }
}

#[test]
fn lexer_errors_are_carried() {
    match prop_tokens("\"unterminated") {
        Err(Error::Lex(_)) => {}
        other => panic!("unexpected result: {other:?}"),
    }
}

#[test]
fn malformed_identifier_is_a_syntax_error() {
    let tokens = vec![ident("1x", 1), symbol(Symbol::Eof, "EOF", 3)];
    match parse_script(&tokens) {
        Err(Error::Syntax(SyntaxError::InvalidIdentifier { attempted, reason })) => {
            assert_eq!(attempted, "1x");
            assert_eq!(reason, IDENTIFIER_REASON);
        }
        other => panic!("unexpected result: {other:?}"),
    }
}

#[test]
fn malformed_private_name_is_a_syntax_error() {
    let tokens = vec![
        symbol(Symbol::KwClass, "class", 1),
        ident("A", 7),
        symbol(Symbol::LBrace, "{", 9),
        token(TokenKind::PrivateIdentifier("9".to_owned()), "#9", 11),
        symbol(Symbol::RBrace, "}", 14),
        symbol(Symbol::Eof, "EOF", 15),
    ];
    match parse_script(&tokens) {
        Err(Error::Syntax(SyntaxError::InvalidIdentifier { attempted, reason })) => {
            assert_eq!(attempted, "9");
            assert_eq!(reason, PRIVATE_IDENTIFIER_REASON);
        }
        other => panic!("unexpected result: {other:?}"),
    }
}

#[test]
fn regex_literals_are_checked() {
    let bad_flag = vec![
        token(TokenKind::RegExp { pattern: "a".to_owned(), flags: "gq".to_owned() }, "/a/gq", 1),
        symbol(Symbol::Eof, "EOF", 6),
    ];
    match parse_script(&bad_flag) {
        Err(Error::Syntax(SyntaxError::InvalidRegexFlag { flag })) => assert_eq!(flag, 'q'),
        other => panic!("unexpected result: {other:?}"),
    }
    let empty = vec![
        token(TokenKind::RegExp { pattern: String::new(), flags: String::new() }, "//", 1),
        symbol(Symbol::Eof, "EOF", 3),
    ];
    match parse_script(&empty) {
        Err(Error::Syntax(SyntaxError::EmptyRegexPattern)) => {}
        other => panic!("unexpected result: {other:?}"),
    }
    let good = prop_tokens("/ab+c/gi;").expect("lexes");
    assert!(parse_script(&good).is_ok());
}

#[test]
fn identifier_checks() {
    assert!(check_identifier(&"_ok$1".to_owned()).is_ok());
    assert_eq!(
        check_identifier(&"a-b".to_owned()),
        Err(SyntaxError::InvalidIdentifier { attempted: "a-b".to_owned(), reason: IDENTIFIER_REASON })
    );
    assert!(check_private_identifier(&"x".to_owned()).is_ok());
    assert_eq!(
        check_private_identifier(&String::new()),
        Err(SyntaxError::InvalidIdentifier { attempted: String::new(), reason: PRIVATE_IDENTIFIER_REASON })
    );
    assert!(check_regex(&"a".to_owned(), &"gimsuydv".to_owned()).is_ok());
    assert_eq!(check_regex(&"a".to_owned(), &"x".to_owned()), Err(SyntaxError::InvalidRegexFlag { flag: 'x' }));
    assert_eq!(check_regex(&String::new(), &"x".to_owned()), Err(SyntaxError::EmptyRegexPattern));
}

#[test]
fn cursor_helpers() {
    let tokens = vec![ident("a", 1), symbol(Symbol::Semicolon, ";", 2), symbol(Symbol::Eof, "EOF", 3)];
    assert!(matches!(peek(&tokens, 0), Peek::Token(_)));
    assert!(matches!(peek(&tokens, 2), Peek::Eof));
    assert!(matches!(peek(&tokens, 9), Peek::Eof));
    assert!(is_kind(&tokens, 1, Symbol::Semicolon));
    assert!(!is_kind(&tokens, 2, Symbol::Eof));
    assert_eq!(consume_if(&tokens, 1, Symbol::Semicolon), Some(2));
    assert_eq!(consume_if(&tokens, 0, Symbol::Semicolon), None);
    assert_eq!(expect_kind(&tokens, 1, Symbol::Semicolon, "`;`").ok(), Some(2));
    match expect_kind(&tokens, 0, Symbol::Semicolon, "`;`") {
        Err(Error::UnexpectedToken { at, expected, found }) => {
            assert_eq!(at, tokens[0].span);
            assert_eq!(expected, "`;`");
            assert_eq!(found, Found::Token("a".to_owned()));
        }
        other => panic!("unexpected result: {other:?}"),
    }
    assert!(matches!(expect_kind(&tokens, 2, Symbol::Semicolon, "`;`"), Err(Error::UnexpectedEof { expected: "`;`" })));
    assert_eq!(eat_semicolon(&tokens, 1).ok(), Some(2));
    assert_eq!(eat_semicolon(&tokens, 2).ok(), Some(2));
    assert!(eat_semicolon(&tokens, 0).is_err());
    assert_eq!(span_at(&tokens, 1), tokens[1].span);
    assert_eq!(span_at(&tokens, 7), Span::synthetic());
    assert_eq!(span_before(&tokens, 1), tokens[0].span);
    assert_eq!(span_before(&tokens, 0), Span::synthetic());
    let (id, after) = expect_identifier(&tokens, 0).expect("identifier");
    assert_eq!((id.name.as_str(), after), ("a", 1));
    assert!(expect_identifier(&tokens, 1).is_err());
    let keyword = vec![symbol(Symbol::KwLet, "let", 1)];
    let (id, _) = expect_identifier_or_keyword(&keyword, 0).expect("keyword as identifier");
    assert_eq!(id.name.as_str(), "let");
    let private = vec![token(TokenKind::PrivateIdentifier("p".to_owned()), "#p", 1)];
    let (id, after) = expect_private_identifier(&private, 0).expect("private name");
    assert_eq!((id.name.as_str(), after), ("p", 1));
}

#[test]
fn statements_start_at_their_first_token() {
    let sources = [
        "do { x; } while (x);",
        "for (let i = 0; i < 3; i++) ;",
        "for (const k of ks) {}",
        "label: x;",
        "return;",
        "class C {}",
        "let y = 2;",
    ];
    for source in sources {
        let tokens = prop_tokens(source).expect("lexes");
        let (stmt, _) = parse_statement(&tokens, 0).expect("parses");
        assert_eq!(stmt.span.start, tokens[0].span.start, "{source}");
    }
}

#[test]
fn for_in_over_a_bare_identifier() {
    let tokens = prop_tokens("for (k in obj) {}").expect("lexes");
    let (stmt, end) = parse_statement(&tokens, 0).expect("parses");
    assert_eq!(end, 8);
    match stmt.kind {
        StatementKind::ForIn { left: ForLeft::Pattern(pattern), right, body } => {
            match pattern.kind {
                PatternKind::Identifier(id) => assert_eq!(id.name.as_str(), "k"),
                other => panic!("not an identifier pattern: {other:?}"),
            }
            assert_eq!(identifier_name(&right), "obj");
            match body.kind {
                StatementKind::Block { body } => assert!(body.is_empty()),
                other => panic!("not a block: {other:?}"),
            }
        }
        other => panic!("not a for-in loop: {other:?}"),
    }
}

#[test]
fn for_in_over_a_logical_object() {
    let tokens = prop_tokens("for ([a, b] in c || d) ;").expect("lexes");
    let (stmt, _) = parse_statement(&tokens, 0).expect("parses");
    match stmt.kind {
        StatementKind::ForIn { left: ForLeft::Pattern(_), right, .. } => {
            assert!(matches!(right.kind, ExpressionKind::Logical { .. }));
        }
        other => panic!("not a for-in loop: {other:?}"),
    }
}

#[test]
fn classic_for_with_an_expression_initialiser() {
    let tokens = prop_tokens("for (i = 0; i < n; i++) {}").expect("lexes");
    let (stmt, _) = parse_statement(&tokens, 0).expect("parses");
    assert!(matches!(stmt.kind, StatementKind::For { init: Some(_), test: Some(_), update: Some(_), .. }));
}

#[test]
fn declarator_takes_its_initialiser() {
    let tokens = prop_tokens("let x = 1;").expect("lexes");
    let (decl, end) = parse_variable_declaration(&tokens, 0).expect("parses");
    assert_eq!(end, 4);
    assert_eq!(decl.kind, VariableKind::Let);
    assert_eq!(decl.declarators.len(), 1);
    let declarator = decl.declarators.get(0).expect("declarator");
    match &declarator.id.kind {
        PatternKind::Identifier(id) => assert_eq!(id.name.as_str(), "x"),
        other => panic!("not an identifier pattern: {other:?}"),
    }
    match &declarator.init {
        Some(Expression { kind: ExpressionKind::Literal(Literal::Number(bits)), .. }) => {
            assert_eq!(*bits, 1.0f64.to_bits());
        }
        other => panic!("not the initialiser 1: {other:?}"),
    }
}

#[test]
fn destructuring_declarator_takes_its_initialiser() {
    let tokens = prop_tokens("const { a, b } = obj;").expect("lexes");
    let (decl, end) = parse_variable_declaration(&tokens, 0).expect("parses");
    assert_eq!(end, 8);
    assert_eq!(decl.kind, VariableKind::Const);
    assert_eq!(decl.declarators.len(), 1);
    let declarator = decl.declarators.get(0).expect("declarator");
    match &declarator.id.kind {
        PatternKind::Object { properties } => assert_eq!(properties.len(), 2),
        other => panic!("not an object pattern: {other:?}"),
    }
    assert_eq!(identifier_name(declarator.init.as_ref().expect("initialiser")), "obj");
}

#[test]
fn nested_pattern_elements_and_parameters_take_defaults() {
    let tokens = prop_tokens("let [a = 1, { b = 2, c: d = 3 }] = e;").expect("lexes");
    let (decl, _) = parse_variable_declaration(&tokens, 0).expect("parses");
    let declarator = decl.declarators.get(0).expect("declarator");
    assert!(declarator.init.is_some());
    let elements = match &declarator.id.kind {
        PatternKind::Array { elements } => elements,
        other => panic!("not an array pattern: {other:?}"),
    };
    let first = elements.get(0).expect("first").as_ref().expect("not a hole");
    assert!(matches!(first.kind, PatternKind::Assignment { .. }));
    match &elements.get(1).expect("second").as_ref().expect("not a hole").kind {
        PatternKind::Object { properties } => {
            for i in 0..2 {
                match properties.get(i).expect("member") {
                    ObjectPatternMember::Property { value, .. } => {
                        assert!(matches!(value.kind, PatternKind::Assignment { .. }));
                    }
                    other => panic!("not a property: {other:?}"),
                }
            }
        }
        other => panic!("not an object pattern: {other:?}"),
    }
    let tokens = prop_tokens("function f(a = 1, ...rest) {}").expect("lexes");
    let (function, _) = parse_function_declaration(&tokens, 0).expect("parses");
    assert!(matches!(function.params.get(0).expect("a").kind, PatternKind::Assignment { .. }));
    assert!(matches!(function.params.get(1).expect("rest").kind, PatternKind::Rest { .. }));
}

#[test]
fn assignment_to_a_literal_is_refused() {
    let tokens = prop_tokens("1 = 2;").expect("lexes");
    let at = tokens[0].span;
    match parse_assignment_expression(&tokens, 0) {
        Err(Error::InvalidAssignmentTarget { at: reported }) => assert_eq!(reported, at),
        other => panic!("not an invalid target: {other:?}"),
    }
    let tokens = prop_tokens("f() += 1;").expect("lexes");
    assert!(matches!(parse_assignment_expression(&tokens, 0), Err(Error::InvalidAssignmentTarget { .. })));
    let tokens = prop_tokens("[a] += 1;").expect("lexes");
    assert!(matches!(parse_assignment_expression(&tokens, 0), Err(Error::InvalidAssignmentTarget { .. })));
}

#[test]
fn assignment_targets_that_are_accepted() {
    for source in ["a = 1;", "a.b = 1;", "a[0] += 1;", "(a) = 1;", "[a, b] = [b, a];", "({ a } = o);", "a ??= b;"] {
        let tokens = prop_tokens(source).expect("lexes");
        let statement = parse_statement(&tokens, 0);
        assert!(statement.is_ok(), "{source}: {statement:?}");
    }
}

#[test]
fn keyword_identifiers_are_named_by_their_spelling() {
    let tokens = vec![symbol(Symbol::KwLet, "let", 1), symbol(Symbol::Eof, "", 4)];
    let (id, end) = expect_identifier_or_keyword(&tokens, 0).expect("identifier");
    assert_eq!(id.name.as_str(), "let");
    assert_eq!(end, 1);
    let tokens = vec![symbol(Symbol::KwStatic, "static", 1)];
    let (id, _) = expect_identifier_or_keyword(&tokens, 0).expect("identifier");
    assert_eq!(id.name.as_str(), "static");
    let rendered_otherwise = vec![symbol(Symbol::KwYield, "<yield>", 1)];
    let (id, _) = expect_identifier_or_keyword(&rendered_otherwise, 0).expect("identifier");
    assert_eq!(id.name.as_str(), "yield");
    let not_contextual = vec![symbol(Symbol::KwIf, "if", 1)];
    assert!(matches!(
        expect_identifier_or_keyword(&not_contextual, 0),
        Err(Error::UnexpectedToken { expected: "identifier", .. })
    ));
    assert_eq!(identifier_text(&symbol(Symbol::KwAwait, "await", 1)), Some("await".to_owned()));
    assert_eq!(identifier_text(&symbol(Symbol::KwLet, "", 1)), Some("let".to_owned()));
    assert_eq!(identifier_text(&ident("x", 1)), Some("x".to_owned()));
    assert_eq!(identifier_text(&symbol(Symbol::KwClass, "class", 1)), None);
}

#[test]
fn template_has_one_more_chunk_than_substitutions() {
    match only_expression("`a${b}c${d}e`;").kind {
        ExpressionKind::Template { quasis, expressions } => {
            assert_eq!(quasis.len(), 3);
            assert_eq!(expressions.len(), 2);
        }
        other => panic!("not a template: {other:?}"),
    }
}

#[test]
fn function_name_may_be_left_out_only_where_optional() {
    let tokens = prop_tokens("function () {}").expect("lexes");
    assert!(matches!(
        parse_function_declaration(&tokens, 0),
        Err(Error::UnexpectedToken { expected: "identifier", .. })
    ));
    let (function, end) = parse_function_declaration_optional_name(&tokens, 0).expect("parses");
    assert_eq!(end, 5);
    assert!(function.id.is_none());
    let tokens = prop_tokens("function f() {}").expect("lexes");
    let (named, named_end) = parse_function_declaration(&tokens, 0).expect("parses");
    let (optional, optional_end) = parse_function_declaration_optional_name(&tokens, 0).expect("parses");
    assert_eq!(named_end, optional_end);
    assert_eq!(format!("{named:?}"), format!("{optional:?}"));
}

#[test]
fn script_with_dynamic_import_parses_as_module() {
    let tokens = prop_tokens("import(a); import.meta; export_ = 1;").expect("lexes");
    let script = parse_script(&tokens).expect("script parses");
    let module = parse_module(&tokens).expect("module parses");
    assert_eq!(script.span, module.span);
    let (statements, items) = match (script.kind, module.kind) {
        (ProgramKind::Script { body: statements }, ProgramKind::Module { body: items }) => (statements, items),
        _ => panic!("unexpected program kinds"),
    };
    assert_eq!(statements.len(), 3);
    assert_eq!(items.len(), 3);
    for i in 0..3 {
        match &items.get(i).expect("item").kind {
            ModuleItemKind::Statement(s) => {
                assert_eq!(format!("{s:?}"), format!("{:?}", statements.get(i).expect("statement")));
            }
            other => panic!("not a statement item: {other:?}"),
        }
    }
}

#[test]
fn error_messages() {
    let start = Position { line: 1, column: 1, offset: 0 };
    let end = Position { line: 1, column: 2, offset: 1 };
    let at = Span::new(start, end);
    assert_eq!(
        Error::UnexpectedEof { expected: "`)`" }.message(),
        "unexpected end of input; expected `)`"
    );
    assert_eq!(
        Error::InvalidAssignmentTarget { at }.message(),
        "1:1..1:2: not a valid assignment target"
    );
    assert_eq!(Error::InvalidArrowParameter { at }.message(), "1:1..1:2: not a valid arrow parameter");
    assert_eq!(Error::InvalidClassMember { at }.message(), "1:1..1:2: not a valid class member");
    assert_eq!(
        Error::UnexpectedToken { at, expected: "`;`", found: Found::Token("1".to_owned()) }.message(),
        "1:1..1:2: unexpected token \"1\"; expected `;`"
    );
    assert_eq!(
        Error::Syntax(SyntaxError::InvalidRegexFlag { flag: 'q' }).message(),
        "syntax error: invalid regex flag 'q'"
    );
    assert_eq!(
        Error::Syntax(SyntaxError::UnbalancedTemplate { quasis: 1, expressions: 1 }).message(),
        "syntax error: unbalanced template literal: 1 quasis and 1 expressions (must satisfy quasis == expressions + 1)"
    );
    let lexed = prop_tokens("\"open");
    match lexed {
        Err(e) => assert!(e.message().starts_with("lex error: ")),
        Ok(_) => panic!("an unterminated string lexes"),
    }
}
