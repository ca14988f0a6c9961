//! Expression parsing, driven by source text lexed with `ecma_lex_cat`.

use ecma_lex_cat::TokenKind as LexKind;
use ecma_parse_cat::ast::{
    Expression, ExpressionKind, List, MemberProperty, ObjectMember, ObjectPropertyKind, Program,
    ProgramKind, PropertyKey, StatementKind, BinaryOperator, LogicalOperator, UnaryOperator,
};
use ecma_parse_cat::token::{Position, Span, Symbol, Token, TokenKind};
use ecma_parse_cat::{Error, parse_script};

fn expr_kind(kind: &LexKind) -> TokenKind {
    match kind {
        LexKind::Identifier(s) => TokenKind::Identifier(s.clone()),
        LexKind::PrivateIdentifier(s) => TokenKind::PrivateIdentifier(s.clone()),
        LexKind::Number(n) => TokenKind::Number(n.to_bits()),
        LexKind::BigInt(s) => TokenKind::BigInt(s.clone()),
        LexKind::String(s) => TokenKind::String(s.clone()),
        LexKind::RegExp { pattern, flags } => TokenKind::RegExp { pattern: pattern.clone(), flags: flags.clone() },
        LexKind::TemplateNoSubstitution(s) => TokenKind::TemplateNoSubstitution(s.clone()),
        LexKind::TemplateHead(s) => TokenKind::TemplateHead(s.clone()),
        LexKind::TemplateMiddle(s) => TokenKind::TemplateMiddle(s.clone()),
        LexKind::TemplateTail(s) => TokenKind::TemplateTail(s.clone()),
        LexKind::KwAwait => TokenKind::Symbol(Symbol::KwAwait),
        LexKind::KwBreak => TokenKind::Symbol(Symbol::KwBreak),
        LexKind::KwCase => TokenKind::Symbol(Symbol::KwCase),
        LexKind::KwCatch => TokenKind::Symbol(Symbol::KwCatch),
        LexKind::KwClass => TokenKind::Symbol(Symbol::KwClass),
        LexKind::KwConst => TokenKind::Symbol(Symbol::KwConst),
        LexKind::KwContinue => TokenKind::Symbol(Symbol::KwContinue),
        LexKind::KwDebugger => TokenKind::Symbol(Symbol::KwDebugger),
        LexKind::KwDefault => TokenKind::Symbol(Symbol::KwDefault),
        LexKind::KwDelete => TokenKind::Symbol(Symbol::KwDelete),
        LexKind::KwDo => TokenKind::Symbol(Symbol::KwDo),
        LexKind::KwElse => TokenKind::Symbol(Symbol::KwElse),
        LexKind::KwEnum => TokenKind::Symbol(Symbol::KwEnum),
        LexKind::KwExport => TokenKind::Symbol(Symbol::KwExport),
        LexKind::KwExtends => TokenKind::Symbol(Symbol::KwExtends),
        LexKind::KwFalse => TokenKind::Symbol(Symbol::KwFalse),
        LexKind::KwFinally => TokenKind::Symbol(Symbol::KwFinally),
        LexKind::KwFor => TokenKind::Symbol(Symbol::KwFor),
        LexKind::KwFunction => TokenKind::Symbol(Symbol::KwFunction),
        LexKind::KwIf => TokenKind::Symbol(Symbol::KwIf),
        LexKind::KwImplements => TokenKind::Symbol(Symbol::KwImplements),
        LexKind::KwImport => TokenKind::Symbol(Symbol::KwImport),
        LexKind::KwIn => TokenKind::Symbol(Symbol::KwIn),
        LexKind::KwInstanceof => TokenKind::Symbol(Symbol::KwInstanceof),
        LexKind::KwInterface => TokenKind::Symbol(Symbol::KwInterface),
        LexKind::KwLet => TokenKind::Symbol(Symbol::KwLet),
        LexKind::KwNew => TokenKind::Symbol(Symbol::KwNew),
        LexKind::KwNull => TokenKind::Symbol(Symbol::KwNull),
        LexKind::KwPackage => TokenKind::Symbol(Symbol::KwPackage),
        LexKind::KwPrivate => TokenKind::Symbol(Symbol::KwPrivate),
        LexKind::KwProtected => TokenKind::Symbol(Symbol::KwProtected),
        LexKind::KwPublic => TokenKind::Symbol(Symbol::KwPublic),
        LexKind::KwReturn => TokenKind::Symbol(Symbol::KwReturn),
        LexKind::KwStatic => TokenKind::Symbol(Symbol::KwStatic),
        LexKind::KwSuper => TokenKind::Symbol(Symbol::KwSuper),
        LexKind::KwSwitch => TokenKind::Symbol(Symbol::KwSwitch),
        LexKind::KwThis => TokenKind::Symbol(Symbol::KwThis),
        LexKind::KwThrow => TokenKind::Symbol(Symbol::KwThrow),
        LexKind::KwTrue => TokenKind::Symbol(Symbol::KwTrue),
        LexKind::KwTry => TokenKind::Symbol(Symbol::KwTry),
        LexKind::KwTypeof => TokenKind::Symbol(Symbol::KwTypeof),
        LexKind::KwVar => TokenKind::Symbol(Symbol::KwVar),
        LexKind::KwVoid => TokenKind::Symbol(Symbol::KwVoid),
        LexKind::KwWhile => TokenKind::Symbol(Symbol::KwWhile),
        LexKind::KwWith => TokenKind::Symbol(Symbol::KwWith),
        LexKind::KwYield => TokenKind::Symbol(Symbol::KwYield),
        LexKind::LParen => TokenKind::Symbol(Symbol::LParen),
        LexKind::RParen => TokenKind::Symbol(Symbol::RParen),
        LexKind::LBracket => TokenKind::Symbol(Symbol::LBracket),
        LexKind::RBracket => TokenKind::Symbol(Symbol::RBracket),
        LexKind::LBrace => TokenKind::Symbol(Symbol::LBrace),
        LexKind::RBrace => TokenKind::Symbol(Symbol::RBrace),
        LexKind::Comma => TokenKind::Symbol(Symbol::Comma),
        LexKind::Semicolon => TokenKind::Symbol(Symbol::Semicolon),
        LexKind::Colon => TokenKind::Symbol(Symbol::Colon),
        LexKind::Dot => TokenKind::Symbol(Symbol::Dot),
        LexKind::OptionalChain => TokenKind::Symbol(Symbol::OptionalChain),
        LexKind::Spread => TokenKind::Symbol(Symbol::Spread),
        LexKind::Arrow => TokenKind::Symbol(Symbol::Arrow),
        LexKind::Question => TokenKind::Symbol(Symbol::Question),
        LexKind::EqEq => TokenKind::Symbol(Symbol::EqEq),
        LexKind::EqEqEq => TokenKind::Symbol(Symbol::EqEqEq),
        LexKind::BangEq => TokenKind::Symbol(Symbol::BangEq),
        LexKind::BangEqEq => TokenKind::Symbol(Symbol::BangEqEq),
        LexKind::Lt => TokenKind::Symbol(Symbol::Lt),
        LexKind::LtEq => TokenKind::Symbol(Symbol::LtEq),
        LexKind::Gt => TokenKind::Symbol(Symbol::Gt),
        LexKind::GtEq => TokenKind::Symbol(Symbol::GtEq),
        LexKind::Plus => TokenKind::Symbol(Symbol::Plus),
        LexKind::Minus => TokenKind::Symbol(Symbol::Minus),
        LexKind::Star => TokenKind::Symbol(Symbol::Star),
        LexKind::Slash => TokenKind::Symbol(Symbol::Slash),
        LexKind::Percent => TokenKind::Symbol(Symbol::Percent),
        LexKind::StarStar => TokenKind::Symbol(Symbol::StarStar),
        LexKind::PlusPlus => TokenKind::Symbol(Symbol::PlusPlus),
        LexKind::MinusMinus => TokenKind::Symbol(Symbol::MinusMinus),
        LexKind::Amp => TokenKind::Symbol(Symbol::Amp),
        LexKind::Pipe => TokenKind::Symbol(Symbol::Pipe),
        LexKind::Caret => TokenKind::Symbol(Symbol::Caret),
        LexKind::Tilde => TokenKind::Symbol(Symbol::Tilde),
        LexKind::LtLt => TokenKind::Symbol(Symbol::LtLt),
        LexKind::GtGt => TokenKind::Symbol(Symbol::GtGt),
        LexKind::GtGtGt => TokenKind::Symbol(Symbol::GtGtGt),
        LexKind::AmpAmp => TokenKind::Symbol(Symbol::AmpAmp),
        LexKind::PipePipe => TokenKind::Symbol(Symbol::PipePipe),
        LexKind::QQ => TokenKind::Symbol(Symbol::QQ),
        LexKind::Bang => TokenKind::Symbol(Symbol::Bang),
        LexKind::Eq => TokenKind::Symbol(Symbol::Eq),
        LexKind::PlusEq => TokenKind::Symbol(Symbol::PlusEq),
        LexKind::MinusEq => TokenKind::Symbol(Symbol::MinusEq),
        LexKind::StarEq => TokenKind::Symbol(Symbol::StarEq),
        LexKind::SlashEq => TokenKind::Symbol(Symbol::SlashEq),
        LexKind::PercentEq => TokenKind::Symbol(Symbol::PercentEq),
        LexKind::StarStarEq => TokenKind::Symbol(Symbol::StarStarEq),
        LexKind::LtLtEq => TokenKind::Symbol(Symbol::LtLtEq),
        LexKind::GtGtEq => TokenKind::Symbol(Symbol::GtGtEq),
        LexKind::GtGtGtEq => TokenKind::Symbol(Symbol::GtGtGtEq),
        LexKind::AmpEq => TokenKind::Symbol(Symbol::AmpEq),
        LexKind::PipeEq => TokenKind::Symbol(Symbol::PipeEq),
        LexKind::CaretEq => TokenKind::Symbol(Symbol::CaretEq),
        LexKind::AmpAmpEq => TokenKind::Symbol(Symbol::AmpAmpEq),
        LexKind::PipePipeEq => TokenKind::Symbol(Symbol::PipePipeEq),
        LexKind::QQEq => TokenKind::Symbol(Symbol::QQEq),
        LexKind::Eof => TokenKind::Symbol(Symbol::Eof),
    }
}

fn expr_position(p: ecma_syntax_cat::span::Position) -> Position {
    Position { line: p.line(), column: p.column(), offset: p.offset() }
}

/// Lexes `source` and converts the lexer's tokens into the parser's.
fn expr_tokens(source: &str) -> Result<Vec<Token>, Error> {
    let lexed = ecma_lex_cat::lex(source)?;
    Ok(lexed
        .iter()
        .map(|t| Token {
            kind: expr_kind(t.value()),
            span: Span::new(expr_position(t.span().start()), expr_position(t.span().end())),
            text: format!("{}", t.value()),
        })
        .collect())
}

fn first_expression(source: &str) -> Result<ExpressionKind, Error> {
    let tokens = expr_tokens(source)?;
    let program = parse_script(&tokens)?;
    extract_first_expression(program).ok_or(Error::UnexpectedEof {
        expected: "first expression statement",
    })
}

fn extract_first_expression(program: Program) -> Option<ExpressionKind> {
    match program.kind {
        ProgramKind::Script { body } => match body {
            List::Cons(stmt, _) => match stmt.kind {
                StatementKind::Expression { expression } => Some(expression.kind),
                _other => None,
            },
            List::Nil => None,
        },
        ProgramKind::Module { .. } => None,
    }
}

#[test]
fn parses_number_literal() -> Result<(), Error> {
    let kind = first_expression("42;")?;
    matches!(kind, ExpressionKind::Literal(_))
        .then_some(())
        .ok_or(Error::UnexpectedEof {
            expected: "literal expression",
        })
}

#[test]
fn parses_binary_with_precedence() -> Result<(), Error> {
    let kind = first_expression("1 + 2 * 3;")?;
    match kind {
        ExpressionKind::Binary {
            operator: BinaryOperator::Add,
            ..
        } => Ok(()),
        _other => Err(Error::UnexpectedEof {
            expected: "binary add at top",
        }),
    }
}

#[test]
fn parses_right_associative_exponentiation() -> Result<(), Error> {
    let kind = first_expression("2 ** 3 ** 4;")?;
    let (op, _, right) = match kind {
        ExpressionKind::Binary {
            operator,
            left,
            right,
        } => (operator, left, right),
        _other => Err(Error::UnexpectedEof { expected: "binary" })?,
    };
    match (op, &right.kind) {
        (
            BinaryOperator::Exponentiation,
            ExpressionKind::Binary {
                operator: BinaryOperator::Exponentiation,
                ..
            },
        ) => Ok(()),
        _other => Err(Error::UnexpectedEof {
            expected: "right-associative exponentiation",
        }),
    }
}

#[test]
fn parses_short_circuit_logical() -> Result<(), Error> {
    let kind = first_expression("a && b || c;")?;
    match kind {
        ExpressionKind::Logical {
            operator: LogicalOperator::Or,
            ..
        } => Ok(()),
        _other => Err(Error::UnexpectedEof {
            expected: "outer logical-or",
        }),
    }
}

#[test]
fn parses_member_chain() -> Result<(), Error> {
    let kind = first_expression("foo.bar.baz;")?;
    match kind {
        ExpressionKind::Member {
            property: MemberProperty::Identifier(_),
            ..
        } => Ok(()),
        _other => Err(Error::UnexpectedEof {
            expected: "member access chain",
        }),
    }
}

#[test]
fn parses_optional_chain() -> Result<(), Error> {
    let kind = first_expression("foo?.bar;")?;
    match kind {
        ExpressionKind::Chain { .. } => Ok(()),
        _other => Err(Error::UnexpectedEof {
            expected: "optional-chain wrapper",
        }),
    }
}

#[test]
fn parses_call_with_arguments() -> Result<(), Error> {
    let kind = first_expression("f(1, 2, ...rest);")?;
    match kind {
        ExpressionKind::Call { arguments, .. } if arguments.len() == 3 => Ok(()),
        _other => Err(Error::UnexpectedEof {
            expected: "call with three args",
        }),
    }
}

#[test]
fn parses_unary_typeof() -> Result<(), Error> {
    let kind = first_expression("typeof x;")?;
    match kind {
        ExpressionKind::Unary {
            operator: UnaryOperator::TypeOf,
            ..
        } => Ok(()),
        _other => Err(Error::UnexpectedEof {
            expected: "typeof unary",
        }),
    }
}

#[test]
fn parses_conditional_expression() -> Result<(), Error> {
    let kind = first_expression("a ? b : c;")?;
    match kind {
        ExpressionKind::Conditional { .. } => Ok(()),
        _other => Err(Error::UnexpectedEof {
            expected: "conditional expression",
        }),
    }
}

#[test]
fn parses_assignment_chain() -> Result<(), Error> {
    let kind = first_expression("x = y = 1;")?;
    let inner = match kind {
        ExpressionKind::Assignment { right, .. } => Ok(right),
        _other => Err(Error::UnexpectedEof {
            expected: "outer assignment",
        }),
    }?;
    match inner.kind {
        ExpressionKind::Assignment { .. } => Ok(()),
        _other => Err(Error::UnexpectedEof {
            expected: "right-associative inner assignment",
        }),
    }
}

#[test]
fn parses_arrow_function_single_arg() -> Result<(), Error> {
    let kind = first_expression("x => x + 1;")?;
    match kind {
        ExpressionKind::ArrowFunction(_) => Ok(()),
        _other => Err(Error::UnexpectedEof {
            expected: "arrow function",
        }),
    }
}

#[test]
fn parses_arrow_function_paren_args() -> Result<(), Error> {
    let kind = first_expression("(a, b) => a + b;")?;
    match kind {
        ExpressionKind::ArrowFunction(_) => Ok(()),
        _other => Err(Error::UnexpectedEof {
            expected: "paren arrow function",
        }),
    }
}

#[test]
fn parses_arrow_function_empty_args() -> Result<(), Error> {
    let kind = first_expression("() => 42;")?;
    match kind {
        ExpressionKind::ArrowFunction(_) => Ok(()),
        _other => Err(Error::UnexpectedEof {
            expected: "empty arrow function",
        }),
    }
}

#[test]
fn parses_array_literal_with_holes() -> Result<(), Error> {
    let kind = first_expression("[1, , 3];")?;
    match kind {
        ExpressionKind::Array { elements }
            if elements.len() == 3 && matches!(elements.get(1), Some(None)) =>
        {
            Ok(())
        }
        _other => Err(Error::UnexpectedEof {
            expected: "array with hole",
        }),
    }
}

#[test]
fn parses_object_literal_shorthand() -> Result<(), Error> {
    let kind = first_expression("({ a, b: 1, ...rest });")?;
    match kind {
        ExpressionKind::Parenthesized { expression } => match expression.kind {
            ExpressionKind::Object { properties } if properties.len() == 3 => Ok(()),
            _other => Err(Error::UnexpectedEof {
                expected: "object with three members",
            }),
        },
        _other => Err(Error::UnexpectedEof {
            expected: "parenthesised object",
        }),
    }
}

#[test]
fn parses_template_literal_no_subst() -> Result<(), Error> {
    let kind = first_expression("`hello`;")?;
    match kind {
        ExpressionKind::Template {
            quasis,
            expressions,
        } if expressions.is_empty() && quasis.len() == 1 => Ok(()),
        _other => Err(Error::UnexpectedEof {
            expected: "template literal with no substitutions",
        }),
    }
}

#[test]
fn parses_template_literal_with_subst() -> Result<(), Error> {
    let kind = first_expression("`hello ${name}!`;")?;
    match kind {
        ExpressionKind::Template {
            quasis,
            expressions,
        } if expressions.len() == 1 && quasis.len() == 2 => Ok(()),
        _other => Err(Error::UnexpectedEof {
            expected: "template literal with one substitution",
        }),
    }
}

fn first_object_members(source: &str) -> Result<List<ObjectMember>, Error> {
    match first_expression(source)? {
        ExpressionKind::Parenthesized { expression } => match expression.kind {
            ExpressionKind::Object { properties } => Ok(properties),
            _other => Err(Error::UnexpectedEof {
                expected: "parenthesised object literal",
            }),
        },
        ExpressionKind::Object { properties } => Ok(properties),
        _other => Err(Error::UnexpectedEof {
            expected: "object literal",
        }),
    }
}

fn member_kind_and_key_name(member: &ObjectMember) -> Option<(ObjectPropertyKind, String)> {
    match member {
        ObjectMember::Property { key, kind, .. } => {
            let name = match key {
                PropertyKey::Identifier(id) => Some(id.name.as_str().to_owned()),
                PropertyKey::String(s) => Some(s.clone()),
                PropertyKey::Number(_) | PropertyKey::Computed(_) | PropertyKey::Private(_) => None,
            };
            name.map(|n| (*kind, n))
        }
        ObjectMember::Spread { .. } => None,
    }
}

#[test]
fn parses_getter_member() -> Result<(), Error> {
    let members = first_object_members("({ get x() { return 1; } });")?;
    let (kind, name) = members
        .first()
        .and_then(member_kind_and_key_name)
        .ok_or(Error::UnexpectedEof { expected: "getter" })?;
    (matches!(kind, ObjectPropertyKind::Getter) && name == "x")
        .then_some(())
        .ok_or(Error::UnexpectedEof { expected: "get x" })
}

#[test]
fn parses_setter_member() -> Result<(), Error> {
    let members = first_object_members("({ set x(v) { } });")?;
    let (kind, name) = members
        .first()
        .and_then(member_kind_and_key_name)
        .ok_or(Error::UnexpectedEof { expected: "setter" })?;
    (matches!(kind, ObjectPropertyKind::Setter) && name == "x")
        .then_some(())
        .ok_or(Error::UnexpectedEof { expected: "set x" })
}

#[test]
fn parses_method_member() -> Result<(), Error> {
    let members = first_object_members("({ greet() { return 1; } });")?;
    let (kind, name) = members
        .first()
        .and_then(member_kind_and_key_name)
        .ok_or(Error::UnexpectedEof { expected: "method" })?;
    (matches!(kind, ObjectPropertyKind::Method) && name == "greet")
        .then_some(())
        .ok_or(Error::UnexpectedEof {
            expected: "greet()",
        })
}

#[test]
fn parses_get_as_shorthand_method_when_next_is_lparen() -> Result<(), Error> {
    // `{ get() {} }` is not a getter (no key follows `get`): it is a
    // shorthand method named "get".
    let members = first_object_members("({ get() { return 1; } });")?;
    let (kind, name) =
        members
            .first()
            .and_then(member_kind_and_key_name)
            .ok_or(Error::UnexpectedEof {
                expected: "method get",
            })?;
    (matches!(kind, ObjectPropertyKind::Method) && name == "get")
        .then_some(())
        .ok_or(Error::UnexpectedEof {
            expected: "shorthand method named get",
        })
}

#[test]
fn parses_get_as_init_when_followed_by_colon() -> Result<(), Error> {
    // `{ get: 1 }`: "get" is a property name, not an accessor.
    let members = first_object_members("({ get: 1 });")?;
    let (kind, name) = members
        .first()
        .and_then(member_kind_and_key_name)
        .ok_or(Error::UnexpectedEof { expected: "init" })?;
    (matches!(kind, ObjectPropertyKind::Init) && name == "get")
        .then_some(())
        .ok_or(Error::UnexpectedEof {
            expected: "data property get",
        })
}

#[test]
fn parses_get_as_shorthand_init_when_alone() -> Result<(), Error> {
    // `{ get }`: shorthand init referencing the variable "get".
    let members = first_object_members("({ get });")?;
    let (kind, name) =
        members
            .first()
            .and_then(member_kind_and_key_name)
            .ok_or(Error::UnexpectedEof {
                expected: "shorthand init",
            })?;
    (matches!(kind, ObjectPropertyKind::Init) && name == "get")
        .then_some(())
        .ok_or(Error::UnexpectedEof {
            expected: "shorthand init get",
        })
}

#[test]
fn parses_combined_get_set_accessor_pair() -> Result<(), Error> {
    let members = first_object_members("({ get x() { return 1; }, set x(v) { } });")?;
    (members.len() == 2
        && members
            .get(0)
            .and_then(member_kind_and_key_name)
            .is_some_and(|(k, n)| matches!(k, ObjectPropertyKind::Getter) && n == "x")
        && members
            .get(1)
            .and_then(member_kind_and_key_name)
            .is_some_and(|(k, n)| matches!(k, ObjectPropertyKind::Setter) && n == "x"))
    .then_some(())
    .ok_or(Error::UnexpectedEof {
        expected: "get x followed by set x",
    })
}

#[test]
fn expression_spans_cover_their_tokens() -> Result<(), Error> {
    let tokens = expr_tokens("a + b;")?;
    let program = parse_script(&tokens)?;
    let expression: Option<Expression> = match program.kind {
        ProgramKind::Script { body: List::Cons(stmt, _) } => match stmt.kind {
            StatementKind::Expression { expression } => Some(expression),
            _other => None,
        },
        _other => None,
    };
    let expression = expression.ok_or(Error::UnexpectedEof { expected: "expression" })?;
    assert_eq!(expression.span.start, tokens[0].span.start);
    assert_eq!(expression.span.end, tokens[2].span.end);
    Ok(())
}
