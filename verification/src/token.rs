//! Tokens consumed by the parser.
//!
//! A [`Token`] pairs a [`TokenKind`] with its source [`Span`] and the
//! token's rendering (`text`), which is what error messages quote when
//! the token is not what a production expects.  Token kinds that carry no
//! data (keywords, punctuators and the end-of-input marker) are grouped in
//! the field-less [`Symbol`] enum so that they can be compared directly.

use vstd::prelude::*;

verus! {

/// A source position: 1-based line and column, 0-based byte offset.
#[derive(Debug, Clone, Copy, PartialEq, Eq, Structural)]
pub struct Position {
    pub line: u32,
    pub column: u32,
    pub offset: u32,
}

/// A half-open source range `[start, end)`.
#[derive(Debug, Clone, Copy, PartialEq, Eq, Structural)]
pub struct Span {
    pub start: Position,
    pub end: Position,
}

/// The position used for nodes that have no source.
pub open spec fn synthetic_position() -> Position {
    Position { line: 0, column: 0, offset: 0 }
}

/// The span used for nodes that have no source.
pub open spec fn synthetic_span() -> Span {
    Span { start: synthetic_position(), end: synthetic_position() }
}

/// The span that runs from the start of `a` to the end of `b`.
pub open spec fn join_spans(a: Span, b: Span) -> Span {
    Span { start: a.start, end: b.end }
}

impl Span {
    /// Builds a span from its two end points.
    pub fn new(start: Position, end: Position) -> (s: Span)
        ensures
            s == (Span { start, end }),
    {
        Span { start, end }
    }

    /// A zero-width span at the synthetic position.
    pub fn synthetic() -> (s: Span)
        ensures
            s == synthetic_span(),
    {
        Span { start: Position { line: 0, column: 0, offset: 0 }, end: Position { line: 0, column: 0, offset: 0 } }
    }

    /// The span from the start of `a` to the end of `b`.
    pub fn join(a: Span, b: Span) -> (s: Span)
        ensures
            s == join_spans(a, b),
    {
        Span { start: a.start, end: b.end }
    }
}

/// Token kinds that carry no data: keywords, punctuators, operators and
/// the end-of-input marker.
#[derive(Debug, Clone, Copy, PartialEq, Eq, Structural)]
pub enum Symbol {
    KwAwait,
    KwBreak,
    KwCase,
    KwCatch,
    KwClass,
    KwConst,
    KwContinue,
    KwDebugger,
    KwDefault,
    KwDelete,
    KwDo,
    KwElse,
    KwEnum,
    KwExport,
    KwExtends,
    KwFalse,
    KwFinally,
    KwFor,
    KwFunction,
    KwIf,
    KwImplements,
    KwImport,
    KwIn,
    KwInstanceof,
    KwInterface,
    KwLet,
    KwNew,
    KwNull,
    KwPackage,
    KwPrivate,
    KwProtected,
    KwPublic,
    KwReturn,
    KwStatic,
    KwSuper,
    KwSwitch,
    KwThis,
    KwThrow,
    KwTrue,
    KwTry,
    KwTypeof,
    KwVar,
    KwVoid,
    KwWhile,
    KwWith,
    KwYield,
    LParen,
    RParen,
    LBracket,
    RBracket,
    LBrace,
    RBrace,
    Comma,
    Semicolon,
    Colon,
    Dot,
    OptionalChain,
    Spread,
    Arrow,
    Question,
    EqEq,
    EqEqEq,
    BangEq,
    BangEqEq,
    Lt,
    LtEq,
    Gt,
    GtEq,
    Plus,
    Minus,
    Star,
    Slash,
    Percent,
    StarStar,
    PlusPlus,
    MinusMinus,
    Amp,
    Pipe,
    Caret,
    Tilde,
    LtLt,
    GtGt,
    GtGtGt,
    AmpAmp,
    PipePipe,
    QQ,
    Bang,
    Eq,
    PlusEq,
    MinusEq,
    StarEq,
    SlashEq,
    PercentEq,
    StarStarEq,
    LtLtEq,
    GtGtEq,
    GtGtGtEq,
    AmpEq,
    PipeEq,
    CaretEq,
    AmpAmpEq,
    PipePipeEq,
    QQEq,
    Eof,
}

/// What a token is.
#[derive(Debug, Clone, PartialEq, Eq)]
pub enum TokenKind {
    /// A keyword, punctuator, operator or the end-of-input marker.
    Symbol(Symbol),
    /// An identifier (including contextual words such as `async`, `of`).
    Identifier(String),
    /// A private name `#name`, stored without the `#`.
    PrivateIdentifier(String),
    /// A numeric literal, stored as the bit pattern of its IEEE-754 double.
    Number(u64),
    /// A `BigInt` literal's decimal digits (without the trailing `n`).
    BigInt(String),
    /// A string literal with escapes resolved.
    String(String),
    /// A regular-expression literal.
    RegExp { pattern: String, flags: String },
    /// A template literal without substitutions.
    TemplateNoSubstitution(String),
    /// The chunk before the first `${` of a template.
    TemplateHead(String),
    /// A chunk between two substitutions of a template.
    TemplateMiddle(String),
    /// The chunk after the last substitution of a template.
    TemplateTail(String),
}

/// A token: its kind, its source span, and its rendering as quoted in
/// error messages (for keywords, the keyword itself).
#[derive(Debug, Clone, PartialEq, Eq)]
pub struct Token {
    pub kind: TokenKind,
    pub span: Span,
    pub text: String,
}

} // verus!
