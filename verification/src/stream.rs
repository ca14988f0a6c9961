//! Token cursor helpers.
//!
//! Functions in this module never own state: they take the token slice
//! and a position and return either a new position or a value.  A position
//! at or past the end of the slice, or at a token of kind `Eof`, is the
//! end of input.
//!
//! The parsing functions of the crate are specified by `spec_*` functions
//! that return the parsed value together with the number of tokens
//! consumed; [`agrees`] relates such a result to the executable one, which
//! returns the position after the parsed construct instead.

use vstd::prelude::*;
use crate::ast::{Identifier, Name, PrivateIdentifier};
use crate::checks::{
    check_identifier, check_private_identifier, identifier_check, identifier_shape, private_identifier_check,
};
use crate::error::{Error, Found};
use crate::token::{Span, Symbol, Token, TokenKind, synthetic_span};

verus! {

/// The termination measure of the parsers: the number of positions left
/// from `pos` up to and including the end of input.
pub open spec fn rem(tokens: Seq<Token>, pos: int) -> nat {
    if pos <= tokens.len() {
        (tokens.len() + 1 - pos) as nat
    } else {
        0
    }
}

/// An executable parse result `r` (value and position after it), started
/// at `pos`, is the specified result `s` (value and number of tokens
/// consumed).
pub open spec fn agrees<T>(r: Result<(T, usize), Error>, s: Result<(T, nat), Error>, pos: int) -> bool {
    match (r, s) {
        (Ok((v, q)), Ok((w, k))) => v == w && q == pos + k,
        (Err(e), Err(f)) => e == f,
        _ => false,
    }
}

/// A successful parse started at `pos` consumed at least one token and
/// stopped within the slice.
pub open spec fn advances<T>(r: Result<(T, usize), Error>, pos: int, len: int) -> bool {
    r matches Ok((_, q)) ==> pos < q <= len
}

/// A parse result started at `pos` stopped within the slice, possibly
/// without consuming anything.
pub open spec fn within<T>(r: Result<(T, usize), Error>, pos: int, len: int) -> bool {
    r matches Ok((_, q)) ==> pos <= q <= len
}

/// Adds `k` to the number of tokens a parse result consumed.
pub open spec fn shift<T>(r: Result<(T, nat), Error>, k: nat) -> Result<(T, nat), Error> {
    match r {
        Ok((v, j)) => Ok((v, j + k)),
        Err(e) => Err(e),
    }
}

/// A token slice's length is a `usize`.
pub proof fn lemma_len_fits(tokens: &[Token])
    ensures
        tokens@.len() <= usize::MAX,
{
    broadcast use vstd::slice::axiom_spec_len;
    assert(vstd::slice::spec_slice_len(tokens) == tokens@.len());
}

/// Whether `s` spells `word`.
pub fn text_is(s: &String, word: &'static str) -> (b: bool)
    ensures
        b == (s@ == word@),
{
    let w = word.to_owned();
    *s == w
}

/// Whether the name `name` spells `word`.
pub fn name_is(name: &Name, word: &'static str) -> (b: bool)
    ensures
        b == (name@ == word@),
{
    match name {
        Name::Text(text) => text_is(text, word),
        Name::Keyword(keyword) => {
            let text = (*keyword).to_owned();
            text_is(&text, word)
        },
    }
}

/// Look-ahead result.
pub enum Peek<'a> {
    /// No more tokens, or only the `Eof` marker remains.
    Eof,
    /// A real token.
    Token(&'a Token),
}

/// The token at `pos`, unless `pos` is the end of input.
pub open spec fn spec_peek(tokens: Seq<Token>, pos: int) -> Option<Token> {
    if 0 <= pos < tokens.len() && tokens[pos].kind != TokenKind::Symbol(Symbol::Eof) {
        Some(tokens[pos])
    } else {
        None
    }
}

/// Peek at the token at `pos`, treating the `Eof` marker the same as
/// running out of tokens.
pub fn peek(tokens: &[Token], pos: usize) -> (r: Peek<'_>)
    ensures
        match r {
            Peek::Eof => spec_peek(tokens@, pos as int) is None,
            Peek::Token(t) => spec_peek(tokens@, pos as int) == Some(*t),
        },
        tokens@.len() <= usize::MAX,
{
    let n = tokens.len();
    if pos < n {
        let t = &tokens[pos];
        match &t.kind {
            TokenKind::Symbol(Symbol::Eof) => Peek::Eof,
            _ => Peek::Token(t),
        }
    } else {
        Peek::Eof
    }
}

/// The span of the token at `pos` (the `Eof` marker included), or the
/// synthetic span past the end.
pub open spec fn spec_span_at(tokens: Seq<Token>, pos: int) -> Span {
    if 0 <= pos < tokens.len() {
        tokens[pos].span
    } else {
        synthetic_span()
    }
}

/// Span of the token at `pos`, or a synthetic zero-width span at EOF.
pub fn span_at(tokens: &[Token], pos: usize) -> (s: Span)
    ensures
        s == spec_span_at(tokens@, pos as int),
{
    if pos < tokens.len() {
        tokens[pos].span
    } else {
        Span::synthetic()
    }
}

/// The span of the token before `pos`, or the synthetic span.
pub open spec fn spec_span_before(tokens: Seq<Token>, pos: int) -> Span {
    if 1 <= pos && pos - 1 < tokens.len() {
        tokens[pos - 1].span
    } else {
        synthetic_span()
    }
}

/// Span of the previous token (used for end-of-input error positions).
pub fn span_before(tokens: &[Token], pos: usize) -> (s: Span)
    ensures
        s == spec_span_before(tokens@, pos as int),
{
    if pos >= 1 && pos - 1 < tokens.len() {
        tokens[pos - 1].span
    } else {
        Span::synthetic()
    }
}

/// The error reporting `tok` where `expected` was expected.
pub open spec fn spec_unexpected(tok: Token, expected: &'static str) -> Error {
    Error::UnexpectedToken { at: tok.span, expected, found: Found::Token(tok.text) }
}

/// Builds the error reporting `tok` where `expected` was expected.
pub fn unexpected(tok: &Token, expected: &'static str) -> (e: Error)
    ensures
        e == spec_unexpected(*tok, expected),
{
    Error::UnexpectedToken { at: tok.span, expected, found: Found::Token(tok.text.clone()) }
}

/// Whether the token at `pos` is the symbol `kind` (never at EOF).
pub open spec fn spec_is_kind(tokens: Seq<Token>, pos: int, kind: Symbol) -> bool {
    spec_peek(tokens, pos) matches Some(tok) && tok.kind == TokenKind::Symbol(kind)
}

/// Whether the token at `pos` is `kind`.  Returns `false` at EOF.
pub fn is_kind(tokens: &[Token], pos: usize, kind: Symbol) -> (b: bool)
    ensures
        b == spec_is_kind(tokens@, pos as int, kind),
        tokens@.len() <= usize::MAX,
{
    match peek(tokens, pos) {
        Peek::Eof => false,
        Peek::Token(tok) => match &tok.kind {
            TokenKind::Symbol(s) => *s == kind,
            _ => false,
        },
    }
}

/// Consume the token at `pos` if it is `kind`, returning the position
/// after it.  Returns `None` if it does not match or at EOF.
pub fn consume_if(tokens: &[Token], pos: usize, kind: Symbol) -> (r: Option<usize>)
    ensures
        spec_is_kind(tokens@, pos as int, kind) ==> r == Some((pos + 1) as usize),
        !spec_is_kind(tokens@, pos as int, kind) ==> r is None,
{
    if is_kind(tokens, pos, kind) {
        Some(pos + 1)
    } else {
        None
    }
}

/// The outcome of expecting the symbol `expected` (described by `name`)
/// at `pos`: it is consumed, or the error says what was found instead.
pub open spec fn spec_expect_kind(
    tokens: Seq<Token>,
    pos: int,
    expected: Symbol,
    name: &'static str,
) -> Result<(), Error> {
    match spec_peek(tokens, pos) {
        None => Err(Error::UnexpectedEof { expected: name }),
        Some(tok) => if tok.kind == TokenKind::Symbol(expected) {
            Ok(())
        } else {
            Err(spec_unexpected(tok, name))
        },
    }
}

/// The executable form of an outcome that consumes one token on success.
pub open spec fn after_one(r: Result<(), Error>, pos: int) -> Result<usize, Error> {
    match r {
        Ok(()) => Ok((pos + 1) as usize),
        Err(e) => Err(e),
    }
}

/// If the token at `pos` is `expected`, return the position after it.
/// Otherwise return [`Error::UnexpectedToken`] or [`Error::UnexpectedEof`].
pub fn expect_kind(tokens: &[Token], pos: usize, expected: Symbol, name: &'static str) -> (r: Result<usize, Error>)
    ensures
        r == after_one(spec_expect_kind(tokens@, pos as int, expected, name), pos as int),
        r is Ok ==> pos < tokens@.len(),
{
    match peek(tokens, pos) {
        Peek::Eof => Err(Error::UnexpectedEof { expected: name }),
        Peek::Token(tok) => {
            let matched = match &tok.kind {
                TokenKind::Symbol(s) => *s == expected,
                _ => false,
            };
            if matched {
                Ok(pos + 1)
            } else {
                Err(unexpected(tok, name))
            }
        },
    }
}

/// The number of tokens an optional `;` takes at `pos`: a `;` is optional
/// immediately before `}` or at EOF and required everywhere else.
pub open spec fn spec_eat_semicolon(tokens: Seq<Token>, pos: int) -> Result<nat, Error> {
    match spec_peek(tokens, pos) {
        None => Ok(0),
        Some(tok) => if tok.kind == TokenKind::Symbol(Symbol::Semicolon) {
            Ok(1)
        } else if tok.kind == TokenKind::Symbol(Symbol::RBrace) {
            Ok(0)
        } else {
            Err(spec_unexpected(tok, "`;` or `}`"))
        },
    }
}

/// Eat a semicolon, with limited automatic-semicolon-insertion: a `;` is
/// optional immediately before `}` or EOF; required everywhere else.
pub fn eat_semicolon(tokens: &[Token], pos: usize) -> (r: Result<usize, Error>)
    ensures
        match (r, spec_eat_semicolon(tokens@, pos as int)) {
            (Ok(q), Ok(k)) => q == pos + k,
            (Err(e), Err(f)) => e == f,
            _ => false,
        },
        r matches Ok(q) ==> pos <= q && (pos <= tokens@.len() ==> q <= tokens@.len()),
{
    match peek(tokens, pos) {
        Peek::Eof => Ok(pos),
        Peek::Token(tok) => match &tok.kind {
            TokenKind::Symbol(Symbol::Semicolon) => Ok(pos + 1),
            TokenKind::Symbol(Symbol::RBrace) => Ok(pos),
            _ => Err(unexpected(tok, "`;` or `}`")),
        },
    }
}

/// The identifier named `name`, or the reason it is not one.
pub open spec fn spec_identifier(name: String) -> Result<Identifier, Error> {
    match identifier_check(name) {
        Ok(()) => Ok(Identifier { name: Name::Text(name) }),
        Err(e) => Err(Error::Syntax(e)),
    }
}

/// Builds the identifier named `name`.
pub fn make_identifier(name: &String) -> (r: Result<Identifier, Error>)
    ensures
        r == spec_identifier(*name),
{
    match check_identifier(name) {
        Ok(()) => Ok(Identifier { name: Name::Text(name.clone()) }),
        Err(e) => Err(Error::Syntax(e)),
    }
}

/// The private identifier named `name`, or the reason it is not one.
pub open spec fn spec_private_identifier(name: String) -> Result<PrivateIdentifier, Error> {
    match private_identifier_check(name) {
        Ok(()) => Ok(PrivateIdentifier { name }),
        Err(e) => Err(Error::Syntax(e)),
    }
}

/// Builds the private identifier named `name`.
pub fn make_private_identifier(name: &String) -> (r: Result<PrivateIdentifier, Error>)
    ensures
        r == spec_private_identifier(*name),
{
    match check_private_identifier(name) {
        Ok(()) => Ok(PrivateIdentifier { name: name.clone() }),
        Err(e) => Err(Error::Syntax(e)),
    }
}

/// A one-token parse of `v` (or its error).
pub open spec fn one<T>(r: Result<T, Error>) -> Result<(T, nat), Error> {
    match r {
        Ok(v) => Ok((v, 1)),
        Err(e) => Err(e),
    }
}

/// The identifier at `pos`.
pub open spec fn spec_expect_identifier(tokens: Seq<Token>, pos: int) -> Result<(Identifier, nat), Error> {
    match spec_peek(tokens, pos) {
        None => Err(Error::UnexpectedEof { expected: "identifier" }),
        Some(tok) => match tok.kind {
            TokenKind::Identifier(name) => one(spec_identifier(name)),
            _ => Err(spec_unexpected(tok, "identifier")),
        },
    }
}

/// Expect an identifier token; return the constructed `Identifier` and
/// the position after it.
pub fn expect_identifier(tokens: &[Token], pos: usize) -> (r: Result<(Identifier, usize), Error>)
    ensures
        agrees(r, spec_expect_identifier(tokens@, pos as int), pos as int),
        advances(r, pos as int, tokens@.len() as int),
{
    match peek(tokens, pos) {
        Peek::Eof => Err(Error::UnexpectedEof { expected: "identifier" }),
        Peek::Token(tok) => match &tok.kind {
            TokenKind::Identifier(name) => {
                let id = make_identifier(name)?;
                Ok((id, pos + 1))
            },
            _ => Err(unexpected(tok, "identifier")),
        },
    }
}

/// How the keyword `s` is spelled in source text, or `None` where `s`
/// is not a keyword.
pub open spec fn keyword_spelling(s: Symbol) -> Option<&'static str> {
    match s {
        Symbol::KwAwait => Some("await"),
        Symbol::KwBreak => Some("break"),
        Symbol::KwCase => Some("case"),
        Symbol::KwCatch => Some("catch"),
        Symbol::KwClass => Some("class"),
        Symbol::KwConst => Some("const"),
        Symbol::KwContinue => Some("continue"),
        Symbol::KwDebugger => Some("debugger"),
        Symbol::KwDefault => Some("default"),
        Symbol::KwDelete => Some("delete"),
        Symbol::KwDo => Some("do"),
        Symbol::KwElse => Some("else"),
        Symbol::KwEnum => Some("enum"),
        Symbol::KwExport => Some("export"),
        Symbol::KwExtends => Some("extends"),
        Symbol::KwFalse => Some("false"),
        Symbol::KwFinally => Some("finally"),
        Symbol::KwFor => Some("for"),
        Symbol::KwFunction => Some("function"),
        Symbol::KwIf => Some("if"),
        Symbol::KwImplements => Some("implements"),
        Symbol::KwImport => Some("import"),
        Symbol::KwIn => Some("in"),
        Symbol::KwInstanceof => Some("instanceof"),
        Symbol::KwInterface => Some("interface"),
        Symbol::KwLet => Some("let"),
        Symbol::KwNew => Some("new"),
        Symbol::KwNull => Some("null"),
        Symbol::KwPackage => Some("package"),
        Symbol::KwPrivate => Some("private"),
        Symbol::KwProtected => Some("protected"),
        Symbol::KwPublic => Some("public"),
        Symbol::KwReturn => Some("return"),
        Symbol::KwStatic => Some("static"),
        Symbol::KwSuper => Some("super"),
        Symbol::KwSwitch => Some("switch"),
        Symbol::KwThis => Some("this"),
        Symbol::KwThrow => Some("throw"),
        Symbol::KwTrue => Some("true"),
        Symbol::KwTry => Some("try"),
        Symbol::KwTypeof => Some("typeof"),
        Symbol::KwVar => Some("var"),
        Symbol::KwVoid => Some("void"),
        Symbol::KwWhile => Some("while"),
        Symbol::KwWith => Some("with"),
        Symbol::KwYield => Some("yield"),
        _ => None,
    }
}

/// How the keyword `s` is spelled, or `None` where `s` is not a keyword.
pub fn spelling_of(s: Symbol) -> (r: Option<&'static str>)
    ensures
        r == keyword_spelling(s),
{
    match s {
        Symbol::KwAwait => Some("await"),
        Symbol::KwBreak => Some("break"),
        Symbol::KwCase => Some("case"),
        Symbol::KwCatch => Some("catch"),
        Symbol::KwClass => Some("class"),
        Symbol::KwConst => Some("const"),
        Symbol::KwContinue => Some("continue"),
        Symbol::KwDebugger => Some("debugger"),
        Symbol::KwDefault => Some("default"),
        Symbol::KwDelete => Some("delete"),
        Symbol::KwDo => Some("do"),
        Symbol::KwElse => Some("else"),
        Symbol::KwEnum => Some("enum"),
        Symbol::KwExport => Some("export"),
        Symbol::KwExtends => Some("extends"),
        Symbol::KwFalse => Some("false"),
        Symbol::KwFinally => Some("finally"),
        Symbol::KwFor => Some("for"),
        Symbol::KwFunction => Some("function"),
        Symbol::KwIf => Some("if"),
        Symbol::KwImplements => Some("implements"),
        Symbol::KwImport => Some("import"),
        Symbol::KwIn => Some("in"),
        Symbol::KwInstanceof => Some("instanceof"),
        Symbol::KwInterface => Some("interface"),
        Symbol::KwLet => Some("let"),
        Symbol::KwNew => Some("new"),
        Symbol::KwNull => Some("null"),
        Symbol::KwPackage => Some("package"),
        Symbol::KwPrivate => Some("private"),
        Symbol::KwProtected => Some("protected"),
        Symbol::KwPublic => Some("public"),
        Symbol::KwReturn => Some("return"),
        Symbol::KwStatic => Some("static"),
        Symbol::KwSuper => Some("super"),
        Symbol::KwSwitch => Some("switch"),
        Symbol::KwThis => Some("this"),
        Symbol::KwThrow => Some("throw"),
        Symbol::KwTrue => Some("true"),
        Symbol::KwTry => Some("try"),
        Symbol::KwTypeof => Some("typeof"),
        Symbol::KwVar => Some("var"),
        Symbol::KwVoid => Some("void"),
        Symbol::KwWhile => Some("while"),
        Symbol::KwWith => Some("with"),
        Symbol::KwYield => Some("yield"),
        _ => None,
    }
}

/// Every keyword's spelling has the shape of an identifier, so the check
/// that builds an identifier passes on it.
pub proof fn lemma_keyword_spelling_is_identifier(s: Symbol)
    ensures
        keyword_spelling(s) matches Some(word) ==> identifier_shape(word@),
{
    match s {
        Symbol::KwAwait => reveal_strlit("await"),
        Symbol::KwBreak => reveal_strlit("break"),
        Symbol::KwCase => reveal_strlit("case"),
        Symbol::KwCatch => reveal_strlit("catch"),
        Symbol::KwClass => reveal_strlit("class"),
        Symbol::KwConst => reveal_strlit("const"),
        Symbol::KwContinue => reveal_strlit("continue"),
        Symbol::KwDebugger => reveal_strlit("debugger"),
        Symbol::KwDefault => reveal_strlit("default"),
        Symbol::KwDelete => reveal_strlit("delete"),
        Symbol::KwDo => reveal_strlit("do"),
        Symbol::KwElse => reveal_strlit("else"),
        Symbol::KwEnum => reveal_strlit("enum"),
        Symbol::KwExport => reveal_strlit("export"),
        Symbol::KwExtends => reveal_strlit("extends"),
        Symbol::KwFalse => reveal_strlit("false"),
        Symbol::KwFinally => reveal_strlit("finally"),
        Symbol::KwFor => reveal_strlit("for"),
        Symbol::KwFunction => reveal_strlit("function"),
        Symbol::KwIf => reveal_strlit("if"),
        Symbol::KwImplements => reveal_strlit("implements"),
        Symbol::KwImport => reveal_strlit("import"),
        Symbol::KwIn => reveal_strlit("in"),
        Symbol::KwInstanceof => reveal_strlit("instanceof"),
        Symbol::KwInterface => reveal_strlit("interface"),
        Symbol::KwLet => reveal_strlit("let"),
        Symbol::KwNew => reveal_strlit("new"),
        Symbol::KwNull => reveal_strlit("null"),
        Symbol::KwPackage => reveal_strlit("package"),
        Symbol::KwPrivate => reveal_strlit("private"),
        Symbol::KwProtected => reveal_strlit("protected"),
        Symbol::KwPublic => reveal_strlit("public"),
        Symbol::KwReturn => reveal_strlit("return"),
        Symbol::KwStatic => reveal_strlit("static"),
        Symbol::KwSuper => reveal_strlit("super"),
        Symbol::KwSwitch => reveal_strlit("switch"),
        Symbol::KwThis => reveal_strlit("this"),
        Symbol::KwThrow => reveal_strlit("throw"),
        Symbol::KwTrue => reveal_strlit("true"),
        Symbol::KwTry => reveal_strlit("try"),
        Symbol::KwTypeof => reveal_strlit("typeof"),
        Symbol::KwVar => reveal_strlit("var"),
        Symbol::KwVoid => reveal_strlit("void"),
        Symbol::KwWhile => reveal_strlit("while"),
        Symbol::KwWith => reveal_strlit("with"),
        Symbol::KwYield => reveal_strlit("yield"),
        _ => {},
    }
}

/// The identifier that the keyword spelled `word` names: itself.  The
/// check that builds an identifier passes on every keyword's spelling (see
/// [`lemma_keyword_spelling_is_identifier`]), so it cannot fail.
pub open spec fn keyword_identifier(word: &'static str) -> Identifier {
    Identifier { name: Name::Keyword(word) }
}

/// The name a token stands for where an identifier or a contextual
/// keyword usable as one is allowed: an identifier's name, or the keyword
/// `let`, `await`, `yield` or `static`, by its own spelling.
pub open spec fn spec_identifier_name(tok: Token) -> Option<Name> {
    match tok.kind {
        TokenKind::Identifier(name) => Some(Name::Text(name)),
        TokenKind::Symbol(Symbol::KwLet) => Some(Name::Keyword("let")),
        TokenKind::Symbol(Symbol::KwAwait) => Some(Name::Keyword("await")),
        TokenKind::Symbol(Symbol::KwYield) => Some(Name::Keyword("yield")),
        TokenKind::Symbol(Symbol::KwStatic) => Some(Name::Keyword("static")),
        _ => None,
    }
}

/// The name `tok` stands for where an identifier or contextual keyword is
/// allowed (see [`spec_identifier_name`]).
pub fn identifier_name(tok: &Token) -> (r: Option<Name>)
    ensures
        r == spec_identifier_name(*tok),
{
    match &tok.kind {
        TokenKind::Identifier(name) => Some(Name::Text(name.clone())),
        TokenKind::Symbol(Symbol::KwLet) => Some(Name::Keyword("let")),
        TokenKind::Symbol(Symbol::KwAwait) => Some(Name::Keyword("await")),
        TokenKind::Symbol(Symbol::KwYield) => Some(Name::Keyword("yield")),
        TokenKind::Symbol(Symbol::KwStatic) => Some(Name::Keyword("static")),
        _ => None,
    }
}

/// The text `tok` stands for where an identifier or contextual keyword is
/// allowed: an identifier's name, the words `let`, `await`, `yield` and
/// `static` for those keywords whatever the token's rendering, and
/// nothing for any other token.
pub fn identifier_text(tok: &Token) -> (r: Option<String>)
    ensures
        match spec_identifier_name(*tok) {
            Some(name) => r matches Some(text) && text@ == name@,
            None => r is None,
        },
        match tok.kind {
            TokenKind::Identifier(name) => r == Some(name),
            TokenKind::Symbol(Symbol::KwLet) => r matches Some(text) && text@ == "let"@,
            TokenKind::Symbol(Symbol::KwAwait) => r matches Some(text) && text@ == "await"@,
            TokenKind::Symbol(Symbol::KwYield) => r matches Some(text) && text@ == "yield"@,
            TokenKind::Symbol(Symbol::KwStatic) => r matches Some(text) && text@ == "static"@,
            _ => r is None,
        },
{
    match &tok.kind {
        TokenKind::Identifier(name) => Some(name.clone()),
        TokenKind::Symbol(Symbol::KwLet) => Some("let".to_owned()),
        TokenKind::Symbol(Symbol::KwAwait) => Some("await".to_owned()),
        TokenKind::Symbol(Symbol::KwYield) => Some("yield".to_owned()),
        TokenKind::Symbol(Symbol::KwStatic) => Some("static".to_owned()),
        _ => None,
    }
}

/// The identifier a name read where an identifier or contextual keyword
/// is allowed stands for, or the reason it is not one.
pub open spec fn spec_name_identifier(name: Name) -> Result<Identifier, Error> {
    match name {
        Name::Text(text) => spec_identifier(text),
        Name::Keyword(word) => Ok(keyword_identifier(word)),
    }
}

/// The identifier or contextual keyword at `pos`.
pub open spec fn spec_expect_identifier_or_keyword(tokens: Seq<Token>, pos: int) -> Result<(Identifier, nat), Error> {
    match spec_peek(tokens, pos) {
        None => Err(Error::UnexpectedEof { expected: "identifier" }),
        Some(tok) => match spec_identifier_name(tok) {
            Some(name) => one(spec_name_identifier(name)),
            None => Err(spec_unexpected(tok, "identifier")),
        },
    }
}

/// Expect an identifier or a contextual keyword that may be used as an
/// identifier in this position (`let`, `await`, `yield`, `static`; the
/// words `async`, `get`, `set`, `of`, `as`, `from` are identifiers
/// already).  A keyword gives the identifier of its own spelling.
pub fn expect_identifier_or_keyword(tokens: &[Token], pos: usize) -> (r: Result<(Identifier, usize), Error>)
    ensures
        agrees(r, spec_expect_identifier_or_keyword(tokens@, pos as int), pos as int),
        advances(r, pos as int, tokens@.len() as int),
{
    match peek(tokens, pos) {
        Peek::Eof => Err(Error::UnexpectedEof { expected: "identifier" }),
        Peek::Token(tok) => match identifier_name(tok) {
            Some(Name::Text(text)) => {
                let id = make_identifier(&text)?;
                Ok((id, pos + 1))
            },
            Some(Name::Keyword(word)) => Ok((Identifier { name: Name::Keyword(word) }, pos + 1)),
            None => Err(unexpected(tok, "identifier")),
        },
    }
}

/// The property name at `pos` after `.` or `?.`: an identifier, or a
/// keyword naming the property of its own spelling.
pub open spec fn spec_expect_member_name(tokens: Seq<Token>, pos: int) -> Result<(Identifier, nat), Error> {
    match spec_peek(tokens, pos) {
        None => Err(Error::UnexpectedEof { expected: "property name" }),
        Some(tok) => match tok.kind {
            TokenKind::Identifier(name) => one(spec_identifier(name)),
            TokenKind::Symbol(s) => match keyword_spelling(s) {
                Some(word) => Ok((keyword_identifier(word), 1)),
                None => Err(spec_unexpected(tok, "property name")),
            },
            _ => Err(spec_unexpected(tok, "property name")),
        },
    }
}

/// Expect the property name after `.` or `?.`: an identifier or any
/// keyword, which names a property as its own spelling.
pub fn expect_member_name(tokens: &[Token], pos: usize) -> (r: Result<(Identifier, usize), Error>)
    ensures
        agrees(r, spec_expect_member_name(tokens@, pos as int), pos as int),
        advances(r, pos as int, tokens@.len() as int),
{
    match peek(tokens, pos) {
        Peek::Eof => Err(Error::UnexpectedEof { expected: "property name" }),
        Peek::Token(tok) => match &tok.kind {
            TokenKind::Identifier(name) => {
                let id = make_identifier(name)?;
                Ok((id, pos + 1))
            },
            TokenKind::Symbol(s) => match spelling_of(*s) {
                Some(word) => Ok((Identifier { name: Name::Keyword(word) }, pos + 1)),
                None => Err(unexpected(tok, "property name")),
            },
            _ => Err(unexpected(tok, "property name")),
        },
    }
}

/// The private identifier at `pos`.
pub open spec fn spec_expect_private_identifier(tokens: Seq<Token>, pos: int) -> Result<(PrivateIdentifier, nat), Error> {
    match spec_peek(tokens, pos) {
        None => Err(Error::UnexpectedEof { expected: "private identifier" }),
        Some(tok) => match tok.kind {
            TokenKind::PrivateIdentifier(name) => one(spec_private_identifier(name)),
            _ => Err(spec_unexpected(tok, "private identifier")),
        },
    }
}

/// Expect a private identifier (`#name`).
pub fn expect_private_identifier(tokens: &[Token], pos: usize) -> (r: Result<(PrivateIdentifier, usize), Error>)
    ensures
        agrees(r, spec_expect_private_identifier(tokens@, pos as int), pos as int),
        advances(r, pos as int, tokens@.len() as int),
{
    match peek(tokens, pos) {
        Peek::Eof => Err(Error::UnexpectedEof { expected: "private identifier" }),
        Peek::Token(tok) => match &tok.kind {
            TokenKind::PrivateIdentifier(name) => {
                let id = make_private_identifier(name)?;
                Ok((id, pos + 1))
            },
            _ => Err(unexpected(tok, "private identifier")),
        },
    }
}

} // verus!
