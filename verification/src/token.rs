//! The tokens the configuration grammar is written in.

use vstd::prelude::*;
use vstd::string::*;
use crate::error::{GrammarError, GrammarErrorKind};
use crate::literal::{Ident, IdentView, StringLit, StringLitView};
use crate::location::SourceLocation;
use crate::text::same_text;

verus! {

/// The three pairs of delimiters.
#[derive(Clone, Copy, Debug, PartialEq, Eq, Structural)]
pub enum Delimiter {
    Parenthesis,
    Brace,
    Bracket,
}

/// What a token is.
#[derive(Clone, Debug, PartialEq, Eq)]
pub enum TokenKind {
    /// A string literal, with the text it stands for.
    Str(String),
    /// A name.
    Ident(String),
    /// A literal that is not a string.
    Literal,
    /// A single punctuation character.
    Punct(char),
    /// An opening delimiter.
    Open(Delimiter),
    /// A closing delimiter.
    Close(Delimiter),
}

/// A token and where it was written.
#[derive(Clone, Debug, PartialEq, Eq)]
pub struct Token {
    pub kind: TokenKind,
    pub span: SourceLocation,
}

/// The mathematical content of a [`TokenKind`].
pub ghost enum TokenKindView {
    Str(Seq<char>),
    Ident(Seq<char>),
    Literal,
    Punct(char),
    Open(Delimiter),
    Close(Delimiter),
}

/// The mathematical content of a [`Token`].
pub ghost struct TokenView {
    pub kind: TokenKindView,
    pub span: SourceLocation,
}

impl View for TokenKind {
    type V = TokenKindView;

    open spec fn view(&self) -> TokenKindView {
        match self {
            TokenKind::Str(s) => TokenKindView::Str(s@),
            TokenKind::Ident(s) => TokenKindView::Ident(s@),
            TokenKind::Literal => TokenKindView::Literal,
            TokenKind::Punct(c) => TokenKindView::Punct(*c),
            TokenKind::Open(d) => TokenKindView::Open(*d),
            TokenKind::Close(d) => TokenKindView::Close(*d),
        }
    }
}

impl View for Token {
    type V = TokenView;

    open spec fn view(&self) -> TokenView {
        TokenView { kind: self.kind@, span: self.span }
    }
}

/// The views of a sequence of tokens, in order.
pub open spec fn token_views(tokens: Seq<Token>) -> Seq<TokenView> {
    tokens.map_values(|t: Token| t@)
}

/// The location just behind the last token: where input that ends too early
/// is reported.
pub open spec fn spec_end_location(tokens: Seq<TokenView>) -> SourceLocation {
    if tokens.len() == 0 {
        SourceLocation { start: 0, end: 0 }
    } else {
        SourceLocation { start: tokens.last().span.end, end: tokens.last().span.end }
    }
}

/// The location of the token at `pos`, or the end of the input where there is
/// none.
pub open spec fn spec_span_at(tokens: Seq<TokenView>, pos: int) -> SourceLocation {
    if 0 <= pos < tokens.len() {
        tokens[pos].span
    } else {
        spec_end_location(tokens)
    }
}

/// Whether the token at `pos` is the punctuation character `c`.
pub open spec fn spec_is_punct(tokens: Seq<TokenView>, pos: int, c: char) -> bool {
    0 <= pos < tokens.len() && tokens[pos].kind == TokenKindView::Punct(c)
}

/// Whether the token at `pos` closes the delimiter `d`.
pub open spec fn spec_is_close(tokens: Seq<TokenView>, pos: int, d: Delimiter) -> bool {
    0 <= pos < tokens.len() && tokens[pos].kind == TokenKindView::Close(d)
}

/// Whether an executable parse result is the one the grammar prescribes: the
/// same value and next position, or the same error.
pub open spec fn agrees<T: View>(
    r: Result<(T, usize), GrammarError>,
    s: Result<(T::V, int), GrammarError>,
) -> bool {
    match (r, s) {
        (Ok((v, q)), Ok((sv, sq))) => v@ == sv && q as int == sq,
        (Err(e), Err(se)) => e == se,
        _ => false,
    }
}

/// Whether the token at `pos` is a name.
pub open spec fn spec_is_ident(tokens: Seq<TokenView>, pos: int) -> bool {
    0 <= pos < tokens.len() && tokens[pos].kind is Ident
}

/// Whether the token at `pos` is a string literal.
pub open spec fn spec_is_str(tokens: Seq<TokenView>, pos: int) -> bool {
    0 <= pos < tokens.len() && tokens[pos].kind is Str
}

/// The string literal at `pos`.
pub open spec fn spec_str_at(tokens: Seq<TokenView>, pos: int) -> StringLitView
    recommends
        spec_is_str(tokens, pos),
{
    StringLitView { value: tokens[pos].kind->Str_0, span: tokens[pos].span }
}

/// The name at `pos`.
pub open spec fn spec_ident_at(tokens: Seq<TokenView>, pos: int) -> IdentView
    recommends
        spec_is_ident(tokens, pos),
{
    IdentView { name: tokens[pos].kind->Ident_0, span: tokens[pos].span }
}

/// Whether the token at `pos` is the name `word`.
pub open spec fn spec_is_word(tokens: Seq<TokenView>, pos: int, word: Seq<char>) -> bool {
    0 <= pos < tokens.len() && tokens[pos].kind == TokenKindView::Ident(word)
}

/// Where to go on after a field or element that ends before `pos`, inside
/// the delimiter `d`: at the closing delimiter itself, or behind a comma.
/// Anything else there is an error.
pub open spec fn spec_after_item(tokens: Seq<TokenView>, pos: int, d: Delimiter) -> Result<
    int,
    GrammarError,
> {
    if spec_is_close(tokens, pos, d) {
        Ok(pos)
    } else if spec_is_punct(tokens, pos, ',') {
        Ok(pos + 1)
    } else {
        Err(GrammarError { kind: GrammarErrorKind::ExpectedComma, span: spec_span_at(tokens, pos) })
    }
}

/// Where to go on after a field or option that ends before `pos`,
/// where the input is delimited by its end: the end of the
/// input, or behind a comma.
pub open spec fn spec_after_last(tokens: Seq<TokenView>, pos: int) -> Result<int, GrammarError> {
    if pos >= tokens.len() {
        Ok(pos)
    } else if spec_is_punct(tokens, pos, ',') {
        Ok(pos + 1)
    } else {
        Err(GrammarError { kind: GrammarErrorKind::ExpectedComma, span: spec_span_at(tokens, pos) })
    }
}

/// A value that was read up to `next` is the whole input's value only if
/// the input ends there.
pub open spec fn spec_complete<V>(
    tokens: Seq<TokenView>,
    parsed: Result<(V, int), GrammarError>,
) -> Result<V, GrammarError> {
    match parsed {
        Ok((value, next)) => if next == tokens.len() {
            Ok(value)
        } else {
            Err(
                GrammarError {
                    kind: GrammarErrorKind::UnexpectedToken,
                    span: spec_span_at(tokens, next),
                },
            )
        },
        Err(e) => Err(e),
    }
}

impl Token {
    pub fn string(value: &str, span: SourceLocation) -> (r: Token)
        ensures
            r@ == (TokenView { kind: TokenKindView::Str(value@), span }),
    {
        Token { kind: TokenKind::Str(String::from_str(value)), span }
    }

    pub fn ident(name: &str, span: SourceLocation) -> (r: Token)
        ensures
            r@ == (TokenView { kind: TokenKindView::Ident(name@), span }),
    {
        Token { kind: TokenKind::Ident(String::from_str(name)), span }
    }

    pub fn literal(span: SourceLocation) -> (r: Token)
        ensures
            r@ == (TokenView { kind: TokenKindView::Literal, span }),
    {
        Token { kind: TokenKind::Literal, span }
    }

    pub fn punct(c: char, span: SourceLocation) -> (r: Token)
        ensures
            r@ == (TokenView { kind: TokenKindView::Punct(c), span }),
    {
        Token { kind: TokenKind::Punct(c), span }
    }

    pub fn open(d: Delimiter, span: SourceLocation) -> (r: Token)
        ensures
            r@ == (TokenView { kind: TokenKindView::Open(d), span }),
    {
        Token { kind: TokenKind::Open(d), span }
    }

    pub fn close(d: Delimiter, span: SourceLocation) -> (r: Token)
        ensures
            r@ == (TokenView { kind: TokenKindView::Close(d), span }),
    {
        Token { kind: TokenKind::Close(d), span }
    }
}

/// The location just behind the last token.
pub fn end_location(tokens: &Vec<Token>) -> (r: SourceLocation)
    ensures
        r == spec_end_location(token_views(tokens@)),
{
    let n = tokens.len();
    if n == 0 {
        SourceLocation { start: 0, end: 0 }
    } else {
        let e = tokens[n - 1].span.end;
        SourceLocation { start: e, end: e }
    }
}

/// The location of the token at `pos`, or the end of the input.
pub fn span_at(tokens: &Vec<Token>, pos: usize) -> (r: SourceLocation)
    ensures
        r == spec_span_at(token_views(tokens@), pos as int),
{
    if pos < tokens.len() {
        tokens[pos].span
    } else {
        end_location(tokens)
    }
}

/// Whether the token at `pos` is the punctuation character `c`.
pub fn is_punct(tokens: &Vec<Token>, pos: usize, c: char) -> (r: bool)
    ensures
        r == spec_is_punct(token_views(tokens@), pos as int, c),
{
    if pos < tokens.len() {
        match &tokens[pos].kind {
            TokenKind::Punct(p) => *p == c,
            _ => false,
        }
    } else {
        false
    }
}

/// Whether the token at `pos` closes the delimiter `d`.
pub fn is_close(tokens: &Vec<Token>, pos: usize, d: Delimiter) -> (r: bool)
    ensures
        r == spec_is_close(token_views(tokens@), pos as int, d),
{
    if pos < tokens.len() {
        match &tokens[pos].kind {
            TokenKind::Close(e) => *e == d,
            _ => false,
        }
    } else {
        false
    }
}

/// Whether the token at `pos` is a name.
pub fn is_ident(tokens: &Vec<Token>, pos: usize) -> (r: bool)
    ensures
        r == spec_is_ident(token_views(tokens@), pos as int),
{
    if pos < tokens.len() {
        match &tokens[pos].kind {
            TokenKind::Ident(_) => true,
            _ => false,
        }
    } else {
        false
    }
}

/// Whether the token at `pos` is the name `word`.
pub fn is_word(tokens: &Vec<Token>, pos: usize, word: &str) -> (r: bool)
    ensures
        r == spec_is_word(token_views(tokens@), pos as int, word@),
{
    if pos < tokens.len() {
        match &tokens[pos].kind {
            TokenKind::Ident(name) => same_text(name.as_str(), word),
            _ => false,
        }
    } else {
        false
    }
}

/// Whether the token at `pos` is a string literal.
pub fn is_str(tokens: &Vec<Token>, pos: usize) -> (r: bool)
    ensures
        r == spec_is_str(token_views(tokens@), pos as int),
{
    if pos < tokens.len() {
        match &tokens[pos].kind {
            TokenKind::Str(_) => true,
            _ => false,
        }
    } else {
        false
    }
}

/// The string literal at `pos`.
pub fn str_at(tokens: &Vec<Token>, pos: usize) -> (r: StringLit)
    requires
        spec_is_str(token_views(tokens@), pos as int),
    ensures
        r@ == spec_str_at(token_views(tokens@), pos as int),
{
    match &tokens[pos].kind {
        TokenKind::Str(value) => StringLit::new(value.as_str(), tokens[pos].span),
        _ => StringLit::new("", tokens[pos].span),
    }
}

/// The name at `pos`.
pub fn ident_at(tokens: &Vec<Token>, pos: usize) -> (r: Ident)
    requires
        spec_is_ident(token_views(tokens@), pos as int),
    ensures
        r@ == spec_ident_at(token_views(tokens@), pos as int),
{
    match &tokens[pos].kind {
        TokenKind::Ident(name) => Ident::new(name.as_str(), tokens[pos].span),
        _ => Ident::new("", tokens[pos].span),
    }
}

/// Steps over the comma behind a field or element, or stays at the closing
/// delimiter.
pub fn after_item(tokens: &Vec<Token>, pos: usize, d: Delimiter) -> (r: Result<
    usize,
    GrammarError,
>)
    ensures
        match (r, spec_after_item(token_views(tokens@), pos as int, d)) {
            (Ok(q), Ok(sq)) => q as int == sq && q <= tokens.len(),
            (Err(e), Err(se)) => e == se,
            _ => false,
        },
{
    if is_close(tokens, pos, d) {
        Ok(pos)
    } else if is_punct(tokens, pos, ',') {
        assert(token_views(tokens@).len() == tokens.len());
        Ok(pos + 1)
    } else {
        Err(GrammarError { kind: GrammarErrorKind::ExpectedComma, span: span_at(tokens, pos) })
    }
}

/// Steps over the comma behind a field or option, or stays at the end of the
/// input.
pub fn after_last(tokens: &Vec<Token>, pos: usize) -> (r: Result<usize, GrammarError>)
    ensures
        match (r, spec_after_last(token_views(tokens@), pos as int)) {
            (Ok(q), Ok(sq)) => q as int == sq && pos <= q && (pos <= tokens.len() ==> q
                <= tokens.len()),
            (Err(e), Err(se)) => e == se,
            _ => false,
        },
{
    assert(token_views(tokens@).len() == tokens.len());
    if pos >= tokens.len() {
        Ok(pos)
    } else if is_punct(tokens, pos, ',') {
        Ok(pos + 1)
    } else {
        Err(GrammarError { kind: GrammarErrorKind::ExpectedComma, span: span_at(tokens, pos) })
    }
}

} // verus!
