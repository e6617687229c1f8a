//! From text to tokens.

use vstd::prelude::*;
use vstd::string::*;
use crate::error::{GrammarError, GrammarErrorKind};
use crate::location::SourceLocation;
use crate::text::{ascii_alphanumeric, is_ascii_alphanumeric, to_chars};
use crate::token::{token_views, Delimiter, Token, TokenKind, TokenKindView, TokenView};

verus! {

/// The text that a string literal stands for, given the literal as it is
/// written, quotes included; `None` where the text between the quotes is not
/// well-formed.
pub uninterp spec fn string_literal_value(text: Seq<char>) -> Option<Seq<char>>;

/// Hands the literal to `syn::parse_str::<syn::LitStr>` and takes the parsed
/// literal's `value()`. The contract claims only that the outcome depends on
/// the literal's text alone.
#[verifier::external_body]
fn literal_value(text: &str) -> (r: Option<String>)
    ensures
        match (r, string_literal_value(text@)) {
            (Some(v), Some(sv)) => v@ == sv,
            (None, None) => true,
            _ => false,
        },
{
    match syn::parse_str::<syn::LitStr>(text) {
        Ok(literal) => Some(literal.value()),
        Err(_) => None,
    }
}

/// The characters that separate tokens.
pub open spec fn is_space(c: char) -> bool {
    c == ' ' || c == '\t' || c == '\n' || c == '\r' || c == '\u{b}' || c == '\u{c}' || c
        == '\u{85}' || c == '\u{200e}' || c == '\u{200f}' || c == '\u{2028}' || c == '\u{2029}'
}

/// The characters that names and numbers are made of.
pub open spec fn is_word_part(c: char) -> bool {
    c == '_' || is_ascii_alphanumeric(c)
}

/// The characters a number starts with.
pub open spec fn is_digit(c: char) -> bool {
    '0' <= c && c <= '9'
}

/// Where the run of word characters that holds `pos` ends.
pub open spec fn spec_word_end(src: Seq<char>, pos: int) -> int
    decreases src.len() - pos,
{
    if 0 <= pos < src.len() && is_word_part(src[pos]) {
        spec_word_end(src, pos + 1)
    } else {
        pos
    }
}

/// Where the string literal whose content starts at `pos` ends: just behind
/// the first quote that no backslash escapes. `None` where there is none.
pub open spec fn spec_string_end(src: Seq<char>, pos: int) -> Option<int>
    decreases src.len() - pos,
{
    if !(0 <= pos < src.len()) {
        None
    } else if src[pos] == '"' {
        Some(pos + 1)
    } else if src[pos] == '\\' {
        if pos + 1 < src.len() {
            spec_string_end(src, pos + 2)
        } else {
            None
        }
    } else {
        spec_string_end(src, pos + 1)
    }
}

/// Where the run of `#` that starts at `pos` ends.
pub open spec fn spec_hashes_end(src: Seq<char>, pos: int) -> int
    decreases src.len() - pos,
{
    if 0 <= pos < src.len() && src[pos] == '#' {
        spec_hashes_end(src, pos + 1)
    } else {
        pos
    }
}

/// Whether `count` characters `#` stand at `pos`.
pub open spec fn spec_hashes_at(src: Seq<char>, pos: int, count: int) -> bool {
    pos + count <= src.len() && forall|k: int| pos <= k < pos + count ==> src[k] == '#'
}

/// Whether a raw string literal starts at `pos`: an `r`, any number of `#`,
/// and a double quote.
pub open spec fn spec_is_raw_start(src: Seq<char>, pos: int) -> bool {
    &&& 0 <= pos < src.len()
    &&& src[pos] == 'r'
    &&& spec_hashes_end(src, pos + 1) < src.len()
    &&& src[spec_hashes_end(src, pos + 1)] == '"'
}

/// Where the raw string literal ends whose content starts at `pos` and that
/// was opened with `count` characters `#`: just behind the first quote that
/// as many `#` follow. `None` where there is none.
pub open spec fn spec_raw_end(src: Seq<char>, pos: int, count: int) -> Option<int>
    decreases src.len() - pos,
{
    if !(0 <= pos < src.len()) {
        None
    } else if src[pos] == '"' && spec_hashes_at(src, pos + 1, count) {
        Some(pos + 1 + count)
    } else {
        spec_raw_end(src, pos + 1, count)
    }
}

/// The location from `start` to `end`.
pub open spec fn spec_location(start: int, end: int) -> SourceLocation {
    SourceLocation { start: start as usize, end: end as usize }
}

/// The token that a single character makes: a delimiter, or punctuation.
pub open spec fn spec_symbol(c: char) -> TokenKindView {
    if c == '(' {
        TokenKindView::Open(Delimiter::Parenthesis)
    } else if c == ')' {
        TokenKindView::Close(Delimiter::Parenthesis)
    } else if c == '{' {
        TokenKindView::Open(Delimiter::Brace)
    } else if c == '}' {
        TokenKindView::Close(Delimiter::Brace)
    } else if c == '[' {
        TokenKindView::Open(Delimiter::Bracket)
    } else if c == ']' {
        TokenKindView::Close(Delimiter::Bracket)
    } else {
        TokenKindView::Punct(c)
    }
}

/// The tokens `first` followed by those of `rest`, or the error of `rest`.
pub open spec fn spec_then(first: Seq<TokenView>, rest: Result<Seq<TokenView>, GrammarError>)
    -> Result<Seq<TokenView>, GrammarError> {
    match rest {
        Ok(tokens) => Ok(first + tokens),
        Err(e) => Err(e),
    }
}

/// A word ends at or behind where it is looked for, within the text.
pub proof fn lemma_word_end(src: Seq<char>, pos: int)
    requires
        0 <= pos <= src.len(),
    ensures
        pos <= spec_word_end(src, pos) <= src.len(),
    decreases src.len() - pos,
{
    if pos < src.len() && is_word_part(src[pos]) {
        lemma_word_end(src, pos + 1);
    }
}

/// A string literal ends behind where its content starts, within the text.
pub proof fn lemma_string_end(src: Seq<char>, pos: int)
    requires
        0 <= pos <= src.len(),
    ensures
        spec_string_end(src, pos) matches Some(end) ==> pos < end <= src.len(),
    decreases src.len() - pos,
{
    if pos < src.len() {
        if src[pos] == '"' {
        } else if src[pos] == '\\' {
            if pos + 1 < src.len() {
                lemma_string_end(src, pos + 2);
            }
        } else {
            lemma_string_end(src, pos + 1);
        }
    }
}

/// A run of `#` ends at or behind where it starts, within the text.
pub proof fn lemma_hashes_end(src: Seq<char>, pos: int)
    requires
        0 <= pos <= src.len(),
    ensures
        pos <= spec_hashes_end(src, pos) <= src.len(),
    decreases src.len() - pos,
{
    if pos < src.len() && src[pos] == '#' {
        lemma_hashes_end(src, pos + 1);
    }
}

/// A raw string literal ends behind where its content starts, within the
/// text.
pub proof fn lemma_raw_end(src: Seq<char>, pos: int, count: int)
    requires
        0 <= pos <= src.len(),
        0 <= count,
    ensures
        spec_raw_end(src, pos, count) matches Some(end) ==> pos < end <= src.len(),
    decreases src.len() - pos,
{
    if pos < src.len() && !(src[pos] == '"' && spec_hashes_at(src, pos + 1, count)) {
        lemma_raw_end(src, pos + 1, count);
    }
}

/// The token that the string literal from `pos` to `end` makes, followed by
/// the tokens behind it; an error where the literal is not well-formed.
pub open spec fn spec_literal_then(
    src: Seq<char>,
    pos: int,
    end: int,
    rest: Result<Seq<TokenView>, GrammarError>,
) -> Result<Seq<TokenView>, GrammarError> {
    match string_literal_value(src.subrange(pos, end)) {
        None => Err(
            GrammarError { kind: GrammarErrorKind::InvalidString, span: spec_location(pos, end) },
        ),
        Some(value) => spec_then(
            seq![TokenView { kind: TokenKindView::Str(value), span: spec_location(pos, end) }],
            rest,
        ),
    }
}

/// The tokens of the text from `pos` on. Positions count characters. White
/// space separates tokens; a double quote opens a string literal, and so
/// does an `r` before a quote or before `#` and a quote; a letter or
/// underscore opens a name, a digit a number; any other character is a token
/// of its own.
pub open spec fn spec_lex(src: Seq<char>, pos: int) -> Result<Seq<TokenView>, GrammarError>
    decreases src.len() - pos,
{
    if !(0 <= pos < src.len()) {
        Ok(Seq::empty())
    } else if is_space(src[pos]) {
        spec_lex(src, pos + 1)
    } else if src[pos] == '"' {
        match spec_string_end(src, pos + 1) {
            None => Err(
                GrammarError {
                    kind: GrammarErrorKind::UnterminatedString,
                    span: spec_location(pos, src.len() as int),
                },
            ),
            Some(end) => {
                proof {
                    lemma_string_end(src, pos + 1);
                }
                spec_literal_then(src, pos, end, spec_lex(src, end))
            },
        }
    } else if spec_is_raw_start(src, pos) {
        let quote = spec_hashes_end(src, pos + 1);
        proof {
            lemma_hashes_end(src, pos + 1);
        }
        match spec_raw_end(src, quote + 1, quote - (pos + 1)) {
            None => Err(
                GrammarError {
                    kind: GrammarErrorKind::UnterminatedString,
                    span: spec_location(pos, src.len() as int),
                },
            ),
            Some(end) => {
                proof {
                    lemma_raw_end(src, quote + 1, quote - (pos + 1));
                }
                spec_literal_then(src, pos, end, spec_lex(src, end))
            },
        }
    } else if is_word_part(src[pos]) {
        let end = spec_word_end(src, pos + 1);
        proof {
            lemma_word_end(src, pos + 1);
        }
        spec_then(
            seq![
                TokenView {
                    kind: if is_digit(src[pos]) {
                        TokenKindView::Literal
                    } else {
                        TokenKindView::Ident(src.subrange(pos, end))
                    },
                    span: spec_location(pos, end),
                },
            ],
            spec_lex(src, end),
        )
    } else {
        spec_then(
            seq![TokenView { kind: spec_symbol(src[pos]), span: spec_location(pos, pos + 1) }],
            spec_lex(src, pos + 1),
        )
    }
}

/// Whether an executable result is the one the lexer's rules prescribe.
pub open spec fn lexed(r: Result<Vec<Token>, GrammarError>, s: Result<Seq<TokenView>, GrammarError>)
    -> bool {
    match (r, s) {
        (Ok(tokens), Ok(views)) => token_views(tokens@) == views,
        (Err(e), Err(se)) => e == se,
        _ => false,
    }
}

fn space(c: char) -> (r: bool)
    ensures
        r == is_space(c),
{
    c == ' ' || c == '\t' || c == '\n' || c == '\r' || c == '\u{b}' || c == '\u{c}' || c
        == '\u{85}' || c == '\u{200e}' || c == '\u{200f}' || c == '\u{2028}' || c == '\u{2029}'
}

fn word_part(c: char) -> (r: bool)
    ensures
        r == is_word_part(c),
{
    c == '_' || ascii_alphanumeric(c)
}

fn symbol(c: char) -> (r: TokenKind)
    ensures
        r@ == spec_symbol(c),
{
    if c == '(' {
        TokenKind::Open(Delimiter::Parenthesis)
    } else if c == ')' {
        TokenKind::Close(Delimiter::Parenthesis)
    } else if c == '{' {
        TokenKind::Open(Delimiter::Brace)
    } else if c == '}' {
        TokenKind::Close(Delimiter::Brace)
    } else if c == '[' {
        TokenKind::Open(Delimiter::Bracket)
    } else if c == ']' {
        TokenKind::Close(Delimiter::Bracket)
    } else {
        TokenKind::Punct(c)
    }
}

fn word_end(chars: &Vec<char>, start: usize) -> (r: usize)
    requires
        start <= chars.len(),
    ensures
        r as int == spec_word_end(chars@, start as int),
        start <= r <= chars.len(),
{
    let mut pos = start;
    while pos < chars.len() && word_part(chars[pos])
        invariant
            start <= pos <= chars.len(),
            spec_word_end(chars@, start as int) == spec_word_end(chars@, pos as int),
        decreases chars.len() - pos,
    {
        pos += 1;
    }
    pos
}

fn string_end(chars: &Vec<char>, start: usize) -> (r: Option<usize>)
    requires
        start <= chars.len(),
    ensures
        match (r, spec_string_end(chars@, start as int)) {
            (Some(end), Some(spec_end)) => end as int == spec_end && start < end <= chars.len(),
            (None, None) => true,
            _ => false,
        },
{
    let mut pos = start;
    while pos < chars.len()
        invariant
            start <= pos <= chars.len(),
            spec_string_end(chars@, start as int) == spec_string_end(chars@, pos as int),
        decreases chars.len() - pos,
    {
        let c = chars[pos];
        if c == '"' {
            return Some(pos + 1);
        } else if c == '\\' {
            if pos + 1 < chars.len() {
                pos += 2;
            } else {
                return None;
            }
        } else {
            pos += 1;
        }
    }
    None
}

fn hashes_end(chars: &Vec<char>, start: usize) -> (r: usize)
    requires
        start <= chars.len(),
    ensures
        r as int == spec_hashes_end(chars@, start as int),
        start <= r <= chars.len(),
{
    let mut pos = start;
    while pos < chars.len() && chars[pos] == '#'
        invariant
            start <= pos <= chars.len(),
            spec_hashes_end(chars@, start as int) == spec_hashes_end(chars@, pos as int),
        decreases chars.len() - pos,
    {
        pos += 1;
    }
    pos
}

fn hashes_at(chars: &Vec<char>, start: usize, count: usize) -> (r: bool)
    requires
        start <= chars.len(),
    ensures
        r == spec_hashes_at(chars@, start as int, count as int),
{
    if count > chars.len() - start {
        return false;
    }
    let mut k: usize = 0;
    while k < count
        invariant
            k <= count,
            start + count <= chars.len(),
            forall|j: int| start <= j < start + k ==> chars@[j] == '#',
        decreases count - k,
    {
        if chars[start + k] != '#' {
            return false;
        }
        k += 1;
    }
    true
}

fn raw_end(chars: &Vec<char>, start: usize, count: usize) -> (r: Option<usize>)
    requires
        start <= chars.len(),
    ensures
        match (r, spec_raw_end(chars@, start as int, count as int)) {
            (Some(end), Some(spec_end)) => end as int == spec_end && start < end <= chars.len(),
            (None, None) => true,
            _ => false,
        },
{
    let mut pos = start;
    while pos < chars.len()
        invariant
            start <= pos <= chars.len(),
            spec_raw_end(chars@, start as int, count as int) == spec_raw_end(
                chars@,
                pos as int,
                count as int,
            ),
        decreases chars.len() - pos,
    {
        if chars[pos] == '"' && hashes_at(chars, pos + 1, count) {
            return Some(pos + 1 + count);
        }
        pos += 1;
    }
    None
}

/// Whether a raw string literal starts at `pos`, and where its quote stands.
fn raw_start(chars: &Vec<char>, pos: usize) -> (r: Option<usize>)
    requires
        pos < chars.len(),
    ensures
        r is Some <==> spec_is_raw_start(chars@, pos as int),
        r matches Some(quote) ==> quote as int == spec_hashes_end(chars@, pos + 1) && pos < quote
            < chars.len(),
{
    if chars[pos] != 'r' {
        return None;
    }
    let quote = hashes_end(chars, pos + 1);
    if quote < chars.len() && chars[quote] == '"' {
        Some(quote)
    } else {
        None
    }
}

/// Splits a text into tokens.
pub fn lex(src: &str) -> (r: Result<Vec<Token>, GrammarError>)
    ensures
        lexed(r, spec_lex(src@, 0)),
{
    let chars = to_chars(src);
    let ghost text = src@;
    let mut tokens: Vec<Token> = Vec::new();
    let mut pos: usize = 0;
    assert(token_views(tokens@) =~= Seq::empty());
    proof {
        match spec_lex(text, 0) {
            Ok(rest) => {
                assert(Seq::<TokenView>::empty() + rest =~= rest);
            },
            Err(_) => {},
        }
    }
    while pos < chars.len()
        invariant
            pos <= chars.len(),
            chars@ == text,
            text == src@,
            spec_lex(text, 0) == spec_then(token_views(tokens@), spec_lex(text, pos as int)),
        decreases chars.len() - pos,
    {
        let c = chars[pos];
        let ghost before = token_views(tokens@);
        let token;
        let next;
        if space(c) {
            pos += 1;
            continue ;
        } else if c == '"' || raw_start(&chars, pos).is_some() {
            let closing = if c == '"' {
                string_end(&chars, pos + 1)
            } else {
                let quote = raw_start(&chars, pos).unwrap();
                raw_end(&chars, quote + 1, quote - (pos + 1))
            };
            match closing {
                None => {
                    return Err(
                        GrammarError {
                            kind: GrammarErrorKind::UnterminatedString,
                            span: SourceLocation { start: pos, end: chars.len() },
                        },
                    );
                },
                Some(end) => {
                    let span = SourceLocation { start: pos, end };
                    match literal_value(src.substring_char(pos, end)) {
                        None => {
                            return Err(
                                GrammarError { kind: GrammarErrorKind::InvalidString, span },
                            );
                        },
                        Some(value) => {
                            token = Token { kind: TokenKind::Str(value), span };
                            next = end;
                        },
                    }
                },
            }
        } else if word_part(c) {
            let end = word_end(&chars, pos + 1);
            let span = SourceLocation { start: pos, end };
            if '0' <= c && c <= '9' {
                token = Token { kind: TokenKind::Literal, span };
            } else {
                token = Token::ident(src.substring_char(pos, end), span);
            }
            next = end;
        } else {
            token = Token { kind: symbol(c), span: SourceLocation { start: pos, end: pos + 1 } };
            next = pos + 1;
        }
        proof {
            assert(spec_lex(text, pos as int) == spec_then(seq![token@], spec_lex(text, next as int)));
            match spec_lex(text, next as int) {
                Ok(rest) => {
                    assert(before + (seq![token@] + rest) =~= before.push(token@) + rest);
                },
                Err(_) => {},
            }
        }
        tokens.push(token);
        assert(token_views(tokens@) =~= before.push(token@));
        pos = next;
    }
    proof {
        assert(token_views(tokens@) + Seq::<TokenView>::empty() =~= token_views(tokens@));
    }
    Ok(tokens)
}

} // verus!
