//! The configuration grammar: one module per syntactic form.

use vstd::prelude::*;
use crate::error::{GrammarError, GrammarErrorKind};
use crate::lexer::{lex, spec_lex};
use crate::token::{agrees, span_at, spec_complete, token_views, Token, TokenView};

pub mod args;
pub mod assignment;
pub mod ignore_args;
pub mod ignore_attribute;
pub mod ignore_config;
pub mod option_assignment;
pub mod paths;
pub mod spanned;

verus! {

/// A syntactic form that can be read from tokens.
pub trait Parse: View + Sized {
    /// What the grammar prescribes at `pos`: the value and the position
    /// behind it, or the first error.
    spec fn spec_parse(tokens: Seq<TokenView>, pos: int) -> Result<(Self::V, int), GrammarError>;

    /// Reads the form at `pos`.
    fn parse(tokens: &Vec<Token>, pos: usize) -> (r: Result<(Self, usize), GrammarError>)
        ensures
            agrees(r, Self::spec_parse(token_views(tokens@), pos as int)),
            r matches Ok((_, next)) ==> pos < next <= tokens.len(),
    ;
}

/// Reads the form that the whole of `tokens` holds. Tokens left behind the
/// form are an error, reported at the first of them.
pub fn parse_tokens<T: Parse>(tokens: &Vec<Token>) -> (r: Result<T, GrammarError>)
    ensures
        match (r, spec_complete(token_views(tokens@), T::spec_parse(token_views(tokens@), 0))) {
            (Ok(v), Ok(sv)) => v@ == sv,
            (Err(e), Err(se)) => e == se,
            _ => false,
        },
{
    let (value, next) = T::parse(tokens, 0)?;
    assert(token_views(tokens@).len() == tokens.len());
    if next == tokens.len() {
        Ok(value)
    } else {
        Err(GrammarError { kind: GrammarErrorKind::UnexpectedToken, span: span_at(tokens, next) })
    }
}

/// The form that a text holds: its tokens have to be that form, whole.
pub open spec fn spec_parse_str<T: Parse>(text: Seq<char>) -> Result<T::V, GrammarError> {
    match spec_lex(text, 0) {
        Ok(tokens) => spec_complete(tokens, T::spec_parse(tokens, 0)),
        Err(e) => Err(e),
    }
}

/// Reads the form that a text holds.
pub fn parse_str<T: Parse>(text: &str) -> (r: Result<T, GrammarError>)
    ensures
        match (r, spec_parse_str::<T>(text@)) {
            (Ok(v), Ok(sv)) => v@ == sv,
            (Err(e), Err(se)) => e == se,
            _ => false,
        },
{
    let tokens = lex(text)?;
    parse_tokens::<T>(&tokens)
}

} // verus!
