//! The include patterns: a list of string literals in square brackets.

use vstd::prelude::*;
use crate::error::{GrammarError, GrammarErrorKind};
use crate::literal::{StringLit, StringLitView};
use crate::location::SourceLocation;
use crate::parse::Parse;
use crate::token::{
    after_item, is_close, is_str, span_at, spec_after_item, spec_is_close, spec_is_str,
    spec_span_at, spec_str_at, str_at, token_views, Delimiter, Token, TokenKind, TokenKindView,
    TokenView,
};

verus! {

/// The include patterns, in the order they were written.
#[derive(Debug)]
pub struct Paths {
    span: SourceLocation,
    paths: Vec<StringLit>,
}

/// The mathematical content of a [`Paths`].
pub ghost struct PathsView {
    pub span: SourceLocation,
    pub paths: Seq<StringLitView>,
}

/// The views of a sequence of literals, in order.
pub open spec fn literal_views(literals: Seq<StringLit>) -> Seq<StringLitView> {
    literals.map_values(|l: StringLit| l@)
}

impl View for Paths {
    type V = PathsView;

    closed spec fn view(&self) -> PathsView {
        PathsView { span: self.span, paths: literal_views(self.paths@) }
    }
}

/// The elements of a list of string literals, from `pos` up to the closing
/// bracket: literals separated by commas, with or without one behind the
/// last. `acc` holds the literals read before `pos`.
pub open spec fn spec_literal_list(
    tokens: Seq<TokenView>,
    pos: int,
    open: SourceLocation,
    acc: Seq<StringLitView>,
) -> Result<(PathsView, int), GrammarError>
    decreases tokens.len() - pos,
{
    if spec_is_close(tokens, pos, Delimiter::Bracket) {
        Ok((PathsView { span: open.spec_join(tokens[pos].span), paths: acc }, pos + 1))
    } else if !spec_is_str(tokens, pos) {
        Err(
            GrammarError {
                kind: GrammarErrorKind::ExpectedStringLiteral,
                span: spec_span_at(tokens, pos),
            },
        )
    } else {
        match spec_after_item(tokens, pos + 1, Delimiter::Bracket) {
            Ok(next) => spec_literal_list(tokens, next, open, acc.push(spec_str_at(tokens, pos))),
            Err(e) => Err(e),
        }
    }
}

/// The include patterns at `pos`: an opening bracket and a list of string
/// literals.
pub open spec fn spec_include(tokens: Seq<TokenView>, pos: int) -> Result<
    (PathsView, int),
    GrammarError,
> {
    if 0 <= pos < tokens.len() && tokens[pos].kind == TokenKindView::Open(Delimiter::Bracket) {
        spec_literal_list(tokens, pos + 1, tokens[pos].span, Seq::empty())
    } else {
        Err(
            GrammarError {
                kind: GrammarErrorKind::ExpectedBracket,
                span: spec_span_at(tokens, pos),
            },
        )
    }
}

/// A list of literals that parses ends behind at least one token, within the
/// input.
pub proof fn lemma_literal_list_advance(
    tokens: Seq<TokenView>,
    pos: int,
    open: SourceLocation,
    acc: Seq<StringLitView>,
)
    requires
        0 <= pos,
    ensures
        spec_literal_list(tokens, pos, open, acc) matches Ok((_, next)) ==> pos < next
            <= tokens.len(),
    decreases tokens.len() - pos,
{
    if spec_is_close(tokens, pos, Delimiter::Bracket) {
    } else if spec_is_str(tokens, pos) {
        match spec_after_item(tokens, pos + 1, Delimiter::Bracket) {
            Ok(next) => {
                lemma_literal_list_advance(tokens, next, open, acc.push(spec_str_at(tokens, pos)));
            },
            Err(_) => {},
        }
    }
}

impl Parse for Paths {
    open spec fn spec_parse(tokens: Seq<TokenView>, pos: int) -> Result<(PathsView, int), GrammarError> {
        spec_include(tokens, pos)
    }

    fn parse(tokens: &Vec<Token>, pos: usize) -> (r: Result<(Paths, usize), GrammarError>)
    {
        let ghost tv = token_views(tokens@);
        if pos >= tokens.len() {
            return Err(
                GrammarError {
                    kind: GrammarErrorKind::ExpectedBracket,
                    span: span_at(tokens, pos),
                },
            );
        }
        let open = tokens[pos].span;
        match &tokens[pos].kind {
            TokenKind::Open(Delimiter::Bracket) => {},
            _ => {
                return Err(GrammarError { kind: GrammarErrorKind::ExpectedBracket, span: open });
            },
        }
        proof {
            lemma_literal_list_advance(tv, pos + 1, open, Seq::empty());
        }
        let mut paths: Vec<StringLit> = Vec::new();
        let mut at = pos + 1;
        assert(literal_views(paths@) =~= Seq::empty());
        while !is_close(tokens, at, Delimiter::Bracket)
            invariant
                at <= tokens.len(),
                tv == token_views(tokens@),
                spec_include(tv, pos as int) == spec_literal_list(tv, pos + 1, open, Seq::empty()),
                spec_literal_list(tv, pos + 1, open, Seq::empty()) == spec_literal_list(
                    tv,
                    at as int,
                    open,
                    literal_views(paths@),
                ),
            decreases tokens.len() - at,
        {
            if !is_str(tokens, at) {
                return Err(
                    GrammarError {
                        kind: GrammarErrorKind::ExpectedStringLiteral,
                        span: span_at(tokens, at),
                    },
                );
            }
            let literal = str_at(tokens, at);
            let ghost before = literal_views(paths@);
            paths.push(literal);
            assert(literal_views(paths@) =~= before.push(literal@));
            at = after_item(tokens, at + 1, Delimiter::Bracket)?;
        }
        Ok((Paths { span: open.join(tokens[at].span), paths }, at + 1))
    }
}

impl Paths {
    pub fn span(&self) -> (r: SourceLocation)
        ensures
            r == self@.span,
    {
        self.span
    }

    pub fn paths(&self) -> (r: &Vec<StringLit>)
        ensures
            literal_views(r@) == self@.paths,
    {
        &self.paths
    }
}

} // verus!
