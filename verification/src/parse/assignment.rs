//! An assignment: a name, `=`, and a string literal.

use vstd::prelude::*;
use crate::error::{GrammarError, GrammarErrorKind};
use crate::literal::{Ident, IdentView, StringLit, StringLitView};
use crate::location::SourceLocation;
use crate::parse::Parse;
use crate::parse::spanned::Spanned;
use crate::token::{
    ident_at, is_ident, is_punct, is_str, span_at, spec_ident_at, spec_is_ident, spec_is_punct,
    spec_is_str, spec_span_at, spec_str_at, str_at, token_views, Token, TokenView,
};

verus! {

/// `name = "value"`, with the location of the whole.
#[derive(Debug)]
pub struct Assignment {
    span: SourceLocation,
    ident: Ident,
    value: StringLit,
}

/// The mathematical content of an [`Assignment`].
pub ghost struct AssignmentView {
    pub span: SourceLocation,
    pub ident: IdentView,
    pub value: StringLitView,
}

impl View for Assignment {
    type V = AssignmentView;

    closed spec fn view(&self) -> AssignmentView {
        AssignmentView { span: self.span, ident: self.ident@, value: self.value@ }
    }
}

/// An assignment at `pos`: three tokens, checked from left to right.
pub open spec fn spec_assignment(tokens: Seq<TokenView>, pos: int) -> Result<
    (AssignmentView, int),
    GrammarError,
> {
    if !spec_is_ident(tokens, pos) {
        Err(
            GrammarError {
                kind: GrammarErrorKind::ExpectedIdentifier,
                span: spec_span_at(tokens, pos),
            },
        )
    } else if !spec_is_punct(tokens, pos + 1, '=') {
        Err(
            GrammarError {
                kind: GrammarErrorKind::ExpectedEquals,
                span: spec_span_at(tokens, pos + 1),
            },
        )
    } else if !spec_is_str(tokens, pos + 2) {
        Err(
            GrammarError {
                kind: GrammarErrorKind::ExpectedStringLiteral,
                span: spec_span_at(tokens, pos + 2),
            },
        )
    } else {
        Ok(
            (
                AssignmentView {
                    span: tokens[pos].span.spec_join(tokens[pos + 2].span),
                    ident: spec_ident_at(tokens, pos),
                    value: spec_str_at(tokens, pos + 2),
                },
                pos + 3,
            ),
        )
    }
}

impl Parse for Assignment {
    open spec fn spec_parse(tokens: Seq<TokenView>, pos: int) -> Result<(AssignmentView, int), GrammarError> {
        spec_assignment(tokens, pos)
    }

    fn parse(tokens: &Vec<Token>, pos: usize) -> (r: Result<(Assignment, usize), GrammarError>)
    {
        assert(token_views(tokens@).len() == tokens.len());
        if !is_ident(tokens, pos) {
            return Err(
                GrammarError {
                    kind: GrammarErrorKind::ExpectedIdentifier,
                    span: span_at(tokens, pos),
                },
            );
        }
        if !is_punct(tokens, pos + 1, '=') {
            return Err(
                GrammarError {
                    kind: GrammarErrorKind::ExpectedEquals,
                    span: span_at(tokens, pos + 1),
                },
            );
        }
        if !is_str(tokens, pos + 2) {
            return Err(
                GrammarError {
                    kind: GrammarErrorKind::ExpectedStringLiteral,
                    span: span_at(tokens, pos + 2),
                },
            );
        }
        let ident = ident_at(tokens, pos);
        let value = str_at(tokens, pos + 2);
        let span = ident.span().join(value.span());
        Ok((Assignment { span, ident, value }, pos + 3))
    }
}

impl Assignment {
    pub fn ident(&self) -> (r: &Ident)
        ensures
            r@ == self@.ident,
    {
        &self.ident
    }

    pub fn into_value(self) -> (r: StringLit)
        ensures
            r@ == self@.value,
    {
        self.value
    }
}

impl Spanned for Assignment {
    open spec fn spec_span(&self) -> SourceLocation {
        self@.span
    }

    fn span(&self) -> (r: SourceLocation) {
        self.span
    }
}

} // verus!
