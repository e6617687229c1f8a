//! Options behind the include patterns: `ignore = <configuration>`.

use vstd::prelude::*;
use crate::error::{GrammarError, GrammarErrorKind};
use crate::literal::{Ident, IdentView};
use crate::location::SourceLocation;
use crate::parse::ignore_config::{
    lemma_config_advance, spec_config, IgnoreConfig, IgnoreConfigView,
};
use crate::parse::spanned::Spanned;
use crate::parse::Parse;
use crate::text::same_text;
use crate::token::{
    agrees, ident_at, is_ident, is_punct, span_at, spec_ident_at, spec_is_ident, spec_is_punct,
    spec_span_at, token_views, Token, TokenView,
};

verus! {

/// An option of the declaration.
#[derive(Debug)]
pub enum OptionAssignment {
    Ignore(IgnoreOptionAssignment),
}

/// The `ignore` option: its configuration and the location of the whole
/// assignment.
#[derive(Debug)]
pub struct IgnoreOptionAssignment {
    span: SourceLocation,
    config: IgnoreConfig,
}

/// The mathematical content of an [`IgnoreOptionAssignment`].
pub ghost struct IgnoreOptionAssignmentView {
    pub span: SourceLocation,
    pub config: IgnoreConfigView,
}

/// The mathematical content of an [`OptionAssignment`].
pub ghost enum OptionAssignmentView {
    Ignore(IgnoreOptionAssignmentView),
}

impl View for IgnoreOptionAssignment {
    type V = IgnoreOptionAssignmentView;

    closed spec fn view(&self) -> IgnoreOptionAssignmentView {
        IgnoreOptionAssignmentView { span: self.span, config: self.config@ }
    }
}

impl View for OptionAssignment {
    type V = OptionAssignmentView;

    open spec fn view(&self) -> OptionAssignmentView {
        match self {
            OptionAssignment::Ignore(a) => OptionAssignmentView::Ignore(a@),
        }
    }
}

/// What follows the name `ignore` at `pos - 1`: `=` and a configuration. The
/// assignment reaches from the name to the end of the configuration.
pub open spec fn spec_ignore_option(tokens: Seq<TokenView>, pos: int, ident: IdentView) -> Result<
    (IgnoreOptionAssignmentView, int),
    GrammarError,
> {
    if !spec_is_punct(tokens, pos, '=') {
        Err(
            GrammarError {
                kind: GrammarErrorKind::ExpectedEquals,
                span: spec_span_at(tokens, pos),
            },
        )
    } else {
        match spec_config(tokens, pos + 1) {
            Err(e) => Err(e),
            Ok((config, next)) => Ok(
                (
                    IgnoreOptionAssignmentView {
                        span: ident.span.spec_join(config.span),
                        config,
                    },
                    next,
                ),
            ),
        }
    }
}

/// An option at `pos`: the name of the option, which can only be `ignore`,
/// and its assignment.
pub open spec fn spec_option(tokens: Seq<TokenView>, pos: int) -> Result<
    (OptionAssignmentView, int),
    GrammarError,
> {
    if !spec_is_ident(tokens, pos) {
        Err(
            GrammarError {
                kind: GrammarErrorKind::ExpectedOption,
                span: spec_span_at(tokens, pos),
            },
        )
    } else if tokens[pos].kind->Ident_0 != "ignore"@ {
        Err(GrammarError { kind: GrammarErrorKind::InvalidOption, span: tokens[pos].span })
    } else {
        match spec_ignore_option(tokens, pos + 1, spec_ident_at(tokens, pos)) {
            Err(e) => Err(e),
            Ok((a, next)) => Ok((OptionAssignmentView::Ignore(a), next)),
        }
    }
}

/// An option that parses ends behind at least one token, within the input.
pub proof fn lemma_option_advance(tokens: Seq<TokenView>, pos: int)
    ensures
        spec_option(tokens, pos) matches Ok((_, next)) ==> pos < next <= tokens.len(),
{
    lemma_config_advance(tokens, pos + 2);
}

impl Parse for OptionAssignment {
    open spec fn spec_parse(tokens: Seq<TokenView>, pos: int) -> Result<
        (OptionAssignmentView, int),
        GrammarError,
    > {
        spec_option(tokens, pos)
    }

    fn parse(tokens: &Vec<Token>, pos: usize) -> (r: Result<
        (OptionAssignment, usize),
        GrammarError,
    >) {
        proof {
            lemma_option_advance(token_views(tokens@), pos as int);
        }
        assert(token_views(tokens@).len() == tokens.len());
        if !is_ident(tokens, pos) {
            return Err(
                GrammarError { kind: GrammarErrorKind::ExpectedOption, span: span_at(tokens, pos) },
            );
        }
        let ident = ident_at(tokens, pos);
        if same_text(ident.as_str(), "ignore") {
            let (assignment, next) = IgnoreOptionAssignment::parse_from_ident(
                tokens,
                pos + 1,
                ident,
            )?;
            Ok((OptionAssignment::Ignore(assignment), next))
        } else {
            Err(GrammarError { kind: GrammarErrorKind::InvalidOption, span: ident.span() })
        }
    }
}

impl IgnoreOptionAssignment {
    pub fn into_ignore_config(self) -> (r: IgnoreConfig)
        ensures
            r@ == self@.config,
    {
        self.config
    }

    fn parse_from_ident(tokens: &Vec<Token>, pos: usize, ident: Ident) -> (r: Result<
        (IgnoreOptionAssignment, usize),
        GrammarError,
    >)
        requires
            pos <= tokens.len(),
        ensures
            agrees(r, spec_ignore_option(token_views(tokens@), pos as int, ident@)),
    {
        assert(token_views(tokens@).len() == tokens.len());
        if !is_punct(tokens, pos, '=') {
            return Err(
                GrammarError { kind: GrammarErrorKind::ExpectedEquals, span: span_at(tokens, pos) },
            );
        }
        let (config, next) = IgnoreConfig::parse(tokens, pos + 1)?;
        let span = ident.span().join(config.span());
        Ok((IgnoreOptionAssignment { span, config }, next))
    }
}

impl Spanned for IgnoreOptionAssignment {
    open spec fn spec_span(&self) -> SourceLocation {
        self@.span
    }

    fn span(&self) -> (r: SourceLocation) {
        self.span
    }
}

} // verus!
