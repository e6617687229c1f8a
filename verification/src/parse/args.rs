//! The arguments of the declaration: the include patterns, then options.

use vstd::prelude::*;
use crate::error::{GrammarError, GrammarErrorKind};
use crate::parse::ignore_config::{IgnoreConfig, IgnoreConfigView};
use crate::parse::option_assignment::{
    lemma_option_advance, spec_option, OptionAssignment, OptionAssignmentView,
};
use crate::parse::paths::{spec_include, Paths, PathsView};
use crate::parse::spanned::Spanned;
use crate::parse::Parse;
use crate::token::{
    after_last, is_ident, is_punct, span_at, spec_after_last, spec_is_ident, spec_is_punct,
    spec_span_at, token_views, Token, TokenView,
};

verus! {

/// The arguments of the declaration.
#[derive(Debug)]
pub struct Args {
    includes: Paths,
    ignore: Option<IgnoreConfig>,
}

/// The mathematical content of an [`Args`].
pub ghost struct ArgsView {
    pub includes: PathsView,
    pub ignore: Option<IgnoreConfigView>,
}

/// The view of an optional configuration: absent, or present with its
/// content. A present configuration without paths is not an absent one.
pub open spec fn config_option_view(o: Option<IgnoreConfig>) -> Option<IgnoreConfigView> {
    match o {
        Some(c) => Some(c@),
        None => None,
    }
}

impl View for Args {
    type V = ArgsView;

    closed spec fn view(&self) -> ArgsView {
        ArgsView { includes: self.includes@, ignore: config_option_view(self.ignore) }
    }
}

/// The options from `pos` to the end of the input, separated by commas.
/// `ignore` is the configuration read before `pos`; a second one is an error.
/// Where no name stands, only a comma can.
pub open spec fn spec_options(
    tokens: Seq<TokenView>,
    pos: int,
    ignore: Option<IgnoreConfigView>,
) -> Result<Option<IgnoreConfigView>, GrammarError>
    decreases tokens.len() - pos,
{
    if pos >= tokens.len() {
        Ok(ignore)
    } else if spec_is_ident(tokens, pos) {
        match spec_option(tokens, pos) {
            Err(e) => Err(e),
            Ok((OptionAssignmentView::Ignore(a), next)) => {
                proof {
                    lemma_option_advance(tokens, pos);
                }
                if ignore is Some {
                    Err(GrammarError { kind: GrammarErrorKind::DuplicateIgnore, span: a.span })
                } else {
                    match spec_after_last(tokens, next) {
                        Ok(q) => spec_options(tokens, q, Some(a.config)),
                        Err(e) => Err(e),
                    }
                }
            },
        }
    } else if spec_is_punct(tokens, pos, ',') {
        spec_options(tokens, pos + 1, ignore)
    } else {
        Err(GrammarError { kind: GrammarErrorKind::ExpectedComma, span: spec_span_at(tokens, pos) })
    }
}

/// The arguments at `pos`: the include patterns, a comma or none, and the
/// options up to the end of the input.
pub open spec fn spec_args(tokens: Seq<TokenView>, pos: int) -> Result<
    (ArgsView, int),
    GrammarError,
> {
    match spec_include(tokens, pos) {
        Err(e) => Err(e),
        Ok((includes, next)) => {
            let start = if spec_is_punct(tokens, next, ',') {
                next + 1
            } else {
                next
            };
            match spec_options(tokens, start, None) {
                Err(e) => Err(e),
                Ok(ignore) => Ok((ArgsView { includes, ignore }, tokens.len() as int)),
            }
        },
    }
}

impl Parse for Args {
    open spec fn spec_parse(tokens: Seq<TokenView>, pos: int) -> Result<
        (ArgsView, int),
        GrammarError,
    > {
        spec_args(tokens, pos)
    }

    fn parse(tokens: &Vec<Token>, pos: usize) -> (r: Result<(Args, usize), GrammarError>) {
        let ghost tv = token_views(tokens@);
        assert(tv.len() == tokens.len());
        let (includes, next) = Paths::parse(tokens, pos)?;
        let start = if is_punct(tokens, next, ',') {
            next + 1
        } else {
            next
        };
        let mut ignore: Option<IgnoreConfig> = None;
        let mut at = start;
        while at < tokens.len()
            invariant
                pos < at <= tokens.len(),
                tv == token_views(tokens@),
                tv.len() == tokens.len(),
                spec_include(tv, pos as int) == Ok::<(PathsView, int), GrammarError>(
                    (includes@, next as int),
                ),
                start as int == if spec_is_punct(tv, next as int, ',') {
                    next + 1
                } else {
                    next as int
                },
                spec_options(tv, start as int, None) == spec_options(
                    tv,
                    at as int,
                    config_option_view(ignore),
                ),
            decreases tokens.len() - at,
        {
            if is_ident(tokens, at) {
                let (option, behind) = OptionAssignment::parse(tokens, at)?;
                match option {
                    OptionAssignment::Ignore(assignment) => {
                        if ignore.is_some() {
                            return Err(
                                GrammarError {
                                    kind: GrammarErrorKind::DuplicateIgnore,
                                    span: assignment.span(),
                                },
                            );
                        }
                        ignore = Some(assignment.into_ignore_config());
                    },
                }
                at = after_last(tokens, behind)?;
            } else if is_punct(tokens, at, ',') {
                at = at + 1;
            } else {
                return Err(
                    GrammarError {
                        kind: GrammarErrorKind::ExpectedComma,
                        span: span_at(tokens, at),
                    },
                );
            }
        }
        Ok((Args { includes, ignore }, at))
    }
}

impl Args {
    pub fn includes(&self) -> (r: &Paths)
        ensures
            r@ == self@.includes,
    {
        &self.includes
    }

    pub fn ignore(&self) -> (r: &Option<IgnoreConfig>)
        ensures
            config_option_view(*r) == self@.ignore,
    {
        &self.ignore
    }
}

} // verus!
