//! The arguments of an ignore attribute on the annotated function: a string
//! literal, or the fields `paths` and `reason`.

use vstd::prelude::*;
use crate::error::{Field, GrammarError, GrammarErrorKind};
use crate::literal::{option_view, StringLit, StringLitView};
use crate::location::SourceLocation;
use crate::parse::assignment::{spec_assignment, Assignment};
use crate::parse::Parse;
use crate::text::same_text;
use crate::token::{
    after_last, is_ident, is_str, span_at, spec_after_last, spec_is_ident, spec_is_str,
    spec_span_at, spec_str_at, str_at, token_views, Token, TokenView,
};

verus! {

/// One supplemental ignore declaration: a glob pattern and, optionally, why
/// the files it matches are ignored.
#[derive(Debug)]
pub struct IgnoreArgs {
    pub paths: StringLit,
    pub reason: Option<StringLit>,
}

/// The mathematical content of an [`IgnoreArgs`].
pub ghost struct IgnoreArgsView {
    pub paths: StringLitView,
    pub reason: Option<StringLitView>,
}

impl View for IgnoreArgs {
    type V = IgnoreArgsView;

    open spec fn view(&self) -> IgnoreArgsView {
        IgnoreArgsView { paths: self.paths@, reason: option_view(self.reason) }
    }
}

/// The literal form: one string literal, and nothing behind it.
pub open spec fn spec_ignore_literal(tokens: Seq<TokenView>, pos: int) -> Result<
    (IgnoreArgsView, int),
    GrammarError,
> {
    if !spec_is_str(tokens, pos) {
        Err(
            GrammarError {
                kind: GrammarErrorKind::ExpectedStringLiteral,
                span: spec_span_at(tokens, pos),
            },
        )
    } else if pos + 1 < tokens.len() {
        Err(GrammarError { kind: GrammarErrorKind::UnexpectedToken, span: tokens[pos + 1].span })
    } else {
        Ok((IgnoreArgsView { paths: spec_str_at(tokens, pos), reason: None }, pos + 1))
    }
}

/// The fields form, from `pos` to the end of the input: `paths` and `reason`,
/// each a string literal, in any order, each at most once, `paths` required.
/// A missing `paths` is reported at `first`, where the fields began.
pub open spec fn spec_ignore_fields(
    tokens: Seq<TokenView>,
    pos: int,
    first: SourceLocation,
    paths: Option<StringLitView>,
    reason: Option<StringLitView>,
) -> Result<(IgnoreArgsView, int), GrammarError>
    decreases tokens.len() - pos,
{
    if pos >= tokens.len() {
        match paths {
            Some(p) => Ok((IgnoreArgsView { paths: p, reason }, pos)),
            None => Err(
                GrammarError { kind: GrammarErrorKind::MissingField(Field::Paths), span: first },
            ),
        }
    } else {
        match spec_assignment(tokens, pos) {
            Err(e) => Err(e),
            Ok((a, next)) => if a.ident.name == "paths"@ {
                if paths is Some {
                    Err(
                        GrammarError {
                            kind: GrammarErrorKind::DuplicateField(Field::Paths),
                            span: a.ident.span,
                        },
                    )
                } else {
                    match spec_after_last(tokens, next) {
                        Ok(q) => spec_ignore_fields(tokens, q, first, Some(a.value), reason),
                        Err(e) => Err(e),
                    }
                }
            } else if a.ident.name == "reason"@ {
                if reason is Some {
                    Err(
                        GrammarError {
                            kind: GrammarErrorKind::DuplicateField(Field::Reason),
                            span: a.ident.span,
                        },
                    )
                } else {
                    match spec_after_last(tokens, next) {
                        Ok(q) => spec_ignore_fields(tokens, q, first, paths, Some(a.value)),
                        Err(e) => Err(e),
                    }
                }
            } else {
                Err(
                    GrammarError {
                        kind: GrammarErrorKind::UnknownConfigField,
                        span: a.ident.span,
                    },
                )
            },
        }
    }
}

/// The arguments of an ignore attribute at `pos`: the fields form where a
/// name stands first, the literal form otherwise. Either reads to the end of
/// the input.
pub open spec fn spec_ignore_args(tokens: Seq<TokenView>, pos: int) -> Result<
    (IgnoreArgsView, int),
    GrammarError,
> {
    if spec_is_ident(tokens, pos) {
        spec_ignore_fields(tokens, pos, tokens[pos].span, None, None)
    } else {
        spec_ignore_literal(tokens, pos)
    }
}

/// Fields that parse end at the end of the input, behind where they began or
/// right there.
pub proof fn lemma_ignore_fields_end(
    tokens: Seq<TokenView>,
    pos: int,
    first: SourceLocation,
    paths: Option<StringLitView>,
    reason: Option<StringLitView>,
)
    requires
        0 <= pos <= tokens.len(),
    ensures
        spec_ignore_fields(tokens, pos, first, paths, reason) matches Ok((_, next)) ==> next
            == tokens.len(),
    decreases tokens.len() - pos,
{
    if pos < tokens.len() {
        match spec_assignment(tokens, pos) {
            Err(_) => {},
            Ok((a, next)) => match spec_after_last(tokens, next) {
                Ok(q) => {
                    if a.ident.name == "paths"@ {
                        if paths is None {
                            lemma_ignore_fields_end(tokens, q, first, Some(a.value), reason);
                        }
                    } else if a.ident.name == "reason"@ {
                        if reason is None {
                            lemma_ignore_fields_end(tokens, q, first, paths, Some(a.value));
                        }
                    }
                },
                Err(_) => {},
            },
        }
    }
}

impl Parse for IgnoreArgs {
    open spec fn spec_parse(tokens: Seq<TokenView>, pos: int) -> Result<
        (IgnoreArgsView, int),
        GrammarError,
    > {
        spec_ignore_args(tokens, pos)
    }

    fn parse(tokens: &Vec<Token>, pos: usize) -> (r: Result<(IgnoreArgs, usize), GrammarError>) {
        if is_ident(tokens, pos) {
            IgnoreArgs::parse_fields(tokens, pos)
        } else {
            IgnoreArgs::parse_literal(tokens, pos)
        }
    }
}

impl IgnoreArgs {
    fn parse_literal(tokens: &Vec<Token>, pos: usize) -> (r: Result<
        (IgnoreArgs, usize),
        GrammarError,
    >)
        ensures
            match (r, spec_ignore_literal(token_views(tokens@), pos as int)) {
                (Ok((v, q)), Ok((sv, sq))) => v@ == sv && q as int == sq && pos < q
                    <= tokens.len(),
                (Err(e), Err(se)) => e == se,
                _ => false,
            },
    {
        assert(token_views(tokens@).len() == tokens.len());
        if !is_str(tokens, pos) {
            return Err(
                GrammarError {
                    kind: GrammarErrorKind::ExpectedStringLiteral,
                    span: span_at(tokens, pos),
                },
            );
        }
        let path = str_at(tokens, pos);
        if pos + 1 < tokens.len() {
            return Err(
                GrammarError { kind: GrammarErrorKind::UnexpectedToken, span: tokens[pos + 1].span },
            );
        }
        Ok((IgnoreArgs { paths: path, reason: None }, pos + 1))
    }

    fn parse_fields(tokens: &Vec<Token>, start: usize) -> (r: Result<
        (IgnoreArgs, usize),
        GrammarError,
    >)
        requires
            spec_is_ident(token_views(tokens@), start as int),
        ensures
            match (
                r,
                spec_ignore_fields(
                    token_views(tokens@),
                    start as int,
                    token_views(tokens@)[start as int].span,
                    None,
                    None,
                ),
            ) {
                (Ok((v, q)), Ok((sv, sq))) => v@ == sv && q as int == sq && start < q
                    <= tokens.len(),
                (Err(e), Err(se)) => e == se,
                _ => false,
            },
    {
        let ghost tv = token_views(tokens@);
        assert(tv.len() == tokens.len());
        let error_span = tokens[start].span;
        let mut paths: Option<StringLit> = None;
        let mut reason: Option<StringLit> = None;
        let mut pos = start;
        proof {
            lemma_ignore_fields_end(tv, start as int, error_span, None, None);
        }
        while pos < tokens.len()
            invariant
                start <= pos <= tokens.len(),
                start < tokens.len(),
                tv == token_views(tokens@),
                tv.len() == tokens.len(),
                error_span == tv[start as int].span,
                spec_ignore_fields(tv, start as int, error_span, None, None) == spec_ignore_fields(
                    tv,
                    pos as int,
                    error_span,
                    option_view(paths),
                    option_view(reason),
                ),
            decreases tokens.len() - pos,
        {
            let (assignment, next) = Assignment::parse(tokens, pos)?;
            if same_text(assignment.ident().as_str(), "paths") {
                if paths.is_some() {
                    return Err(
                        GrammarError {
                            kind: GrammarErrorKind::DuplicateField(Field::Paths),
                            span: assignment.ident().span(),
                        },
                    );
                }
                paths = Some(assignment.into_value());
            } else if same_text(assignment.ident().as_str(), "reason") {
                if reason.is_some() {
                    return Err(
                        GrammarError {
                            kind: GrammarErrorKind::DuplicateField(Field::Reason),
                            span: assignment.ident().span(),
                        },
                    );
                }
                reason = Some(assignment.into_value());
            } else {
                return Err(
                    GrammarError {
                        kind: GrammarErrorKind::UnknownConfigField,
                        span: assignment.ident().span(),
                    },
                );
            }
            pos = after_last(tokens, next)?;
        }
        match paths {
            Some(p) => Ok((IgnoreArgs { paths: p, reason }, pos)),
            None => Err(
                GrammarError {
                    kind: GrammarErrorKind::MissingField(Field::Paths),
                    span: error_span,
                },
            ),
        }
    }
}

} // verus!
