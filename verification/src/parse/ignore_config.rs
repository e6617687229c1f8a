//! The `ignore` configuration: a string literal, a list of paths, or an
//! object with `paths` and an optional default `reason`, all read into one
//! normal form.

use vstd::prelude::*;
use vstd::string::*;
use crate::error::{Field, GrammarError, GrammarErrorKind};
use crate::literal::{option_view, StringLit, StringLitView};
use crate::location::SourceLocation;
use crate::parse::assignment::{spec_assignment, Assignment};
use crate::parse::spanned::Spanned;
use crate::parse::Parse;
use crate::text::same_text;
use crate::token::{
    after_item, agrees, is_close, is_ident, is_punct, is_str, is_word, span_at, spec_after_item,
    spec_is_close, spec_is_ident, spec_is_punct, spec_is_str, spec_is_word, spec_span_at,
    spec_str_at, str_at, token_views, Delimiter, Token, TokenKind, TokenKindView, TokenView,
};

verus! {

/// One ignored path: a glob pattern and, optionally, why it is ignored.
#[derive(Debug)]
pub struct IgnorePath {
    span: SourceLocation,
    path: StringLit,
    reason: Option<StringLit>,
}

/// The mathematical content of an [`IgnorePath`].
pub ghost struct IgnorePathView {
    pub span: SourceLocation,
    pub path: StringLitView,
    pub reason: Option<StringLitView>,
}

/// The ignored paths of a configuration, in the order they were written.
#[derive(Debug)]
pub struct IgnorePaths {
    span: SourceLocation,
    paths: Vec<IgnorePath>,
}

/// The mathematical content of an [`IgnorePaths`].
pub ghost struct IgnorePathsView {
    pub span: SourceLocation,
    pub paths: Seq<IgnorePathView>,
}

/// A whole ignore configuration: the paths and the default reason.
#[derive(Debug)]
pub struct IgnoreConfig {
    /// The location of the whole configuration.
    span: SourceLocation,
    /// Path globs to be ignored.
    paths: IgnorePaths,
    /// Default ignore reason.
    reason: Option<StringLit>,
}

/// The mathematical content of an [`IgnoreConfig`].
pub ghost struct IgnoreConfigView {
    pub span: SourceLocation,
    pub paths: IgnorePathsView,
    pub reason: Option<StringLitView>,
}

impl View for IgnorePath {
    type V = IgnorePathView;

    closed spec fn view(&self) -> IgnorePathView {
        IgnorePathView { span: self.span, path: self.path@, reason: option_view(self.reason) }
    }
}

/// The views of a sequence of paths, in order.
pub open spec fn path_views(paths: Seq<IgnorePath>) -> Seq<IgnorePathView> {
    paths.map_values(|p: IgnorePath| p@)
}

impl View for IgnorePaths {
    type V = IgnorePathsView;

    closed spec fn view(&self) -> IgnorePathsView {
        IgnorePathsView { span: self.span, paths: path_views(self.paths@) }
    }
}

impl View for IgnoreConfig {
    type V = IgnoreConfigView;

    closed spec fn view(&self) -> IgnoreConfigView {
        IgnoreConfigView { span: self.span, paths: self.paths@, reason: option_view(self.reason) }
    }
}

/// The configuration that a lone path stands for.
pub open spec fn single_path(value: StringLitView) -> IgnorePathView {
    IgnorePathView { span: value.span, path: value, reason: None }
}

/// The path list that a lone path entry stands for.
pub open spec fn single_paths(p: IgnorePathView) -> IgnorePathsView {
    IgnorePathsView { span: p.span, paths: seq![p] }
}

/// The configuration that a path list without a default reason stands for.
pub open spec fn plain_config(ps: IgnorePathsView) -> IgnoreConfigView {
    IgnoreConfigView { span: ps.span, paths: ps, reason: None }
}

/// The fields of a path object, from `pos` up to the closing brace: `path`
/// and `reason`, each a string literal, in any order, each at most once,
/// `path` required. `path` and `reason` are what was read before `pos`.
pub open spec fn spec_path_fields(
    tokens: Seq<TokenView>,
    pos: int,
    open: SourceLocation,
    path: Option<StringLitView>,
    reason: Option<StringLitView>,
) -> Result<(IgnorePathView, int), GrammarError>
    decreases tokens.len() - pos,
{
    if spec_is_close(tokens, pos, Delimiter::Brace) {
        let span = open.spec_join(tokens[pos].span);
        match path {
            Some(p) => Ok((IgnorePathView { span, path: p, reason }, pos + 1)),
            None => Err(GrammarError { kind: GrammarErrorKind::MissingField(Field::Path), span }),
        }
    } else {
        match spec_assignment(tokens, pos) {
            Err(e) => Err(e),
            Ok((a, next)) => if a.ident.name == "path"@ {
                if path is Some {
                    Err(
                        GrammarError {
                            kind: GrammarErrorKind::DuplicateField(Field::Path),
                            span: a.ident.span,
                        },
                    )
                } else {
                    match spec_after_item(tokens, next, Delimiter::Brace) {
                        Ok(q) => spec_path_fields(tokens, q, open, Some(a.value), reason),
                        Err(e) => Err(e),
                    }
                }
            } else if a.ident.name == "reason"@ {
                if reason is Some {
                    Err(
                        GrammarError {
                            kind: GrammarErrorKind::DuplicateField(Field::Reason),
                            span: a.ident.span,
                        },
                    )
                } else {
                    match spec_after_item(tokens, next, Delimiter::Brace) {
                        Ok(q) => spec_path_fields(tokens, q, open, path, Some(a.value)),
                        Err(e) => Err(e),
                    }
                }
            } else {
                Err(GrammarError { kind: GrammarErrorKind::UnknownPathField, span: a.ident.span })
            },
        }
    }
}

/// One element of a path list at `pos`: a string literal, or a path object
/// in braces.
pub open spec fn spec_path(tokens: Seq<TokenView>, pos: int) -> Result<
    (IgnorePathView, int),
    GrammarError,
> {
    if !(0 <= pos < tokens.len()) {
        Err(GrammarError { kind: GrammarErrorKind::ExpectedPath, span: spec_span_at(tokens, pos) })
    } else {
        let span = tokens[pos].span;
        match tokens[pos].kind {
            TokenKindView::Open(Delimiter::Brace) => spec_path_fields(
                tokens,
                pos + 1,
                span,
                None,
                None,
            ),
            TokenKindView::Str(_) => Ok((single_path(spec_str_at(tokens, pos)), pos + 1)),
            TokenKindView::Literal => Err(
                GrammarError { kind: GrammarErrorKind::ExpectedStringLiteral, span },
            ),
            _ => Err(GrammarError { kind: GrammarErrorKind::ExpectedPath, span }),
        }
    }
}

/// A path object that parses ends behind at least one token, within the input.
pub proof fn lemma_path_fields_advance(
    tokens: Seq<TokenView>,
    pos: int,
    open: SourceLocation,
    path: Option<StringLitView>,
    reason: Option<StringLitView>,
)
    requires
        0 <= pos,
    ensures
        spec_path_fields(tokens, pos, open, path, reason) matches Ok((_, next)) ==> pos < next
            <= tokens.len(),
    decreases tokens.len() - pos,
{
    if spec_is_close(tokens, pos, Delimiter::Brace) {
    } else {
        match spec_assignment(tokens, pos) {
            Err(_) => {},
            Ok((a, next)) => match spec_after_item(tokens, next, Delimiter::Brace) {
                Ok(q) => {
                    if a.ident.name == "path"@ {
                        if path is None {
                            lemma_path_fields_advance(tokens, q, open, Some(a.value), reason);
                        }
                    } else if a.ident.name == "reason"@ {
                        if reason is None {
                            lemma_path_fields_advance(tokens, q, open, path, Some(a.value));
                        }
                    }
                },
                Err(_) => {},
            },
        }
    }
}

/// A list element that parses ends behind at least one token, within the
/// input.
pub proof fn lemma_path_advance(tokens: Seq<TokenView>, pos: int)
    ensures
        spec_path(tokens, pos) matches Ok((_, next)) ==> pos < next <= tokens.len(),
{
    if 0 <= pos < tokens.len() {
        lemma_path_fields_advance(tokens, pos + 1, tokens[pos].span, None, None);
    }
}

/// The elements of a path list, from `pos` up to the closing bracket:
/// elements separated by commas, with or without one behind the last.
/// `acc` holds the elements read before `pos`.
pub open spec fn spec_path_list(
    tokens: Seq<TokenView>,
    pos: int,
    open: SourceLocation,
    acc: Seq<IgnorePathView>,
) -> Result<(IgnorePathsView, int), GrammarError>
    decreases tokens.len() - pos,
{
    if spec_is_close(tokens, pos, Delimiter::Bracket) {
        Ok((IgnorePathsView { span: open.spec_join(tokens[pos].span), paths: acc }, pos + 1))
    } else {
        match spec_path(tokens, pos) {
            Err(e) => Err(e),
            Ok((p, q)) => {
                proof {
                    lemma_path_advance(tokens, pos);
                }
                match spec_after_item(tokens, q, Delimiter::Bracket) {
                    Ok(next) => spec_path_list(tokens, next, open, acc.push(p)),
                    Err(e) => Err(e),
                }
            },
        }
    }
}

/// A path list that parses ends behind at least one token, within the input.
pub proof fn lemma_path_list_advance(
    tokens: Seq<TokenView>,
    pos: int,
    open: SourceLocation,
    acc: Seq<IgnorePathView>,
)
    requires
        0 <= pos,
    ensures
        spec_path_list(tokens, pos, open, acc) matches Ok((_, next)) ==> pos < next
            <= tokens.len(),
    decreases tokens.len() - pos,
{
    if spec_is_close(tokens, pos, Delimiter::Bracket) {
    } else {
        match spec_path(tokens, pos) {
            Err(e) => {},
            Ok((p, q)) => {
                lemma_path_advance(tokens, pos);
                match spec_after_item(tokens, q, Delimiter::Bracket) {
                    Ok(next) => {
                        lemma_path_list_advance(tokens, next, open, acc.push(p));
                    },
                    Err(e) => {},
                }
            },
        }
    }
}

/// The value of `paths` at `pos`: a string literal, a list in brackets, or
/// a single path object in braces, which stands for a list of one.
pub open spec fn spec_paths(tokens: Seq<TokenView>, pos: int) -> Result<
    (IgnorePathsView, int),
    GrammarError,
> {
    if !(0 <= pos < tokens.len()) {
        Err(
            GrammarError { kind: GrammarErrorKind::ExpectedPaths, span: spec_span_at(tokens, pos) },
        )
    } else {
        let span = tokens[pos].span;
        match tokens[pos].kind {
            TokenKindView::Open(Delimiter::Brace) => match spec_path_fields(
                tokens,
                pos + 1,
                span,
                None,
                None,
            ) {
                Ok((p, q)) => Ok((single_paths(p), q)),
                Err(e) => Err(e),
            },
            TokenKindView::Open(Delimiter::Bracket) => spec_path_list(
                tokens,
                pos + 1,
                span,
                Seq::empty(),
            ),
            TokenKindView::Open(Delimiter::Parenthesis) => Err(
                GrammarError { kind: GrammarErrorKind::PathsDelimiter, span },
            ),
            TokenKindView::Str(_) => Ok(
                (single_paths(single_path(spec_str_at(tokens, pos))), pos + 1),
            ),
            TokenKindView::Literal => Err(
                GrammarError { kind: GrammarErrorKind::ExpectedStringLiteral, span },
            ),
            _ => Err(GrammarError { kind: GrammarErrorKind::ExpectedPaths, span }),
        }
    }
}

/// A value of `paths` that parses ends behind at least one token, within
/// the input.
pub proof fn lemma_paths_advance(tokens: Seq<TokenView>, pos: int)
    ensures
        spec_paths(tokens, pos) matches Ok((_, next)) ==> pos < next <= tokens.len(),
{
    if 0 <= pos < tokens.len() {
        lemma_path_fields_advance(tokens, pos + 1, tokens[pos].span, None, None);
        lemma_path_list_advance(tokens, pos + 1, tokens[pos].span, Seq::empty());
    }
}

/// The fields of a configuration object, from `pos` up to the closing
/// brace: `paths` and `reason`, in any order, each at most once, `paths`
/// required. `paths` and `reason` are what was read before `pos`.
pub open spec fn spec_config_fields(
    tokens: Seq<TokenView>,
    pos: int,
    open: SourceLocation,
    paths: Option<IgnorePathsView>,
    reason: Option<StringLitView>,
) -> Result<(IgnoreConfigView, int), GrammarError>
    decreases tokens.len() - pos,
{
    if spec_is_close(tokens, pos, Delimiter::Brace) {
        let span = open.spec_join(tokens[pos].span);
        match paths {
            Some(p) => Ok((IgnoreConfigView { span, paths: p, reason }, pos + 1)),
            None => Err(GrammarError { kind: GrammarErrorKind::MissingField(Field::Paths), span }),
        }
    } else if !spec_is_ident(tokens, pos) {
        Err(
            GrammarError {
                kind: GrammarErrorKind::ExpectedIdentifier,
                span: spec_span_at(tokens, pos),
            },
        )
    } else if !spec_is_punct(tokens, pos + 1, '=') {
        Err(
            GrammarError {
                kind: GrammarErrorKind::ExpectedEquals,
                span: spec_span_at(tokens, pos + 1),
            },
        )
    } else {
        let name = tokens[pos].kind->Ident_0;
        if name == "paths"@ {
            if paths is Some {
                Err(
                    GrammarError {
                        kind: GrammarErrorKind::DuplicateField(Field::Paths),
                        span: tokens[pos].span,
                    },
                )
            } else {
                match spec_paths(tokens, pos + 2) {
                    Err(e) => Err(e),
                    Ok((p, q)) => {
                        proof {
                            lemma_paths_advance(tokens, pos + 2);
                        }
                        match spec_after_item(tokens, q, Delimiter::Brace) {
                            Ok(next) => spec_config_fields(tokens, next, open, Some(p), reason),
                            Err(e) => Err(e),
                        }
                    },
                }
            }
        } else if name == "reason"@ {
            if reason is Some {
                Err(
                    GrammarError {
                        kind: GrammarErrorKind::DuplicateField(Field::Reason),
                        span: tokens[pos].span,
                    },
                )
            } else if !spec_is_str(tokens, pos + 2) {
                Err(
                    GrammarError {
                        kind: GrammarErrorKind::ExpectedStringLiteral,
                        span: spec_span_at(tokens, pos + 2),
                    },
                )
            } else {
                match spec_after_item(tokens, pos + 3, Delimiter::Brace) {
                    Ok(next) => spec_config_fields(
                        tokens,
                        next,
                        open,
                        paths,
                        Some(spec_str_at(tokens, pos + 2)),
                    ),
                    Err(e) => Err(e),
                }
            }
        } else {
            Err(GrammarError { kind: GrammarErrorKind::UnknownConfigField, span: tokens[pos].span })
        }
    }
}

/// Whether the object whose fields start at `pos` is a path object and not a
/// configuration object: behind any `reason` fields it starts with, its next
/// field is named `path`. So the fields of either object come in any order.
pub open spec fn spec_names_path(tokens: Seq<TokenView>, pos: int) -> bool
    decreases tokens.len() - pos,
{
    if spec_is_word(tokens, pos, "path"@) {
        true
    } else if spec_is_word(tokens, pos, "reason"@) && spec_is_punct(tokens, pos + 1, '=')
        && spec_is_str(tokens, pos + 2) && spec_is_punct(tokens, pos + 3, ',') {
        spec_names_path(tokens, pos + 4)
    } else {
        false
    }
}

/// An ignore configuration at `pos`, in any of its forms: a string literal,
/// a list in brackets, a configuration object, or a path object, which
/// stands for a list of one; [`spec_names_path`] tells the two objects
/// apart.
pub open spec fn spec_config(tokens: Seq<TokenView>, pos: int) -> Result<
    (IgnoreConfigView, int),
    GrammarError,
> {
    if !(0 <= pos < tokens.len()) {
        Err(
            GrammarError {
                kind: GrammarErrorKind::ExpectedConfig,
                span: spec_span_at(tokens, pos),
            },
        )
    } else {
        let span = tokens[pos].span;
        match tokens[pos].kind {
            TokenKindView::Open(Delimiter::Brace) => if spec_names_path(tokens, pos + 1) {
                match spec_path_fields(tokens, pos + 1, span, None, None) {
                    Ok((p, q)) => Ok((plain_config(single_paths(p)), q)),
                    Err(e) => Err(e),
                }
            } else {
                spec_config_fields(tokens, pos + 1, span, None, None)
            },
            TokenKindView::Open(Delimiter::Bracket) => match spec_path_list(
                tokens,
                pos + 1,
                span,
                Seq::empty(),
            ) {
                Ok((ps, q)) => Ok((plain_config(ps), q)),
                Err(e) => Err(e),
            },
            TokenKindView::Open(Delimiter::Parenthesis) => Err(
                GrammarError { kind: GrammarErrorKind::ConfigDelimiter, span },
            ),
            TokenKindView::Str(_) => Ok(
                (plain_config(single_paths(single_path(spec_str_at(tokens, pos)))), pos + 1),
            ),
            TokenKindView::Literal => Err(
                GrammarError { kind: GrammarErrorKind::ExpectedStringLiteral, span },
            ),
            _ => Err(GrammarError { kind: GrammarErrorKind::ExpectedConfig, span }),
        }
    }
}

/// The view of an optional path list.
pub open spec fn paths_option_view(o: Option<IgnorePaths>) -> Option<IgnorePathsView> {
    match o {
        Some(p) => Some(p@),
        None => None,
    }
}

/// A configuration object that parses ends behind at least one token, within
/// the input.
pub proof fn lemma_config_fields_advance(
    tokens: Seq<TokenView>,
    pos: int,
    open: SourceLocation,
    paths: Option<IgnorePathsView>,
    reason: Option<StringLitView>,
)
    requires
        0 <= pos,
    ensures
        spec_config_fields(tokens, pos, open, paths, reason) matches Ok((_, next)) ==> pos < next
            <= tokens.len(),
    decreases tokens.len() - pos,
{
    if spec_is_close(tokens, pos, Delimiter::Brace) {
    } else if spec_is_ident(tokens, pos) && spec_is_punct(tokens, pos + 1, '=') {
        let name = tokens[pos].kind->Ident_0;
        if name == "paths"@ {
            if paths is None {
                lemma_paths_advance(tokens, pos + 2);
                match spec_paths(tokens, pos + 2) {
                    Ok((p, q)) => match spec_after_item(tokens, q, Delimiter::Brace) {
                        Ok(next) => {
                            lemma_config_fields_advance(tokens, next, open, Some(p), reason);
                        },
                        Err(_) => {},
                    },
                    Err(_) => {},
                }
            }
        } else if name == "reason"@ {
            if reason is None && spec_is_str(tokens, pos + 2) {
                match spec_after_item(tokens, pos + 3, Delimiter::Brace) {
                    Ok(next) => {
                        lemma_config_fields_advance(
                            tokens,
                            next,
                            open,
                            paths,
                            Some(spec_str_at(tokens, pos + 2)),
                        );
                    },
                    Err(_) => {},
                }
            }
        }
    }
}

/// A configuration that parses ends behind at least one token, within the
/// input.
pub proof fn lemma_config_advance(tokens: Seq<TokenView>, pos: int)
    ensures
        spec_config(tokens, pos) matches Ok((_, next)) ==> pos < next <= tokens.len(),
{
    if 0 <= pos < tokens.len() {
        lemma_path_fields_advance(tokens, pos + 1, tokens[pos].span, None, None);
        lemma_path_list_advance(tokens, pos + 1, tokens[pos].span, Seq::empty());
        lemma_config_fields_advance(tokens, pos + 1, tokens[pos].span, None, None);
    }
}

impl Spanned for IgnorePath {
    open spec fn spec_span(&self) -> SourceLocation {
        self@.span
    }

    fn span(&self) -> (r: SourceLocation) {
        self.span
    }
}

impl Parse for IgnorePath {
    open spec fn spec_parse(tokens: Seq<TokenView>, pos: int) -> Result<(IgnorePathView, int), GrammarError> {
        spec_path(tokens, pos)
    }

    fn parse(tokens: &Vec<Token>, pos: usize) -> (r: Result<(IgnorePath, usize), GrammarError>)
    {
        proof {
            lemma_path_advance(token_views(tokens@), pos as int);
        }
        if pos >= tokens.len() {
            return Err(
                GrammarError { kind: GrammarErrorKind::ExpectedPath, span: span_at(tokens, pos) },
            );
        }
        match &tokens[pos].kind {
            TokenKind::Open(_) => IgnorePath::parse_group(tokens, pos),
            TokenKind::Str(_) => IgnorePath::parse_literal(tokens, pos),
            TokenKind::Literal => IgnorePath::parse_literal(tokens, pos),
            _ => Err(GrammarError { kind: GrammarErrorKind::ExpectedPath, span: tokens[pos].span }),
        }
    }
}

impl IgnorePath {
    pub fn path(&self) -> (r: &StringLit)
        ensures
            r@ == self@.path,
    {
        &self.path
    }

    pub fn reason(&self) -> (r: &Option<StringLit>)
        ensures
            option_view(*r) == self@.reason,
    {
        &self.reason
    }

    /// The entry that a lone string literal stands for.
    pub fn from_lit_str(lit_str: StringLit) -> (r: IgnorePath)
        ensures
            r@ == single_path(lit_str@),
    {
        let span = lit_str.span();
        IgnorePath { span, path: lit_str, reason: None }
    }

    fn parse_group(tokens: &Vec<Token>, pos: usize) -> (r: Result<
        (IgnorePath, usize),
        GrammarError,
    >)
        requires
            pos < tokens.len(),
            tokens[pos as int].kind is Open,
        ensures
            agrees(r, spec_path(token_views(tokens@), pos as int)),
    {
        match &tokens[pos].kind {
            TokenKind::Open(Delimiter::Brace) => IgnorePath::parse_object_fields(
                tokens,
                pos + 1,
                tokens[pos].span,
            ),
            _ => Err(GrammarError { kind: GrammarErrorKind::ExpectedPath, span: tokens[pos].span }),
        }
    }

    /// Reads the fields of a path object whose opening brace, at `span`,
    /// stands just before `start`.
    fn parse_object_fields(tokens: &Vec<Token>, start: usize, span: SourceLocation) -> (r: Result<
        (IgnorePath, usize),
        GrammarError,
    >)
        requires
            start <= tokens.len(),
        ensures
            agrees(r, spec_path_fields(token_views(tokens@), start as int, span, None, None)),
    {
        let ghost tv = token_views(tokens@);
        let mut path: Option<StringLit> = None;
        let mut reason: Option<StringLit> = None;
        let mut pos = start;
        while !is_close(tokens, pos, Delimiter::Brace)
            invariant
                pos <= tokens.len(),
                tv == token_views(tokens@),
                spec_path_fields(tv, start as int, span, None, None) == spec_path_fields(
                    tv,
                    pos as int,
                    span,
                    option_view(path),
                    option_view(reason),
                ),
            decreases tokens.len() - pos,
        {
            let (assignment, next) = Assignment::parse(tokens, pos)?;
            if same_text(assignment.ident().as_str(), "path") {
                if path.is_some() {
                    return Err(
                        GrammarError {
                            kind: GrammarErrorKind::DuplicateField(Field::Path),
                            span: assignment.ident().span(),
                        },
                    );
                }
                path = Some(assignment.into_value());
            } else if same_text(assignment.ident().as_str(), "reason") {
                if reason.is_some() {
                    return Err(
                        GrammarError {
                            kind: GrammarErrorKind::DuplicateField(Field::Reason),
                            span: assignment.ident().span(),
                        },
                    );
                }
                reason = Some(assignment.into_value());
            } else {
                return Err(
                    GrammarError {
                        kind: GrammarErrorKind::UnknownPathField,
                        span: assignment.ident().span(),
                    },
                );
            }
            pos = after_item(tokens, next, Delimiter::Brace)?;
        }
        let whole = span.join(tokens[pos].span);
        match path {
            Some(p) => Ok((IgnorePath { span: whole, path: p, reason }, pos + 1)),
            None => Err(
                GrammarError { kind: GrammarErrorKind::MissingField(Field::Path), span: whole },
            ),
        }
    }

    fn parse_literal(tokens: &Vec<Token>, pos: usize) -> (r: Result<
        (IgnorePath, usize),
        GrammarError,
    >)
        requires
            pos < tokens.len(),
            tokens[pos as int].kind is Str || tokens[pos as int].kind is Literal,
        ensures
            agrees(r, spec_path(token_views(tokens@), pos as int)),
    {
        if is_str(tokens, pos) {
            Ok((IgnorePath::from_lit_str(str_at(tokens, pos)), pos + 1))
        } else {
            Err(
                GrammarError {
                    kind: GrammarErrorKind::ExpectedStringLiteral,
                    span: tokens[pos].span,
                },
            )
        }
    }
}

impl Spanned for IgnorePaths {
    open spec fn spec_span(&self) -> SourceLocation {
        self@.span
    }

    fn span(&self) -> (r: SourceLocation) {
        self.span
    }
}

impl Parse for IgnorePaths {
    open spec fn spec_parse(tokens: Seq<TokenView>, pos: int) -> Result<(IgnorePathsView, int), GrammarError> {
        spec_paths(tokens, pos)
    }

    fn parse(tokens: &Vec<Token>, pos: usize) -> (r: Result<
        (IgnorePaths, usize),
        GrammarError,
    >)
    {
        proof {
            lemma_paths_advance(token_views(tokens@), pos as int);
        }
        if pos >= tokens.len() {
            return Err(
                GrammarError { kind: GrammarErrorKind::ExpectedPaths, span: span_at(tokens, pos) },
            );
        }
        match &tokens[pos].kind {
            TokenKind::Open(_) => IgnorePaths::parse_group(tokens, pos),
            TokenKind::Str(_) => IgnorePaths::parse_literal(tokens, pos),
            TokenKind::Literal => IgnorePaths::parse_literal(tokens, pos),
            _ => Err(
                GrammarError { kind: GrammarErrorKind::ExpectedPaths, span: tokens[pos].span },
            ),
        }
    }
}

impl IgnorePaths {
    pub fn paths(&self) -> (r: &Vec<IgnorePath>)
        ensures
            path_views(r@) == self@.paths,
    {
        &self.paths
    }

    fn parse_group(tokens: &Vec<Token>, pos: usize) -> (r: Result<
        (IgnorePaths, usize),
        GrammarError,
    >)
        requires
            pos < tokens.len(),
            tokens[pos as int].kind is Open,
        ensures
            agrees(r, spec_paths(token_views(tokens@), pos as int)),
    {
        let span = tokens[pos].span;
        match &tokens[pos].kind {
            TokenKind::Open(Delimiter::Brace) => IgnorePaths::parse_object(tokens, pos + 1, span),
            TokenKind::Open(Delimiter::Bracket) => IgnorePaths::parse_list(tokens, pos + 1, span),
            _ => Err(GrammarError { kind: GrammarErrorKind::PathsDelimiter, span }),
        }
    }

    /// Reads a single path object, whose opening brace stands just before
    /// `start`, as a list of one.
    fn parse_object(tokens: &Vec<Token>, start: usize, span: SourceLocation) -> (r: Result<
        (IgnorePaths, usize),
        GrammarError,
    >)
        requires
            start <= tokens.len(),
        ensures
            match (r, spec_path_fields(token_views(tokens@), start as int, span, None, None)) {
                (Ok((v, q)), Ok((p, sq))) => v@ == single_paths(p) && q as int == sq,
                (Err(e), Err(se)) => e == se,
                _ => false,
            },
    {
        let (path, next) = IgnorePath::parse_object_fields(tokens, start, span)?;
        Ok((IgnorePaths::single(path), next))
    }

    /// Reads the elements of a list whose opening bracket, at `span`, stands
    /// just before `start`.
    fn parse_list(tokens: &Vec<Token>, start: usize, span: SourceLocation) -> (r: Result<
        (IgnorePaths, usize),
        GrammarError,
    >)
        requires
            start <= tokens.len(),
        ensures
            agrees(r, spec_path_list(token_views(tokens@), start as int, span, Seq::empty())),
    {
        let ghost tv = token_views(tokens@);
        let mut paths: Vec<IgnorePath> = Vec::new();
        let mut pos = start;
        assert(path_views(paths@) =~= Seq::empty());
        while !is_close(tokens, pos, Delimiter::Bracket)
            invariant
                pos <= tokens.len(),
                tv == token_views(tokens@),
                spec_path_list(tv, start as int, span, Seq::empty()) == spec_path_list(
                    tv,
                    pos as int,
                    span,
                    path_views(paths@),
                ),
            decreases tokens.len() - pos,
        {
            let (path, next) = IgnorePath::parse(tokens, pos)?;
            let ghost before = path_views(paths@);
            paths.push(path);
            assert(path_views(paths@) =~= before.push(path@));
            pos = after_item(tokens, next, Delimiter::Bracket)?;
        }
        Ok((IgnorePaths { span: span.join(tokens[pos].span), paths }, pos + 1))
    }

    fn parse_literal(tokens: &Vec<Token>, pos: usize) -> (r: Result<
        (IgnorePaths, usize),
        GrammarError,
    >)
        requires
            pos < tokens.len(),
            tokens[pos as int].kind is Str || tokens[pos as int].kind is Literal,
        ensures
            agrees(r, spec_paths(token_views(tokens@), pos as int)),
    {
        if is_str(tokens, pos) {
            Ok((IgnorePaths::from_lit_str(str_at(tokens, pos)), pos + 1))
        } else {
            Err(
                GrammarError {
                    kind: GrammarErrorKind::ExpectedStringLiteral,
                    span: tokens[pos].span,
                },
            )
        }
    }

    /// The list that a lone string literal stands for.
    pub fn from_lit_str(lit_str: StringLit) -> (r: IgnorePaths)
        ensures
            r@ == single_paths(single_path(lit_str@)),
    {
        IgnorePaths::single(IgnorePath::from_lit_str(lit_str))
    }

    /// The list that a lone entry stands for.
    pub fn single(path: IgnorePath) -> (r: IgnorePaths)
        ensures
            r@ == single_paths(path@),
    {
        let span = path.span();
        let mut paths: Vec<IgnorePath> = Vec::new();
        paths.push(path);
        assert(path_views(paths@) =~= seq![path@]);
        IgnorePaths { span, paths }
    }
}

impl Spanned for IgnoreConfig {
    open spec fn spec_span(&self) -> SourceLocation {
        self@.span
    }

    fn span(&self) -> (r: SourceLocation) {
        self.span
    }
}

impl Parse for IgnoreConfig {
    open spec fn spec_parse(tokens: Seq<TokenView>, pos: int) -> Result<(IgnoreConfigView, int), GrammarError> {
        spec_config(tokens, pos)
    }

    fn parse(tokens: &Vec<Token>, pos: usize) -> (r: Result<
        (IgnoreConfig, usize),
        GrammarError,
    >)
    {
        proof {
            lemma_config_advance(token_views(tokens@), pos as int);
        }
        if pos >= tokens.len() {
            return Err(
                GrammarError {
                    kind: GrammarErrorKind::ExpectedConfig,
                    span: span_at(tokens, pos),
                },
            );
        }
        match &tokens[pos].kind {
            TokenKind::Open(_) => IgnoreConfig::parse_group(tokens, pos),
            TokenKind::Str(_) => IgnoreConfig::parse_literal(tokens, pos),
            TokenKind::Literal => IgnoreConfig::parse_literal(tokens, pos),
            _ => Err(
                GrammarError { kind: GrammarErrorKind::ExpectedConfig, span: tokens[pos].span },
            ),
        }
    }
}

impl IgnoreConfig {
    pub fn paths(&self) -> (r: &IgnorePaths)
        ensures
            r@ == self@.paths,
    {
        &self.paths
    }

    pub fn reason(&self) -> (r: &Option<StringLit>)
        ensures
            option_view(*r) == self@.reason,
    {
        &self.reason
    }

    /// The configuration that a path list without a default reason stands
    /// for.
    pub fn plain(paths: IgnorePaths) -> (r: IgnoreConfig)
        ensures
            r@ == plain_config(paths@),
    {
        let span = paths.span();
        IgnoreConfig { span, paths, reason: None }
    }

    /// Whether the object whose fields start at `start` is a path object.
    fn names_path(tokens: &Vec<Token>, start: usize) -> (r: bool)
        ensures
            r == spec_names_path(token_views(tokens@), start as int),
    {
        let ghost tv = token_views(tokens@);
        assert(tv.len() == tokens.len());
        let mut pos = start;
        while is_word(tokens, pos, "reason") && is_punct(tokens, pos + 1, '=') && is_str(
            tokens,
            pos + 2,
        ) && is_punct(tokens, pos + 3, ',')
            invariant
                tv == token_views(tokens@),
                tv.len() == tokens.len(),
                spec_names_path(tv, start as int) == spec_names_path(tv, pos as int),
            decreases tokens.len() - pos,
        {
            proof {
                reveal_strlit("path");
                reveal_strlit("reason");
                assert("path"@.len() != "reason"@.len());
                assert(!spec_is_word(tv, pos as int, "path"@));
            }
            pos += 4;
        }
        proof {
            reveal_strlit("path");
            reveal_strlit("reason");
            assert("path"@.len() != "reason"@.len());
        }
        is_word(tokens, pos, "path")
    }

    fn parse_group(tokens: &Vec<Token>, pos: usize) -> (r: Result<
        (IgnoreConfig, usize),
        GrammarError,
    >)
        requires
            pos < tokens.len(),
            tokens[pos as int].kind is Open,
        ensures
            agrees(r, spec_config(token_views(tokens@), pos as int)),
    {
        let span = tokens[pos].span;
        match &tokens[pos].kind {
            TokenKind::Open(Delimiter::Brace) => {
                if IgnoreConfig::names_path(tokens, pos + 1) {
                    let (path, next) = IgnorePath::parse_object_fields(tokens, pos + 1, span)?;
                    Ok((IgnoreConfig::plain(IgnorePaths::single(path)), next))
                } else {
                    IgnoreConfig::parse_object(tokens, pos + 1, span)
                }
            },
            TokenKind::Open(Delimiter::Bracket) => IgnoreConfig::parse_list(tokens, pos + 1, span),
            _ => Err(GrammarError { kind: GrammarErrorKind::ConfigDelimiter, span }),
        }
    }

    /// Reads the fields of a configuration object whose opening brace, at
    /// `span`, stands just before `start`.
    fn parse_object(tokens: &Vec<Token>, start: usize, span: SourceLocation) -> (r: Result<
        (IgnoreConfig, usize),
        GrammarError,
    >)
        requires
            start <= tokens.len(),
        ensures
            agrees(r, spec_config_fields(token_views(tokens@), start as int, span, None, None)),
    {
        let ghost tv = token_views(tokens@);
        let mut paths: Option<IgnorePaths> = None;
        let mut reason: Option<StringLit> = None;
        let mut pos = start;
        while !is_close(tokens, pos, Delimiter::Brace)
            invariant
                pos <= tokens.len(),
                tv == token_views(tokens@),
                spec_config_fields(tv, start as int, span, None, None) == spec_config_fields(
                    tv,
                    pos as int,
                    span,
                    paths_option_view(paths),
                    option_view(reason),
                ),
            decreases tokens.len() - pos,
        {
            if !is_ident(tokens, pos) {
                return Err(
                    GrammarError {
                        kind: GrammarErrorKind::ExpectedIdentifier,
                        span: span_at(tokens, pos),
                    },
                );
            }
            if !is_punct(tokens, pos + 1, '=') {
                return Err(
                    GrammarError {
                        kind: GrammarErrorKind::ExpectedEquals,
                        span: span_at(tokens, pos + 1),
                    },
                );
            }
            let next;
            if is_word(tokens, pos, "paths") {
                if paths.is_some() {
                    return Err(
                        GrammarError {
                            kind: GrammarErrorKind::DuplicateField(Field::Paths),
                            span: tokens[pos].span,
                        },
                    );
                }
                let (value, behind) = IgnorePaths::parse(tokens, pos + 2)?;
                paths = Some(value);
                next = behind;
            } else if is_word(tokens, pos, "reason") {
                if reason.is_some() {
                    return Err(
                        GrammarError {
                            kind: GrammarErrorKind::DuplicateField(Field::Reason),
                            span: tokens[pos].span,
                        },
                    );
                }
                if !is_str(tokens, pos + 2) {
                    return Err(
                        GrammarError {
                            kind: GrammarErrorKind::ExpectedStringLiteral,
                            span: span_at(tokens, pos + 2),
                        },
                    );
                }
                reason = Some(str_at(tokens, pos + 2));
                next = pos + 3;
            } else {
                return Err(
                    GrammarError {
                        kind: GrammarErrorKind::UnknownConfigField,
                        span: tokens[pos].span,
                    },
                );
            }
            pos = after_item(tokens, next, Delimiter::Brace)?;
        }
        let whole = span.join(tokens[pos].span);
        match paths {
            Some(p) => Ok((IgnoreConfig { span: whole, paths: p, reason }, pos + 1)),
            None => Err(
                GrammarError { kind: GrammarErrorKind::MissingField(Field::Paths), span: whole },
            ),
        }
    }

    /// Reads a list whose opening bracket, at `span`, stands just before
    /// `start`, as a configuration without a default reason.
    fn parse_list(tokens: &Vec<Token>, start: usize, span: SourceLocation) -> (r: Result<
        (IgnoreConfig, usize),
        GrammarError,
    >)
        requires
            start <= tokens.len(),
        ensures
            match (r, spec_path_list(token_views(tokens@), start as int, span, Seq::empty())) {
                (Ok((v, q)), Ok((ps, sq))) => v@ == plain_config(ps) && q as int == sq,
                (Err(e), Err(se)) => e == se,
                _ => false,
            },
    {
        let (paths, next) = IgnorePaths::parse_list(tokens, start, span)?;
        Ok((IgnoreConfig::plain(paths), next))
    }

    fn parse_literal(tokens: &Vec<Token>, pos: usize) -> (r: Result<
        (IgnoreConfig, usize),
        GrammarError,
    >)
        requires
            pos < tokens.len(),
            tokens[pos as int].kind is Str || tokens[pos as int].kind is Literal,
        ensures
            agrees(r, spec_config(token_views(tokens@), pos as int)),
    {
        if is_str(tokens, pos) {
            Ok((IgnoreConfig::plain(IgnorePaths::from_lit_str(str_at(tokens, pos))), pos + 1))
        } else {
            Err(
                GrammarError {
                    kind: GrammarErrorKind::ExpectedStringLiteral,
                    span: tokens[pos].span,
                },
            )
        }
    }
}

} // verus!
