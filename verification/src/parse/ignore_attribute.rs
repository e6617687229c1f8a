//! Ignore attributes on the annotated function: `#[fixtures::ignore(..)]`.

use vstd::prelude::*;
use crate::error::{GrammarError, GrammarErrorKind};
use crate::location::SourceLocation;
use crate::parse::ignore_args::{spec_ignore_args, IgnoreArgs, IgnoreArgsView};
use crate::parse::parse_tokens;
use crate::parse::spanned::Spanned;
use crate::token::{spec_complete, Delimiter};
use crate::utils::attribute::{
    attribute_path_is, attribute_views, spec_attribute_path_is, str_views, AttrStyle, Attribute,
    AttributeView, Meta, MetaView,
};

verus! {

/// An ignore attribute: its arguments and the location of the attribute.
#[derive(Debug)]
pub struct IgnoreAttribute {
    span: SourceLocation,
    pub args: IgnoreArgs,
}

/// The mathematical content of an [`IgnoreAttribute`].
pub ghost struct IgnoreAttributeView {
    pub span: SourceLocation,
    pub args: IgnoreArgsView,
}

impl View for IgnoreAttribute {
    type V = IgnoreAttributeView;

    closed spec fn view(&self) -> IgnoreAttributeView {
        IgnoreAttributeView { span: self.span, args: self.args@ }
    }
}

/// What an attribute is to the ignore logic: nothing, unless it is an outer
/// attribute with the path `fixtures::ignore` and delimited tokens; then its
/// tokens have to stand in parentheses and hold the arguments, whole.
pub open spec fn spec_try_from_attribute(attr: AttributeView) -> Result<
    Option<IgnoreAttributeView>,
    GrammarError,
> {
    if attr.style != AttrStyle::Outer {
        Ok(None)
    } else {
        match attr.meta {
            MetaView::List { path, delimiter, delimiter_span, tokens } => {
                if !spec_attribute_path_is(path, seq!["fixtures"@, "ignore"@]) {
                    Ok(None)
                } else if delimiter != Delimiter::Parenthesis {
                    Err(
                        GrammarError {
                            kind: GrammarErrorKind::ExpectedParentheses,
                            span: delimiter_span,
                        },
                    )
                } else {
                    match spec_complete(tokens, spec_ignore_args(tokens, 0)) {
                        Ok(args) => Ok(Some(IgnoreAttributeView { span: attr.span, args })),
                        Err(e) => Err(e),
                    }
                }
            },
            _ => Ok(None),
        }
    }
}

/// The view of an optional ignore attribute.
pub open spec fn attribute_option_view(o: Option<IgnoreAttribute>) -> Option<IgnoreAttributeView> {
    match o {
        Some(a) => Some(a@),
        None => None,
    }
}

impl IgnoreAttribute {
    /// The arguments of the attribute.
    pub fn args(&self) -> (r: &IgnoreArgs)
        ensures
            r@ == self@.args,
    {
        &self.args
    }

    /// Reads an attribute of the annotated function: `None` where it is not
    /// an ignore attribute, its arguments where it is one.
    pub fn try_from_attribute(attr: &Attribute) -> (r: Result<Option<Self>, GrammarError>)
        ensures
            match (r, spec_try_from_attribute(attr@)) {
                (Ok(v), Ok(sv)) => attribute_option_view(v) == sv,
                (Err(e), Err(se)) => e == se,
                _ => false,
            },
    {
        match attr.style {
            AttrStyle::Outer => {},
            AttrStyle::Inner => {
                return Ok(None);
            },
        }
        match &attr.meta {
            Meta::List { path, delimiter, delimiter_span, tokens } => {
                let is_ignore = attribute_path_is(path, ["fixtures", "ignore"]);
                assert(str_views(["fixtures", "ignore"]@) =~= seq!["fixtures"@, "ignore"@]);
                if !is_ignore {
                    return Ok(None);
                }
                match delimiter {
                    Delimiter::Parenthesis => {},
                    _ => {
                        return Err(
                            GrammarError {
                                kind: GrammarErrorKind::ExpectedParentheses,
                                span: *delimiter_span,
                            },
                        );
                    },
                }
                let args = parse_tokens::<IgnoreArgs>(tokens)?;
                Ok(Some(IgnoreAttribute { span: attr.span, args }))
            },
            _ => Ok(None),
        }
    }
}

impl Spanned for IgnoreAttribute {
    open spec fn spec_span(&self) -> SourceLocation {
        self@.span
    }

    fn span(&self) -> (r: SourceLocation) {
        self.span
    }
}

/// The views of a sequence of ignore attributes, in order.
pub open spec fn ignore_attribute_views(attrs: Seq<IgnoreAttribute>) -> Seq<IgnoreAttributeView> {
    attrs.map_values(|a: IgnoreAttribute| a@)
}

/// The ignore attributes among the attributes of a function, in their order,
/// or the error of the first attribute that is one and is malformed.
pub open spec fn spec_ignore_attributes(attrs: Seq<AttributeView>) -> Result<
    Seq<IgnoreAttributeView>,
    GrammarError,
>
    decreases attrs.len(),
{
    if attrs.len() == 0 {
        Ok(Seq::empty())
    } else {
        match spec_ignore_attributes(attrs.drop_last()) {
            Err(e) => Err(e),
            Ok(found) => match spec_try_from_attribute(attrs.last()) {
                Err(e) => Err(e),
                Ok(None) => Ok(found),
                Ok(Some(a)) => Ok(found.push(a)),
            },
        }
    }
}

/// Picks the ignore attributes out of the attributes of a function.
pub fn ignore_attributes(attrs: &Vec<Attribute>) -> (r: Result<Vec<IgnoreAttribute>, GrammarError>)
    ensures
        match (r, spec_ignore_attributes(attribute_views(attrs@))) {
            (Ok(v), Ok(sv)) => ignore_attribute_views(v@) == sv,
            (Err(e), Err(se)) => e == se,
            _ => false,
        },
{
    let ghost views = attribute_views(attrs@);
    let mut found: Vec<IgnoreAttribute> = Vec::new();
    let mut i: usize = 0;
    assert(views.take(0) =~= Seq::empty());
    assert(ignore_attribute_views(found@) =~= Seq::empty());
    while i < attrs.len()
        invariant
            i <= attrs.len(),
            views == attribute_views(attrs@),
            spec_ignore_attributes(views.take(i as int)) == Ok::<
                Seq<IgnoreAttributeView>,
                GrammarError,
            >(ignore_attribute_views(found@)),
        decreases attrs.len() - i,
    {
        assert(views.take(i + 1).drop_last() =~= views.take(i as int));
        assert(views.take(i + 1).last() == attrs@[i as int]@);
        match IgnoreAttribute::try_from_attribute(&attrs[i]) {
            Err(e) => {
                proof {
                    lemma_ignore_attributes_error(views, i + 1);
                }
                return Err(e);
            },
            Ok(None) => {},
            Ok(Some(attribute)) => {
                let ghost before = ignore_attribute_views(found@);
                found.push(attribute);
                assert(ignore_attribute_views(found@) =~= before.push(attribute@));
            },
        }
        i += 1;
    }
    assert(views.take(i as int) =~= views);
    Ok(found)
}

/// An error among the first attributes is the error of them all.
pub proof fn lemma_ignore_attributes_error(attrs: Seq<AttributeView>, n: int)
    requires
        0 <= n <= attrs.len(),
        spec_ignore_attributes(attrs.take(n)) is Err,
    ensures
        spec_ignore_attributes(attrs) == spec_ignore_attributes(attrs.take(n)),
    decreases attrs.len() - n,
{
    if n == attrs.len() {
        assert(attrs.take(n) =~= attrs);
    } else {
        assert(attrs.take(n + 1).drop_last() =~= attrs.take(n));
        lemma_ignore_attributes_error(attrs, n + 1);
    }
}

} // verus!
