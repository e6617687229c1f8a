//! Attributes of the annotated function, as far as the library reads them.

use vstd::prelude::*;
use vstd::string::*;
use crate::location::SourceLocation;
use crate::text::same_text;
use crate::token::{token_views, Delimiter, Token, TokenView};

verus! {

/// Whether an attribute stands before the item or inside it.
#[derive(Clone, Copy, Debug, PartialEq, Eq, Structural)]
pub enum AttrStyle {
    Outer,
    Inner,
}

/// The path of an attribute, such as `fixtures::ignore`.
#[derive(Debug)]
pub struct AttributePath {
    pub leading_colon: bool,
    pub segments: Vec<String>,
}

/// What stands behind the `#` of an attribute.
#[derive(Debug)]
pub enum Meta {
    /// A path alone, as in `#[test]`.
    Path(AttributePath),
    /// A path and delimited tokens, as in `#[fixtures::ignore("a.txt")]`.
    List { path: AttributePath, delimiter: Delimiter, delimiter_span: SourceLocation, tokens: Vec<Token> },
    /// A path and a value, as in `#[doc = "text"]`.
    NameValue(AttributePath),
}

/// An attribute and where it was written.
#[derive(Debug)]
pub struct Attribute {
    pub style: AttrStyle,
    pub meta: Meta,
    pub span: SourceLocation,
}

/// The mathematical content of an [`AttributePath`].
pub ghost struct AttributePathView {
    pub leading_colon: bool,
    pub segments: Seq<Seq<char>>,
}

/// The mathematical content of a [`Meta`].
pub ghost enum MetaView {
    Path(AttributePathView),
    List { path: AttributePathView, delimiter: Delimiter, delimiter_span: SourceLocation, tokens: Seq<TokenView> },
    NameValue(AttributePathView),
}

/// The mathematical content of an [`Attribute`].
pub ghost struct AttributeView {
    pub style: AttrStyle,
    pub meta: MetaView,
    pub span: SourceLocation,
}

/// The texts of a sequence of strings, in order.
pub open spec fn string_views(strings: Seq<String>) -> Seq<Seq<char>> {
    strings.map_values(|s: String| s@)
}

/// The texts of a sequence of string slices, in order.
pub open spec fn str_views(strings: Seq<&str>) -> Seq<Seq<char>> {
    strings.map_values(|s: &str| s@)
}

impl View for AttributePath {
    type V = AttributePathView;

    open spec fn view(&self) -> AttributePathView {
        AttributePathView {
            leading_colon: self.leading_colon,
            segments: string_views(self.segments@),
        }
    }
}

impl View for Meta {
    type V = MetaView;

    open spec fn view(&self) -> MetaView {
        match self {
            Meta::Path(p) => MetaView::Path(p@),
            Meta::List { path, delimiter, delimiter_span, tokens } => MetaView::List {
                path: path@,
                delimiter: *delimiter,
                delimiter_span: *delimiter_span,
                tokens: token_views(tokens@),
            },
            Meta::NameValue(p) => MetaView::NameValue(p@),
        }
    }
}

impl View for Attribute {
    type V = AttributeView;

    open spec fn view(&self) -> AttributeView {
        AttributeView { style: self.style, meta: self.meta@, span: self.span }
    }
}

/// A path is the given one if it has no leading colons and exactly the given
/// segments, in order.
pub open spec fn spec_attribute_path_is(path: AttributePathView, segments: Seq<Seq<char>>) -> bool {
    !path.leading_colon && path.segments == segments
}

/// Whether the attribute marks a test: an outer attribute that is the bare
/// path `test`.
pub open spec fn spec_is_test_attribute(attr: AttributeView) -> bool {
    attr.style == AttrStyle::Outer && match attr.meta {
        MetaView::Path(p) => spec_attribute_path_is(p, seq!["test"@]),
        _ => false,
    }
}

/// Whether any of the attributes marks a test.
pub open spec fn spec_is_test(attrs: Seq<AttributeView>) -> bool {
    exists|i: int| 0 <= i < attrs.len() && spec_is_test_attribute(#[trigger] attrs[i])
}

/// The views of a sequence of attributes, in order.
pub open spec fn attribute_views(attrs: Seq<Attribute>) -> Seq<AttributeView> {
    attrs.map_values(|a: Attribute| a@)
}

/// Whether `path` is exactly the path made of `segments`.
pub fn attribute_path_is<const N: usize>(path: &AttributePath, segments: [&str; N]) -> (r: bool)
    ensures
        r == spec_attribute_path_is(path@, str_views(segments@)),
{
    if path.leading_colon {
        return false;
    }
    assert(str_views(segments@).len() == N);
    assert(string_views(path.segments@).len() == path.segments.len());
    if path.segments.len() != N {
        return false;
    }
    let mut i: usize = 0;
    while i < N
        invariant
            i <= N,
            path.segments.len() == N,
            segments@.len() == N,
            forall|j: int|
                0 <= j < i ==> #[trigger] string_views(path.segments@)[j] == str_views(
                    segments@,
                )[j],
        decreases N - i,
    {
        if !same_text(path.segments[i].as_str(), segments[i]) {
            assert(string_views(path.segments@)[i as int] != str_views(segments@)[i as int]);
            return false;
        }
        i += 1;
    }
    assert(string_views(path.segments@) =~= str_views(segments@));
    true
}

/// Whether the attribute marks a test.
pub fn is_test_attribute(attr: &Attribute) -> (r: bool)
    ensures
        r == spec_is_test_attribute(attr@),
{
    match attr.style {
        AttrStyle::Outer => {},
        AttrStyle::Inner => {
            return false;
        },
    }
    match &attr.meta {
        Meta::Path(path) => {
            let r = attribute_path_is(path, ["test"]);
            assert(str_views(["test"]@) =~= seq!["test"@]);
            r
        },
        _ => false,
    }
}

/// Whether any of the attributes marks a test.
pub fn is_test(attrs: &Vec<Attribute>) -> (r: bool)
    ensures
        r == spec_is_test(attribute_views(attrs@)),
{
    let mut i: usize = 0;
    while i < attrs.len()
        invariant
            i <= attrs.len(),
            forall|j: int|
                0 <= j < i ==> !spec_is_test_attribute(#[trigger] attribute_views(attrs@)[j]),
        decreases attrs.len() - i,
    {
        if is_test_attribute(&attrs[i]) {
            assert(spec_is_test_attribute(attribute_views(attrs@)[i as int]));
            return true;
        }
        i += 1;
    }
    false
}

} // verus!
