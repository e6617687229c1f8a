//! String literals and names as the grammar sees them: a text and where it
//! was written.

use vstd::prelude::*;
use vstd::string::*;
use crate::location::SourceLocation;

verus! {

/// A string literal: its value, escapes already resolved, and its location.
#[derive(Debug)]
pub struct StringLit {
    value: String,
    span: SourceLocation,
}

/// The mathematical content of a [`StringLit`].
pub ghost struct StringLitView {
    pub value: Seq<char>,
    pub span: SourceLocation,
}

impl View for StringLit {
    type V = StringLitView;

    closed spec fn view(&self) -> StringLitView {
        StringLitView { value: self.value@, span: self.span }
    }
}

impl Clone for StringLit {
    fn clone(&self) -> (r: Self)
        ensures
            r@ == self@,
    {
        StringLit { value: self.value.clone(), span: self.span }
    }
}

impl StringLit {
    pub fn new(value: &str, span: SourceLocation) -> (r: StringLit)
        ensures
            r@ == (StringLitView { value: value@, span }),
    {
        StringLit { value: String::from_str(value), span }
    }

    /// The text the literal stands for.
    pub fn value(&self) -> (r: String)
        ensures
            r@ == self@.value,
    {
        self.value.clone()
    }

    /// The text the literal stands for, borrowed.
    pub fn as_str(&self) -> (r: &str)
        ensures
            r@ == self@.value,
    {
        self.value.as_str()
    }

    pub fn span(&self) -> (r: SourceLocation)
        ensures
            r == self@.span,
    {
        self.span
    }
}

/// The view of an optional literal.
pub open spec fn option_view(o: Option<StringLit>) -> Option<StringLitView> {
    match o {
        Some(l) => Some(l@),
        None => None,
    }
}

/// A copy of an optional literal.
pub fn clone_option(o: &Option<StringLit>) -> (r: Option<StringLit>)
    ensures
        option_view(r) == option_view(*o),
{
    match o {
        Some(l) => Some(l.clone()),
        None => None,
    }
}

/// A name: its text and its location.
#[derive(Debug)]
pub struct Ident {
    name: String,
    span: SourceLocation,
}

/// The mathematical content of an [`Ident`].
pub ghost struct IdentView {
    pub name: Seq<char>,
    pub span: SourceLocation,
}

impl View for Ident {
    type V = IdentView;

    closed spec fn view(&self) -> IdentView {
        IdentView { name: self.name@, span: self.span }
    }
}

impl Ident {
    pub fn new(name: &str, span: SourceLocation) -> (r: Ident)
        ensures
            r@ == (IdentView { name: name@, span }),
    {
        Ident { name: String::from_str(name), span }
    }

    /// The text of the name.
    pub fn as_str(&self) -> (r: &str)
        ensures
            r@ == self@.name,
    {
        self.name.as_str()
    }

    pub fn span(&self) -> (r: SourceLocation)
        ensures
            r == self@.span,
    {
        self.span
    }
}

} // verus!
