//! The errors of the configuration grammar.

use vstd::prelude::*;
use vstd::string::*;
use crate::location::SourceLocation;

verus! {

/// The fields an object of the grammar can hold.
#[derive(Clone, Copy, Debug, PartialEq, Eq, Structural)]
pub enum Field {
    Paths,
    Path,
    Reason,
}

/// What went wrong while reading the configuration.
#[derive(Clone, Copy, Debug, PartialEq, Eq, Structural)]
pub enum GrammarErrorKind {
    /// A string literal is opened and never closed.
    UnterminatedString,
    /// A string literal holds an escape that is not one.
    InvalidString,
    /// An ignore configuration starts with something that is neither a
    /// list, an object nor a string literal.
    ExpectedConfig,
    /// An ignore configuration is delimited by something other than braces
    /// or brackets.
    ConfigDelimiter,
    /// The value of `paths` is neither a list, an object nor a string literal.
    ExpectedPaths,
    /// The value of `paths` is delimited by something other than braces or
    /// brackets.
    PathsDelimiter,
    /// A list element is neither a string literal nor an object.
    ExpectedPath,
    /// A string literal was required.
    ExpectedStringLiteral,
    /// A field or option name was required.
    ExpectedIdentifier,
    /// An `=` was required after a name.
    ExpectedEquals,
    /// A `,` was required between two fields or elements.
    ExpectedComma,
    /// A list in square brackets was required.
    ExpectedBracket,
    /// A field was assigned twice within one object.
    DuplicateField(Field),
    /// A configuration object holds a field other than `paths` and `reason`.
    UnknownConfigField,
    /// A path object holds a field other than `path` and `reason`.
    UnknownPathField,
    /// An object lacks the field it cannot do without.
    MissingField(Field),
    /// The `ignore` option is given twice.
    DuplicateIgnore,
    /// An option other than `ignore`.
    InvalidOption,
    /// An option has to start with its name.
    ExpectedOption,
    /// Something follows where the input had to end.
    UnexpectedToken,
    /// The arguments of an ignore attribute are not in parentheses.
    ExpectedParentheses,
}

/// A grammar error and the location of the token that caused it.
#[derive(Clone, Copy, Debug, PartialEq, Eq, Structural)]
pub struct GrammarError {
    pub kind: GrammarErrorKind,
    pub span: SourceLocation,
}

impl GrammarErrorKind {
    /// The text of the diagnostic for each kind of error.
    pub open spec fn spec_message(self) -> Seq<char> {
        match self {
            GrammarErrorKind::UnterminatedString => "Unterminated string literal."@,
            GrammarErrorKind::InvalidString => "Invalid string literal."@,
            GrammarErrorKind::ExpectedConfig => "Expected list, object, or string literal."@,
            GrammarErrorKind::ConfigDelimiter => "Unexpected delimiter. Expected brace, bracket, or string literal."@,
            GrammarErrorKind::ExpectedPaths => "Expected list, object or string literal."@,
            GrammarErrorKind::PathsDelimiter => "Unexpected delimiter. Expected bracket or string literal."@,
            GrammarErrorKind::ExpectedPath => "Expected a string literal or object"@,
            GrammarErrorKind::ExpectedStringLiteral => "Expected a string literal"@,
            GrammarErrorKind::ExpectedIdentifier => "Expected an identifier"@,
            GrammarErrorKind::ExpectedEquals => "Expected `=`"@,
            GrammarErrorKind::ExpectedComma => "Expected `,`"@,
            GrammarErrorKind::ExpectedBracket => "Expected square brackets"@,
            GrammarErrorKind::DuplicateField(_) => "Duplicate assignment."@,
            GrammarErrorKind::UnknownConfigField => "Invalid field identifier. Expected 'paths' or 'reason'."@,
            GrammarErrorKind::UnknownPathField => "Invalid field identifier. Expected 'path' or 'reason'."@,
            GrammarErrorKind::MissingField(Field::Paths) => "The 'paths' field is missing."@,
            GrammarErrorKind::MissingField(Field::Path) => "The 'path' field is missing."@,
            GrammarErrorKind::MissingField(Field::Reason) => "The 'reason' field is missing."@,
            GrammarErrorKind::DuplicateIgnore => "Duplicate ignore assignment"@,
            GrammarErrorKind::InvalidOption => "Invalid option"@,
            GrammarErrorKind::ExpectedOption => "Expected option identifier"@,
            GrammarErrorKind::UnexpectedToken => "Unexpected token."@,
            GrammarErrorKind::ExpectedParentheses => "Expected parentheses"@,
        }
    }

    fn text(self) -> (r: &'static str)
        ensures
            r@ == self.spec_message(),
    {
        match self {
            GrammarErrorKind::UnterminatedString => "Unterminated string literal.",
            GrammarErrorKind::InvalidString => "Invalid string literal.",
            GrammarErrorKind::ExpectedConfig => "Expected list, object, or string literal.",
            GrammarErrorKind::ConfigDelimiter => "Unexpected delimiter. Expected brace, bracket, or string literal.",
            GrammarErrorKind::ExpectedPaths => "Expected list, object or string literal.",
            GrammarErrorKind::PathsDelimiter => "Unexpected delimiter. Expected bracket or string literal.",
            GrammarErrorKind::ExpectedPath => "Expected a string literal or object",
            GrammarErrorKind::ExpectedStringLiteral => "Expected a string literal",
            GrammarErrorKind::ExpectedIdentifier => "Expected an identifier",
            GrammarErrorKind::ExpectedEquals => "Expected `=`",
            GrammarErrorKind::ExpectedComma => "Expected `,`",
            GrammarErrorKind::ExpectedBracket => "Expected square brackets",
            GrammarErrorKind::DuplicateField(_) => "Duplicate assignment.",
            GrammarErrorKind::UnknownConfigField => "Invalid field identifier. Expected 'paths' or 'reason'.",
            GrammarErrorKind::UnknownPathField => "Invalid field identifier. Expected 'path' or 'reason'.",
            GrammarErrorKind::MissingField(Field::Paths) => "The 'paths' field is missing.",
            GrammarErrorKind::MissingField(Field::Path) => "The 'path' field is missing.",
            GrammarErrorKind::MissingField(Field::Reason) => "The 'reason' field is missing.",
            GrammarErrorKind::DuplicateIgnore => "Duplicate ignore assignment",
            GrammarErrorKind::InvalidOption => "Invalid option",
            GrammarErrorKind::ExpectedOption => "Expected option identifier",
            GrammarErrorKind::UnexpectedToken => "Unexpected token.",
            GrammarErrorKind::ExpectedParentheses => "Expected parentheses",
        }
    }
}

impl GrammarError {
    pub fn new(kind: GrammarErrorKind, span: SourceLocation) -> (r: GrammarError)
        ensures
            r == (GrammarError { kind, span }),
    {
        GrammarError { kind, span }
    }

    /// The diagnostic text of the error.
    pub fn message(&self) -> (r: String)
        ensures
            r@ == self.kind.spec_message(),
    {
        String::from_str(self.kind.text())
    }
}

} // verus!
