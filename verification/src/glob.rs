//! Glob patterns, compiled and matched by the `globset` crate.

use vstd::prelude::*;
use vstd::string::*;
use crate::location::SourceLocation;

verus! {

#[verifier::external_type_specification]
#[verifier::external_body]
pub struct ExGlobSet(globset::GlobSet);

#[verifier::external_type_specification]
#[verifier::external_body]
pub struct ExGlobError(globset::Error);

/// Whether `globset` compiles the pattern: `GlobBuilder` accepts it, with
/// the separator literal or not as `literal_separator` says and its other
/// options as they are by default, and a `GlobSet` can be built from it.
/// This stands for the glob syntax of the target the library is built for:
/// where `\` separates paths, `globset` does not read it as an escape.
pub uninterp spec fn glob_compiles(pattern: Seq<char>, literal_separator: bool) -> bool;

/// Whether the glob `pattern`, once compiled, matches `path`. Where
/// `literal_separator` holds, `*` and `?` stay within one segment of the
/// path; where it does not, they match `/` too. This stands for the target
/// the library is built for: where `\` separates paths, `globset` reads it
/// in a path as `/`.
pub uninterp spec fn glob_matches(
    pattern: Seq<char>,
    literal_separator: bool,
    path: Seq<char>,
) -> bool;

/// The text of the error that compiling the pattern ends in, where it does
/// not compile.
pub uninterp spec fn glob_compile_report(pattern: Seq<char>, literal_separator: bool) -> Seq<
    char,
>;

/// The globs a `GlobSet` was built from, in the order they were added: the
/// text of each, and whether its separator is literal.
pub uninterp spec fn set_globs(set: globset::GlobSet) -> Seq<(Seq<char>, bool)>;

/// Calls `globset::GlobBuilder::new`, `literal_separator` and `build` on the
/// pattern, and `GlobSetBuilder` to build a `GlobSet` of that one glob; both
/// are one step here because whether the set builds depends on the options
/// a `Glob` carries. With `literal_separator` false this is what `Glob::new`
/// does. The contract claims that the outcome depends on the pattern's text
/// and the option alone: whether it succeeds, that the set then holds
/// exactly this glob, and what `globset` writes for the error of the step
/// that failed.
#[verifier::external_body]
fn compile_glob(pattern: &str, literal_separator: bool) -> (r: Result<
    globset::GlobSet,
    globset::Error,
>)
    ensures
        r is Ok <==> glob_compiles(pattern@, literal_separator),
        r matches Ok(set) ==> set_globs(set) == seq![(pattern@, literal_separator)],
        r matches Err(e) ==> glob_error_report(e) == glob_compile_report(
            pattern@,
            literal_separator,
        ),
{
    let glob = globset::GlobBuilder::new(pattern).literal_separator(literal_separator).build()?;
    globset::GlobSetBuilder::new().add(glob).build()
}

/// Calls `globset::GlobSet::is_match`, which is documented to return true
/// if any glob in the set matches the path.
#[verifier::external_body]
fn glob_set_is_match(set: &globset::GlobSet, path: &str) -> (r: bool)
    ensures
        r == (exists|i: int|
            0 <= i < set_globs(*set).len() && glob_matches(
                (#[trigger] set_globs(*set)[i]).0,
                set_globs(*set)[i].1,
                path@,
            )),
{
    set.is_match(path)
}

/// The text that `globset` writes for one of its errors: what the `Display`
/// impl of `globset::Error` produces, which reads the error's own glob and
/// kind and nothing else.
pub uninterp spec fn glob_error_report(error: globset::Error) -> Seq<char>;

/// Calls `to_string` on the error, that is the `Display` impl of
/// `globset::Error`. The contract claims only that the text depends on the
/// error alone; what the text says is not stated.
#[verifier::external_body]
fn glob_error_text(error: &globset::Error) -> (r: String)
    ensures
        r@ == glob_error_report(*error),
{
    error.to_string()
}

/// A compiled glob pattern.
pub struct Pattern {
    set: globset::GlobSet,
}

impl Pattern {
    #[verifier::type_invariant]
    spec fn holds_one_glob(self) -> bool {
        set_globs(self.set).len() == 1
    }

    /// The text the pattern was compiled from.
    pub closed spec fn text(&self) -> Seq<char> {
        set_globs(self.set)[0].0
    }

    /// Whether `*` and `?` of the pattern stay within one segment of a path.
    pub closed spec fn literal_separator(&self) -> bool {
        set_globs(self.set)[0].1
    }

    /// Compiles a glob pattern whose `*` and `?` match separators too.
    pub fn compile(pattern: &str) -> (r: Result<Pattern, globset::Error>)
        ensures
            r is Ok <==> glob_compiles(pattern@, false),
            r matches Ok(p) ==> p.text() == pattern@ && !p.literal_separator(),
            r matches Err(e) ==> glob_error_report(e) == glob_compile_report(pattern@, false),
    {
        match compile_glob(pattern, false) {
            Ok(set) => Ok(Pattern { set }),
            Err(e) => Err(e),
        }
    }

    /// Compiles a glob pattern whose `*` and `?` stay within one segment of
    /// a path: only `**` reaches across separators.
    pub fn compile_segments(pattern: &str) -> (r: Result<Pattern, globset::Error>)
        ensures
            r is Ok <==> glob_compiles(pattern@, true),
            r matches Ok(p) ==> p.text() == pattern@ && p.literal_separator(),
            r matches Err(e) ==> glob_error_report(e) == glob_compile_report(pattern@, true),
    {
        match compile_glob(pattern, true) {
            Ok(set) => Ok(Pattern { set }),
            Err(e) => Err(e),
        }
    }

    /// Whether the pattern matches `path`.
    pub fn is_match(&self, path: &str) -> (r: bool)
        ensures
            r == glob_matches(self.text(), self.literal_separator(), path@),
    {
        proof {
            use_type_invariant(self);
        }
        glob_set_is_match(&self.set, path)
    }
}

/// A glob pattern that does not compile: the pattern as it was handed to the
/// glob engine, where it was written, and what the engine said.
#[derive(Debug)]
pub struct PatternError {
    pattern: String,
    span: SourceLocation,
    cause: globset::Error,
}

/// The mathematical content of a [`PatternError`]: which pattern, where, and
/// the text of the glob engine's report.
pub ghost struct PatternErrorView {
    pub pattern: Seq<char>,
    pub span: SourceLocation,
    pub report: Seq<char>,
}

impl View for PatternError {
    type V = PatternErrorView;

    closed spec fn view(&self) -> PatternErrorView {
        PatternErrorView {
            pattern: self.pattern@,
            span: self.span,
            report: glob_error_report(self.cause),
        }
    }
}

impl PatternError {
    /// The error of the glob engine that this error was made with.
    pub closed spec fn spec_cause(&self) -> globset::Error {
        self.cause
    }

    pub fn new(pattern: String, span: SourceLocation, cause: globset::Error) -> (r: PatternError)
        ensures
            r@ == (PatternErrorView { pattern: pattern@, span, report: glob_error_report(cause) }),
            r.spec_cause() == cause,
    {
        PatternError { pattern, span, cause }
    }

    /// The pattern that did not compile.
    pub fn pattern(&self) -> (r: &str)
        ensures
            r@ == self@.pattern,
    {
        self.pattern.as_str()
    }

    /// Where the pattern was written.
    pub fn span(&self) -> (r: SourceLocation)
        ensures
            r == self@.span,
    {
        self.span
    }

    /// What the glob engine reported: the error this one was made with.
    pub fn cause(&self) -> (r: &globset::Error)
        ensures
            *r == self.spec_cause(),
    {
        &self.cause
    }

    /// The glob engine's report as text: what it writes for the error this
    /// one was made with.
    pub fn message(&self) -> (r: String)
        ensures
            r@ == glob_error_report(self.spec_cause()),
            r@ == self@.report,
    {
        glob_error_text(&self.cause)
    }
}

} // verus!
