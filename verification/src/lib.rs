//! Generates one named test descriptor per fixture file: a small
//! configuration grammar for the `ignore` argument, glob-based file
//! discovery and ignore matching, and collision-free identifier assignment.

use vstd::prelude::*;
use vstd::string::*;
use crate::descriptor::{
    describe, descriptor_views, find_collision, first_collision, identifiers_of, spec_describe,
    TestDescriptor, TestDescriptorView,
};
use crate::error::GrammarError;
use crate::glob::{PatternError, PatternErrorView};
use crate::ignore_matcher::{
    all_compile, reports_first_invalid, request_entry, spec_default_reason, spec_requests,
    IgnoreMatcher, IgnoreMatcherView, IgnoreRequest,
};
use crate::location::SourceLocation;
use crate::parse::args::{Args, ArgsView};
use crate::parse::ignore_attribute::{ignore_attributes, spec_ignore_attributes};
use crate::parse::spanned::Spanned;
use crate::resolver::{
    all_patterns_compile, path_texts, reports_first_invalid_pattern, spec_resolve, Resolver,
};
use crate::utils::attribute::{attribute_views, is_test, spec_is_test, Attribute, AttributeView};

pub mod descriptor;
pub mod error;
pub mod glob;
pub mod ignore_matcher;
pub mod lexer;
pub mod literal;
pub mod location;
pub mod names;
pub mod order;
pub mod parse;
pub mod resolver;
pub mod text;
pub mod token;
pub mod utils;

verus! {

/// Why a declaration yields no descriptors.
#[derive(Debug)]
pub enum FixturesError {
    /// An ignore attribute of the function is malformed.
    Grammar(GrammarError),
    /// A glob pattern does not compile.
    Pattern(PatternError),
    /// An ignore configuration on a function that is not a test; the
    /// location is the configuration's.
    IgnoreOutsideTest(SourceLocation),
    /// The patterns select no file; the location is that of the patterns.
    NoFiles(SourceLocation),
    /// Two files were given one identifier.
    DuplicateIdentifier(String),
}

/// The mathematical content of a [`FixturesError`].
pub ghost enum FixturesErrorView {
    Grammar(GrammarError),
    Pattern(PatternErrorView),
    IgnoreOutsideTest(SourceLocation),
    NoFiles(SourceLocation),
    DuplicateIdentifier(Seq<char>),
}

impl View for FixturesError {
    type V = FixturesErrorView;

    open spec fn view(&self) -> FixturesErrorView {
        match self {
            FixturesError::Grammar(e) => FixturesErrorView::Grammar(*e),
            FixturesError::Pattern(e) => FixturesErrorView::Pattern(e@),
            FixturesError::IgnoreOutsideTest(span) => FixturesErrorView::IgnoreOutsideTest(*span),
            FixturesError::NoFiles(span) => FixturesErrorView::NoFiles(*span),
            FixturesError::DuplicateIdentifier(identifier) => FixturesErrorView::DuplicateIdentifier(
                identifier@,
            ),
        }
    }
}

/// The view of the result of [`fixtures`].
pub open spec fn outcome_view(r: Result<Vec<TestDescriptor>, FixturesError>) -> Result<
    Seq<TestDescriptorView>,
    FixturesErrorView,
> {
    match r {
        Ok(descriptors) => Ok(descriptor_views(descriptors@)),
        Err(e) => Err(e@),
    }
}

/// The matcher that the requests of a declaration compile to.
pub open spec fn spec_matcher(args: ArgsView, requests: Seq<IgnoreRequest>) -> IgnoreMatcherView {
    IgnoreMatcherView {
        entries: requests.map_values(|q: IgnoreRequest| request_entry(q)),
        default_reason: spec_default_reason(args.ignore),
    }
}

/// Whether `identifier` is the one that the first two colliding descriptors
/// share.
pub open spec fn is_first_shared(descriptors: Seq<TestDescriptorView>, identifier: Seq<char>)
    -> bool {
    exists|i: int, j: int| #[trigger]
        first_collision(descriptors, i, j) && descriptors[i].identifier == identifier
}

/// What a declaration yields, stage by stage; each stage that fails ends
/// the whole:
/// the include patterns have to compile; the ignore attributes have to be
/// well-formed; the ignore patterns have to compile; an ignore configuration
/// needs a test function; the include patterns have to select a file of the
/// listing; and no two files may end up with one identifier. Then there is
/// one descriptor per selected file, in the listing's order.
pub open spec fn fixtures_outcome(
    args: ArgsView,
    attrs: Seq<AttributeView>,
    dir: Seq<char>,
    listing: Seq<Seq<char>>,
    r: Result<Seq<TestDescriptorView>, FixturesErrorView>,
) -> bool {
    let patterns = args.includes.paths;
    if !all_patterns_compile(patterns, dir) {
        r matches Err(FixturesErrorView::Pattern(e)) && reports_first_invalid_pattern(
            patterns,
            dir,
            e,
        )
    } else {
        match spec_ignore_attributes(attrs) {
            Err(e) => r == Err::<Seq<TestDescriptorView>, FixturesErrorView>(
                FixturesErrorView::Grammar(e),
            ),
            Ok(ignores) => {
                let requests = spec_requests(args.ignore, ignores, dir);
                let files = spec_resolve(patterns, dir, listing);
                let descriptors = spec_describe(files, spec_matcher(args, requests));
                if !all_compile(requests) {
                    r matches Err(FixturesErrorView::Pattern(e)) && reports_first_invalid(
                        requests,
                        e,
                    )
                } else if args.ignore is Some && !spec_is_test(attrs) {
                    r == Err::<Seq<TestDescriptorView>, FixturesErrorView>(
                        FixturesErrorView::IgnoreOutsideTest(args.ignore->Some_0.span),
                    )
                } else if files.len() == 0 {
                    r == Err::<Seq<TestDescriptorView>, FixturesErrorView>(
                        FixturesErrorView::NoFiles(args.includes.span),
                    )
                } else if !identifiers_of(descriptors).no_duplicates() {
                    r matches Err(FixturesErrorView::DuplicateIdentifier(identifier))
                        && is_first_shared(descriptors, identifier)
                } else {
                    r == Ok::<Seq<TestDescriptorView>, FixturesErrorView>(descriptors)
                }
            },
        }
    }
}

/// Turns a declaration into its test descriptors: `args` are its arguments,
/// `attrs` the attributes of the annotated function, `current_dir` the
/// directory that patterns are relative to, and `listing` the paths of the
/// files that exist below it.
pub fn fixtures(
    args: &Args,
    attrs: &Vec<Attribute>,
    current_dir: &str,
    listing: &Vec<String>,
) -> (r: Result<Vec<TestDescriptor>, FixturesError>)
    ensures
        fixtures_outcome(
            args@,
            attribute_views(attrs@),
            current_dir@,
            path_texts(listing@),
            outcome_view(r),
        ),
        r matches Ok(descriptors) ==> descriptors@.len() == spec_resolve(
            args@.includes.paths,
            current_dir@,
            path_texts(listing@),
        ).len(),
{
    let resolver = match Resolver::new(args.includes(), current_dir) {
        Ok(resolver) => resolver,
        Err(e) => {
            return Err(FixturesError::Pattern(e));
        },
    };
    let ignores = match ignore_attributes(attrs) {
        Ok(ignores) => ignores,
        Err(e) => {
            return Err(FixturesError::Grammar(e));
        },
    };
    let matcher = match IgnoreMatcher::new(args.ignore(), &ignores, current_dir) {
        Ok(matcher) => matcher,
        Err(e) => {
            return Err(FixturesError::Pattern(e));
        },
    };
    if let Some(ignore) = args.ignore() {
        if !is_test(attrs) {
            return Err(FixturesError::IgnoreOutsideTest(ignore.span()));
        }
    }
    let files = resolver.resolve(listing);
    if files.len() == 0 {
        return Err(FixturesError::NoFiles(args.includes().span()));
    }
    let descriptors = describe(&files, &matcher);
    match find_collision(&descriptors) {
        Some((i, _)) => Err(
            FixturesError::DuplicateIdentifier(descriptors[i].identifier.clone()),
        ),
        None => Ok(descriptors),
    }
}

} // verus!
