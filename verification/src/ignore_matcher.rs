//! Decides which discovered files are ignored, and why.

use vstd::prelude::*;
use vstd::string::*;
use crate::glob::{
    glob_compile_report, glob_compiles, glob_matches, Pattern, PatternError, PatternErrorView,
};
use crate::literal::{clone_option, option_view, StringLit, StringLitView};
use crate::location::SourceLocation;
use crate::parse::args::config_option_view;
use crate::parse::ignore_attribute::{
    ignore_attribute_views, IgnoreAttribute, IgnoreAttributeView,
};
use crate::parse::ignore_config::{IgnoreConfig, IgnoreConfigView, IgnorePathView};
use crate::parse::spanned::Spanned;
use crate::text::{join_path, spec_join_path};

verus! {

struct IgnoreGlob {
    matcher: Pattern,
    reason: Option<StringLit>,
}

/// One pattern of a matcher: the glob and the reason given with it.
pub ghost struct IgnoreEntry {
    pub pattern: Seq<char>,
    pub reason: Option<StringLitView>,
}

/// A pattern that a matcher is to be built from: the glob, taken relative to
/// the working directory, the reason given with it, and where it was written.
pub ghost struct IgnoreRequest {
    pub pattern: Seq<char>,
    pub reason: Option<StringLitView>,
    pub span: SourceLocation,
}

/// The ordered patterns that files are tested against, and the reason for
/// the entries that give none.
pub struct IgnoreMatcher {
    globs: Vec<IgnoreGlob>,
    default_reason: Option<StringLit>,
}

/// The mathematical content of an [`IgnoreMatcher`].
pub ghost struct IgnoreMatcherView {
    pub entries: Seq<IgnoreEntry>,
    pub default_reason: Option<StringLitView>,
}

/// The outcome of testing one file.
#[derive(Debug)]
pub enum MatchResult<'config> {
    Matched { reason: Option<&'config StringLit> },
    Unmatched,
}

/// The mathematical content of a [`MatchResult`].
pub ghost enum MatchResultView {
    Matched { reason: Option<StringLitView> },
    Unmatched,
}

impl IgnoreGlob {
    spec fn entry(self) -> IgnoreEntry {
        IgnoreEntry { pattern: self.matcher.text(), reason: option_view(self.reason) }
    }
}

spec fn glob_entries(globs: Seq<IgnoreGlob>) -> Seq<IgnoreEntry> {
    globs.map_values(|g: IgnoreGlob| g.entry())
}

/// Whether `*` and `?` match separators in every one of the globs, as they
/// do in ignore patterns.
spec fn all_cross_separators(globs: Seq<IgnoreGlob>) -> bool {
    forall|i: int| 0 <= i < globs.len() ==> !(#[trigger] globs[i]).matcher.literal_separator()
}

impl View for IgnoreMatcher {
    type V = IgnoreMatcherView;

    closed spec fn view(&self) -> IgnoreMatcherView {
        IgnoreMatcherView {
            entries: glob_entries(self.globs@),
            default_reason: option_view(self.default_reason),
        }
    }
}

impl<'config> View for MatchResult<'config> {
    type V = MatchResultView;

    open spec fn view(&self) -> MatchResultView {
        match self {
            MatchResult::Matched { reason: Some(r) } => MatchResultView::Matched {
                reason: Some(r@),
            },
            MatchResult::Matched { reason: None } => MatchResultView::Matched { reason: None },
            MatchResult::Unmatched => MatchResultView::Unmatched,
        }
    }
}

/// The request that an entry of the configuration makes.
pub open spec fn path_request(p: IgnorePathView, dir: Seq<char>) -> IgnoreRequest {
    IgnoreRequest { pattern: spec_join_path(dir, p.path.value), reason: p.reason, span: p.span }
}

/// The request that an ignore attribute makes.
pub open spec fn attribute_request(a: IgnoreAttributeView, dir: Seq<char>) -> IgnoreRequest {
    IgnoreRequest {
        pattern: spec_join_path(dir, a.args.paths.value),
        reason: a.args.reason,
        span: a.args.paths.span,
    }
}

/// The requests of the configuration, in its order; none where there is no
/// configuration.
pub open spec fn config_requests(config: Option<IgnoreConfigView>, dir: Seq<char>) -> Seq<
    IgnoreRequest,
> {
    match config {
        None => Seq::empty(),
        Some(c) => c.paths.paths.map_values(|p: IgnorePathView| path_request(p, dir)),
    }
}

/// The requests of the ignore attributes, in their order.
pub open spec fn attribute_requests(attrs: Seq<IgnoreAttributeView>, dir: Seq<char>) -> Seq<
    IgnoreRequest,
> {
    attrs.map_values(|a: IgnoreAttributeView| attribute_request(a, dir))
}

/// All requests: those of the configuration first, then those of the
/// attributes.
pub open spec fn spec_requests(
    config: Option<IgnoreConfigView>,
    attrs: Seq<IgnoreAttributeView>,
    dir: Seq<char>,
) -> Seq<IgnoreRequest> {
    config_requests(config, dir) + attribute_requests(attrs, dir)
}

/// The default reason of a configuration; none where there is no
/// configuration.
pub open spec fn spec_default_reason(config: Option<IgnoreConfigView>) -> Option<StringLitView> {
    match config {
        None => None,
        Some(c) => c.reason,
    }
}

/// The entry that a request becomes once its pattern is compiled.
pub open spec fn request_entry(r: IgnoreRequest) -> IgnoreEntry {
    IgnoreEntry { pattern: r.pattern, reason: r.reason }
}

/// Whether `k` is the first request whose pattern does not compile.
pub open spec fn is_first_invalid(requests: Seq<IgnoreRequest>, k: int) -> bool {
    &&& 0 <= k < requests.len()
    &&& !glob_compiles(requests[k].pattern, false)
    &&& forall|j: int| 0 <= j < k ==> glob_compiles(#[trigger] requests[j].pattern, false)
}

/// Whether `e` reports the first request whose pattern does not compile: the
/// pattern as it was handed to the glob engine, where it was written, and
/// what the engine writes of it.
pub open spec fn reports_first_invalid(requests: Seq<IgnoreRequest>, e: PatternErrorView) -> bool {
    exists|k: int|
        #[trigger] is_first_invalid(requests, k) && e == (PatternErrorView {
            pattern: requests[k].pattern,
            span: requests[k].span,
            report: glob_compile_report(requests[k].pattern, false),
        })
}

/// Whether every request's pattern compiles.
pub open spec fn all_compile(requests: Seq<IgnoreRequest>) -> bool {
    forall|j: int|
        0 <= j < requests.len() ==> glob_compiles(#[trigger] requests[j].pattern, false)
}

/// The index of the first entry at or behind `from` whose pattern matches
/// `path`.
pub open spec fn first_match(entries: Seq<IgnoreEntry>, path: Seq<char>, from: int) -> Option<int>
    decreases entries.len() - from,
{
    if from >= entries.len() {
        None
    } else if glob_matches(entries[from].pattern, false, path) {
        Some(from)
    } else {
        first_match(entries, path, from + 1)
    }
}

impl IgnoreMatcherView {
    /// The reason that applies where the entry `i` matches: its own, else the
    /// default, else none.
    pub open spec fn reason_of(self, i: int) -> Option<StringLitView> {
        match self.entries[i].reason {
            Some(r) => Some(r),
            None => self.default_reason,
        }
    }

    /// What testing `path` gives: unmatched where no pattern matches it,
    /// else matched by the first pattern that does, with the reason that
    /// applies to that entry.
    pub open spec fn matched(self, path: Seq<char>) -> MatchResultView {
        match first_match(self.entries, path, 0) {
            None => MatchResultView::Unmatched,
            Some(i) => MatchResultView::Matched { reason: self.reason_of(i) },
        }
    }
}

/// What [`first_match`] finds is a matching entry with none before it, and
/// it finds one whenever there is one.
pub proof fn lemma_first_match(entries: Seq<IgnoreEntry>, path: Seq<char>, from: int)
    requires
        0 <= from,
    ensures
        match first_match(entries, path, from) {
            Some(i) => {
                &&& from <= i < entries.len()
                &&& glob_matches(entries[i].pattern, false, path)
                &&& forall|j: int|
                    from <= j < i ==> !glob_matches(#[trigger] entries[j].pattern, false, path)
            },
            None => forall|j: int|
                from <= j < entries.len() ==> !glob_matches(
                    #[trigger] entries[j].pattern,
                    false,
                    path,
                ),
        },
    decreases entries.len() - from,
{
    if from < entries.len() && !glob_matches(entries[from].pattern, false, path) {
        lemma_first_match(entries, path, from + 1);
    }
}

/// Precedence: where the first entry that matches a path has a reason of its
/// own, that reason is the result's, whatever the default reason is.
pub proof fn lemma_entry_reason_wins(matcher: IgnoreMatcherView, path: Seq<char>, i: int)
    requires
        0 <= i < matcher.entries.len(),
        glob_matches(matcher.entries[i].pattern, false, path),
        forall|j: int|
            0 <= j < i ==> !glob_matches(#[trigger] matcher.entries[j].pattern, false, path),
        matcher.entries[i].reason is Some,
    ensures
        matcher.matched(path) == (MatchResultView::Matched { reason: matcher.entries[i].reason }),
{
    lemma_first_match(matcher.entries, path, 0);
}

/// Fallback: where the first entry that matches a path has no reason of its
/// own, the result's reason is the default reason, and the file is matched
/// even where there is none.
pub proof fn lemma_default_reason_applies(matcher: IgnoreMatcherView, path: Seq<char>, i: int)
    requires
        0 <= i < matcher.entries.len(),
        glob_matches(matcher.entries[i].pattern, false, path),
        forall|j: int|
            0 <= j < i ==> !glob_matches(#[trigger] matcher.entries[j].pattern, false, path),
        matcher.entries[i].reason is None,
    ensures
        matcher.matched(path) == (MatchResultView::Matched { reason: matcher.default_reason }),
{
    lemma_first_match(matcher.entries, path, 0);
}

/// A matcher without patterns matches no path, and one whose patterns all
/// fail to match a path leaves it unmatched.
pub proof fn lemma_unmatched(matcher: IgnoreMatcherView, path: Seq<char>)
    requires
        forall|j: int|
            0 <= j < matcher.entries.len() ==> !glob_matches(
                #[trigger] matcher.entries[j].pattern,
                false,
                path,
            ),
    ensures
        matcher.matched(path) == MatchResultView::Unmatched,
{
    lemma_first_match(matcher.entries, path, 0);
}

impl IgnoreMatcher {
    #[verifier::type_invariant]
    spec fn holds_ignore_globs(self) -> bool {
        all_cross_separators(self.globs@)
    }

    /// A matcher without patterns: it matches no file.
    pub fn empty() -> (r: IgnoreMatcher)
        ensures
            r@.entries.len() == 0,
            r@.default_reason is None,
    {
        IgnoreMatcher { globs: Vec::new(), default_reason: None }
    }

    /// Compiles the pattern of one request and adds it to `globs`.
    fn add(
        globs: &mut Vec<IgnoreGlob>,
        current_dir: &str,
        path: &StringLit,
        reason: &Option<StringLit>,
        span: SourceLocation,
    ) -> (r: Result<(), PatternError>)
        requires
            all_cross_separators(old(globs)@),
        ensures
            all_cross_separators(final(globs)@),
            r is Ok <==> glob_compiles(spec_join_path(current_dir@, path@.value), false),
            r is Ok ==> glob_entries(final(globs)@) == glob_entries(old(globs)@).push(
                IgnoreEntry {
                    pattern: spec_join_path(current_dir@, path@.value),
                    reason: option_view(*reason),
                },
            ),
            r matches Err(e) ==> e@ == (PatternErrorView {
                pattern: spec_join_path(current_dir@, path@.value),
                span,
                report: glob_compile_report(spec_join_path(current_dir@, path@.value), false),
            }),
    {
        let full_path = join_path(current_dir, path.as_str());
        match Pattern::compile(full_path.as_str()) {
            Ok(matcher) => {
                let glob = IgnoreGlob { matcher, reason: clone_option(reason) };
                let ghost before = glob_entries(globs@);
                globs.push(glob);
                assert(glob_entries(globs@) =~= before.push(glob.entry()));
                Ok(())
            },
            Err(err) => Err(PatternError::new(full_path, span, err)),
        }
    }

    /// Builds the matcher for a declaration: the patterns of the
    /// configuration first, then those of the ignore attributes, each taken
    /// relative to `current_dir`. The first pattern that does not compile
    /// aborts the construction.
    pub fn new(
        config: &Option<IgnoreConfig>,
        attributes: &Vec<IgnoreAttribute>,
        current_dir: &str,
    ) -> (r: Result<IgnoreMatcher, PatternError>)
        ensures
            r is Ok <==> all_compile(
                spec_requests(
                    config_option_view(*config),
                    ignore_attribute_views(attributes@),
                    current_dir@,
                ),
            ),
            r matches Ok(m) ==> {
                &&& m@.entries == spec_requests(
                    config_option_view(*config),
                    ignore_attribute_views(attributes@),
                    current_dir@,
                ).map_values(|q: IgnoreRequest| request_entry(q))
                &&& m@.default_reason == spec_default_reason(config_option_view(*config))
            },
            r matches Err(e) ==> reports_first_invalid(
                spec_requests(
                    config_option_view(*config),
                    ignore_attribute_views(attributes@),
                    current_dir@,
                ),
                e@,
            ),
    {
        let ghost from_config = config_requests(config_option_view(*config), current_dir@);
        let ghost from_attrs = attribute_requests(ignore_attribute_views(attributes@), current_dir@);
        let ghost requests = from_config + from_attrs;
        let mut globs: Vec<IgnoreGlob> = Vec::new();
        let mut default_reason: Option<StringLit> = None;
        assert(glob_entries(globs@) =~= Seq::empty());
        if let Some(given) = config {
            let paths = given.paths().paths();
            let mut i: usize = 0;
            while i < paths.len()
                invariant
                    i <= paths.len(),
                    paths@.len() == from_config.len(),
                    requests == from_config + from_attrs,
                    requests == spec_requests(
                        config_option_view(*config),
                        ignore_attribute_views(attributes@),
                        current_dir@,
                    ),
                    forall|j: int|
                        0 <= j < paths@.len() ==> #[trigger] from_config[j] == path_request(
                            paths@[j]@,
                            current_dir@,
                        ),
                    all_cross_separators(globs@),
                    glob_entries(globs@) == from_config.take(i as int).map_values(
                        |q: IgnoreRequest| request_entry(q),
                    ),
                    forall|j: int|
                        0 <= j < i ==> glob_compiles(#[trigger] requests[j].pattern, false),
                decreases paths.len() - i,
            {
                let path = &paths[i];
                let ghost before = from_config.take(i as int).map_values(
                    |q: IgnoreRequest| request_entry(q),
                );
                match IgnoreMatcher::add(
                    &mut globs,
                    current_dir,
                    path.path(),
                    path.reason(),
                    path.span(),
                ) {
                    Ok(()) => {},
                    Err(e) => {
                        assert(requests[i as int] == from_config[i as int]);
                        assert(is_first_invalid(requests, i as int));
                        return Err(e);
                    },
                }
                assert(from_config.take(i + 1).map_values(|q: IgnoreRequest| request_entry(q))
                    =~= before.push(request_entry(from_config[i as int])));
                i += 1;
            }
            assert(from_config.take(i as int) =~= from_config);
            default_reason = clone_option(given.reason());
        }
        let ghost compiled = from_config.map_values(|q: IgnoreRequest| request_entry(q));
        assert(from_config.take(from_config.len() as int) =~= from_config);
        let mut i: usize = 0;
        while i < attributes.len()
            invariant
                i <= attributes.len(),
                attributes@.len() == from_attrs.len(),
                requests == from_config + from_attrs,
                requests == spec_requests(
                    config_option_view(*config),
                    ignore_attribute_views(attributes@),
                    current_dir@,
                ),
                compiled == from_config.map_values(|q: IgnoreRequest| request_entry(q)),
                forall|j: int|
                    0 <= j < attributes@.len() ==> #[trigger] from_attrs[j] == attribute_request(
                        attributes@[j]@,
                        current_dir@,
                    ),
                all_cross_separators(globs@),
                glob_entries(globs@) == compiled + from_attrs.take(i as int).map_values(
                    |q: IgnoreRequest| request_entry(q),
                ),
                forall|j: int|
                    0 <= j < from_config.len() + i ==> glob_compiles(
                        #[trigger] requests[j].pattern,
                        false,
                    ),
            decreases attributes.len() - i,
        {
            let attr = &attributes[i];
            let ghost before = compiled + from_attrs.take(i as int).map_values(
                |q: IgnoreRequest| request_entry(q),
            );
            match IgnoreMatcher::add(
                &mut globs,
                current_dir,
                &attr.args().paths,
                &attr.args().reason,
                attr.args().paths.span(),
            ) {
                Ok(()) => {},
                Err(e) => {
                    assert(requests[from_config.len() + i] == from_attrs[i as int]);
                    assert(is_first_invalid(requests, from_config.len() + i));
                    return Err(e);
                },
            }
            assert(requests[from_config.len() + i] == from_attrs[i as int]);
            assert(compiled + from_attrs.take(i + 1).map_values(
                |q: IgnoreRequest| request_entry(q),
            ) =~= before.push(request_entry(from_attrs[i as int])));
            i += 1;
        }
        assert(from_attrs.take(i as int) =~= from_attrs);
        assert(requests.map_values(|q: IgnoreRequest| request_entry(q)) =~= compiled
            + from_attrs.map_values(|q: IgnoreRequest| request_entry(q)));
        Ok(IgnoreMatcher { globs, default_reason })
    }

    /// Tests one file: the first pattern that matches its path decides, and
    /// the entry's own reason goes before the default one.
    pub fn matched(&self, path: &str) -> (r: MatchResult<'_>)
        ensures
            r@ == self@.matched(path@),
    {
        proof {
            use_type_invariant(self);
        }
        if self.globs.len() == 0 {
            return MatchResult::Unmatched;
        }
        let mut i: usize = 0;
        while i < self.globs.len()
            invariant
                i <= self.globs.len(),
                all_cross_separators(self.globs@),
                first_match(self@.entries, path@, 0) == first_match(self@.entries, path@, i as int),
            decreases self.globs.len() - i,
        {
            let glob = &self.globs[i];
            assert(self@.entries[i as int] == glob.entry());
            if glob.matcher.is_match(path) {
                return match &glob.reason {
                    Some(reason) => MatchResult::Matched { reason: Some(reason) },
                    None => match &self.default_reason {
                        Some(reason) => MatchResult::Matched { reason: Some(reason) },
                        None => MatchResult::Matched { reason: None },
                    },
                };
            }
            i += 1;
        }
        MatchResult::Unmatched
    }
}

} // verus!
