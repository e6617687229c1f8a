//! Pattern resolution: which files of a listing the include patterns select.

use vstd::prelude::*;
use vstd::string::*;
use crate::glob::{
    glob_compile_report, glob_compiles, glob_matches, Pattern, PatternError, PatternErrorView,
};
use crate::literal::StringLitView;
use crate::parse::paths::{literal_views, Paths};
use crate::text::{base_name, join_path, spec_base_name, spec_join_path};

verus! {

/// A file that pattern resolution selected: its path and its file name.
#[derive(Debug)]
pub struct DiscoveredFile {
    path: String,
    file_name: String,
}

/// The mathematical content of a [`DiscoveredFile`].
pub ghost struct DiscoveredFileView {
    pub path: Seq<char>,
    pub file_name: Seq<char>,
}

impl View for DiscoveredFile {
    type V = DiscoveredFileView;

    closed spec fn view(&self) -> DiscoveredFileView {
        DiscoveredFileView { path: self.path@, file_name: self.file_name@ }
    }
}

/// The file that a path of the listing stands for.
pub open spec fn file_of(path: Seq<char>) -> DiscoveredFileView {
    DiscoveredFileView { path, file_name: spec_base_name(path) }
}

/// The views of a sequence of files, in order.
pub open spec fn file_views(files: Seq<DiscoveredFile>) -> Seq<DiscoveredFileView> {
    files.map_values(|f: DiscoveredFile| f@)
}

/// The texts of a sequence of strings, in order.
pub open spec fn path_texts(paths: Seq<String>) -> Seq<Seq<char>> {
    paths.map_values(|s: String| s@)
}

impl DiscoveredFile {
    /// The file at `path`; its file name is what stands behind the last
    /// separator.
    pub fn new(path: &str) -> (r: DiscoveredFile)
        ensures
            r@ == file_of(path@),
    {
        DiscoveredFile { path: String::from_str(path), file_name: base_name(path) }
    }

    pub fn path(&self) -> (r: &str)
        ensures
            r@ == self@.path,
    {
        self.path.as_str()
    }

    pub fn file_name(&self) -> (r: &str)
        ensures
            r@ == self@.file_name,
    {
        self.file_name.as_str()
    }
}

/// Whether a pattern excludes: it does where it starts with `!`.
pub open spec fn is_exclusion(pattern: Seq<char>) -> bool {
    pattern.len() > 0 && pattern[0] == '!'
}

/// The glob that a pattern hands to the glob engine: the pattern without its
/// exclusion mark, taken relative to the working directory.
pub open spec fn pattern_glob(pattern: Seq<char>, dir: Seq<char>) -> Seq<char> {
    if is_exclusion(pattern) {
        spec_join_path(dir, pattern.skip(1))
    } else {
        spec_join_path(dir, pattern)
    }
}

/// Whether some including pattern matches `path`.
pub open spec fn included(patterns: Seq<StringLitView>, dir: Seq<char>, path: Seq<char>) -> bool {
    exists|i: int|
        0 <= i < patterns.len() && !is_exclusion(#[trigger] patterns[i].value) && glob_matches(
            pattern_glob(patterns[i].value, dir),
            true,
            path,
        )
}

/// Whether some excluding pattern matches `path`.
pub open spec fn excluded(patterns: Seq<StringLitView>, dir: Seq<char>, path: Seq<char>) -> bool {
    exists|i: int|
        0 <= i < patterns.len() && is_exclusion(#[trigger] patterns[i].value) && glob_matches(
            pattern_glob(patterns[i].value, dir),
            true,
            path,
        )
}

/// Whether the patterns select `path`: at least one including pattern matches
/// it and no excluding pattern does, in whatever order they were declared.
/// In these patterns `*` and `?` stay within one segment of the path.
pub open spec fn selects(patterns: Seq<StringLitView>, dir: Seq<char>, path: Seq<char>) -> bool {
    included(patterns, dir, path) && !excluded(patterns, dir, path)
}

/// The files that the patterns select from a listing, in the listing's order.
pub open spec fn spec_resolve(
    patterns: Seq<StringLitView>,
    dir: Seq<char>,
    listing: Seq<Seq<char>>,
) -> Seq<DiscoveredFileView> {
    listing.filter(|p: Seq<char>| selects(patterns, dir, p)).map_values(
        |p: Seq<char>| file_of(p),
    )
}

/// Whether `k` is the first pattern whose glob does not compile.
pub open spec fn is_first_invalid_pattern(
    patterns: Seq<StringLitView>,
    dir: Seq<char>,
    k: int,
) -> bool {
    &&& 0 <= k < patterns.len()
    &&& !glob_compiles(pattern_glob(patterns[k].value, dir), true)
    &&& forall|j: int|
        0 <= j < k ==> glob_compiles(pattern_glob(#[trigger] patterns[j].value, dir), true)
}

/// Whether `e` reports the first pattern whose glob does not compile: the
/// glob as it was handed to the glob engine, where the pattern was written,
/// and what the engine writes of it.
pub open spec fn reports_first_invalid_pattern(
    patterns: Seq<StringLitView>,
    dir: Seq<char>,
    e: PatternErrorView,
) -> bool {
    exists|k: int|
        #[trigger] is_first_invalid_pattern(patterns, dir, k) && e == (PatternErrorView {
            pattern: pattern_glob(patterns[k].value, dir),
            span: patterns[k].span,
            report: glob_compile_report(pattern_glob(patterns[k].value, dir), true),
        })
}

/// Whether the glob of every pattern compiles.
pub open spec fn all_patterns_compile(patterns: Seq<StringLitView>, dir: Seq<char>) -> bool {
    forall|j: int|
        0 <= j < patterns.len() ==> glob_compiles(
            pattern_glob(#[trigger] patterns[j].value, dir),
            true,
        )
}

struct ResolverGlob {
    matcher: Pattern,
    excludes: bool,
}

/// The compiled include and exclude patterns of a declaration.
pub struct Resolver {
    globs: Vec<ResolverGlob>,
    patterns: Ghost<Seq<StringLitView>>,
    dir: Ghost<Seq<char>>,
}

impl Resolver {
    #[verifier::type_invariant]
    spec fn compiled_from_patterns(self) -> bool {
        &&& self.globs@.len() == self.patterns@.len()
        &&& forall|i: int|
            0 <= i < self.globs@.len() ==> {
                &&& (#[trigger] self.globs@[i]).excludes == is_exclusion(self.patterns@[i].value)
                &&& self.globs@[i].matcher.text() == pattern_glob(self.patterns@[i].value, self.dir@)
                &&& self.globs@[i].matcher.literal_separator()
            }
    }

    /// The patterns the resolver was compiled from.
    pub closed spec fn patterns(&self) -> Seq<StringLitView> {
        self.patterns@
    }

    /// The working directory the patterns are relative to.
    pub closed spec fn dir(&self) -> Seq<char> {
        self.dir@
    }

    /// Compiles the patterns, each taken relative to `current_dir`. The first
    /// pattern that does not compile aborts the resolution.
    pub fn new(patterns: &Paths, current_dir: &str) -> (r: Result<Resolver, PatternError>)
        ensures
            r is Ok <==> all_patterns_compile(patterns@.paths, current_dir@),
            r matches Ok(resolver) ==> resolver.patterns() == patterns@.paths && resolver.dir()
                == current_dir@,
            r matches Err(e) ==> reports_first_invalid_pattern(
                patterns@.paths,
                current_dir@,
                e@,
            ),
    {
        let literals = patterns.paths();
        let ghost views = patterns@.paths;
        assert(views.len() == literals@.len());
        let mut globs: Vec<ResolverGlob> = Vec::new();
        let mut i: usize = 0;
        while i < literals.len()
            invariant
                i <= literals.len(),
                views == literal_views(literals@),
                views == patterns@.paths,
                globs@.len() == i,
                forall|j: int|
                    0 <= j < i ==> {
                        &&& (#[trigger] globs@[j]).excludes == is_exclusion(views[j].value)
                        &&& globs@[j].matcher.text() == pattern_glob(views[j].value, current_dir@)
                        &&& globs@[j].matcher.literal_separator()
                    },
                forall|j: int|
                    0 <= j < i ==> glob_compiles(
                        pattern_glob(#[trigger] views[j].value, current_dir@),
                        true,
                    ),
            decreases literals.len() - i,
        {
            let literal = &literals[i];
            assert(views[i as int] == literal@);
            let text = literal.as_str();
            let n = text.unicode_len();
            let excludes = n > 0 && text.get_char(0) == '!';
            let glob = if excludes {
                join_path(current_dir, text.substring_char(1, n))
            } else {
                join_path(current_dir, text)
            };
            assert(text@.subrange(1, n as int) =~= text@.skip(1));
            match Pattern::compile_segments(glob.as_str()) {
                Ok(matcher) => {
                    globs.push(ResolverGlob { matcher, excludes });
                },
                Err(err) => {
                    assert(is_first_invalid_pattern(views, current_dir@, i as int));
                    return Err(PatternError::new(glob, literal.span(), err));
                },
            }
            i += 1;
        }
        Ok(Resolver { globs, patterns: Ghost(views), dir: Ghost(current_dir@) })
    }

    /// Whether the patterns select `path`.
    pub fn selects(&self, path: &str) -> (r: bool)
        ensures
            r == selects(self.patterns(), self.dir(), path@),
    {
        proof {
            use_type_invariant(self);
        }
        let mut any_included = false;
        let mut i: usize = 0;
        while i < self.globs.len()
            invariant
                i <= self.globs.len(),
                self.compiled_from_patterns(),
                any_included == exists|j: int|
                    0 <= j < i && !is_exclusion(#[trigger] self.patterns@[j].value)
                        && glob_matches(
                        pattern_glob(self.patterns@[j].value, self.dir@),
                        true,
                        path@,
                    ),
                forall|j: int|
                    0 <= j < i ==> !(is_exclusion(#[trigger] self.patterns@[j].value)
                        && glob_matches(
                        pattern_glob(self.patterns@[j].value, self.dir@),
                        true,
                        path@,
                    )),
            decreases self.globs.len() - i,
        {
            let glob = &self.globs[i];
            if glob.matcher.is_match(path) {
                if glob.excludes {
                    assert(is_exclusion(self.patterns@[i as int].value));
                    return false;
                }
                any_included = true;
                assert(!is_exclusion(self.patterns@[i as int].value));
            }
            i += 1;
        }
        any_included
    }

    /// The files of `listing` that the patterns select, in the listing's
    /// order.
    pub fn resolve(&self, listing: &Vec<String>) -> (r: Vec<DiscoveredFile>)
        ensures
            file_views(r@) == spec_resolve(self.patterns(), self.dir(), path_texts(listing@)),
    {
        let ghost pred = |p: Seq<char>| selects(self.patterns(), self.dir(), p);
        let ghost texts = path_texts(listing@);
        let mut files: Vec<DiscoveredFile> = Vec::new();
        let mut i: usize = 0;
        assert(texts.take(0).filter(pred) =~= Seq::empty());
        assert(file_views(files@) =~= Seq::empty().map_values(|p: Seq<char>| file_of(p)));
        while i < listing.len()
            invariant
                i <= listing.len(),
                texts == path_texts(listing@),
                pred == |p: Seq<char>| selects(self.patterns(), self.dir(), p),
                file_views(files@) == texts.take(i as int).filter(pred).map_values(
                    |p: Seq<char>| file_of(p),
                ),
            decreases listing.len() - i,
        {
            let path = listing[i].as_str();
            let ghost before = texts.take(i as int);
            let ghost views_before = file_views(files@);
            proof {
                assert(texts.take(i + 1) =~= before.push(texts[i as int]));
                before.lemma_filter_push(texts[i as int], pred);
            }
            if self.selects(path) {
                let file = DiscoveredFile::new(path);
                files.push(file);
                assert(file_views(files@) =~= views_before.push(file@));
                assert(before.filter(pred).push(texts[i as int]).map_values(
                    |p: Seq<char>| file_of(p),
                ) =~= before.filter(pred).map_values(|p: Seq<char>| file_of(p)).push(
                    file_of(texts[i as int]),
                ));
            }
            i += 1;
        }
        assert(texts.take(i as int) =~= texts);
        files
    }
}

} // verus!
