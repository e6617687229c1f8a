//! Test descriptors: what the code generator is handed for each file.

use vstd::prelude::*;
use vstd::string::*;
use crate::glob::glob_matches;
use crate::ignore_matcher::{
    lemma_first_match, IgnoreMatcher, IgnoreMatcherView, MatchResult, MatchResultView,
};
use crate::names::{assign, file_names, identifier_texts, spec_identifier};
use crate::resolver::{file_views, DiscoveredFile, DiscoveredFileView};
use crate::text::same_text;

verus! {

/// One generated test: its identifier, the file it runs on, whether it is
/// ignored, and why.
#[derive(Clone, Debug, PartialEq, Eq)]
pub struct TestDescriptor {
    pub identifier: String,
    pub source_path: String,
    pub ignored: bool,
    pub reason: Option<String>,
}

/// The mathematical content of a [`TestDescriptor`].
pub ghost struct TestDescriptorView {
    pub identifier: Seq<char>,
    pub source_path: Seq<char>,
    pub ignored: bool,
    pub reason: Option<Seq<char>>,
}

impl View for TestDescriptor {
    type V = TestDescriptorView;

    open spec fn view(&self) -> TestDescriptorView {
        TestDescriptorView {
            identifier: self.identifier@,
            source_path: self.source_path@,
            ignored: self.ignored,
            reason: match self.reason {
                Some(r) => Some(r@),
                None => None,
            },
        }
    }
}

/// The views of a sequence of descriptors, in order.
pub open spec fn descriptor_views(descriptors: Seq<TestDescriptor>) -> Seq<TestDescriptorView> {
    descriptors.map_values(|d: TestDescriptor| d@)
}

/// Whether a match result marks the file as ignored.
pub open spec fn spec_ignored(result: MatchResultView) -> bool {
    result is Matched
}

/// The text of the reason that a match result carries.
pub open spec fn spec_reason_text(result: MatchResultView) -> Option<Seq<char>> {
    match result {
        MatchResultView::Matched { reason: Some(r) } => Some(r.value),
        _ => None,
    }
}

/// The descriptor of the `i`-th file: its identifier among the files, its
/// path, and what the matcher says of the path.
pub open spec fn spec_descriptor(
    files: Seq<DiscoveredFileView>,
    matcher: IgnoreMatcherView,
    i: int,
) -> TestDescriptorView
    recommends
        0 <= i < files.len(),
{
    TestDescriptorView {
        identifier: spec_identifier(file_names(files), i),
        source_path: files[i].path,
        ignored: spec_ignored(matcher.matched(files[i].path)),
        reason: spec_reason_text(matcher.matched(files[i].path)),
    }
}

/// One descriptor per file, in the files' order.
pub open spec fn spec_describe(files: Seq<DiscoveredFileView>, matcher: IgnoreMatcherView) -> Seq<
    TestDescriptorView,
> {
    Seq::new(files.len(), |i: int| spec_descriptor(files, matcher, i))
}

/// The text of the reason that applies where the entry `k` is the first to
/// match: the entry's own, else the default reason's, else none.
pub open spec fn spec_entry_reason_text(matcher: IgnoreMatcherView, k: int) -> Option<Seq<char>> {
    match matcher.entries[k].reason {
        Some(r) => Some(r.value),
        None => match matcher.default_reason {
            Some(d) => Some(d.value),
            None => None,
        },
    }
}

/// Precedence and fallback, as the descriptor shows them: a file whose path
/// an entry is the first to match is ignored, for the entry's own reason
/// where it has one, for the default reason where it has none.
pub proof fn lemma_descriptor_reason(
    files: Seq<DiscoveredFileView>,
    matcher: IgnoreMatcherView,
    i: int,
    k: int,
)
    requires
        0 <= i < files.len(),
        0 <= k < matcher.entries.len(),
        glob_matches(matcher.entries[k].pattern, false, files[i].path),
        forall|j: int|
            0 <= j < k ==> !glob_matches(
                #[trigger] matcher.entries[j].pattern,
                false,
                files[i].path,
            ),
    ensures
        spec_describe(files, matcher)[i].ignored,
        spec_describe(files, matcher)[i].reason == spec_entry_reason_text(matcher, k),
{
    lemma_first_match(matcher.entries, files[i].path, 0);
}

/// Ignoring only flags: whatever the matcher, there is one descriptor per
/// file, with the same identifier and the same path.
pub proof fn lemma_ignoring_only_flags(
    files: Seq<DiscoveredFileView>,
    first: IgnoreMatcherView,
    second: IgnoreMatcherView,
)
    ensures
        spec_describe(files, first).len() == files.len(),
        spec_describe(files, second).len() == files.len(),
        forall|i: int|
            0 <= i < files.len() ==> {
                &&& (#[trigger] spec_describe(files, first)[i]).identifier == spec_describe(
                    files,
                    second,
                )[i].identifier
                &&& spec_describe(files, first)[i].source_path == files[i].path
                &&& spec_describe(files, second)[i].source_path == files[i].path
            },
{
}

/// Describes every file: ignoring flags a descriptor and never removes one.
pub fn describe(files: &Vec<DiscoveredFile>, matcher: &IgnoreMatcher) -> (r: Vec<TestDescriptor>)
    ensures
        r@.len() == files@.len(),
        descriptor_views(r@) == spec_describe(file_views(files@), matcher@),
{
    let identifiers = assign(files);
    let ghost views = file_views(files@);
    assert(identifier_texts(identifiers@).len() == identifiers@.len());
    assert(file_names(views).len() == files@.len());
    assert forall|j: int| 0 <= j < files@.len() implies (#[trigger] identifiers@[j])@
        == spec_identifier(file_names(views), j) by {
        assert(identifier_texts(identifiers@)[j] == identifiers@[j]@);
    }
    let mut descriptors: Vec<TestDescriptor> = Vec::new();
    let mut i: usize = 0;
    while i < files.len()
        invariant
            i <= files.len(),
            views == file_views(files@),
            identifiers@.len() == files@.len(),
            forall|j: int|
                0 <= j < files@.len() ==> (#[trigger] identifiers@[j])@ == spec_identifier(
                    file_names(views),
                    j,
                ),
            descriptors@.len() == i,
            forall|j: int|
                0 <= j < i ==> (#[trigger] descriptors@[j])@ == spec_descriptor(
                    views,
                    matcher@,
                    j,
                ),
        decreases files.len() - i,
    {
        let file = &files[i];
        assert(views[i as int] == file@);
        let (ignored, reason) = match matcher.matched(file.path()) {
            MatchResult::Matched { reason: Some(r) } => (true, Some(r.value())),
            MatchResult::Matched { reason: None } => (true, None),
            MatchResult::Unmatched => (false, None),
        };
        descriptors.push(
            TestDescriptor {
                identifier: identifiers[i].clone(),
                source_path: String::from_str(file.path()),
                ignored,
                reason,
            },
        );
        i += 1;
    }
    assert(descriptor_views(descriptors@) =~= spec_describe(views, matcher@));
    descriptors
}

/// The identifiers of a sequence of descriptors, in order.
pub open spec fn identifiers_of(descriptors: Seq<TestDescriptorView>) -> Seq<Seq<char>> {
    descriptors.map_values(|d: TestDescriptorView| d.identifier)
}

/// Whether `i` and `j` are two descriptors with one identifier.
pub open spec fn collide(descriptors: Seq<TestDescriptorView>, i: int, j: int) -> bool {
    0 <= i < j < descriptors.len() && descriptors[i].identifier == descriptors[j].identifier
}

/// Whether `i` and `j` are the first two descriptors with one identifier:
/// `j` is the first descriptor whose identifier was given before, and `i` the
/// first that it was given to.
pub open spec fn first_collision(descriptors: Seq<TestDescriptorView>, i: int, j: int) -> bool {
    &&& collide(descriptors, i, j)
    &&& forall|a: int, b: int|
        0 <= a < b < j ==> (#[trigger] descriptors[a]).identifier
            != (#[trigger] descriptors[b]).identifier
    &&& forall|a: int|
        0 <= a < i ==> (#[trigger] descriptors[a]).identifier != descriptors[j].identifier
}

/// Looks for the first two descriptors with one identifier.
pub fn find_collision(descriptors: &Vec<TestDescriptor>) -> (r: Option<(usize, usize)>)
    ensures
        r is None <==> identifiers_of(descriptor_views(descriptors@)).no_duplicates(),
        r matches Some((i, j)) ==> first_collision(
            descriptor_views(descriptors@),
            i as int,
            j as int,
        ),
{
    let ghost views = descriptor_views(descriptors@);
    let ghost texts = identifiers_of(views);
    let mut j: usize = 0;
    while j < descriptors.len()
        invariant
            j <= descriptors.len(),
            views == descriptor_views(descriptors@),
            texts == identifiers_of(views),
            forall|a: int, b: int|
                0 <= a < b < j ==> (#[trigger] views[a]).identifier
                    != (#[trigger] views[b]).identifier,
        decreases descriptors.len() - j,
    {
        let mut i: usize = 0;
        while i < j
            invariant
                i <= j < descriptors.len(),
                views == descriptor_views(descriptors@),
                texts == identifiers_of(views),
                forall|a: int, b: int|
                    0 <= a < b < j ==> (#[trigger] views[a]).identifier
                        != (#[trigger] views[b]).identifier,
                forall|a: int|
                    0 <= a < i ==> (#[trigger] views[a]).identifier != views[j as int].identifier,
            decreases j - i,
        {
            if same_text(descriptors[i].identifier.as_str(), descriptors[j].identifier.as_str()) {
                assert(texts[i as int] == texts[j as int]);
                return Some((i, j));
            }
            i += 1;
        }
        j += 1;
    }
    assert forall|a: int, b: int| 0 <= a < texts.len() && 0 <= b < texts.len() && a != b implies texts[a]
        != texts[b] by {
        if a < b {
            assert(views[a].identifier != views[b].identifier);
        } else {
            assert(views[b].identifier != views[a].identifier);
        }
    }
    None
}

} // verus!
