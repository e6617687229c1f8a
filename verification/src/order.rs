//! A total order on discovered files, for callers that need the same
//! identifiers whatever order the files were listed in.

use vstd::prelude::*;
use vstd::relations::{sorted_by, total_ordering};
use vstd::seq_lib::lemma_sorted_unique;
use vstd::string::*;
use crate::descriptor::spec_describe;
use crate::ignore_matcher::IgnoreMatcherView;
use crate::literal::StringLitView;
use crate::resolver::{
    file_of, file_views, selects, spec_resolve, DiscoveredFile, DiscoveredFileView,
};
use crate::text::{same_text, to_chars};

verus! {

/// Whether `a` comes before `b`, or is `b`, from the position `i` on: by the
/// first character in which they differ, a text before its extensions.
pub open spec fn text_le_from(a: Seq<char>, b: Seq<char>, i: int) -> bool
    decreases a.len() - i,
{
    if i >= a.len() {
        true
    } else if i >= b.len() {
        false
    } else if a[i] != b[i] {
        a[i] < b[i]
    } else {
        text_le_from(a, b, i + 1)
    }
}

/// The lexicographic order on texts.
pub open spec fn text_le(a: Seq<char>, b: Seq<char>) -> bool {
    text_le_from(a, b, 0)
}

/// The order on files: by path, and by file name where the paths are equal.
pub open spec fn file_le(x: DiscoveredFileView, y: DiscoveredFileView) -> bool {
    if x.path == y.path {
        text_le(x.file_name, y.file_name)
    } else {
        text_le(x.path, y.path)
    }
}

/// Whether files stand in ascending order.
pub open spec fn is_sorted(files: Seq<DiscoveredFileView>) -> bool {
    sorted_by(files, |x: DiscoveredFileView, y: DiscoveredFileView| file_le(x, y))
}

proof fn lemma_text_le_reflexive(a: Seq<char>, i: int)
    requires
        0 <= i,
    ensures
        text_le_from(a, a, i),
    decreases a.len() - i,
{
    if i < a.len() {
        lemma_text_le_reflexive(a, i + 1);
    }
}

proof fn lemma_text_le_antisymmetric(a: Seq<char>, b: Seq<char>, i: int)
    requires
        0 <= i <= a.len(),
        i <= b.len(),
        forall|k: int| 0 <= k < i ==> a[k] == b[k],
        text_le_from(a, b, i),
        text_le_from(b, a, i),
    ensures
        a == b,
    decreases a.len() - i,
{
    if i >= a.len() || i >= b.len() {
        assert(a =~= b);
    } else {
        lemma_text_le_antisymmetric(a, b, i + 1);
    }
}

proof fn lemma_text_le_total(a: Seq<char>, b: Seq<char>, i: int)
    requires
        0 <= i,
    ensures
        text_le_from(a, b, i) || text_le_from(b, a, i),
    decreases a.len() - i,
{
    if i < a.len() && i < b.len() && a[i] == b[i] {
        lemma_text_le_total(a, b, i + 1);
    }
}

proof fn lemma_text_le_transitive(a: Seq<char>, b: Seq<char>, c: Seq<char>, i: int)
    requires
        0 <= i,
        text_le_from(a, b, i),
        text_le_from(b, c, i),
    ensures
        text_le_from(a, c, i),
    decreases a.len() - i,
{
    if i < a.len() && i < b.len() && i < c.len() && a[i] == b[i] && b[i] == c[i] {
        lemma_text_le_transitive(a, b, c, i + 1);
    }
}

/// The order on files is total: any two files compare, and only a file
/// itself stands both before and behind it.
pub proof fn lemma_file_le_total_ordering()
    ensures
        total_ordering(|x: DiscoveredFileView, y: DiscoveredFileView| file_le(x, y)),
{
    let le = |x: DiscoveredFileView, y: DiscoveredFileView| file_le(x, y);
    assert forall|x: DiscoveredFileView| #[trigger] le(x, x) by {
        lemma_text_le_reflexive(x.file_name, 0);
    }
    assert forall|x: DiscoveredFileView, y: DiscoveredFileView| #[trigger]
        le(x, y) && #[trigger] le(y, x) implies x == y by {
        if x.path == y.path {
            lemma_text_le_antisymmetric(x.file_name, y.file_name, 0);
        } else {
            lemma_text_le_antisymmetric(x.path, y.path, 0);
        }
    }
    assert forall|x: DiscoveredFileView, y: DiscoveredFileView, z: DiscoveredFileView| #[trigger]
        le(x, y) && #[trigger] le(y, z) implies le(x, z) by {
        if x.path == y.path && y.path == z.path {
            lemma_text_le_transitive(x.file_name, y.file_name, z.file_name, 0);
        } else if x.path == y.path || y.path == z.path {
        } else {
            lemma_text_le_transitive(x.path, y.path, z.path, 0);
            if x.path == z.path {
                lemma_text_le_antisymmetric(x.path, y.path, 0);
            }
        }
    }
    assert forall|x: DiscoveredFileView, y: DiscoveredFileView| #[trigger]
        le(x, y) || #[trigger] le(y, x) by {
        lemma_text_le_total(x.file_name, y.file_name, 0);
        lemma_text_le_total(x.path, y.path, 0);
    }
}

/// How often a file stands among the files that the patterns select from a
/// listing: as often as its path stands in the listing, where the patterns
/// select that path and the file is the one at that path; else never.
pub proof fn lemma_resolve_count(
    patterns: Seq<StringLitView>,
    dir: Seq<char>,
    listing: Seq<Seq<char>>,
    file: DiscoveredFileView,
)
    ensures
        spec_resolve(patterns, dir, listing).to_multiset().count(file) == if selects(
            patterns,
            dir,
            file.path,
        ) && file == file_of(file.path) {
            listing.to_multiset().count(file.path)
        } else {
            0
        },
    decreases listing.len(),
{
    broadcast use vstd::multiset::group_multiset_axioms;
    broadcast use vstd::seq_lib::group_to_multiset_ensures;

    let pred = |p: Seq<char>| selects(patterns, dir, p);
    let to_file = |p: Seq<char>| file_of(p);
    if listing.len() == 0 {
        assert(listing.filter(pred) =~= Seq::empty());
        assert(spec_resolve(patterns, dir, listing) =~= Seq::empty());
    } else {
        let shorter = listing.drop_last();
        let last = listing.last();
        lemma_resolve_count(patterns, dir, shorter, file);
        assert(listing =~= shorter.push(last));
        shorter.lemma_filter_push(last, pred);
        if pred(last) {
            assert(shorter.filter(pred).push(last).map_values(to_file) =~= shorter.filter(
                pred,
            ).map_values(to_file).push(file_of(last)));
        }
    }
}

/// The files selected from two listings of the same paths are the same
/// files, as often.
pub proof fn lemma_resolve_permutation(
    patterns: Seq<StringLitView>,
    dir: Seq<char>,
    first: Seq<Seq<char>>,
    second: Seq<Seq<char>>,
)
    requires
        first.to_multiset() == second.to_multiset(),
    ensures
        spec_resolve(patterns, dir, first).to_multiset() == spec_resolve(
            patterns,
            dir,
            second,
        ).to_multiset(),
{
    assert forall|file: DiscoveredFileView|
        spec_resolve(patterns, dir, first).to_multiset().count(file) == spec_resolve(
            patterns,
            dir,
            second,
        ).to_multiset().count(file) by {
        lemma_resolve_count(patterns, dir, first, file);
        lemma_resolve_count(patterns, dir, second, file);
    }
    assert(spec_resolve(patterns, dir, first).to_multiset() =~= spec_resolve(
        patterns,
        dir,
        second,
    ).to_multiset());
}

/// Reproducibility: where two listings hold the same paths, in whatever
/// order, the files selected from them are, once sorted, the same sequence,
/// and so are the descriptors made from them: the same identifier for the
/// same path.
pub proof fn lemma_sorted_resolution_is_reproducible(
    patterns: Seq<StringLitView>,
    dir: Seq<char>,
    first: Seq<Seq<char>>,
    second: Seq<Seq<char>>,
    sorted_first: Seq<DiscoveredFileView>,
    sorted_second: Seq<DiscoveredFileView>,
    matcher: IgnoreMatcherView,
)
    requires
        first.to_multiset() == second.to_multiset(),
        is_sorted(sorted_first),
        is_sorted(sorted_second),
        sorted_first.to_multiset() == spec_resolve(patterns, dir, first).to_multiset(),
        sorted_second.to_multiset() == spec_resolve(patterns, dir, second).to_multiset(),
    ensures
        sorted_first == sorted_second,
        spec_describe(sorted_first, matcher) == spec_describe(sorted_second, matcher),
{
    lemma_resolve_permutation(patterns, dir, first, second);
    lemma_file_le_total_ordering();
    lemma_sorted_unique(
        sorted_first,
        sorted_second,
        |x: DiscoveredFileView, y: DiscoveredFileView| file_le(x, y),
    );
}

fn text_le_chars(a: &Vec<char>, b: &Vec<char>) -> (r: bool)
    ensures
        r == text_le(a@, b@),
{
    let mut i: usize = 0;
    while i < a.len()
        invariant
            i <= a.len(),
            text_le(a@, b@) == text_le_from(a@, b@, i as int),
        decreases a.len() - i,
    {
        if i >= b.len() {
            return false;
        }
        if a[i] != b[i] {
            return a[i] < b[i];
        }
        i += 1;
    }
    true
}

/// Whether `x` stands before `y` in the order on files, or is `y`.
pub fn file_le_exec(x: &DiscoveredFile, y: &DiscoveredFile) -> (r: bool)
    ensures
        r == file_le(x@, y@),
{
    if same_text(x.path(), y.path()) {
        text_le_chars(&to_chars(x.file_name()), &to_chars(y.file_name()))
    } else {
        text_le_chars(&to_chars(x.path()), &to_chars(y.path()))
    }
}

/// Sorts files by path: the same files come out, in ascending order.
pub fn sort_by_path(files: Vec<DiscoveredFile>) -> (r: Vec<DiscoveredFile>)
    ensures
        is_sorted(file_views(r@)),
        file_views(r@).to_multiset() == file_views(files@).to_multiset(),
        r@.len() == files@.len(),
{
    broadcast use vstd::multiset::group_multiset_axioms;
    broadcast use vstd::seq_lib::group_to_multiset_ensures;

    let ghost given = file_views(files@);
    let mut input = files;
    let mut out: Vec<DiscoveredFile> = Vec::new();
    proof {
        lemma_file_le_total_ordering();
        assert(file_views(out@) =~= Seq::empty());
        assert(file_views(out@).to_multiset().add(file_views(input@).to_multiset())
            =~= given.to_multiset());
    }
    while input.len() > 0
        invariant
            is_sorted(file_views(out@)),
            file_views(out@).to_multiset().add(file_views(input@).to_multiset())
                == given.to_multiset(),
            out@.len() + input@.len() == given.len(),
            total_ordering(|x: DiscoveredFileView, y: DiscoveredFileView| file_le(x, y)),
        decreases input.len(),
    {
        let ghost input_before = file_views(input@);
        let ghost out_before = file_views(out@);
        let file = input.pop().unwrap();
        proof {
            assert(file_views(input@) =~= input_before.drop_last());
            assert(input_before =~= file_views(input@).push(file@));
        }
        let mut p: usize = 0;
        while p < out.len() && file_le_exec(&out[p], &file)
            invariant
                p <= out.len(),
                out_before == file_views(out@),
                forall|k: int| 0 <= k < p ==> file_le(#[trigger] out_before[k], file@),
            decreases out.len() - p,
        {
            p += 1;
        }
        proof {
            if p < out.len() {
                assert(out_before[p as int] == out@[p as int]@);
            }
        }
        out.insert(p, file);
        proof {
            let le = |x: DiscoveredFileView, y: DiscoveredFileView| file_le(x, y);
            let after = file_views(out@);
            assert(after =~= out_before.insert(p as int, file@));
            assert(sorted_by(out_before, le));
            assert forall|i: int, j: int| 0 <= i < j < after.len() implies #[trigger] le(
                after[i],
                after[j],
            ) by {
                if j == p {
                    assert(after[i] == out_before[i]);
                } else if i == p {
                    assert(after[j] == out_before[j - 1]);
                    assert(!le(out_before[p as int], file@));
                    assert(le(file@, out_before[p as int]) || le(out_before[p as int], file@));
                    if j - 1 > p {
                        assert(le(out_before[p as int], out_before[j - 1]));
                        assert(le(file@, out_before[p as int]) && le(
                            out_before[p as int],
                            out_before[j - 1],
                        ));
                    }
                } else {
                    let a = if i < p { i } else { i - 1 };
                    let b = if j < p { j } else { j - 1 };
                    assert(after[i] == out_before[a]);
                    assert(after[j] == out_before[b]);
                    assert(le(out_before[a], out_before[b]));
                }
            }
            assert(sorted_by(after, le));
            vstd::seq_lib::to_multiset_insert(out_before, p as int, file@);
            vstd::seq_lib::to_multiset_build(file_views(input@), file@);
            assert(after.to_multiset().add(file_views(input@).to_multiset())
                =~= out_before.to_multiset().add(input_before.to_multiset()));
        }
    }
    proof {
        assert(file_views(input@) =~= Seq::empty());
        assert(file_views(out@).to_multiset() =~= given.to_multiset());
    }
    out
}

} // verus!
