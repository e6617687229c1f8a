//! Identifier assignment: every discovered file gets an identifier derived
//! from its file name, with a counter suffix from the second file of the same
//! name on.

use vstd::prelude::*;
use vstd::string::*;
use crate::resolver::{file_views, DiscoveredFile, DiscoveredFileView};
use crate::text::{ascii_alphanumeric, is_ascii_alphanumeric, same_text};

verus! {

/// What one character of a file name becomes in an identifier: a dot is
/// spelled out, letters, digits and the underscore stay, anything else is an
/// underscore.
pub open spec fn sanitize_char(c: char) -> Seq<char> {
    if c == '.' {
        seq!['_', 'd', 'o', 't', '_']
    } else if is_ascii_alphanumeric(c) {
        seq![c]
    } else {
        seq!['_']
    }
}

/// The identifier candidate of a file name: its characters, each replaced by
/// [`sanitize_char`], in order.
pub open spec fn spec_sanitize(name: Seq<char>) -> Seq<char>
    decreases name.len(),
{
    if name.len() == 0 {
        Seq::empty()
    } else {
        spec_sanitize(name.drop_last()) + sanitize_char(name.last())
    }
}

pub open spec fn digit_char(d: int) -> char {
    if d == 0 {
        '0'
    } else if d == 1 {
        '1'
    } else if d == 2 {
        '2'
    } else if d == 3 {
        '3'
    } else if d == 4 {
        '4'
    } else if d == 5 {
        '5'
    } else if d == 6 {
        '6'
    } else if d == 7 {
        '7'
    } else if d == 8 {
        '8'
    } else {
        '9'
    }
}

/// The decimal digits of `n`, most significant first, without leading zeros.
pub open spec fn spec_decimal(n: nat) -> Seq<char>
    decreases n,
{
    if n < 10 {
        seq![digit_char(n as int)]
    } else {
        spec_decimal(n / 10).push(digit_char((n % 10) as int))
    }
}

/// How many of `names[0..=i]` equal `names[i]`: the 1-based occurrence count
/// of the `i`-th name.
pub open spec fn occurrence(names: Seq<Seq<char>>, i: int) -> nat
    recommends
        0 <= i < names.len(),
{
    count_of(names.take(i + 1), names[i])
}

/// How many entries of `names` equal `name`.
pub open spec fn count_of(names: Seq<Seq<char>>, name: Seq<char>) -> nat
    decreases names.len(),
{
    if names.len() == 0 {
        0
    } else {
        count_of(names.drop_last(), name) + if names.last() == name {
            1nat
        } else {
            0nat
        }
    }
}

/// The identifier of the `i`-th file name: the unsuffixed candidate for the
/// first file of that name, the candidate, an underscore and the occurrence
/// count for each later one.
pub open spec fn spec_identifier(names: Seq<Seq<char>>, i: int) -> Seq<char>
    recommends
        0 <= i < names.len(),
{
    let candidate = spec_sanitize(names[i]);
    let k = occurrence(names, i);
    if k == 1 {
        candidate
    } else {
        candidate + seq!['_'] + spec_decimal(k)
    }
}

/// The identifiers of all the names, in order.
pub open spec fn spec_identifiers(names: Seq<Seq<char>>) -> Seq<Seq<char>> {
    Seq::new(names.len(), |i: int| spec_identifier(names, i))
}

/// Derives the identifier candidate from a file name.
pub fn sanitize(name: &str) -> (r: String)
    ensures
        r@ == spec_sanitize(name@),
{
    let n = name.unicode_len();
    let mut out = String::new();
    let mut i: usize = 0;
    while i < n
        invariant
            i <= n,
            n == name@.len(),
            out@ == spec_sanitize(name@.take(i as int)),
        decreases n - i,
    {
        let c = name.get_char(i);
        proof {
            reveal_strlit("_dot_");
            reveal_strlit("_");
            assert(name@.take(i + 1).drop_last() =~= name@.take(i as int));
            assert("_dot_"@ =~= seq!['_', 'd', 'o', 't', '_']);
            assert("_"@ =~= seq!['_']);
            assert(name@.subrange(i as int, i + 1) =~= seq![c]);
        }
        if c == '.' {
            out.append("_dot_");
        } else if ascii_alphanumeric(c) {
            out.append(name.substring_char(i, i + 1));
        } else {
            out.append("_");
        }
        i += 1;
    }
    proof {
        assert(name@.take(n as int) =~= name@);
    }
    out
}

fn digit_text(d: usize) -> (r: &'static str)
    requires
        d < 10,
    ensures
        r@ == seq![digit_char(d as int)],
{
    proof {
        reveal_strlit("0");
        reveal_strlit("1");
        reveal_strlit("2");
        reveal_strlit("3");
        reveal_strlit("4");
        reveal_strlit("5");
        reveal_strlit("6");
        reveal_strlit("7");
        reveal_strlit("8");
        reveal_strlit("9");
    }
    let r = if d == 0 {
        "0"
    } else if d == 1 {
        "1"
    } else if d == 2 {
        "2"
    } else if d == 3 {
        "3"
    } else if d == 4 {
        "4"
    } else if d == 5 {
        "5"
    } else if d == 6 {
        "6"
    } else if d == 7 {
        "7"
    } else if d == 8 {
        "8"
    } else {
        "9"
    };
    assert(r@ =~= seq![digit_char(d as int)]);
    r
}

/// Writes `n` in decimal.
pub fn decimal(n: usize) -> (r: String)
    ensures
        r@ == spec_decimal(n as nat),
    decreases n,
{
    if n < 10 {
        String::from_str(digit_text(n))
    } else {
        let mut s = decimal(n / 10);
        s.append(digit_text(n % 10));
        assert(s@ =~= spec_decimal((n / 10) as nat).push(digit_char((n % 10) as int)));
        s
    }
}

/// The file names of a sequence of files, in order.
pub open spec fn file_names(files: Seq<DiscoveredFileView>) -> Seq<Seq<char>> {
    files.map_values(|f: DiscoveredFileView| f.file_name)
}

/// A name occurs at most as often as there are names.
pub proof fn lemma_count_of_bounded(names: Seq<Seq<char>>, name: Seq<char>)
    ensures
        count_of(names, name) <= names.len(),
    decreases names.len(),
{
    if names.len() > 0 {
        lemma_count_of_bounded(names.drop_last(), name);
    }
}

/// A name that does not occur is counted zero times, and one that is counted
/// zero times does not occur.
pub proof fn lemma_count_of_zero(names: Seq<Seq<char>>, name: Seq<char>)
    ensures
        count_of(names, name) == 0 <==> forall|i: int| 0 <= i < names.len() ==> names[i] != name,
    decreases names.len(),
{
    if names.len() > 0 {
        lemma_count_of_zero(names.drop_last(), name);
        if count_of(names, name) == 0 {
            assert forall|i: int| 0 <= i < names.len() implies names[i] != name by {
                if i < names.len() - 1 {
                    assert(names.drop_last()[i] == names[i]);
                }
            }
        } else if names.last() != name {
            let i = choose|i: int| 0 <= i < names.len() - 1 && names.drop_last()[i] == name;
            assert(names[i] == name);
        }
    }
}

/// Counting over two sequences in a row adds up.
pub proof fn lemma_count_of_concat(a: Seq<Seq<char>>, b: Seq<Seq<char>>, name: Seq<char>)
    ensures
        count_of(a + b, name) == count_of(a, name) + count_of(b, name),
    decreases b.len(),
{
    if b.len() == 0 {
        assert(a + b =~= a);
    } else {
        lemma_count_of_concat(a, b.drop_last(), name);
        assert((a + b).drop_last() =~= a + b.drop_last());
    }
}

/// The first file of a name gets the candidate without a suffix.
pub proof fn lemma_first_of_name(names: Seq<Seq<char>>, i: int)
    requires
        0 <= i < names.len(),
        forall|j: int| 0 <= j < i ==> names[j] != names[i],
    ensures
        spec_identifier(names, i) == spec_sanitize(names[i]),
{
    lemma_count_of_zero(names.take(i), names[i]);
    assert(names.take(i + 1).drop_last() =~= names.take(i));
}

/// Name collision: the second file of a name gets the candidate followed by
/// `_2`, wherever the first stood before it.
pub proof fn lemma_second_of_name(names: Seq<Seq<char>>, i: int, j: int)
    requires
        0 <= i < j < names.len(),
        names[i] == names[j],
        forall|k: int| 0 <= k < j && k != i ==> names[k] != names[j],
    ensures
        spec_identifier(names, i) == spec_sanitize(names[j]),
        spec_identifier(names, j) == spec_sanitize(names[j]) + seq!['_', '2'],
{
    let name = names[j];
    lemma_first_of_name(names, i);
    let head = names.take(i);
    let tail = names.subrange(i + 1, j);
    lemma_count_of_zero(head, name);
    lemma_count_of_zero(tail, name);
    lemma_count_of_concat(head, seq![name], name);
    lemma_count_of_concat(head + seq![name], tail, name);
    assert(seq![name].drop_last() =~= Seq::<Seq<char>>::empty());
    assert(count_of(seq![name], name) == 1) by {
        assert(count_of(seq![name].drop_last(), name) == 0);
        assert(seq![name].last() == name);
    }
    assert(names.take(j) =~= head + seq![name] + tail);
    assert(names.take(j + 1).drop_last() =~= names.take(j));
    assert(occurrence(names, j) == 2);
    assert(spec_decimal(2) =~= seq!['2']);
    assert(spec_sanitize(name) + seq!['_'] + seq!['2'] =~= spec_sanitize(name) + seq!['_', '2']);
}

/// The occurrence counters of the raw file names seen so far.
pub struct NameCounter {
    names: Vec<String>,
    counts: Vec<usize>,
    seen: Ghost<Seq<Seq<char>>>,
}

impl NameCounter {
    /// Every counter holds how often its name was seen, and every name seen
    /// has exactly one counter.
    pub closed spec fn wf(&self) -> bool {
        &&& self.names@.len() == self.counts@.len()
        &&& forall|i: int|
            0 <= i < self.names@.len() ==> (#[trigger] self.counts@[i]) as nat == count_of(
                self.seen@,
                self.names@[i]@,
            ) && self.counts@[i] >= 1
        &&& forall|i: int, j: int|
            0 <= i < j < self.names@.len() ==> (#[trigger] self.names@[i])@
                != (#[trigger] self.names@[j])@
        &&& forall|name: Seq<char>|
            count_of(self.seen@, name) > 0 ==> exists|i: int|
                0 <= i < self.names@.len() && (#[trigger] self.names@[i])@ == name
    }

    /// The names counted so far, in the order they came.
    pub closed spec fn seen(&self) -> Seq<Seq<char>> {
        self.seen@
    }

    /// A counter that has seen no name.
    pub fn new() -> (r: NameCounter)
        ensures
            r.wf(),
            r.seen() == Seq::<Seq<char>>::empty(),
    {
        NameCounter { names: Vec::new(), counts: Vec::new(), seen: Ghost(Seq::empty()) }
    }

    /// Counts one more file named `name`, and tells how many files of that
    /// name there are now.
    pub fn bump(&mut self, name: &str) -> (r: usize)
        requires
            old(self).wf(),
            old(self).seen().len() < usize::MAX,
        ensures
            final(self).wf(),
            final(self).seen() == old(self).seen().push(name@),
            r as nat == count_of(final(self).seen(), name@),
            r >= 1,
    {
        proof {
            assert forall|other: Seq<char>| #[trigger] count_of(self.seen@, other) <= self.seen@.len() by {
                lemma_count_of_bounded(self.seen@, other);
            }
        }
        let ghost before = self.seen@;
        let ghost after = before.push(name@);
        assert(after.drop_last() =~= before);
        let mut i: usize = 0;
        while i < self.names.len()
            invariant
                i <= self.names.len(),
                self.wf(),
                self.seen@ == before,
                before == old(self).seen(),
                after == before.push(name@),
                after.drop_last() == before,
                before.len() < usize::MAX,
                forall|other: Seq<char>| #[trigger] count_of(before, other) <= before.len(),
                forall|j: int| 0 <= j < i ==> (#[trigger] self.names@[j])@ != name@,
            decreases self.names.len() - i,
        {
            if same_text(self.names[i].as_str(), name) {
                let count = self.counts[i] + 1;
                let ghost old_names = self.names@;
                let ghost old_counts = self.counts@;
                self.counts.set(i, count);
                self.seen = Ghost(after);
                proof {
                    assert forall|k: int| 0 <= k < self.names@.len() implies (
                    #[trigger] self.counts@[k]) as nat == count_of(after, self.names@[k]@)
                        && self.counts@[k] >= 1 by {
                        if k != i {
                            assert(old_names[k]@ != old_names[i as int]@);
                        }
                    }
                    assert forall|other: Seq<char>| count_of(after, other) > 0 implies exists|
                        k: int,
                    |
                        0 <= k < self.names@.len() && (#[trigger] self.names@[k])@ == other by {
                        if other == name@ {
                            assert(self.names@[i as int]@ == other);
                        } else {
                            assert(count_of(before, other) > 0);
                            let k = choose|k: int|
                                0 <= k < old_names.len() && (#[trigger] old_names[k])@ == other;
                            assert(self.names@[k]@ == other);
                        }
                    }
                }
                return count;
            }
            i += 1;
        }
        let ghost old_names = self.names@;
        self.names.push(String::from_str(name));
        self.counts.push(1);
        self.seen = Ghost(after);
        proof {
            assert(count_of(before, name@) == 0) by {
                if count_of(before, name@) > 0 {
                    let k = choose|k: int| 0 <= k < old_names.len() && (#[trigger] old_names[k])@ == name@;
                    assert(false);
                }
            }
            assert forall|k: int| 0 <= k < self.names@.len() implies (#[trigger] self.counts@[k]) as nat
                == count_of(after, self.names@[k]@) && self.counts@[k] >= 1 by {
                if k < old_names.len() {
                    assert(self.names@[k] == old_names[k]);
                }
            }
            assert forall|other: Seq<char>| count_of(after, other) > 0 implies exists|k: int|
                0 <= k < self.names@.len() && (#[trigger] self.names@[k])@ == other by {
                if other == name@ {
                    assert(self.names@[old_names.len() as int]@ == other);
                } else {
                    assert(count_of(before, other) > 0);
                    let k = choose|k: int| 0 <= k < old_names.len() && (#[trigger] old_names[k])@ == other;
                    assert(self.names@[k] == old_names[k]);
                }
            }
        }
        1
    }
}

/// The texts of a sequence of strings, in order.
pub open spec fn identifier_texts(identifiers: Seq<String>) -> Seq<Seq<char>> {
    identifiers.map_values(|s: String| s@)
}

/// The occurrence count of every name, in the order the names are given: for
/// each, how many of the names up to and including it equal it.
pub fn occurrences(names: &Vec<String>) -> (r: Vec<usize>)
    ensures
        r@.len() == names@.len(),
        forall|i: int|
            0 <= i < names@.len() ==> (#[trigger] r@[i]) as nat == occurrence(
                identifier_texts(names@),
                i,
            ),
{
    let ghost texts = identifier_texts(names@);
    let mut counter = NameCounter::new();
    let mut counts: Vec<usize> = Vec::new();
    let mut i: usize = 0;
    while i < names.len()
        invariant
            i <= names.len(),
            texts == identifier_texts(names@),
            texts.len() == names.len(),
            counter.wf(),
            counter.seen() == texts.take(i as int),
            counts@.len() == i,
            forall|j: int| 0 <= j < i ==> (#[trigger] counts@[j]) as nat == occurrence(texts, j),
        decreases names.len() - i,
    {
        assert(names@[i as int]@ == texts[i as int]);
        assert(texts.take(i as int).push(texts[i as int]) =~= texts.take(i + 1));
        let count = counter.bump(names[i].as_str());
        counts.push(count);
        i += 1;
    }
    counts
}

/// Assigns each file its identifier, in the order the files are given.
pub fn assign(files: &Vec<DiscoveredFile>) -> (r: Vec<String>)
    ensures
        identifier_texts(r@) == spec_identifiers(file_names(file_views(files@))),
{
    let ghost names = file_names(file_views(files@));
    let mut counter = NameCounter::new();
    let mut identifiers: Vec<String> = Vec::new();
    let mut i: usize = 0;
    while i < files.len()
        invariant
            i <= files.len(),
            names == file_names(file_views(files@)),
            names.len() == files.len(),
            counter.wf(),
            counter.seen() == names.take(i as int),
            identifiers@.len() == i,
            forall|j: int|
                0 <= j < i ==> (#[trigger] identifiers@[j])@ == spec_identifier(names, j),
        decreases files.len() - i,
    {
        let name = files[i].file_name();
        assert(name@ == names[i as int]);
        assert(names.take(i as int).push(names[i as int]) =~= names.take(i + 1));
        let count = counter.bump(name);
        let mut identifier = sanitize(name);
        if count != 1 {
            proof {
                reveal_strlit("_");
                assert("_"@ =~= seq!['_']);
            }
            identifier.append("_");
            let digits = decimal(count);
            identifier.append(digits.as_str());
        }
        identifiers.push(identifier);
        i += 1;
    }
    assert(identifier_texts(identifiers@) =~= spec_identifiers(names));
    identifiers
}

} // verus!
