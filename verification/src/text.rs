//! Character-level helpers over `str` and `String`.

use vstd::prelude::*;
use vstd::string::*;

verus! {

/// The characters of `s`, in order.
pub fn to_chars(s: &str) -> (v: Vec<char>)
    ensures
        v@ == s@,
{
    let mut v: Vec<char> = Vec::new();
    for c in it: s.chars()
        invariant
            v@ == it.seq().take(it.index() as int),
            it.seq() == s@,
    {
        v.push(c);
    }
    v
}

/// The letters `a` to `z` and `A` to `Z`, and the digits.
pub open spec fn is_ascii_alphanumeric(c: char) -> bool {
    ('a' <= c && c <= 'z') || ('A' <= c && c <= 'Z') || ('0' <= c && c <= '9')
}

/// Whether `c` is an ASCII letter or digit.
pub fn ascii_alphanumeric(c: char) -> (r: bool)
    ensures
        r == is_ascii_alphanumeric(c),
{
    ('a' <= c && c <= 'z') || ('A' <= c && c <= 'Z') || ('0' <= c && c <= '9')
}

/// Whether two texts hold the same characters.
pub fn same_text(a: &str, b: &str) -> (r: bool)
    ensures
        r == (a@ == b@),
{
    let x = String::from_str(a);
    let y = String::from_str(b);
    x == y
}

/// A pattern or path taken relative to a directory: itself where it starts
/// at the root, else the directory, a separator unless the directory ends in
/// one or is empty, and the relative part.
pub open spec fn spec_join_path(base: Seq<char>, rel: Seq<char>) -> Seq<char> {
    if rel.len() > 0 && rel[0] == '/' {
        rel
    } else if base.len() == 0 || base.last() == '/' {
        base + rel
    } else {
        base + seq!['/'] + rel
    }
}

/// The file name of a path: what stands behind its last separator.
pub open spec fn spec_base_name(path: Seq<char>) -> Seq<char>
    decreases path.len(),
{
    if path.len() == 0 || path.last() == '/' {
        Seq::empty()
    } else {
        spec_base_name(path.drop_last()).push(path.last())
    }
}

/// Takes `rel` relative to the directory `base`.
pub fn join_path(base: &str, rel: &str) -> (r: String)
    ensures
        r@ == spec_join_path(base@, rel@),
{
    let rel_len = rel.unicode_len();
    if rel_len > 0 && rel.get_char(0) == '/' {
        return String::from_str(rel);
    }
    let base_len = base.unicode_len();
    let mut out = String::from_str(base);
    if base_len > 0 && base.get_char(base_len - 1) != '/' {
        proof {
            reveal_strlit("/");
            assert("/"@ =~= seq!['/']);
        }
        out.append("/");
    }
    out.append(rel);
    out
}

/// The suffix of `path` that starts at `from` is the file name exactly when
/// no separator stands in it and one stands just before it, or it starts the
/// path.
pub proof fn lemma_base_name_suffix(path: Seq<char>, from: int)
    requires
        0 <= from <= path.len(),
        from == 0 || path[from - 1] == '/',
        forall|i: int| from <= i < path.len() ==> path[i] != '/',
    ensures
        spec_base_name(path) == path.subrange(from, path.len() as int),
    decreases path.len(),
{
    if path.len() == 0 || from == path.len() {
        assert(path.subrange(from, path.len() as int) =~= Seq::empty());
    } else {
        let shorter = path.drop_last();
        lemma_base_name_suffix(shorter, from);
        assert(shorter.subrange(from, shorter.len() as int).push(path.last()) =~= path.subrange(
            from,
            path.len() as int,
        ));
    }
}

/// The file name of a path.
pub fn base_name(path: &str) -> (r: String)
    ensures
        r@ == spec_base_name(path@),
{
    let chars = to_chars(path);
    let n = chars.len();
    let mut from: usize = n;
    while from > 0 && chars[from - 1] != '/'
        invariant
            from <= n,
            n == chars.len(),
            forall|i: int| from <= i < n ==> chars@[i] != '/',
        decreases from,
    {
        from -= 1;
    }
    proof {
        lemma_base_name_suffix(path@, from as int);
    }
    String::from_str(path.substring_char(from, n))
}

} // verus!
