//! Searches from the left: the first character of some kind, the first
//! separator, the first comment marker.

use vstd::prelude::*;

verus! {

/// Holds when `i` is the least index of `s` whose character satisfies `p`,
/// or the length of `s` when no character does.
pub open spec fn is_first_where(s: Seq<char>, p: spec_fn(char) -> bool, i: int) -> bool {
    &&& 0 <= i <= s.len()
    &&& forall|j: int| 0 <= j < i ==> !#[trigger] p(s[j])
    &&& i < s.len() ==> p(s[i])
}

/// The least index of `s` whose character satisfies `p`; the length of `s`
/// when no character does.
pub open spec fn first_where(s: Seq<char>, p: spec_fn(char) -> bool) -> int {
    choose|i: int| is_first_where(s, p, i)
}

/// An index that meets `is_first_where` is the one `first_where` names.
pub proof fn lemma_first_where_unique(s: Seq<char>, p: spec_fn(char) -> bool, i: int)
    requires
        is_first_where(s, p, i),
    ensures
        first_where(s, p) == i,
{
    let k = first_where(s, p);
    assert(is_first_where(s, p, k));
    if k < i {
        assert(!p(s[k]));
    }
    if i < k {
        assert(!p(s[i]));
    }
}

/// `first_where` always names an index that meets `is_first_where`.
pub proof fn lemma_first_where(s: Seq<char>, p: spec_fn(char) -> bool)
    ensures
        is_first_where(s, p, first_where(s, p)),
{
    lemma_first_where_exists(s, p, s.len() as int);
}

proof fn lemma_first_where_exists(s: Seq<char>, p: spec_fn(char) -> bool, n: int)
    requires
        0 <= n <= s.len(),
        n < s.len() ==> p(s[n]),
    ensures
        exists|i: int| is_first_where(s, p, i),
    decreases n,
{
    if exists|j: int| 0 <= j < n && p(s[j]) {
        let j = choose|j: int| 0 <= j < n && p(s[j]);
        lemma_first_where_exists(s, p, j);
    } else {
        assert(is_first_where(s, p, n));
    }
}

/// Holds when `i` is the index of the first `c` in `s`, or the length of
/// `s` when it has none.
pub open spec fn is_position(s: Seq<char>, c: char, i: int) -> bool {
    &&& 0 <= i <= s.len()
    &&& forall|j: int| 0 <= j < i ==> s[j] != c
    &&& i < s.len() ==> s[i] == c
}

/// The index of the first `c` in `s`, or the length of `s` when it has none.
pub open spec fn position(s: Seq<char>, c: char) -> int {
    choose|i: int| is_position(s, c, i)
}

/// An index that meets `is_position` is the one `position` names.
pub proof fn lemma_position_unique(s: Seq<char>, c: char, i: int)
    requires
        is_position(s, c, i),
    ensures
        position(s, c) == i,
{
    let k = position(s, c);
    assert(is_position(s, c, k));
}

/// The index of the first `c` at or after `from`, or the length of `v`.
pub fn find_char(v: &Vec<char>, from: usize, c: char) -> (i: usize)
    requires
        from <= v.len(),
    ensures
        from <= i <= v.len(),
        i == from + position(v@.skip(from as int), c),
{
    let mut i: usize = from;
    while i < v.len() && v[i] != c
        invariant
            from <= i <= v.len(),
            forall|j: int| from <= j < i ==> v@[j] != c,
        decreases v.len() - i,
    {
        i += 1;
    }
    proof {
        lemma_position_unique(v@.skip(from as int), c, i - from);
    }
    i
}

/// Holds when a comment marker, two slashes in a row, begins at index `i`.
pub open spec fn comment_at(s: Seq<char>, i: int) -> bool {
    0 <= i && i + 1 < s.len() && s[i] == '/' && s[i + 1] == '/'
}

/// Holds when `i` is the least index at which a comment marker begins, or
/// the length of `s` when it has none.
pub open spec fn is_comment_start(s: Seq<char>, i: int) -> bool {
    &&& 0 <= i <= s.len()
    &&& forall|j: int| 0 <= j < i ==> !#[trigger] comment_at(s, j)
    &&& i < s.len() ==> comment_at(s, i)
}

/// The index at which the first comment marker of `s` begins; the length of
/// `s` when it has none.
pub open spec fn comment_start(s: Seq<char>) -> int {
    choose|i: int| is_comment_start(s, i)
}

/// The text before the first comment marker.
pub open spec fn without_comment(s: Seq<char>) -> Seq<char> {
    s.take(comment_start(s))
}

/// An index that meets `is_comment_start` is the one `comment_start` names.
pub proof fn lemma_comment_start_unique(s: Seq<char>, i: int)
    requires
        is_comment_start(s, i),
    ensures
        comment_start(s) == i,
{
    let k = comment_start(s);
    assert(is_comment_start(s, k));
    if k < i {
        assert(!comment_at(s, k));
    }
    if i < k {
        assert(!comment_at(s, i));
    }
}

/// A text without a slash has no comment: nothing is cut off.
pub proof fn lemma_without_comment_identity(s: Seq<char>)
    requires
        forall|i: int| 0 <= i < s.len() ==> s[i] != '/',
    ensures
        comment_start(s) == s.len(),
        without_comment(s) == s,
{
    assert(is_comment_start(s, s.len() as int));
    lemma_comment_start_unique(s, s.len() as int);
    assert(s.take(s.len() as int) =~= s);
}

/// The index at which the first comment marker of `v` begins, or its length.
pub fn find_comment(v: &Vec<char>) -> (i: usize)
    ensures
        i == comment_start(v@),
        i <= v.len(),
{
    let mut i: usize = 0;
    while i < v.len() && !(v[i] == '/' && i + 1 < v.len() && v[i + 1] == '/')
        invariant
            i <= v.len(),
            forall|j: int| 0 <= j < i ==> !#[trigger] comment_at(v@, j),
        decreases v.len() - i,
    {
        i += 1;
    }
    proof {
        assert(is_comment_start(v@, i as int));
        lemma_comment_start_unique(v@, i as int);
    }
    i
}

} // verus!
