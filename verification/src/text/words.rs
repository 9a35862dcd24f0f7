//! Words and lines: trimming white space, splitting a text into words and
//! joining lines into a text.

use crate::text::chars::{is_whitespace, sub_chars, white_space};
use crate::text::search::{first_where, is_first_where, lemma_first_where_unique};
use vstd::prelude::*;
use vstd::string::StringExecFns;

verus! {

/// The text without its leading white space.
pub open spec fn trim_start(s: Seq<char>) -> Seq<char> {
    s.skip(first_where(s, |c: char| !white_space(c)))
}

/// The text without its trailing white space.
pub open spec fn trim_end(s: Seq<char>) -> Seq<char>
    decreases s.len(),
{
    if s.len() > 0 && white_space(s.last()) {
        trim_end(s.drop_last())
    } else {
        s
    }
}

/// The text without leading and trailing white space.
pub open spec fn trim(s: Seq<char>) -> Seq<char> {
    trim_end(trim_start(s))
}

/// Where the first word at or after index `from` begins and ends: the word
/// begins at the first character that is no white space and ends before the
/// next white space. Both are the length of `s` when no word is left.
pub open spec fn word_span(s: Seq<char>, from: int) -> (int, int) {
    let start = from + first_where(s.skip(from), |c: char| !white_space(c));
    let end = start + first_where(s.skip(start), |c: char| white_space(c));
    (start, end)
}

/// The words of `s` from index `from` on, in order: the maximal runs of
/// characters that are no white space.
pub open spec fn words_from(s: Seq<char>, from: int) -> Seq<Seq<char>>
    decreases s.len() - from,
{
    let (start, end) = word_span(s, from);
    if from <= start < end <= s.len() {
        seq![s.subrange(start, end)] + words_from(s, end)
    } else {
        Seq::empty()
    }
}

/// The words of `s`, separated by white space.
pub open spec fn words(s: Seq<char>) -> Seq<Seq<char>> {
    words_from(s, 0)
}

/// The lines joined into one text, with a line feed between neighbours.
pub open spec fn join_lines(lines: Seq<Seq<char>>) -> Seq<char>
    decreases lines.len(),
{
    if lines.len() == 0 {
        Seq::empty()
    } else if lines.len() == 1 {
        lines[0]
    } else {
        join_lines(lines.drop_last()) + seq!['\n'] + lines.last()
    }
}

/// The index of the first character at or after `from` that is no white
/// space, or the length of `v`.
pub fn skip_spaces(v: &Vec<char>, from: usize) -> (i: usize)
    requires
        from <= v.len(),
    ensures
        from <= i <= v.len(),
        i == from + first_where(v@.skip(from as int), |c: char| !white_space(c)),
        i < v.len() ==> !white_space(v@[i as int]),
{
    let mut i: usize = from;
    while i < v.len() && is_whitespace(v[i])
        invariant
            from <= i <= v.len(),
            forall|j: int| from <= j < i ==> white_space(v@[j]),
        decreases v.len() - i,
    {
        i += 1;
    }
    proof {
        let p = |c: char| !white_space(c);
        let t = v@.skip(from as int);
        assert(is_first_where(t, p, i - from)) by {
            assert forall|j: int| 0 <= j < i - from implies !#[trigger] p(t[j]) by {
                assert(t[j] == v@[from + j]);
            }
        }
        lemma_first_where_unique(t, p, i - from);
    }
    i
}

/// The index of the first white space at or after `from`, or the length of `v`.
pub fn skip_word(v: &Vec<char>, from: usize) -> (i: usize)
    requires
        from <= v.len(),
    ensures
        from <= i <= v.len(),
        i == from + first_where(v@.skip(from as int), |c: char| white_space(c)),
        from < v.len() && !white_space(v@[from as int]) ==> from < i,
{
    let mut i: usize = from;
    while i < v.len() && !is_whitespace(v[i])
        invariant
            from <= i <= v.len(),
            forall|j: int| from <= j < i ==> !white_space(v@[j]),
        decreases v.len() - i,
    {
        i += 1;
    }
    proof {
        let p = |c: char| white_space(c);
        let t = v@.skip(from as int);
        assert(is_first_where(t, p, i - from)) by {
            assert forall|j: int| 0 <= j < i - from implies !#[trigger] p(t[j]) by {
                assert(t[j] == v@[from + j]);
            }
        }
        lemma_first_where_unique(t, p, i - from);
    }
    i
}

/// Where the first word at or after `from` begins and ends.
pub fn next_word(v: &Vec<char>, from: usize) -> (span: (usize, usize))
    requires
        from <= v.len(),
    ensures
        (span.0 as int, span.1 as int) == word_span(v@, from as int),
        from <= span.0 <= span.1 <= v.len(),
        span.0 < v.len() ==> span.0 < span.1,
{
    let start = skip_spaces(v, from);
    let end = skip_word(v, start);
    (start, end)
}

/// The first word of `v` at or after `from` and the index where it ends,
/// or nothing when only white space is left.
pub fn take_word(v: &Vec<char>, from: usize) -> (found: Option<(Vec<char>, usize)>)
    requires
        from <= v.len(),
    ensures
        match found {
            Some((word, end)) => {
                &&& from < end <= v.len()
                &&& words_from(v@, from as int).len() > 0
                &&& word@ == words_from(v@, from as int)[0]
                &&& words_from(v@, from as int).skip(1) == words_from(v@, end as int)
            },
            None => words_from(v@, from as int).len() == 0,
        },
{
    let (start, end) = next_word(v, from);
    if start < end {
        let word = sub_chars(v, start, end);
        assert(words_from(v@, from as int).skip(1) =~= words_from(v@, end as int));
        Some((word, end))
    } else {
        None
    }
}

/// Where the text of `v` begins and ends once leading and trailing white
/// space is left out.
pub fn trim_span(v: &Vec<char>) -> (span: (usize, usize))
    ensures
        span.0 <= span.1 <= v.len(),
        v@.subrange(span.0 as int, span.1 as int) == trim(v@),
{
    let start = skip_spaces(v, 0);
    let mut end: usize = v.len();
    assert(v@.skip(0) =~= v@);
    assert(v@.skip(start as int) =~= v@.subrange(start as int, end as int));
    while end > start && is_whitespace(v[end - 1])
        invariant
            start <= end <= v.len(),
            trim_end(v@.subrange(start as int, end as int)) == trim(v@),
        decreases end,
    {
        assert(v@.subrange(start as int, end as int).drop_last() =~= v@.subrange(
            start as int,
            end - 1,
        ));
        end -= 1;
    }
    (start, end)
}

/// The strings of `lines` joined into one, with a line feed between
/// neighbours.
pub fn join_strings(lines: &Vec<String>) -> (text: String)
    ensures
        text@ == join_lines(lines.deep_view()),
{
    let mut text = String::new();
    let mut i: usize = 0;
    while i < lines.len()
        invariant
            i <= lines.len(),
            text@ == join_lines(lines.deep_view().take(i as int)),
        decreases lines.len() - i,
    {
        let ghost before = lines.deep_view().take(i as int);
        let ghost after = lines.deep_view().take(i + 1);
        assert(after.drop_last() =~= before);
        assert(after.last() == lines[i as int]@);
        if i > 0 {
            text.push('\n');
        }
        text.append(lines[i].as_str());
        proof {
            if i == 0 {
                assert(Seq::<char>::empty() + lines[i as int]@ =~= lines[i as int]@);
            } else {
                assert(before.len() > 0);
                assert(join_lines(before).push('\n') =~= join_lines(before) + seq!['\n']);
            }
        }
        i += 1;
    }
    assert(lines.deep_view().take(i as int) =~= lines.deep_view());
    text
}

} // verus!
