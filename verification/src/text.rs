//! Reply text: fields between separators, the integer part of a number with a
//! fraction, and whitespace at the ends of a field.

use vstd::prelude::*;
use vstd::slice::slice_subrange;

verus! {

/// The two characters that stand between the fields of a line.
pub open spec fn separator() -> Seq<char> {
    seq![';', ';']
}

/// Whether a separator starts at position `i` of `s`.
pub open spec fn separator_at(s: Seq<char>, i: int) -> bool {
    0 <= i && i + 1 < s.len() && s[i] == ';' && s[i + 1] == ';'
}

/// The position of the first separator of `s` that starts at `from` or later;
/// the length of `s` if there is none.
pub open spec fn next_separator(s: Seq<char>, from: int) -> int
    decreases s.len() - from,
{
    if from >= s.len() {
        s.len() as int
    } else if separator_at(s, from) {
        from
    } else {
        next_separator(s, from + 1)
    }
}

/// The fields of `s` from position `from` on: a field ends where the next
/// separator starts, and the next field starts behind that separator. The
/// text behind the last separator is the last field, empty or not.
pub open spec fn fields_from(s: Seq<char>, from: int) -> Seq<Seq<char>>
    decreases s.len() - from,
    via fields_from_terminates
{
    let end = next_separator(s, from);
    if end < s.len() {
        seq![s.subrange(from, end)] + fields_from(s, end + 2)
    } else {
        seq![s.subrange(from, s.len() as int)]
    }
}

#[via_fn]
proof fn fields_from_terminates(s: Seq<char>, from: int) {
    lemma_next_separator(s, from);
}

/// The next separator is not in front of `from`, and a separator does start
/// where it is said to be.
pub proof fn lemma_next_separator(s: Seq<char>, from: int)
    ensures
        next_separator(s, from) <= s.len(),
        next_separator(s, from) < s.len() ==> from <= next_separator(s, from) && separator_at(
            s,
            next_separator(s, from),
        ),
    decreases s.len() - from,
{
    if from < s.len() && !separator_at(s, from) {
        lemma_next_separator(s, from + 1);
    }
}

/// The fields of a line: the pieces between its separators, taken from left
/// to right. A line without a separator is one field.
pub open spec fn fields(s: Seq<char>) -> Seq<Seq<char>> {
    fields_from(s, 0)
}

/// The position of the first `c` in `s`; the length of `s` if there is none.
pub open spec fn first_index_of(s: Seq<char>, c: char) -> int
    decreases s.len(),
{
    if s.len() == 0 {
        0
    } else if s[0] == c {
        0
    } else {
        1 + first_index_of(s.skip(1), c)
    }
}

/// What stands in front of the first `'.'` of `s`; all of `s` if it has none.
/// A fraction is cut off, never rounded.
pub open spec fn integer_part(s: Seq<char>) -> Seq<char> {
    s.take(first_index_of(s, '.'))
}

/// Whether `c` is white space: a character with the Unicode property
/// `White_Space`.
pub open spec fn is_whitespace(c: char) -> bool {
    ||| c == ' '
    ||| '\u{9}' <= c <= '\u{d}'
    ||| c == '\u{85}'
    ||| c == '\u{a0}'
    ||| c == '\u{1680}'
    ||| '\u{2000}' <= c <= '\u{200a}'
    ||| c == '\u{2028}'
    ||| c == '\u{2029}'
    ||| c == '\u{202f}'
    ||| c == '\u{205f}'
    ||| c == '\u{3000}'
}

/// `s` without the white space at its start.
pub open spec fn trim_start(s: Seq<char>) -> Seq<char>
    decreases s.len(),
{
    if s.len() > 0 && is_whitespace(s[0]) {
        trim_start(s.skip(1))
    } else {
        s
    }
}

/// `s` without the white space at its end.
pub open spec fn trim_end(s: Seq<char>) -> Seq<char>
    decreases s.len(),
{
    if s.len() > 0 && is_whitespace(s.last()) {
        trim_end(s.drop_last())
    } else {
        s
    }
}

/// `s` without the white space at its start and at its end.
pub open spec fn trimmed(s: Seq<char>) -> Seq<char> {
    trim_end(trim_start(s))
}

/// The characters of a string, in order.
pub fn chars_of(s: &str) -> (chars: Vec<char>)
    ensures
        chars@ == s@,
{
    let mut chars: Vec<char> = Vec::new();
    for c in it: s.chars()
        invariant
            chars@ == it.seq().take(it.index() as int),
    {
        chars.push(c);
    }
    chars
}

/// The string made of the characters of `s`.
pub fn text_of(s: &[char]) -> (text: String)
    ensures
        text@ == s@,
{
    let mut text = String::new();
    let mut i: usize = 0;
    while i < s.len()
        invariant
            0 <= i <= s.len(),
            text@ == s@.take(i as int),
        decreases s.len() - i,
    {
        text.push(s[i]);
        assert(s@.take(i as int).push(s@[i as int]) =~= s@.take(i + 1));
        i = i + 1;
    }
    assert(s@.take(i as int) =~= s@);
    text
}

/// Tests a character for white space.
pub fn is_space(c: char) -> (b: bool)
    ensures
        b == is_whitespace(c),
{
    c == ' ' || ('\u{9}' <= c && c <= '\u{d}') || c == '\u{85}' || c == '\u{a0}' || c == '\u{1680}'
        || ('\u{2000}' <= c && c <= '\u{200a}') || c == '\u{2028}' || c == '\u{2029}' || c
        == '\u{202f}' || c == '\u{205f}' || c == '\u{3000}'
}

/// Cuts the white space off both ends of `s`.
pub fn trim(s: &[char]) -> (r: &[char])
    ensures
        r@ == trimmed(s@),
{
    let mut start: usize = 0;
    assert(s@.skip(0) =~= s@);
    while start < s.len() && is_space(s[start])
        invariant
            0 <= start <= s.len(),
            trim_start(s@) == trim_start(s@.skip(start as int)),
        decreases s.len() - start,
    {
        assert(s@.skip(start as int).skip(1) =~= s@.skip(start + 1));
        start = start + 1;
    }
    assert(trim_start(s@) == s@.skip(start as int));
    let mut end: usize = s.len();
    while end > start && is_space(s[end - 1])
        invariant
            start <= end <= s.len(),
            trim_end(s@.skip(start as int)) == trim_end(s@.subrange(start as int, end as int)),
        decreases end,
    {
        assert(s@.subrange(start as int, end as int).drop_last() =~= s@.subrange(
            start as int,
            end - 1,
        ));
        end = end - 1;
    }
    assert(trim_end(s@.subrange(start as int, end as int)) == s@.subrange(
        start as int,
        end as int,
    ));
    slice_subrange(s, start, end)
}

/// Cuts `s` off at its first `'.'`.
pub fn integer_part_of(s: &[char]) -> (r: &[char])
    ensures
        r@ == integer_part(s@),
{
    let mut i: usize = 0;
    assert(s@.skip(0) =~= s@);
    while i < s.len() && s[i] != '.'
        invariant
            0 <= i <= s.len(),
            first_index_of(s@, '.') == i + first_index_of(s@.skip(i as int), '.'),
        decreases s.len() - i,
    {
        assert(s@.skip(i as int).skip(1) =~= s@.skip(i + 1));
        i = i + 1;
    }
    slice_subrange(s, 0, i)
}

/// Splits a line into its fields.
pub fn split_fields<'a>(s: &'a [char]) -> (parts: Vec<&'a [char]>)
    ensures
        parts@.len() == fields(s@).len(),
        parts@.len() >= 1,
        forall|k: int| 0 <= k < parts@.len() ==> (#[trigger] parts@[k])@ == fields(s@)[k],
{
    let mut parts: Vec<&'a [char]> = Vec::new();
    let mut start: usize = 0;
    let mut i: usize = 0;
    let ghost mut done: Seq<Seq<char>> = Seq::empty();
    while i < s.len()
        invariant
            0 <= start <= i <= s.len(),
            next_separator(s@, start as int) == next_separator(s@, i as int),
            fields(s@) == done + fields_from(s@, start as int),
            parts@.len() == done.len(),
            forall|k: int| 0 <= k < parts@.len() ==> (#[trigger] parts@[k])@ == done[k],
        decreases s.len() - i,
    {
        if s[i] == ';' && i + 1 < s.len() && s[i + 1] == ';' {
            assert(separator_at(s@, i as int));
            let ghost before = done;
            parts.push(slice_subrange(s, start, i));
            proof {
                done = done.push(s@.subrange(start as int, i as int));
                assert(before + (seq![s@.subrange(start as int, i as int)] + fields_from(
                    s@,
                    i + 2,
                )) =~= done + fields_from(s@, i + 2));
            }
            i = i + 2;
            start = i;
        } else {
            assert(!separator_at(s@, i as int));
            i = i + 1;
        }
    }
    parts.push(slice_subrange(s, start, s.len()));
    proof {
        let last = s@.subrange(start as int, s@.len() as int);
        assert(fields_from(s@, start as int) =~= seq![last]);
        assert(fields(s@) =~= done.push(last));
    }
    parts
}

} // verus!
