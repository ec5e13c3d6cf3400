//! The samples that a text holds, one to a line.

use vstd::prelude::*;
use crate::text::chars_of;

verus! {

/// Whether `c` is white space as Unicode has it: a character that
/// Unicode marks `White_Space`.
pub open spec fn is_white_space(c: char) -> bool {
    ||| '\u{9}' <= c <= '\u{d}'
    ||| c == ' '
    ||| c == '\u{85}'
    ||| c == '\u{a0}'
    ||| c == '\u{1680}'
    ||| '\u{2000}' <= c <= '\u{200a}'
    ||| c == '\u{2028}'
    ||| c == '\u{2029}'
    ||| c == '\u{202f}'
    ||| c == '\u{205f}'
    ||| c == '\u{3000}'
}

/// `s` without the white space it starts with.
pub open spec fn trim_start(s: Seq<char>) -> Seq<char>
    decreases s.len(),
{
    if s.len() > 0 && is_white_space(s.first()) {
        trim_start(s.drop_first())
    } else {
        s
    }
}

/// `s` without the white space it ends with.
pub open spec fn trim_end(s: Seq<char>) -> Seq<char>
    decreases s.len(),
{
    if s.len() > 0 && is_white_space(s.last()) {
        trim_end(s.drop_last())
    } else {
        s
    }
}

/// `s` without the white space at its two ends.
pub open spec fn trimmed(s: Seq<char>) -> Seq<char> {
    trim_end(trim_start(s))
}

/// The lines of `s`: a line feed ends a line and starts the next, and
/// belongs to neither. There is always a last line, which may be empty.
pub open spec fn lines_of(s: Seq<char>) -> Seq<Seq<char>>
    decreases s.len(),
{
    if s.len() == 0 {
        seq![Seq::empty()]
    } else if s.last() == '\n' {
        lines_of(s.drop_last()).push(Seq::empty())
    } else {
        let before = lines_of(s.drop_last());
        before.drop_last().push(before.last().push(s.last()))
    }
}

/// The samples in a text that was read as a whole: the lines of the text
/// without the white space at its two ends.
pub open spec fn samples_in(s: Seq<char>) -> Seq<Seq<char>> {
    lines_of(trimmed(s))
}

/// A text has at least one line.
pub proof fn lemma_lines_of_is_not_empty(s: Seq<char>)
    ensures
        lines_of(s).len() > 0,
    decreases s.len(),
{
    if s.len() > 0 {
        lemma_lines_of_is_not_empty(s.drop_last());
    }
}

/// Cutting white space off the start of the tail of a text is cutting it
/// off the start of the text, where all before the tail is white space.
proof fn lemma_trim_start_skips(s: Seq<char>, i: int)
    requires
        0 <= i <= s.len(),
        forall|k: int| 0 <= k < i ==> is_white_space(#[trigger] s[k]),
    ensures
        trim_start(s) == trim_start(s.subrange(i, s.len() as int)),
    decreases i,
{
    if i == 0 {
        assert(s.subrange(0, s.len() as int) =~= s);
    } else {
        let tail = s.drop_first();
        assert(tail.subrange(i - 1, tail.len() as int) =~= s.subrange(i, s.len() as int));
        lemma_trim_start_skips(tail, i - 1);
    }
}

/// Cutting white space off the end of the head of a text is cutting it off
/// the end of the text, where all after the head is white space.
proof fn lemma_trim_end_skips(s: Seq<char>, j: int)
    requires
        0 <= j <= s.len(),
        forall|k: int| j <= k < s.len() ==> is_white_space(#[trigger] s[k]),
    ensures
        trim_end(s) == trim_end(s.subrange(0, j)),
    decreases s.len() - j,
{
    if j == s.len() {
        assert(s.subrange(0, j) =~= s);
    } else {
        let head = s.drop_last();
        assert(head.subrange(0, j) =~= s.subrange(0, j));
        lemma_trim_end_skips(head, j);
    }
}

/// Whether `c` is white space as Unicode has it.
pub fn white_space(c: char) -> (r: bool)
    ensures
        r == is_white_space(c),
{
    ('\u{9}' <= c && c <= '\u{d}') || c == ' ' || c == '\u{85}' || c == '\u{a0}' || c
        == '\u{1680}' || ('\u{2000}' <= c && c <= '\u{200a}') || c == '\u{2028}' || c
        == '\u{2029}' || c == '\u{202f}' || c == '\u{205f}' || c == '\u{3000}'
}

/// Where `s` without the white space at its two ends starts and ends in `s`.
fn trim_bounds(s: &[char]) -> (r: (usize, usize))
    ensures
        r.0 <= r.1 <= s.len(),
        s@.subrange(r.0 as int, r.1 as int) == trimmed(s@),
{
    let mut from: usize = 0;
    while from < s.len() && white_space(s[from])
        invariant
            from <= s.len(),
            forall|k: int| 0 <= k < from ==> is_white_space(#[trigger] s@[k]),
        decreases s.len() - from,
    {
        from = from + 1;
    }
    let ghost tail = s@.subrange(from as int, s.len() as int);
    proof {
        lemma_trim_start_skips(s@, from as int);
        assert(trim_start(tail) == tail);
    }
    let mut to: usize = s.len();
    while to > from && white_space(s[to - 1])
        invariant
            from <= to <= s.len(),
            forall|k: int| to <= k < s.len() ==> is_white_space(#[trigger] s@[k]),
        decreases to,
    {
        to = to - 1;
    }
    proof {
        assert forall|k: int| to - from <= k < tail.len() implies is_white_space(
            #[trigger] tail[k],
        ) by {
            assert(tail[k] == s@[from + k]);
        }
        lemma_trim_end_skips(tail, to - from);
        let kept = tail.subrange(0, to - from);
        assert(kept =~= s@.subrange(from as int, to as int));
        if to > from {
            assert(kept.last() == s@[to - 1]);
        }
        assert(trim_end(kept) == kept);
    }
    (from, to)
}

/// Calls `String::push` of the standard library, which appends the
/// character `c` to the end of the string `s`.
#[verifier::external_body]
fn push_char(s: &mut String, c: char)
    ensures
        final(s)@ == old(s)@.push(c),
{
    s.push(c);
}

/// The texts that a sequence of strings holds.
pub open spec fn texts(lines: Seq<String>) -> Seq<Seq<char>> {
    Seq::new(lines.len(), |i: int| lines[i]@)
}

/// The samples in a text that was read as a whole, such as all of standard
/// input: the white space at the two ends of the text is dropped, and what
/// is left is cut at each line feed. A text of white space alone, the empty
/// text too, holds one sample, which is empty.
pub fn sample_lines(text: &str) -> (r: Vec<String>)
    ensures
        texts(r@) == samples_in(text@),
        r@.len() > 0,
{
    let chars = chars_of(text);
    let s = chars.as_slice();
    let (from, to) = trim_bounds(s);
    let ghost kept = s@.subrange(from as int, to as int);
    let mut lines: Vec<String> = Vec::new();
    let mut current = String::new();
    let mut i: usize = from;
    assert(kept.take(0) =~= Seq::<char>::empty());
    assert(texts(lines@).push(current@) =~= lines_of(kept.take(0)));
    while i < to
        invariant
            from <= i <= to <= s.len(),
            kept == s@.subrange(from as int, to as int),
            texts(lines@).push(current@) == lines_of(kept.take(i - from)),
        decreases to - i,
    {
        let c = s[i];
        let ghost before = kept.take(i - from);
        let ghost after = kept.take(i + 1 - from);
        let ghost old_lines = texts(lines@);
        let ghost old_current = current@;
        proof {
            assert(after.drop_last() =~= before);
            assert(after.last() == c);
            assert(old_lines.push(old_current).drop_last() =~= old_lines);
            assert(old_lines.push(old_current).last() == old_current);
        }
        if c == '\n' {
            lines.push(current);
            current = String::new();
            assert(texts(lines@) =~= old_lines.push(old_current));
        } else {
            push_char(&mut current, c);
        }
        i = i + 1;
    }
    proof {
        assert(kept.take(to - from) =~= kept);
    }
    let ghost old_lines = texts(lines@);
    let ghost last = current@;
    lines.push(current);
    assert(texts(lines@) =~= old_lines.push(last));
    proof {
        lemma_lines_of_is_not_empty(kept);
    }
    lines
}

} // verus!
