//! Physical lines: a text cut at its line endings.
//!
//! A line ends at a line feed; a carriage return directly before that line
//! feed belongs to the ending. Neither is part of the line. The last line of
//! a text needs no ending, and a text that ends in one has no empty line
//! after it.

use crate::scan::{lemma_prefix_len, lemma_prefix_len_unique, prefix_len};
use vstd::prelude::*;
use vstd::slice::slice_subrange;

verus! {

/// The test for anything but a line feed, as a predicate on characters.
pub open spec fn non_newline() -> spec_fn(char) -> bool {
    |c: char| c != '\n'
}

/// How many characters of `text` stand before its first line feed; all of
/// them where it has none.
pub open spec fn spec_line_len(text: Seq<char>) -> nat {
    prefix_len(text, non_newline())
}

/// `line` without the carriage return it ends with, if it ends with one.
pub open spec fn spec_strip_cr(line: Seq<char>) -> Seq<char> {
    if line.len() > 0 && line.last() == '\r' {
        line.drop_last()
    } else {
        line
    }
}

/// The physical lines of `text`, in order and without their endings.
pub open spec fn spec_lines(text: Seq<char>) -> Seq<Seq<char>>
    decreases text.len(),
{
    let n = spec_line_len(text) as int;
    if text.len() == 0 {
        Seq::empty()
    } else if n >= text.len() {
        seq![text]
    } else {
        seq![spec_strip_cr(text.take(n))] + spec_lines(text.skip(n + 1))
    }
}

/// `lines` written out as a text, each line followed by `ending`.
pub open spec fn spec_join(lines: Seq<Seq<char>>, ending: Seq<char>) -> Seq<char>
    decreases lines.len(),
{
    if lines.len() == 0 {
        Seq::empty()
    } else {
        lines[0] + ending + spec_join(lines.drop_first(), ending)
    }
}

/// Whether `line` can be a line of a text whichever way its lines end: it
/// holds no line feed and does not end with a carriage return.
pub open spec fn is_plain_line(line: Seq<char>) -> bool {
    &&& forall|i: int| 0 <= i < line.len() ==> #[trigger] line[i] != '\n'
    &&& line.len() > 0 ==> line.last() != '\r'
}

/// What each of `lines` holds.
pub open spec fn line_views(lines: Seq<&[char]>) -> Seq<Seq<char>> {
    Seq::new(lines.len(), |i: int| lines[i]@)
}

/// Counts the characters of `text` before its first line feed.
pub fn line_len(text: &[char]) -> (n: usize)
    ensures
        n == spec_line_len(text@),
        n <= text@.len(),
{
    let mut n: usize = 0;
    while n < text.len() && text[n] != '\n'
        invariant
            n <= text@.len(),
            forall|i: int| 0 <= i < n ==> non_newline()(#[trigger] text@[i]),
        decreases text@.len() - n,
    {
        n += 1;
    }
    proof {
        lemma_prefix_len_unique(text@, non_newline(), n as int);
    }
    n
}

/// Drops the carriage return that `line` ends with, if it ends with one.
pub fn strip_cr(line: &[char]) -> (r: &[char])
    ensures
        r@ == spec_strip_cr(line@),
{
    let n: usize = line.len();
    if n > 0 && line[n - 1] == '\r' {
        slice_subrange(line, 0, n - 1)
    } else {
        line
    }
}

/// Cuts `text` into its physical lines.
pub fn split_lines<'a>(text: &'a [char]) -> (lines: Vec<&'a [char]>)
    ensures
        line_views(lines@) == spec_lines(text@),
{
    let mut lines: Vec<&'a [char]> = Vec::new();
    let mut rest: &'a [char] = text;
    while rest.len() > 0
        invariant
            line_views(lines@) + spec_lines(rest@) == spec_lines(text@),
        decreases rest@.len(),
    {
        let n: usize = line_len(rest);
        if n == rest.len() {
            lines.push(rest);
            rest = slice_subrange(rest, n, n);
        } else {
            lines.push(strip_cr(slice_subrange(rest, 0, n)));
            rest = slice_subrange(rest, n + 1, rest.len());
        }
    }
    lines
}

/// No line holds a line feed.
pub proof fn lemma_lines_hold_no_line_feed(text: Seq<char>)
    ensures
        forall|i: int, j: int|
            0 <= i < spec_lines(text).len() && 0 <= j < spec_lines(text)[i].len()
                ==> #[trigger] spec_lines(text)[i][j] != '\n',
    decreases text.len(),
{
    let n = spec_line_len(text) as int;
    lemma_prefix_len(text, non_newline());
    if text.len() > 0 && n < text.len() {
        let rest = text.skip(n + 1);
        lemma_lines_hold_no_line_feed(rest);
        assert forall|i: int, j: int|
            0 <= i < spec_lines(text).len() && 0 <= j < spec_lines(text)[i].len()
                implies #[trigger] spec_lines(text)[i][j] != '\n' by {
            if i > 0 {
                assert(spec_lines(text)[i] == spec_lines(rest)[i - 1]);
            }
        }
    }
}

/// Line feed or carriage return and line feed: a text has the same lines
/// whichever of the two ends them. Written out with either, plain lines
/// are read back as they were.
pub proof fn lemma_lines_of_joined(lines: Seq<Seq<char>>)
    requires
        forall|i: int| 0 <= i < lines.len() ==> is_plain_line(#[trigger] lines[i]),
    ensures
        spec_lines(spec_join(lines, seq!['\n'])) == lines,
        spec_lines(spec_join(lines, seq!['\r', '\n'])) == lines,
    decreases lines.len(),
{
    if lines.len() > 0 {
        let first = lines[0];
        let rest = lines.drop_first();
        assert forall|i: int| 0 <= i < rest.len() implies is_plain_line(#[trigger] rest[i]) by {
            assert(rest[i] == lines[i + 1]);
        }
        lemma_lines_of_joined(rest);

        let lf = spec_join(lines, seq!['\n']);
        let n = first.len() as int;
        assert(lf[n] == '\n');
        lemma_prefix_len_unique(lf, non_newline(), n);
        assert(lf.take(n) == first);
        assert(lf.skip(n + 1) == spec_join(rest, seq!['\n']));

        let crlf = spec_join(lines, seq!['\r', '\n']);
        assert(crlf[n] == '\r' && crlf[n + 1] == '\n');
        lemma_prefix_len_unique(crlf, non_newline(), n + 1);
        assert(crlf.take(n + 1) == first.push('\r'));
        assert(first.push('\r').drop_last() == first);
        assert(crlf.skip(n + 2) == spec_join(rest, seq!['\r', '\n']));
    }
}

} // verus!
