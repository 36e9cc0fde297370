//! The rules that read one physical line.
//!
//! A line's kind is decided by the marker it starts with. Each rule then
//! takes the marker off and keeps what follows, trimmed.

use crate::line::{option_view, Line, LineView};
use crate::scan::{
    lemma_prefix_len, lemma_prefix_len_unique, lemma_suffix_len, lemma_suffix_len_unique,
};
use crate::text::string_of;
use crate::whitespace::{
    lemma_trim_is_trimmed, non_whitespace, spec_token_len, spec_trailing_whitespace, spec_trim,
    spec_trim_start, token_len, trim, trim_start, whitespace,
};
use vstd::prelude::*;
use vstd::slice::slice_subrange;

verus! {

/// The kinds of physical line.
#[derive(Debug, Clone, Copy, PartialEq, Eq, Structural)]
pub enum Kind {
    /// A link line.
    Link,
    /// A heading line.
    Heading,
    /// An entry of a list.
    ListItem,
    /// A quoted line.
    Quote,
    /// A fence: it opens a preformatted block, or closes the one it stands in.
    Fence,
    /// A line that starts with no marker.
    Text,
}

/// What a link line starts with.
pub open spec fn link_marker() -> Seq<char> {
    seq!['=', '>']
}

/// What a heading line starts with.
pub open spec fn heading_marker() -> Seq<char> {
    seq!['#']
}

/// What a list item starts with.
pub open spec fn list_marker() -> Seq<char> {
    seq!['*', ' ']
}

/// What a quoted line starts with.
pub open spec fn quote_marker() -> Seq<char> {
    seq!['>']
}

/// What a fence starts with.
pub open spec fn fence_marker() -> Seq<char> {
    seq!['`', '`', '`']
}

/// What follows `marker` in a `line` that starts with it.
pub open spec fn spec_after(line: Seq<char>, marker: Seq<char>) -> Seq<char>
    recommends
        marker.is_prefix_of(line),
{
    line.skip(marker.len() as int)
}

/// The kind of `line`: that of the first marker it starts with, in the order
/// link, heading, list item, quote, fence; text where it starts with none.
pub open spec fn spec_kind(line: Seq<char>) -> Kind {
    if link_marker().is_prefix_of(line) {
        Kind::Link
    } else if heading_marker().is_prefix_of(line) {
        Kind::Heading
    } else if list_marker().is_prefix_of(line) {
        Kind::ListItem
    } else if quote_marker().is_prefix_of(line) {
        Kind::Quote
    } else if fence_marker().is_prefix_of(line) {
        Kind::Fence
    } else {
        Kind::Text
    }
}

/// Whether `line` is a fence.
pub open spec fn spec_is_fence(line: Seq<char>) -> bool {
    fence_marker().is_prefix_of(line)
}

/// How many characters at the start of a heading line are looked at for its
/// level.
pub const HEADING_WINDOW: usize = 3;

/// How many of the first `n` characters of `line` are `#`; of all its
/// characters where it has fewer than `n`.
pub open spec fn spec_hashes(line: Seq<char>, n: nat) -> nat
    decreases n,
{
    if n == 0 {
        0
    } else if n <= line.len() && line[n - 1] == '#' {
        spec_hashes(line, (n - 1) as nat) + 1
    } else {
        spec_hashes(line, (n - 1) as nat)
    }
}

/// The level of the heading line `line`: how many `#` stand in its window.
/// They need not stand side by side, and those after the window do not count.
pub open spec fn spec_heading_level(line: Seq<char>) -> nat {
    spec_hashes(line, HEADING_WINDOW as nat)
}

/// The record of the heading line `line`. Its content is what follows the
/// first `level` characters, trimmed: a `#` after those is content.
pub open spec fn spec_heading(line: Seq<char>) -> LineView {
    let level = spec_heading_level(line);
    LineView::Heading { level: level as u8, content: spec_trim(line.skip(level as int)) }
}

/// The record of the link line `line`. What follows the marker, less the
/// whitespace it begins with, is cut at its first whitespace character: the
/// address before it, and the name after it, trimmed. Where there is nothing
/// to cut at, all of it is the address and the link has no name.
pub open spec fn spec_link(line: Seq<char>) -> LineView {
    let rest = spec_trim_start(spec_after(line, link_marker()));
    let k = spec_token_len(rest) as int;
    if k < rest.len() {
        LineView::Link { url: rest.take(k), name: Some(spec_trim(rest.skip(k + 1))) }
    } else {
        LineView::Link { url: spec_trim(rest), name: None }
    }
}

/// What the fence `line` says of the block it opens: what follows the
/// marker, trimmed, if anything is left of it.
pub open spec fn spec_alt(line: Seq<char>) -> Option<Seq<char>> {
    let rest = spec_trim(spec_after(line, fence_marker()));
    if rest.len() == 0 {
        None
    } else {
        Some(rest)
    }
}

/// The record that `line` gives by itself. A fence alone gives a block with
/// an empty body.
pub open spec fn spec_record(line: Seq<char>) -> LineView {
    match spec_kind(line) {
        Kind::Link => spec_link(line),
        Kind::Heading => spec_heading(line),
        Kind::ListItem => LineView::ListItem(spec_trim(spec_after(line, list_marker()))),
        Kind::Quote => LineView::Quote(spec_trim(spec_after(line, quote_marker()))),
        Kind::Fence => LineView::Pre { alt: spec_alt(line), content: Seq::empty() },
        Kind::Text => LineView::Text(spec_trim(line)),
    }
}

/// Whether `line` is a fence.
pub fn is_fence(line: &[char]) -> (b: bool)
    ensures
        b == spec_is_fence(line@),
        b == (spec_kind(line@) is Fence),
{
    proof {
        lemma_markers(line@);
    }
    line.len() >= 3 && line[0] == '`' && line[1] == '`' && line[2] == '`'
}

/// Finds the kind of `line`.
pub fn kind(line: &[char]) -> (k: Kind)
    ensures
        k == spec_kind(line@),
{
    proof {
        lemma_markers(line@);
    }
    let n: usize = line.len();
    if n >= 2 && line[0] == '=' && line[1] == '>' {
        Kind::Link
    } else if n >= 1 && line[0] == '#' {
        Kind::Heading
    } else if n >= 2 && line[0] == '*' && line[1] == ' ' {
        Kind::ListItem
    } else if n >= 1 && line[0] == '>' {
        Kind::Quote
    } else if is_fence(line) {
        Kind::Fence
    } else {
        Kind::Text
    }
}

/// Counts the `#` in the window of `line`.
pub fn heading_level(line: &[char]) -> (level: u8)
    ensures
        level == spec_heading_level(line@),
        level <= HEADING_WINDOW,
        level <= line@.len(),
        heading_marker().is_prefix_of(line@) ==> level >= 1,
{
    let mut level: u8 = 0;
    let mut i: usize = 0;
    while i < HEADING_WINDOW
        invariant
            i <= HEADING_WINDOW,
            level == spec_hashes(line@, i as nat),
            level <= i,
        decreases HEADING_WINDOW - i,
    {
        if i < line.len() && line[i] == '#' {
            level += 1;
        }
        i += 1;
    }
    proof {
        lemma_hashes_bound(line@, HEADING_WINDOW as nat);
        if heading_marker().is_prefix_of(line@) {
            lemma_heading_level(line@);
        }
    }
    level
}

/// Reads a heading line.
pub fn heading(line: &[char]) -> (r: Line)
    requires
        heading_marker().is_prefix_of(line@),
    ensures
        r@ == spec_heading(line@),
{
    let level: u8 = heading_level(line);
    let rest = slice_subrange(line, level as usize, line.len());
    Line::Heading { level, content: string_of(trim(rest)) }
}

/// Reads a link line.
pub fn link(line: &[char]) -> (r: Line)
    requires
        link_marker().is_prefix_of(line@),
    ensures
        r@ == spec_link(line@),
{
    let rest = trim_start(slice_subrange(line, 2, line.len()));
    let k: usize = token_len(rest);
    if k < rest.len() {
        let url = slice_subrange(rest, 0, k);
        let name = trim(slice_subrange(rest, k + 1, rest.len()));
        Line::Link { url: string_of(url), name: Some(string_of(name)) }
    } else {
        Line::Link { url: string_of(trim(rest)), name: None }
    }
}

/// Reads what a fence says of the block it opens.
pub fn alt(line: &[char]) -> (r: Option<String>)
    requires
        fence_marker().is_prefix_of(line@),
    ensures
        option_view(r) == spec_alt(line@),
{
    let rest = trim(slice_subrange(line, 3, line.len()));
    if rest.len() == 0 {
        None
    } else {
        Some(string_of(rest))
    }
}

/// Reads one line by itself.
pub fn record(line: &[char]) -> (r: Line)
    ensures
        r@ == spec_record(line@),
{
    match kind(line) {
        Kind::Link => link(line),
        Kind::Heading => heading(line),
        Kind::ListItem => Line::ListItem(string_of(trim(slice_subrange(line, 2, line.len())))),
        Kind::Quote => Line::Quote(string_of(trim(slice_subrange(line, 1, line.len())))),
        Kind::Fence => Line::Pre { alt: alt(line), content: String::new() },
        Kind::Text => Line::Text(string_of(trim(line))),
    }
}

/// What it is to start with each of the markers, character by character.
pub proof fn lemma_markers(line: Seq<char>)
    ensures
        link_marker().is_prefix_of(line) <==> line.len() >= 2 && line[0] == '=' && line[1] == '>',
        heading_marker().is_prefix_of(line) <==> line.len() >= 1 && line[0] == '#',
        list_marker().is_prefix_of(line) <==> line.len() >= 2 && line[0] == '*' && line[1] == ' ',
        quote_marker().is_prefix_of(line) <==> line.len() >= 1 && line[0] == '>',
        fence_marker().is_prefix_of(line) <==> line.len() >= 3 && line[0] == '`' && line[1] == '`'
            && line[2] == '`',
{
    if line.len() >= 1 {
        assert(line.subrange(0, 1)[0] == line[0]);
    }
    if line.len() >= 2 {
        assert(line.subrange(0, 2)[0] == line[0]);
        assert(line.subrange(0, 2)[1] == line[1]);
    }
    if line.len() >= 3 {
        assert(line.subrange(0, 3)[0] == line[0]);
        assert(line.subrange(0, 3)[1] == line[1]);
        assert(line.subrange(0, 3)[2] == line[2]);
    }
}

/// No more `#` are counted than characters are looked at, or than the line
/// has.
pub proof fn lemma_hashes_bound(line: Seq<char>, n: nat)
    ensures
        spec_hashes(line, n) <= n,
        spec_hashes(line, n) <= line.len(),
    decreases n,
{
    if n > 0 {
        lemma_hashes_bound(line, (n - 1) as nat);
    }
}

/// A line starts with at most one of the markers, so the order in which the
/// kinds are tried decides nothing.
pub proof fn lemma_one_marker(line: Seq<char>)
    ensures
        spec_kind(line) is Link <==> link_marker().is_prefix_of(line),
        spec_kind(line) is Heading <==> heading_marker().is_prefix_of(line),
        spec_kind(line) is ListItem <==> list_marker().is_prefix_of(line),
        spec_kind(line) is Quote <==> quote_marker().is_prefix_of(line),
        spec_kind(line) is Fence <==> fence_marker().is_prefix_of(line),
{
    lemma_markers(line);
}

/// The level of a heading line is at least one and at most the width of the
/// window.
pub proof fn lemma_heading_level(line: Seq<char>)
    requires
        heading_marker().is_prefix_of(line),
    ensures
        1 <= spec_heading_level(line) <= HEADING_WINDOW,
        spec_heading_level(line) <= line.len(),
{
    lemma_hashes_bound(line, HEADING_WINDOW as nat);
    lemma_markers(line);
    reveal_with_fuel(spec_hashes, 4);
}

/// A line that starts with as many `#` as the window is wide is a heading
/// of the deepest level, whatever follows. What follows the window is its
/// content, trimmed: a `#` there is not taken off.
pub proof fn lemma_heading_full_window(line: Seq<char>)
    requires
        line.len() >= HEADING_WINDOW,
        forall|i: int| 0 <= i < HEADING_WINDOW ==> line[i] == '#',
    ensures
        spec_heading(line) == (LineView::Heading {
            level: HEADING_WINDOW as u8,
            content: spec_trim(line.skip(HEADING_WINDOW as int)),
        }),
        line.len() > HEADING_WINDOW && line[HEADING_WINDOW as int] == '#' ==> spec_trim(
            line.skip(HEADING_WINDOW as int),
        ).first() == '#',
{
    reveal_with_fuel(spec_hashes, 4);
    let rest = line.skip(HEADING_WINDOW as int);
    if line.len() > HEADING_WINDOW && line[HEADING_WINDOW as int] == '#' {
        lemma_prefix_len_unique(rest, whitespace(), 0);
        assert(spec_trim_start(rest) == rest);
        lemma_suffix_len(rest, whitespace());
        assert(spec_trailing_whitespace(rest) < rest.len());
    }
}

/// Every line gives a well-formed record.
pub proof fn lemma_record_well_formed(line: Seq<char>)
    ensures
        spec_record(line).well_formed(),
{
    match spec_kind(line) {
        Kind::Link => {
            let rest = spec_trim_start(spec_after(line, link_marker()));
            let k = spec_token_len(rest) as int;
            lemma_prefix_len(rest, non_whitespace());
            if k < rest.len() {
                lemma_trim_is_trimmed(rest.skip(k + 1));
            } else {
                lemma_prefix_len_unique(rest, whitespace(), 0);
                lemma_suffix_len_unique(rest, whitespace(), 0);
            }
        },
        Kind::Heading => {
            lemma_heading_level(line);
            lemma_trim_is_trimmed(line.skip(spec_heading_level(line) as int));
        },
        Kind::ListItem => {
            lemma_trim_is_trimmed(spec_after(line, list_marker()));
        },
        Kind::Quote => {
            lemma_trim_is_trimmed(spec_after(line, quote_marker()));
        },
        Kind::Fence => {
            lemma_trim_is_trimmed(spec_after(line, fence_marker()));
        },
        Kind::Text => {
            lemma_trim_is_trimmed(line);
        },
    }
}

} // verus!
