//! Documents: the records that the physical lines of a text give.
//!
//! Every line gives one record by itself, but for a fence: it opens a
//! preformatted block, which takes the lines after it up to and including the
//! next fence, or up to the end of the text where no fence follows.

use crate::line::{Line, LineView};
use crate::lines::{
    is_plain_line, lemma_lines_of_joined, line_views, spec_join, spec_lines, split_lines,
};
use crate::rules::{
    alt, is_fence, lemma_record_well_formed, record, spec_alt, spec_is_fence, spec_record,
};
use crate::scan::{lemma_prefix_len, lemma_prefix_len_unique, prefix_len};
use crate::text::{chars_of, push_chars};
use vstd::prelude::*;
use vstd::std_specs::cmp::PartialEqSpec;

verus! {

/// The test for anything but a fence, as a predicate on lines.
pub open spec fn non_fence() -> spec_fn(Seq<char>) -> bool {
    |line: Seq<char>| !spec_is_fence(line)
}

/// How many of `lines` stand before the first fence among them; all of them
/// where none is a fence.
pub open spec fn spec_body_len(lines: Seq<Seq<char>>) -> nat {
    prefix_len(lines, non_fence())
}

/// How many of `lines` the first record takes: one, but for a block, which
/// takes its opening fence, its body and the fence that closes it, if one
/// does.
pub open spec fn spec_span(lines: Seq<Seq<char>>) -> nat
    recommends
        lines.len() > 0,
{
    if spec_is_fence(lines[0]) {
        let body = spec_body_len(lines.skip(1));
        if body + 1 < lines.len() {
            body + 2
        } else {
            body + 1
        }
    } else {
        1
    }
}

/// The first record of `lines`. The content of a block is its body lines
/// put end to end, with nothing between them.
pub open spec fn spec_first(lines: Seq<Seq<char>>) -> LineView
    recommends
        lines.len() > 0,
{
    if spec_is_fence(lines[0]) {
        let rest = lines.skip(1);
        LineView::Pre {
            alt: spec_alt(lines[0]),
            content: rest.take(spec_body_len(rest) as int).flatten(),
        }
    } else {
        spec_record(lines[0])
    }
}

/// The first record takes at least one line, and no more than there are.
pub proof fn lemma_span_bounds(lines: Seq<Seq<char>>)
    requires
        lines.len() > 0,
    ensures
        1 <= spec_span(lines) <= lines.len(),
{
    lemma_prefix_len(lines.skip(1), non_fence());
}

/// The records of `lines`, in order.
pub open spec fn spec_records(lines: Seq<Seq<char>>) -> Seq<LineView>
    decreases lines.len(),
    via spec_records_decreases
{
    if lines.len() == 0 {
        Seq::empty()
    } else {
        seq![spec_first(lines)] + spec_records(lines.skip(spec_span(lines) as int))
    }
}

#[via_fn]
proof fn spec_records_decreases(lines: Seq<Seq<char>>) {
    if lines.len() > 0 {
        lemma_span_bounds(lines);
    }
}

/// The document that `text` stands for: the records of its physical lines.
pub open spec fn spec_parse(text: Seq<char>) -> Seq<LineView> {
    spec_records(spec_lines(text))
}

/// How many lines each record of `lines` takes, record by record.
pub open spec fn spec_spans(lines: Seq<Seq<char>>) -> Seq<nat>
    decreases lines.len(),
    via spec_spans_decreases
{
    if lines.len() == 0 {
        Seq::empty()
    } else {
        seq![spec_span(lines)] + spec_spans(lines.skip(spec_span(lines) as int))
    }
}

#[via_fn]
proof fn spec_spans_decreases(lines: Seq<Seq<char>>) {
    if lines.len() > 0 {
        lemma_span_bounds(lines);
    }
}

/// How many lines the records that take `spans` take beyond one each.
pub open spec fn spec_excess(spans: Seq<nat>) -> int
    decreases spans.len(),
{
    if spans.len() == 0 {
        0
    } else {
        spans[0] - 1 + spec_excess(spans.drop_first())
    }
}

/// What each of `lines` holds.
pub open spec fn record_views(lines: Seq<Line>) -> Seq<LineView> {
    Seq::new(lines.len(), |i: int| lines[i]@)
}

/// A parsed document: its records, in the order of the text.
#[derive(Debug, Eq)]
pub struct Page {
    lines: Vec<Line>,
}

impl View for Page {
    type V = Seq<LineView>;

    closed spec fn view(&self) -> Seq<LineView> {
        record_views(self.lines@)
    }
}

impl Clone for Page {
    /// A copy holds the records that the document holds.
    fn clone(&self) -> (r: Page)
        ensures
            r@ == self@,
    {
        let lines = self.lines.clone();
        Page { lines }
    }
}

impl PartialEq for Page {
    /// Two documents are equal where they hold the same records.
    fn eq(&self, other: &Page) -> (r: bool) {
        let r = self.lines == other.lines;
        proof {
            let a = self.lines@;
            let b = other.lines@;
            if r {
                assert(record_views(a) =~= record_views(b));
            }
            if record_views(a) == record_views(b) {
                assert(a.len() == record_views(a).len());
                assert forall|i: int| 0 <= i < a.len() implies #[trigger] a[i].eq_spec(&b[i]) by {
                    assert(record_views(a)[i] == record_views(b)[i]);
                }
            }
        }
        r
    }
}

impl vstd::std_specs::cmp::PartialEqSpecImpl for Page {
    open spec fn obeys_eq_spec() -> bool {
        true
    }

    open spec fn eq_spec(&self, other: &Page) -> bool {
        self@ == other@
    }
}

impl Page {
    /// Parses `text`. Every text is a document: nothing is refused.
    ///
    /// The document holds the records of the physical lines of `text`, each
    /// of them well formed. It has no more records than `text` has lines:
    /// fewer by what its preformatted blocks take beyond one line each.
    pub fn parse(text: &str) -> (page: Page)
        ensures
            page@ == spec_parse(text@),
            forall|i: int| 0 <= i < page@.len() ==> (#[trigger] page@[i]).well_formed(),
            page@.len() <= spec_lines(text@).len(),
            page@.len() + spec_excess(spec_spans(spec_lines(text@))) == spec_lines(text@).len(),
    {
        let chars = chars_of(text);
        let lines = split_lines(chars.as_slice());
        proof {
            lemma_records_well_formed(spec_lines(text@));
            lemma_record_count(spec_lines(text@));
        }
        Page { lines: records(&lines) }
    }

    /// A document that holds `lines`.
    pub fn new(lines: Vec<Line>) -> (page: Page)
        ensures
            page@ == record_views(lines@),
    {
        Page { lines }
    }

    /// The records of the document, in the order of the text.
    pub fn lines(&self) -> (lines: &Vec<Line>)
        ensures
            record_views(lines@) == self@,
    {
        &self.lines
    }
}

/// Reads the record that begins at line `start` of `lines`, and says at
/// which line the next one begins.
pub fn next_record(lines: &Vec<&[char]>, start: usize) -> (r: (Line, usize))
    requires
        start < lines@.len(),
    ensures
        r.0@ == spec_first(line_views(lines@).skip(start as int)),
        r.1 == start + spec_span(line_views(lines@).skip(start as int)),
        start < r.1 <= lines@.len(),
{
    let n: usize = lines.len();
    let line: &[char] = lines[start];
    let ghost all = line_views(lines@);
    if !is_fence(line) {
        return (record(line), start + 1);
    }
    let ghost rest = all.skip(start as int).skip(1);
    let mut content = String::new();
    let mut end: usize = start + 1;
    while end < n && !is_fence(lines[end])
        invariant
            n == lines@.len(),
            start < end <= n,
            all == line_views(lines@),
            rest == all.skip(start + 1),
            content@ == rest.take(end - start - 1).flatten(),
            forall|i: int| 0 <= i < end - start - 1 ==> non_fence()(#[trigger] rest[i]),
        decreases n - end,
    {
        push_chars(&mut content, lines[end]);
        proof {
            let body = rest.take(end - start - 1);
            assert(rest.take(end - start) == body.push(lines@[end as int]@));
            body.lemma_flatten_push(lines@[end as int]@);
        }
        end += 1;
    }
    proof {
        lemma_prefix_len_unique(rest, non_fence(), end - start - 1);
    }
    let next: usize = if end < n {
        end + 1
    } else {
        end
    };
    (Line::Pre { alt: alt(line), content }, next)
}

/// Reads the records of `lines`.
pub fn records(lines: &Vec<&[char]>) -> (out: Vec<Line>)
    ensures
        record_views(out@) == spec_records(line_views(lines@)),
{
    let ghost all = line_views(lines@);
    let mut out: Vec<Line> = Vec::new();
    let mut at: usize = 0;
    assert(all.skip(0) == all);
    while at < lines.len()
        invariant
            at <= lines@.len(),
            all == line_views(lines@),
            record_views(out@) + spec_records(all.skip(at as int)) == spec_records(all),
        decreases lines@.len() - at,
    {
        let (line, next) = next_record(lines, at);
        out.push(line);
        proof {
            let here = all.skip(at as int);
            assert(here.skip(spec_span(here) as int) == all.skip(next as int));
        }
        at = next;
    }
    out
}

/// Where every record takes at least one line, the lines taken beyond one
/// each are none exactly where every record takes one line.
pub proof fn lemma_excess(spans: Seq<nat>)
    requires
        forall|i: int| 0 <= i < spans.len() ==> spans[i] >= 1,
    ensures
        spec_excess(spans) >= 0,
        spec_excess(spans) == 0 <==> forall|i: int| 0 <= i < spans.len() ==> spans[i] == 1,
    decreases spans.len(),
{
    if spans.len() > 0 {
        let rest = spans.drop_first();
        lemma_excess(rest);
        if spec_excess(spans) == 0 {
            assert forall|i: int| 0 <= i < spans.len() implies spans[i] == 1 by {
                if i > 0 {
                    assert(spans[i] == rest[i - 1]);
                }
            }
        }
        if forall|i: int| 0 <= i < spans.len() ==> spans[i] == 1 {
            assert forall|i: int| 0 <= i < rest.len() implies rest[i] == 1 by {
                assert(rest[i] == spans[i + 1]);
            }
        }
    }
}

/// Records and lines, counted. Every record takes at least one line, and
/// only a preformatted block takes more. So there are no more records than
/// lines: fewer by what the blocks take beyond one line each, and as many
/// exactly where no block takes more than one.
pub proof fn lemma_record_count(lines: Seq<Seq<char>>)
    ensures
        spec_spans(lines).len() == spec_records(lines).len(),
        forall|i: int| 0 <= i < spec_spans(lines).len() ==> #[trigger] spec_spans(lines)[i] >= 1,
        forall|i: int|
            0 <= i < spec_spans(lines).len() && #[trigger] spec_spans(lines)[i] > 1
                ==> spec_records(lines)[i] is Pre,
        spec_records(lines).len() + spec_excess(spec_spans(lines)) == lines.len(),
        spec_records(lines).len() <= lines.len(),
        spec_records(lines).len() == lines.len() <==> forall|i: int|
            0 <= i < spec_spans(lines).len() ==> spec_spans(lines)[i] == 1,
    decreases lines.len(),
{
    let spans = spec_spans(lines);
    let records = spec_records(lines);
    if lines.len() > 0 {
        lemma_span_bounds(lines);
        let rest = lines.skip(spec_span(lines) as int);
        lemma_record_count(rest);
        assert(spans.drop_first() == spec_spans(rest));
        assert(records.drop_first() == spec_records(rest));
    }
    lemma_excess(spans);
}

/// The same of a text: it gives no more records than it has physical
/// lines, and as many exactly where no block takes more than one line.
pub proof fn lemma_parse_count(text: Seq<char>)
    ensures
        spec_parse(text).len() <= spec_lines(text).len(),
        spec_parse(text).len() + spec_excess(spec_spans(spec_lines(text))) == spec_lines(
            text,
        ).len(),
        spec_parse(text).len() == spec_lines(text).len() <==> forall|i: int|
            0 <= i < spec_spans(spec_lines(text)).len() ==> spec_spans(spec_lines(text))[i] == 1,
{
    lemma_record_count(spec_lines(text));
}

/// A text stands for the same document whether line feeds end its lines or
/// carriage returns and line feeds do: for the records of its lines.
pub proof fn lemma_parse_of_joined(lines: Seq<Seq<char>>)
    requires
        forall|i: int| 0 <= i < lines.len() ==> is_plain_line(#[trigger] lines[i]),
    ensures
        spec_parse(spec_join(lines, seq!['\n'])) == spec_records(lines),
        spec_parse(spec_join(lines, seq!['\r', '\n'])) == spec_records(lines),
{
    lemma_lines_of_joined(lines);
}

/// Where no line is a fence, every line gives the record it gives by
/// itself.
pub proof fn lemma_records_without_fence(lines: Seq<Seq<char>>)
    requires
        forall|i: int| 0 <= i < lines.len() ==> !spec_is_fence(#[trigger] lines[i]),
    ensures
        spec_records(lines) == Seq::new(lines.len(), |i: int| spec_record(lines[i])),
    decreases lines.len(),
{
    if lines.len() > 0 {
        let rest = lines.skip(1);
        assert forall|i: int| 0 <= i < rest.len() implies !spec_is_fence(#[trigger] rest[i]) by {
            assert(rest[i] == lines[i + 1]);
        }
        lemma_records_without_fence(rest);
    }
}

/// Every record of a document is well formed.
pub proof fn lemma_records_well_formed(lines: Seq<Seq<char>>)
    ensures
        forall|i: int|
            0 <= i < spec_records(lines).len() ==> (#[trigger] spec_records(lines)[i]).well_formed(),
    decreases lines.len(),
{
    if lines.len() > 0 {
        lemma_span_bounds(lines);
        let rest = lines.skip(spec_span(lines) as int);
        lemma_records_well_formed(rest);
        lemma_record_well_formed(lines[0]);
        assert forall|i: int| 0 <= i < spec_records(lines).len() implies (#[trigger] spec_records(
            lines,
        )[i]).well_formed() by {
            if i > 0 {
                assert(spec_records(lines)[i] == spec_records(rest)[i - 1]);
            }
        }
    }
}

/// Parsing is a function of the text: two documents parsed from the same
/// text hold the same records, and compare equal.
pub proof fn lemma_parse_deterministic(a: Page, b: Page, s: Seq<char>, t: Seq<char>)
    requires
        a@ == spec_parse(s),
        b@ == spec_parse(t),
        s == t,
    ensures
        a@ == b@,
        a.eq_spec(&b),
{
}

} // verus!
