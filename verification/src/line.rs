//! Line records: what a document is made of.

use crate::rules::HEADING_WINDOW;
use crate::whitespace::{is_trimmed, spec_is_whitespace};
use vstd::prelude::*;

verus! {

/// One record of a document.
#[derive(Debug, Eq)]
pub enum Line {
    /// A line of plain text.
    Text(String),
    /// A link: where it leads and, where the line gives one, what to call it.
    Link { url: String, name: Option<String> },
    /// A preformatted block: what its opening fence says of it, and its body.
    Pre { alt: Option<String>, content: String },
    /// A heading and how deep it stands.
    Heading { level: u8, content: String },
    /// One entry of a list.
    ListItem(String),
    /// One quoted line.
    Quote(String),
}

/// What a [`Line`] holds, as mathematical values.
pub enum LineView {
    Text(Seq<char>),
    Link { url: Seq<char>, name: Option<Seq<char>> },
    Pre { alt: Option<Seq<char>>, content: Seq<char> },
    Heading { level: u8, content: Seq<char> },
    ListItem(Seq<char>),
    Quote(Seq<char>),
}

impl LineView {
    /// Whether the record is one that a line of text can give: what it keeps
    /// of the line is trimmed, the address of a link holds no whitespace, what
    /// a fence says of its block is not empty, and the level of a heading is
    /// at least one and at most the width of the window.
    pub open spec fn well_formed(self) -> bool {
        match self {
            LineView::Text(text) => is_trimmed(text),
            LineView::Link { url, name } => {
                &&& forall|i: int| 0 <= i < url.len() ==> !spec_is_whitespace(#[trigger] url[i])
                &&& name matches Some(n) ==> is_trimmed(n)
            },
            LineView::Pre { alt, content } => alt matches Some(a) ==> a.len() > 0 && is_trimmed(a),
            LineView::Heading { level, content } => 1 <= level <= HEADING_WINDOW && is_trimmed(
                content,
            ),
            LineView::ListItem(text) => is_trimmed(text),
            LineView::Quote(text) => is_trimmed(text),
        }
    }
}

/// What an optional string holds.
pub open spec fn option_view(s: Option<String>) -> Option<Seq<char>> {
    match s {
        Some(s) => Some(s@),
        None => None,
    }
}

impl View for Line {
    type V = LineView;

    open spec fn view(&self) -> LineView {
        match self {
            Line::Text(text) => LineView::Text(text@),
            Line::Link { url, name } => LineView::Link { url: url@, name: option_view(*name) },
            Line::Pre { alt, content } => LineView::Pre {
                alt: option_view(*alt),
                content: content@,
            },
            Line::Heading { level, content } => LineView::Heading {
                level: *level,
                content: content@,
            },
            Line::ListItem(text) => LineView::ListItem(text@),
            Line::Quote(text) => LineView::Quote(text@),
        }
    }
}

/// Whether two optional strings hold the same.
fn option_eq(a: &Option<String>, b: &Option<String>) -> (r: bool)
    ensures
        r == (option_view(*a) == option_view(*b)),
{
    match (a, b) {
        (Some(x), Some(y)) => *x == *y,
        (None, None) => true,
        _ => false,
    }
}

/// Copies an optional string.
fn option_clone(a: &Option<String>) -> (r: Option<String>)
    ensures
        option_view(r) == option_view(*a),
{
    match a {
        Some(x) => Some(x.clone()),
        None => None,
    }
}

impl Clone for Line {
    /// A copy holds what the record holds.
    fn clone(&self) -> (r: Line)
        ensures
            r@ == self@,
    {
        match self {
            Line::Text(text) => Line::Text(text.clone()),
            Line::Link { url, name } => Line::Link { url: url.clone(), name: option_clone(name) },
            Line::Pre { alt, content } => Line::Pre {
                alt: option_clone(alt),
                content: content.clone(),
            },
            Line::Heading { level, content } => Line::Heading {
                level: *level,
                content: content.clone(),
            },
            Line::ListItem(text) => Line::ListItem(text.clone()),
            Line::Quote(text) => Line::Quote(text.clone()),
        }
    }
}

impl PartialEq for Line {
    /// Two records are equal where they are of one variant and hold the same.
    fn eq(&self, other: &Line) -> (r: bool) {
        match (self, other) {
            (Line::Text(a), Line::Text(b)) => *a == *b,
            (Line::Link { url: u1, name: n1 }, Line::Link { url: u2, name: n2 }) => *u1 == *u2
                && option_eq(n1, n2),
            (Line::Pre { alt: a1, content: c1 }, Line::Pre { alt: a2, content: c2 }) => option_eq(
                a1,
                a2,
            ) && *c1 == *c2,
            (
                Line::Heading { level: l1, content: c1 },
                Line::Heading { level: l2, content: c2 },
            ) => *l1 == *l2 && *c1 == *c2,
            (Line::ListItem(a), Line::ListItem(b)) => *a == *b,
            (Line::Quote(a), Line::Quote(b)) => *a == *b,
            _ => false,
        }
    }
}

impl vstd::std_specs::cmp::PartialEqSpecImpl for Line {
    open spec fn obeys_eq_spec() -> bool {
        true
    }

    open spec fn eq_spec(&self, other: &Line) -> bool {
        self@ == other@
    }
}

} // verus!
