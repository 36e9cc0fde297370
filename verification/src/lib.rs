//! A parser for Gemtext, the line-oriented markup of Gemini capsules.
//!
//! [`Page::parse`] turns the full text of a document into an ordered sequence
//! of classified [`Line`] records. Parsing never fails: every text is a
//! document.
//!
//! The text is cut into physical lines ([`lines`]). What a line starts with
//! decides its kind, and the rule of that kind reads it ([`rules`]). A fence
//! opens a preformatted block, the one record that takes more than one line
//! ([`page`]). What the records keep of a line is trimmed ([`whitespace`]).

pub mod line;
pub mod lines;
pub mod page;
pub mod rules;
pub mod scan;
pub mod text;
pub mod whitespace;

pub use line::{Line, LineView};
pub use page::Page;
pub use rules::Kind;
