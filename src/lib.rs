//! A tolerant parser for HTML-like tag soup, building a simplified document tree, and a
//! writer that renders the tree back to markup.
//!
//! Every executable function carries a contract over a mathematical model: the parser's
//! steps are stated as functions on sequences of characters (`parser::step`,
//! `parser::parse_events`), the tree builder as a fold over the events
//! (`builder::apply_events`), and the writer as functions on the tree model
//! (`writer::document_text`). `parser::parse_to_dom` returns exactly
//! `parser::parse_model` of its input, and `writer::write` exactly `writer::document_text`
//! of its document.
use vstd::prelude::*;

pub mod entities;
pub mod utils;
pub mod reader;
pub mod dom;
pub mod parser;
pub mod builder;
pub mod writer;
pub mod laws;

verus! {

} // verus!
