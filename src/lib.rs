//! A search engine over lines of text, driven by a pipeline of conditions:
//! matchers find fragments, match-filters keep or drop them, line-filters show or
//! hide lines, and transforms rewrite fragments that a commit then writes back.
//! Each step is stated over plain values and proved; the laws of the pipeline
//! (order of fragments, replay, pop, idempotent matchers, counts) are in `laws`.
use vstd::prelude::*;

pub mod case;
pub mod colors;
pub mod commit;
pub mod event;
pub mod file_preview;
pub mod file_result;
pub mod filter;
pub mod laws;
pub mod line;
pub mod match_result;
pub mod matcher;
pub mod parser;
pub mod pattern;
pub mod search;
pub mod search_condition;
pub mod search_result;
pub mod text;
pub mod transform;
pub mod value;

verus! {

} // verus!
