//! A rotating selection of text entries, drawn without repetition from a
//! candidate pool and persisted as plain lines.
//!
//! The engine in [`generate`] owns the ordered selection and the remaining
//! pool, computes their split from the lines of an input and an output
//! resource, draws entries at random without repetition, and applies edits
//! that keep the two consistent. [`lines`] holds the line-level rules of the
//! resources: comment lines are invisible to the engine, and removal marks a
//! line as a comment instead of deleting it. [`laws`] states and proves the
//! guarantees that span several operations. Reading and writing the named
//! resources themselves is left to the caller, which hands lines in and out
//! as plain values.

use vstd::prelude::*;

pub mod args;
pub mod generate;
pub mod laws;
pub mod lines;

verus! {

/// The error kinds an engine operation can report. Resource errors stay with
/// the caller that touches the resources; the engine itself only validates
/// indices and emptiness.
#[derive(Clone, Copy, Debug, PartialEq, Eq, Structural)]
pub enum EngineError {
    /// An index argument was out of bounds for the collection it addresses.
    InvalidIndex,
    /// The operation needs a non-empty selection and a non-empty pool.
    EmptyState,
}

/// The character contents of each entry in a sequence of strings. Entry
/// equality throughout the crate is exact equality of these views.
pub open spec fn line_views(s: Seq<String>) -> Seq<Seq<char>> {
    s.map_values(|x: String| x@)
}

} // verus!
