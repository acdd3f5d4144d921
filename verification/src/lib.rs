//! Finds quantities written in everyday units inside free text and prepares
//! their replacement by the same quantity counted in davincis.
//!
//! The crate holds the vocabulary of units, the two search patterns that are
//! derived from it, and the step-by-step rewriting of a message. Arithmetic on
//! the amounts themselves is left to the caller: a step hands out the amount
//! as it was written, together with the unit it was written in, and takes back
//! the text that is to stand in its place.
//!
//! Factors and reference magnitudes are held as exact decimals. Searching is
//! done by the `regex` crate; what it finds is read, checked and acted upon
//! here.

pub mod models;
pub mod units;
pub mod vocabulary;
pub mod table;
pub mod text;
pub mod amount;
pub mod order;
pub mod pattern;
pub mod search;
pub mod rewrite;
