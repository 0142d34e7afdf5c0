//! Structural repetition expander for token trees.
//!
//! The library takes a syntax fragment made of identifier, literal,
//! punctuation and delimited-group nodes, a bound loop variable and a
//! numeric range, and produces the concatenation of structurally
//! identical copies of the fragment, with the loop variable substituted
//! as an integer literal or pasted into identifier names.

pub mod diag;
pub mod expand;
pub mod header;
pub mod laws;
pub mod node;
pub mod num;
pub mod scan;
pub mod subst;

pub use node::{Delim, Node};
