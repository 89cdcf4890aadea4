//! A skill tree: named groups of ordered items, optional goals, and
//! cross-references expressing "X is required before Y", rendered into a
//! deterministic textual graph description for a downstream layout tool.

pub mod concat;
pub mod errors;
pub mod graphviz;
pub mod laws;
pub mod tree;
pub mod validate;
