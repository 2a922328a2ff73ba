//! A relational view of a markdown syntax tree: every node of the tree
//! becomes one row with its parent's id, its kind, its attributes, its
//! position and the slice of source it spans.

pub mod node;
pub mod flatten;
pub mod columns;
pub mod cursor;
pub mod plan;
pub mod render;
