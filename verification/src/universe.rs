//! The regions of the universe and their identifiers: chunks, and the
//! clusters of a hundred chunks each.

pub mod chunk;
pub mod cluster;
