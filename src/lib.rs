//! In-memory model of a SEPA customer credit transfer initiation message
//! (pain.001), with consistency-preserving edits.

pub mod amount;
pub mod codec;
pub mod error;
pub mod model;
pub mod mutation;
pub mod timestamp;
