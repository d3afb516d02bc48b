//! Groups of blocks, related by identifiers.

pub mod id;

pub use id::{Id, IdCounter};
