//! Reading and writing PLY polygon files (`*.ply`).

pub mod ascii;
pub mod block;
pub mod body;
pub mod error;
pub mod format;
pub mod function;
pub mod group;
pub mod keyword;
pub mod head;
pub mod header;
pub mod index_map;
pub mod object;
pub mod payload;
