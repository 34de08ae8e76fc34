//! Unpacking of PAK game archives: the container header, the compressed file
//! list, the per-entry offsets and payloads, and the paths they are written to.

pub mod error;
pub mod format;
pub mod le;
pub mod lz4;
pub mod name;
pub mod pak;
pub mod path;
pub mod stat;
