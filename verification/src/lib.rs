//! Verified core of a codec for LAS point-cloud files.
//!
//! Everything here works on plain integers and bytes: stored coordinates,
//! point formats and point records, the rules that a header must meet in
//! each revision of the format, the bytes of a header and of its metadata
//! records, and the statistics that a writing session accumulates.
//! Floating-point scaling of coordinates and all input and output stay with
//! the caller, who hands in and gets back doubles as their 64 bits.

pub mod buffer;
pub mod error;
pub mod words;
pub mod transform;
pub mod version;
pub mod format;
pub mod vlr;
pub mod header;
pub mod point;
pub mod summary;
pub mod writer;
pub mod codec;
pub mod reader;
pub mod layout;
pub mod fixed;
pub mod preamble;
