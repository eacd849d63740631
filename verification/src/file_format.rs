//! Parsers for the Impulse module format: header, patterns, sample headers
//! and instruments, all over plain byte buffers.

pub mod err;
pub mod instrument;
pub mod pattern;
pub mod header;
pub mod sample;



