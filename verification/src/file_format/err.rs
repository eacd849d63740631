//! Errors and defects of the module-format parsers.

use vstd::prelude::*;

verus! {

/// A load that could not produce a value at all.
#[derive(Debug, Clone, Copy, PartialEq, Eq, Structural)]
pub enum LoadErr {
    /// The file could not be read.
    CantReadFile,
    /// The bytes are not the expected structure.
    Invalid,
    /// The buffer ends before the structure does.
    BufferTooShort,
    /// The caller asked to stop.
    Cancelled,
}

/// A flaw found while loading; the loader repairs it and carries on.
#[derive(Debug, Clone, Copy, PartialEq, Eq, Structural)]
pub enum LoadDefect {
    /// An effect byte with no meaning; the effect is dropped.
    UnknownEffect,
    /// Text that is not valid UTF-8; replaced with empty text.
    InvalidText,
    /// A value outside its range; replaced with a sane default.
    OutOfBoundsValue,
    /// An offset pointing outside the file's plausible range; skipped.
    OutOfBoundsPtr,
}

} // verus!
