//! The structured outcome of every parse operation.
//!
//! All parsing functions return a `Result` with one of these errors; nothing
//! in the crate panics on malformed input. Lookup functions treat "not found"
//! as a normal empty result, distinct from a structural error.

use vstd::prelude::*;

verus! {

/// A structural error found while reading a container.
#[derive(Clone, Copy, Debug, PartialEq, Eq, Structural)]
pub enum Error {
    /// The container header's first tag is not the required magic value.
    InvalidMagic,
    /// A fixed-size record at the start of a structure does not fit in the
    /// buffer.
    TooShort,
    /// A requested record, slice or string would read past the buffer.
    OutOfBounds,
    /// The section table contradicts the container header: more instantiated
    /// sections than sections, an instantiated section whose total size is
    /// smaller than its unpacked size, an unknown section or sharing kind, or
    /// more than one loader section.
    InconsistentSectionTable,
    /// Imported-library ranges do not exactly tile the imported-symbol array,
    /// or an imported symbol carries an unknown class.
    InconsistentImportTable,
    /// The export hash table is malformed: a dangling bucket or chain link, a
    /// chain that does not reach every entry exactly once, an entry on the
    /// chain of a bucket its name does not hash to, or a recorded hashed
    /// length that contradicts the name.
    InconsistentExportTable,
    /// A pattern program ends before producing the requested output.
    PatternTruncated,
    /// A pattern program would produce more than the requested output, or
    /// repeats a block longer than the output produced so far.
    PatternSizeMismatch,
    /// A section or symbol index supplied by a caller is out of range.
    InvalidIndex,
    /// A resolved string-table entry is not valid text.
    NonUtf8Name,
}

impl Error {
    /// A short human-readable description of the error.
    pub fn message(&self) -> (r: &'static str)
    {
        match self {
            Error::InvalidMagic => "invalid container magic",
            Error::TooShort => "buffer too short for a required record",
            Error::OutOfBounds => "record or string out of bounds",
            Error::InconsistentSectionTable => "inconsistent section table",
            Error::InconsistentImportTable => "inconsistent import table",
            Error::InconsistentExportTable => "inconsistent export hash table",
            Error::PatternTruncated => "pattern program truncated",
            Error::PatternSizeMismatch => "pattern program size mismatch",
            Error::InvalidIndex => "index out of range",
            Error::NonUtf8Name => "name is not valid text",
        }
    }
}

} // verus!
