//! A reader for a legacy segmented-executable container format (PEF).
//!
//! Given an immutable byte buffer holding a container file, the crate exposes
//! a typed, read-only view of the file's structural contents: the container
//! header, the section table, loader metadata, imported and exported symbols,
//! and pattern-initialized data. All multi-byte fields are big-endian and all
//! access is bounds-checked against the untrusted input.

pub mod endian;
pub mod error;
pub mod pef;
pub mod section;
pub mod file;
pub mod pattern;
pub mod loader;
