//! Decoding of TrueType font files: table location, codepoint-to-glyph
//! lookup, and glyph outline decoding, with verified bounds checking on
//! adversarial input.

#![verifier::loop_isolation(false)]

use vstd::prelude::*;

pub mod bitmap;
pub mod codepoint;
pub mod edges;
pub mod font;
pub mod glyph_index;
pub mod glyph_index_laws;
pub mod metrics;
pub mod raw;
pub mod shape;
pub mod tables;
pub mod types;

verus! {

/// The ways reading a font can fail.
#[derive(Debug, PartialEq, Eq, Clone, Copy, Structural)]
pub enum Error {
    /// The bytes are structurally insufficient or inconsistent: any read
    /// that would go past the end of the provided buffer.
    Malformed,
    /// A required table tag is absent from the sfnt directory.
    MissingTable,
    HHEAVersionIsNotSupported,
    HEADVersionIsNotSupported,
    MAXPVersionIsNotSupported,
    /// No recognized (platform, encoding) pair among the cmap subtables.
    CMAPEncodingSubtableIsNotSupported,
    /// A recognized cmap subtable whose format cannot be decoded.
    CMAPFormatIsNotSupported,
    UnknownLocationFormat,
}

} // verus!
