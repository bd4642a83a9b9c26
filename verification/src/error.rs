use vstd::prelude::*;

verus! {

/// Errors produced while decoding a Mapsforge binary map file.
///
/// Decoding never recovers locally: any error aborts the enclosing
/// operation (header parse, index build, or a single tile decode) and is
/// surfaced to the caller.
#[derive(Clone, Copy, Debug, PartialEq, Eq, Structural)]
pub enum MapforgeError {
    /// The 20-byte preamble differs from `mapsforge binary OSM`.
    InvalidMagic,
    /// The file declares a version older than the first supported one (3).
    UnsupportedVersion(u32),
    /// A bounding-box coordinate is out of range or minimum exceeds maximum.
    InvalidBoundingBox,
    /// The declared header size is zero.
    InvalidHeaderSize(u32),
    /// A subfile does not begin with the expected index signature.
    InvalidIndexSignature,
    /// A record names a tag id at or beyond the end of the tag dictionary;
    /// the payload carries the offending id and the dictionary length.
    TagIndexOutOfRange(u64, usize),
    /// A length-prefixed string is not valid UTF-8.
    MalformedString,
    /// The byte stream ended in the middle of a field.
    UnexpectedEof,
    /// A variable-byte-encoded integer or a coordinate sum does not fit the
    /// 64-bit range this decoder works in.
    NumericOverflow,
}

} // verus!
