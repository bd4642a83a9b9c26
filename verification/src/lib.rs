//! Decoder for the Mapsforge binary map file format: a compact,
//! spatially-indexed on-disk encoding of OpenStreetMap-derived vector map
//! data (points of interest, ways, per-zoom tile indices).
//!
//! All decoding works on an in-memory byte buffer through [`reader::Reader`].
//! Geographic coordinates are kept as integer microdegrees (degrees times one
//! million), exactly as they are stored in the file; converting them to
//! floating-point degrees is left to callers.

pub mod blocks;
pub mod error;
pub mod header;
pub mod poi;
pub mod reader;
pub mod tag;
pub mod tile;
pub mod types;
pub mod utils;
pub mod way;

pub use error::MapforgeError;
pub use types::{BoundingBox, MapHeader};
