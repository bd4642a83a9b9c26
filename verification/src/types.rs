//! The data model: header, zoom intervals, tile index entries, POIs, ways
//! and tags, together with the mathematical views the contracts speak of.
//!
//! Geographic values are integer microdegrees (degrees times one million),
//! exactly as the file stores them.

use vstd::prelude::*;

verus! {

/// A geographic point in integer microdegrees.
#[derive(Debug, Default, Copy, Clone, PartialEq, Eq, Structural)]
pub struct LatLong {
    pub latitude: i64,
    pub longitude: i64,
}

/// The map's bounding box, in microdegrees. A valid box keeps each
/// coordinate in range and each minimum at or below its maximum.
#[derive(Debug, Clone, Copy, PartialEq, Eq, Structural)]
pub struct BoundingBox {
    pub min_lat: i64,
    pub min_lon: i64,
    pub max_lat: i64,
    pub max_lon: i64,
}

/// One zoom interval: a contiguous range of zoom levels sharing a base zoom
/// level and one subfile region.
#[derive(Debug, Clone, Copy, PartialEq, Eq, Structural)]
pub struct ZoomInterval {
    pub base_zoom_level: u8,
    pub min_zoom_level: u8,
    pub max_zoom_level: u8,
    pub sub_file_start: u64,
    pub sub_file_size: u64,
}

/// The parsed file header.
#[derive(Debug, Clone, PartialEq)]
pub struct MapHeader {
    pub magic: String,
    pub header_size: u32,
    pub file_version: u32,
    pub file_size: u64,
    pub creation_date: u64,
    pub bounding_box: BoundingBox,
    pub tile_size: u16,
    pub projection: String,
    pub flags: u8,
    // optional fields, gated by bits of `flags`
    pub map_start_position: Option<LatLong>,
    pub start_zoom_level: Option<u8>,
    pub language_preference: Option<String>,
    pub comment: Option<String>,
    pub created_by: Option<String>,
    // tag dictionaries, index-addressed by tag id
    pub poi_tags: Vec<String>,
    pub way_tags: Vec<String>,
    // zoom intervals, in file order
    pub num_zoom_intervals: u8,
    pub zoom_interval_configuration: Vec<ZoomInterval>,
}

/// The header of one zoom interval's tile index.
#[derive(Debug, Clone, PartialEq)]
pub struct TileIndexHeader {
    pub debug_signature: Option<String>,
}

/// One tile-index record: a water flag and a 39-bit byte offset into the
/// subfile.
#[derive(Debug, Clone, Copy, PartialEq, Eq, Structural)]
pub struct TileIndexEntry {
    pub is_water: bool,
    pub offset: u64,
}

/// A resolved tag: a key and a value split out of a dictionary entry, each
/// with its hash code.
#[derive(Debug, Clone, PartialEq)]
pub struct Tag {
    pub key: String,
    pub key_code: usize,
    pub value: String,
    pub value_code: usize,
}

/// The two tag dictionaries of a file.
#[derive(Debug, Clone, PartialEq)]
pub struct TagMapping {
    pub poi_tags: Vec<String>,
    pub way_tags: Vec<String>,
}

/// One point of interest.
#[derive(Debug, Default, Clone, PartialEq)]
pub struct POI {
    pub debug_signature: Option<String>,
    /// Position relative to the enclosing tile's origin, in microdegrees.
    pub position_offset: LatLong,
    pub layer: i8,
    pub tag_ids: Vec<usize>,
    pub tags: Option<Vec<Tag>>,
    pub name: Option<String>,
    pub house_number: Option<String>,
    pub elevation: Option<i32>,
}

/// One block of way coordinates: an absolute first position and the decoded
/// node positions, in microdegrees.
#[derive(Debug, Default, Clone, PartialEq)]
pub struct WayCoordinateBlock {
    pub initial_position: LatLong,
    pub coordinates: Vec<LatLong>,
}

/// One way record.
#[derive(Debug, Default, Clone, PartialEq)]
pub struct Way {
    pub debug_signature: Option<String>,
    /// Sixteen flags marking which sub-tiles the way touches.
    pub sub_tile_bitmap: u16,
    pub layer: i8,
    pub tag_ids: Vec<usize>,
    pub tags: Option<Vec<Tag>>,
    pub name: Option<String>,
    pub house_number: Option<String>,
    pub reference: Option<String>,
    /// Offset from the way's first node, in microdegrees.
    pub label_position: Option<LatLong>,
    pub coordinate_blocks: Vec<WayCoordinateBlock>,
    pub double_delta_encoding: bool,
}

/// One decoded tile data block.
#[derive(Debug, Default, Clone, PartialEq)]
pub struct Tile {
    pub debug_signature: Option<String>,
    /// (POI count, way count) per zoom level, from the interval's minimum
    /// level upward.
    pub zoom_table: Vec<(u64, u64)>,
    pub first_way_offset: u64,
    pub pois: Vec<POI>,
    pub ways: Vec<Way>,
}

/// Mathematical view of an `Option<String>`.
pub open spec fn opt_str_view(o: Option<String>) -> Option<Seq<char>> {
    match o {
        Some(x) => Some(x@),
        None => None,
    }
}

/// Mathematical view of a string list.
pub open spec fn strings_view(v: Seq<String>) -> Seq<Seq<char>> {
    v.map(|i: int, x: String| x@)
}

/// View of a `Tag`.
#[verifier::ext_equal]
pub struct TagV {
    pub key: Seq<char>,
    pub key_code: usize,
    pub value: Seq<char>,
    pub value_code: usize,
}

impl View for Tag {
    type V = TagV;

    open spec fn view(&self) -> TagV {
        TagV {
            key: self.key@,
            key_code: self.key_code,
            value: self.value@,
            value_code: self.value_code,
        }
    }
}

pub open spec fn tags_view(v: Seq<Tag>) -> Seq<TagV> {
    v.map(|i: int, t: Tag| t@)
}

pub open spec fn opt_tags_view(o: Option<Vec<Tag>>) -> Option<Seq<TagV>> {
    match o {
        Some(v) => Some(tags_view(v@)),
        None => None,
    }
}

/// View of a `MapHeader`.
#[verifier::ext_equal]
pub struct MapHeaderV {
    pub magic: Seq<char>,
    pub header_size: u32,
    pub file_version: u32,
    pub file_size: u64,
    pub creation_date: u64,
    pub bounding_box: BoundingBox,
    pub tile_size: u16,
    pub projection: Seq<char>,
    pub flags: u8,
    pub map_start_position: Option<LatLong>,
    pub start_zoom_level: Option<u8>,
    pub language_preference: Option<Seq<char>>,
    pub comment: Option<Seq<char>>,
    pub created_by: Option<Seq<char>>,
    pub poi_tags: Seq<Seq<char>>,
    pub way_tags: Seq<Seq<char>>,
    pub num_zoom_intervals: u8,
    pub zoom_interval_configuration: Seq<ZoomInterval>,
}

impl View for MapHeader {
    type V = MapHeaderV;

    open spec fn view(&self) -> MapHeaderV {
        MapHeaderV {
            magic: self.magic@,
            header_size: self.header_size,
            file_version: self.file_version,
            file_size: self.file_size,
            creation_date: self.creation_date,
            bounding_box: self.bounding_box,
            tile_size: self.tile_size,
            projection: self.projection@,
            flags: self.flags,
            map_start_position: self.map_start_position,
            start_zoom_level: self.start_zoom_level,
            language_preference: opt_str_view(self.language_preference),
            comment: opt_str_view(self.comment),
            created_by: opt_str_view(self.created_by),
            poi_tags: strings_view(self.poi_tags@),
            way_tags: strings_view(self.way_tags@),
            num_zoom_intervals: self.num_zoom_intervals,
            zoom_interval_configuration: self.zoom_interval_configuration@,
        }
    }
}

/// View of a `POI`.
#[verifier::ext_equal]
pub struct PoiV {
    pub debug_signature: Option<Seq<char>>,
    pub position_offset: LatLong,
    pub layer: i8,
    pub tag_ids: Seq<usize>,
    pub tags: Option<Seq<TagV>>,
    pub name: Option<Seq<char>>,
    pub house_number: Option<Seq<char>>,
    pub elevation: Option<i32>,
}

impl View for POI {
    type V = PoiV;

    open spec fn view(&self) -> PoiV {
        PoiV {
            debug_signature: opt_str_view(self.debug_signature),
            position_offset: self.position_offset,
            layer: self.layer,
            tag_ids: self.tag_ids@,
            tags: opt_tags_view(self.tags),
            name: opt_str_view(self.name),
            house_number: opt_str_view(self.house_number),
            elevation: self.elevation,
        }
    }
}

/// View of a `WayCoordinateBlock`.
#[verifier::ext_equal]
pub struct WayCoordinateBlockV {
    pub initial_position: LatLong,
    pub coordinates: Seq<LatLong>,
}

impl View for WayCoordinateBlock {
    type V = WayCoordinateBlockV;

    open spec fn view(&self) -> WayCoordinateBlockV {
        WayCoordinateBlockV { initial_position: self.initial_position, coordinates: self.coordinates@ }
    }
}

pub open spec fn blocks_view(v: Seq<WayCoordinateBlock>) -> Seq<WayCoordinateBlockV> {
    v.map(|i: int, b: WayCoordinateBlock| b@)
}

/// View of a `Way`.
#[verifier::ext_equal]
pub struct WayV {
    pub debug_signature: Option<Seq<char>>,
    pub sub_tile_bitmap: u16,
    pub layer: i8,
    pub tag_ids: Seq<usize>,
    pub tags: Option<Seq<TagV>>,
    pub name: Option<Seq<char>>,
    pub house_number: Option<Seq<char>>,
    pub reference: Option<Seq<char>>,
    pub label_position: Option<LatLong>,
    pub coordinate_blocks: Seq<WayCoordinateBlockV>,
    pub double_delta_encoding: bool,
}

impl View for Way {
    type V = WayV;

    open spec fn view(&self) -> WayV {
        WayV {
            debug_signature: opt_str_view(self.debug_signature),
            sub_tile_bitmap: self.sub_tile_bitmap,
            layer: self.layer,
            tag_ids: self.tag_ids@,
            tags: opt_tags_view(self.tags),
            name: opt_str_view(self.name),
            house_number: opt_str_view(self.house_number),
            reference: opt_str_view(self.reference),
            label_position: self.label_position,
            coordinate_blocks: blocks_view(self.coordinate_blocks@),
            double_delta_encoding: self.double_delta_encoding,
        }
    }
}

pub open spec fn pois_view(v: Seq<POI>) -> Seq<PoiV> {
    v.map(|i: int, p: POI| p@)
}

pub open spec fn ways_view(v: Seq<Way>) -> Seq<WayV> {
    v.map(|i: int, w: Way| w@)
}

/// View of a `Tile`.
#[verifier::ext_equal]
pub struct TileV {
    pub debug_signature: Option<Seq<char>>,
    pub zoom_table: Seq<(u64, u64)>,
    pub first_way_offset: u64,
    pub pois: Seq<PoiV>,
    pub ways: Seq<WayV>,
}

impl View for Tile {
    type V = TileV;

    open spec fn view(&self) -> TileV {
        TileV {
            debug_signature: opt_str_view(self.debug_signature),
            zoom_table: self.zoom_table@,
            first_way_offset: self.first_way_offset,
            pois: pois_view(self.pois@),
            ways: ways_view(self.ways@),
        }
    }
}

} // verus!
