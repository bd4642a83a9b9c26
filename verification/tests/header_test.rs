use mapsforge_rs::reader::Reader;
use mapsforge_rs::{BoundingBox, MapHeader, MapforgeError};

/// A minimal, well-formed header: the 20-byte magic, sizes and version, a
/// tiny bounding box, tile size 256, one zoom interval whose subfile starts
/// right after the header.
fn sample_header_bytes() -> Vec<u8> {
    let mut d: Vec<u8> = Vec::new();
    d.extend(b"mapsforge binary OSM");
    d.extend(70u32.to_be_bytes()); // header_size
    d.extend(3u32.to_be_bytes()); // file_version
    d.extend(101u64.to_be_bytes()); // file_size
    d.extend(0u64.to_be_bytes()); // creation_date
    d.extend(10i32.to_be_bytes()); // min_lat (microdegrees)
    d.extend(20i32.to_be_bytes()); // min_lon
    d.extend(40i32.to_be_bytes()); // max_lat
    d.extend(50i32.to_be_bytes()); // max_lon
    d.extend(256u16.to_be_bytes()); // tile_size
    d.push(8);
    d.extend(b"Mercator"); // projection
    d.push(0x00); // flags: nothing optional
    d.extend(0u16.to_be_bytes()); // no POI tags
    d.extend(0u16.to_be_bytes()); // no way tags
    d.push(1); // one zoom interval
    d.push(8); // base zoom
    d.push(6); // min zoom
    d.push(10); // max zoom
    d.extend(96u64.to_be_bytes()); // sub_file_start (right after this header)
    d.extend(5u64.to_be_bytes()); // sub_file_size
    d
}

#[test]
fn test_read_header() {
    let mut reader = Reader::new(sample_header_bytes());
    let header = MapHeader::read_from_file(&mut reader).unwrap();

    assert_eq!(header.magic, "mapsforge binary OSM");
    assert_eq!(header.tile_size, 256);
    assert!(header.is_valid());
}

#[test]
fn test_valid_bounding_box() {
    let test_data = vec![
        0x00, 0x00, 0x00, 0x0A, // min_lat: 10/1_000_000 = 0.00001
        0x00, 0x00, 0x00, 0x14, // min_lon: 20/1_000_000 = 0.00002
        0x00, 0x00, 0x00, 0x28, // max_lat: 40/1_000_000 = 0.00004
        0x00, 0x00, 0x00, 0x32, // max_lon: 50/1_000_000 = 0.00005
    ];

    let mut reader = Reader::new(test_data);
    let bbox = BoundingBox::read_from_buffer(&mut reader).unwrap();

    assert_eq!(bbox.min_lat as f64 / 1_000_000.0, 0.00001);
    assert_eq!(bbox.min_lon as f64 / 1_000_000.0, 0.00002);
    assert_eq!(bbox.max_lat as f64 / 1_000_000.0, 0.00004);
    assert_eq!(bbox.max_lon as f64 / 1_000_000.0, 0.00005);
}

#[test]
fn test_invalid_bounding_box() {
    let test_data = vec![
        0x00, 0x00, 0x00, 0x5A, // min_lat: 90 (larger than max_lat below)
        0x00, 0x00, 0x00, 0x14, // min_lon: 20
        0x00, 0x00, 0x00, 0x28, // max_lat: 40 (invalid because < min_lat)
        0x00, 0x00, 0x00, 0x32, // max_lon: 50
    ];

    let mut reader = Reader::new(test_data);
    let result = BoundingBox::read_from_buffer(&mut reader);

    assert!(matches!(result, Err(MapforgeError::InvalidBoundingBox)));
}

#[test]
fn test_invalid_magic() {
    let mut d = sample_header_bytes();
    d[0] = b'x';
    let mut reader = Reader::new(d);
    let result = MapHeader::read_from_file(&mut reader);
    assert!(matches!(result, Err(MapforgeError::InvalidMagic)));
}

#[test]
fn test_unsupported_version() {
    let mut d = sample_header_bytes();
    // file_version sits right after the magic and the header size
    d[24..28].copy_from_slice(&2u32.to_be_bytes());
    let mut reader = Reader::new(d);
    let result = MapHeader::read_from_file(&mut reader);
    assert!(matches!(result, Err(MapforgeError::UnsupportedVersion(2))));
}

#[test]
fn test_invalid_header_size() {
    let mut d = sample_header_bytes();
    d[20..24].copy_from_slice(&0u32.to_be_bytes());
    let mut reader = Reader::new(d);
    let result = MapHeader::read_from_file(&mut reader);
    assert!(matches!(result, Err(MapforgeError::InvalidHeaderSize(0))));
}

#[test]
fn test_header_optional_fields() {
    let mut d: Vec<u8> = Vec::new();
    d.extend(b"mapsforge binary OSM");
    d.extend(70u32.to_be_bytes());
    d.extend(3u32.to_be_bytes());
    d.extend(200u64.to_be_bytes());
    d.extend(0u64.to_be_bytes());
    d.extend(10i32.to_be_bytes());
    d.extend(20i32.to_be_bytes());
    d.extend(40i32.to_be_bytes());
    d.extend(50i32.to_be_bytes());
    d.extend(256u16.to_be_bytes());
    d.push(0); // empty projection name
    d.push(0x40 | 0x20 | 0x08); // map start position, start zoom, comment
    d.extend(30i32.to_be_bytes()); // start latitude (microdegrees)
    d.extend(40i32.to_be_bytes()); // start longitude
    d.push(12); // start zoom level
    d.push(2);
    d.extend(b"hi"); // comment
    d.extend(0u16.to_be_bytes());
    d.extend(0u16.to_be_bytes());
    d.push(0); // no zoom intervals
    let mut reader = Reader::new(d);
    let header = MapHeader::read_from_file(&mut reader).unwrap();
    let start = header.map_start_position.unwrap();
    assert_eq!(start.latitude, 30);
    assert_eq!(start.longitude, 40);
    assert_eq!(header.start_zoom_level, Some(12));
    assert_eq!(header.comment.as_deref(), Some("hi"));
    assert_eq!(header.language_preference, None);
    assert_eq!(header.created_by, None);
    assert_eq!(header.num_zoom_intervals, 0);
}

#[test]
fn test_header_idempotent() {
    // Parsing the same bytes twice yields identical headers: no state is
    // shared between runs.
    let d = sample_header_bytes();
    let mut r1 = Reader::new(d.clone());
    let mut r2 = Reader::new(d);
    let h1 = MapHeader::read_from_file(&mut r1).unwrap();
    let h2 = MapHeader::read_from_file(&mut r2).unwrap();
    assert_eq!(h1, h2);
}

#[test]
fn test_truncated_header() {
    let mut d = sample_header_bytes();
    d.truncate(50);
    let mut reader = Reader::new(d);
    let result = MapHeader::read_from_file(&mut reader);
    assert!(matches!(result, Err(MapforgeError::UnexpectedEof)));
}

#[test]
fn test_is_valid_trims_magic() {
    let mut reader = Reader::new(sample_header_bytes());
    let mut header = MapHeader::read_from_file(&mut reader).unwrap();
    header.magic = "mapsforge binary OSM   ".to_string();
    assert!(header.is_valid());
    header.magic = "  mapsforge binary OSM ".to_string();
    assert!(header.is_valid());
    header.magic = "mapsforge binary OS".to_string();
    assert!(!header.is_valid());
}
