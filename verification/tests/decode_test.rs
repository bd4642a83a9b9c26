use mapsforge_rs::blocks::{process_poi_way_block, read_zoom_table};
use mapsforge_rs::poi::process_pois;
use mapsforge_rs::reader::Reader;
use mapsforge_rs::types::{Tag, ZoomInterval};
use mapsforge_rs::utils::{decode_poi_tag, encode_vbe_s, hash_tag_parameter};
use mapsforge_rs::way::{clamp_longitude, process_ways};
use mapsforge_rs::MapforgeError;

#[test]
fn test_tag_resolution() {
    let dict = vec!["amenity=cafe".to_string(), "name=Brauhaus am Markt".to_string()];

    let tag = decode_poi_tag(&dict, 0).unwrap();
    assert_eq!(tag.key, "amenity");
    assert_eq!(tag.value, "cafe");
    assert_eq!(tag.key_code, hash_tag_parameter("amenity"));
    assert_eq!(tag.value_code, hash_tag_parameter("cafe"));

    // the value keeps everything past the first separator
    let tag = decode_poi_tag(&dict, 1).unwrap();
    assert_eq!(tag.key, "name");
    assert_eq!(tag.value, "Brauhaus am Markt");
}

#[test]
fn test_tag_out_of_range() {
    let dict = vec!["amenity=cafe".to_string()];
    let r = decode_poi_tag(&dict, 1);
    assert!(matches!(r, Err(MapforgeError::TagIndexOutOfRange(1, 1))));
    let r = decode_poi_tag(&dict, 250);
    assert!(matches!(r, Err(MapforgeError::TagIndexOutOfRange(250, 1))));
}

#[test]
fn test_tag_new() {
    let tag = Tag::new("ref", "A 6");
    assert_eq!(tag.key, "ref");
    assert_eq!(tag.value, "A 6");
    assert_eq!(tag.key_code, hash_tag_parameter("ref"));
}

#[test]
fn test_read_zoom_table() {
    let zi = ZoomInterval {
        base_zoom_level: 8,
        min_zoom_level: 6,
        max_zoom_level: 10,
        sub_file_start: 0,
        sub_file_size: 0,
    };
    let data = vec![1, 2, 3, 4, 5, 6, 7, 8, 9, 10];
    let mut reader = Reader::new(data);
    let table = read_zoom_table(&mut reader, &zi).unwrap();
    assert_eq!(table, vec![(1, 2), (3, 4), (5, 6), (7, 8), (9, 10)]);
}

#[test]
fn test_process_pois() {
    let dict = vec!["amenity=cafe".to_string()];
    let mut data: Vec<u8> = Vec::new();
    data.extend(encode_vbe_s(5)); // latitude offset, microdegrees
    data.extend(encode_vbe_s(-5)); // longitude offset
    data.push(0x31); // layer 3, one tag
    data.push(0x00); // tag id 0
    let mut reader = Reader::new(data);
    let pois = process_pois(&mut reader, 1, &dict, false).unwrap();
    assert_eq!(pois.len(), 1);
    let poi = &pois[0];
    assert_eq!(poi.layer, 3);
    assert_eq!(poi.position_offset.latitude, 5);
    assert_eq!(poi.position_offset.longitude, -5);
    assert_eq!(poi.tag_ids, vec![0]);
    let tags = poi.tags.as_ref().unwrap();
    assert_eq!(tags.len(), 1);
    assert_eq!(tags[0].key, "amenity");
    assert_eq!(tags[0].value, "cafe");
}

#[test]
fn test_process_pois_bad_tag_id() {
    let dict = vec!["amenity=cafe".to_string()];
    let mut data: Vec<u8> = Vec::new();
    data.extend(encode_vbe_s(0));
    data.extend(encode_vbe_s(0));
    data.push(0x01); // layer 0, one tag
    data.push(0x07); // tag id 7, out of range
    let mut reader = Reader::new(data);
    let r = process_pois(&mut reader, 1, &dict, false);
    assert!(matches!(r, Err(MapforgeError::TagIndexOutOfRange(7, 1))));
}

#[test]
fn test_clamp_longitude() {
    assert_eq!(clamp_longitude(180_000_700), 180_000_000);
    assert_eq!(clamp_longitude(180_000_999), 180_000_000);
    assert_eq!(clamp_longitude(180_001_000), 180_001_000); // too far out: untouched
    assert_eq!(clamp_longitude(-180_000_700), -180_000_000);
    assert_eq!(clamp_longitude(-180_001_000), -180_001_000);
    assert_eq!(clamp_longitude(179_999_999), 179_999_999);
    assert_eq!(clamp_longitude(0), 0);
}

/// One way whose double-delta longitude drifts to 180.0007 degrees and must
/// come back clamped to exactly 180.0.
#[test]
fn test_way_double_delta_clamp() {
    let dict: Vec<String> = Vec::new();
    let mut data: Vec<u8> = Vec::new();
    data.push(0x00); // way data size (unused)
    data.extend(1u16.to_be_bytes()); // sub-tile bitmap
    data.push(0x50); // layer 5, no tags
    data.push(0x04); // feature flags: double-delta encoding only
    data.push(0x01); // one coordinate sub-block
    data.push(0x02); // two nodes
    data.extend(encode_vbe_s(1_000)); // first node latitude
    data.extend(encode_vbe_s(180_000_000)); // first node longitude
    data.extend(encode_vbe_s(7)); // latitude delta-of-deltas
    data.extend(encode_vbe_s(700)); // longitude drifts to 180.0007 degrees
    let mut reader = Reader::new(data);
    let ways = process_ways(&mut reader, 1, &dict, false).unwrap();
    assert_eq!(ways.len(), 1);
    let way = &ways[0];
    assert_eq!(way.sub_tile_bitmap, 1);
    assert_eq!(way.layer, 5);
    assert!(way.double_delta_encoding);
    assert_eq!(way.coordinate_blocks.len(), 1);
    let block = &way.coordinate_blocks[0];
    assert_eq!(block.initial_position.latitude, 1_000);
    assert_eq!(block.initial_position.longitude, 180_000_000);
    assert_eq!(block.coordinates.len(), 1);
    assert_eq!(block.coordinates[0].latitude, 1_007);
    assert_eq!(block.coordinates[0].longitude, 180_000_000);
    assert_eq!(block.coordinates[0].longitude as f64 / 1_000_000.0, 180.0);
}

#[test]
fn test_way_single_delta_and_features() {
    let dict = vec!["highway=residential".to_string()];
    let mut data: Vec<u8> = Vec::new();
    data.push(0x00); // way data size
    data.extend(2u16.to_be_bytes()); // sub-tile bitmap
    data.push(0x21); // layer 2, one tag
    data.push(0x00); // tag id 0
    data.push(0x80); // feature flags: a name follows, single delta
    data.push(0x04);
    data.extend(b"Ring"); // way name
    data.push(0x01); // one coordinate sub-block
    data.push(0x02); // two nodes
    data.extend(encode_vbe_s(1_000)); // first node latitude
    data.extend(encode_vbe_s(2_000)); // first node longitude
    data.extend(encode_vbe_s(-10)); // latitude delta
    data.extend(encode_vbe_s(20)); // longitude delta
    let mut reader = Reader::new(data);
    let ways = process_ways(&mut reader, 1, &dict, false).unwrap();
    let way = &ways[0];
    assert_eq!(way.sub_tile_bitmap, 2);
    assert_eq!(way.layer, 2);
    assert!(!way.double_delta_encoding);
    assert_eq!(way.tag_ids, vec![0]);
    let tags = way.tags.as_ref().unwrap();
    assert_eq!(tags.len(), 2);
    assert_eq!(tags[0].key, "highway");
    assert_eq!(tags[0].value, "residential");
    assert_eq!(tags[1].key, "name");
    assert_eq!(tags[1].value, "Ring");
    let block = &way.coordinate_blocks[0];
    // single delta keeps the first node at the head of the list
    assert_eq!(block.coordinates.len(), 2);
    assert_eq!(block.coordinates[0].latitude, 1_000);
    assert_eq!(block.coordinates[0].longitude, 2_000);
    assert_eq!(block.coordinates[1].latitude, 990);
    assert_eq!(block.coordinates[1].longitude, 2_020);
}

#[test]
fn test_process_poi_way_block() {
    let poi_dict = vec!["amenity=cafe".to_string()];
    let way_dict: Vec<String> = Vec::new();
    let zi = ZoomInterval {
        base_zoom_level: 8,
        min_zoom_level: 6,
        max_zoom_level: 10,
        sub_file_start: 0,
        sub_file_size: 0,
    };
    let mut data: Vec<u8> = Vec::new();
    // zoom table: five levels; level 8 announces one POI and one way
    data.extend([0, 0, 0, 0, 1, 1, 0, 0, 0, 0]);
    data.push(0x00); // first way offset
    // the POI
    data.extend(encode_vbe_s(5));
    data.extend(encode_vbe_s(-5));
    data.push(0x10); // layer 1, no tags
    // the way
    data.push(0x00); // way data size
    data.extend(4u16.to_be_bytes()); // sub-tile bitmap
    data.push(0x00); // layer 0, no tags
    data.push(0x00); // no features, single delta, one block
    data.push(0x01); // one sub-block
    data.push(0x01); // one node
    data.extend(encode_vbe_s(100));
    data.extend(encode_vbe_s(200));
    let mut reader = Reader::new(data);
    let tile = process_poi_way_block(&mut reader, &zi, 8, &poi_dict, &way_dict, false).unwrap();
    assert_eq!(
        tile.zoom_table,
        vec![(0, 0), (0, 0), (1, 1), (0, 0), (0, 0)]
    );
    assert_eq!(tile.first_way_offset, 0);
    assert_eq!(tile.pois.len(), 1);
    assert_eq!(tile.pois[0].layer, 1);
    assert_eq!(tile.ways.len(), 1);
    assert_eq!(tile.ways[0].sub_tile_bitmap, 4);
    assert_eq!(tile.ways[0].coordinate_blocks[0].coordinates.len(), 1);
    assert_eq!(tile.ways[0].coordinate_blocks[0].coordinates[0].latitude, 100);
}

#[test]
fn test_way_coordinate_overflow() {
    // a delta that pushes the running latitude past the 64-bit range is
    // rejected, not wrapped
    let dict: Vec<String> = Vec::new();
    let mut data: Vec<u8> = Vec::new();
    data.push(0x00); // way data size
    data.extend(1u16.to_be_bytes()); // sub-tile bitmap
    data.push(0x00); // layer 0, no tags
    data.push(0x00); // single delta, one block
    data.push(0x01); // one sub-block
    data.push(0x02); // two nodes
    data.extend(encode_vbe_s(i64::MAX)); // first node latitude, at the limit
    data.extend(encode_vbe_s(0)); // first node longitude
    data.extend(encode_vbe_s(700)); // latitude delta: overflows
    data.extend(encode_vbe_s(0));
    let mut reader = Reader::new(data);
    let r = process_ways(&mut reader, 1, &dict, false);
    assert!(matches!(r, Err(MapforgeError::NumericOverflow)));
}

#[test]
fn test_poi_layer_signed() {
    // the layer nibble is a 4-bit signed value: 0x7 is 7, 0x8 is -8, 0xF is -1
    let dict: Vec<String> = Vec::new();
    let mut data: Vec<u8> = Vec::new();
    for special in [0xF0u8, 0x80, 0x70] {
        data.extend(encode_vbe_s(0));
        data.extend(encode_vbe_s(0));
        data.push(special);
    }
    let mut reader = Reader::new(data);
    let pois = process_pois(&mut reader, 3, &dict, false).unwrap();
    assert_eq!(pois[0].layer, -1);
    assert_eq!(pois[1].layer, -8);
    assert_eq!(pois[2].layer, 7);
}

#[test]
fn test_way_layer_signed() {
    let dict: Vec<String> = Vec::new();
    let mut data: Vec<u8> = Vec::new();
    data.push(0x00); // way data size
    data.extend(0u16.to_be_bytes()); // sub-tile bitmap
    data.push(0x90); // layer nibble 9: -7
    data.push(0x00); // no features, single delta, one block
    data.push(0x01); // one sub-block
    data.push(0x01); // one node
    data.extend(encode_vbe_s(0));
    data.extend(encode_vbe_s(0));
    let mut reader = Reader::new(data);
    let ways = process_ways(&mut reader, 1, &dict, false).unwrap();
    assert_eq!(ways[0].layer, -7);
}
