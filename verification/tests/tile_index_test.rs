use mapsforge_rs::reader::Reader;
use mapsforge_rs::tile::{read_interval_tile_index, read_tile_index, read_tile_index_header};
use mapsforge_rs::{BoundingBox, MapHeader};

/// The slippy-map tile count of a bounding box at a zoom level: the
/// inclusive X span from the longitudes times the inclusive Y span from the
/// Mercator-projected latitudes.
fn calculate_total_tiles(bounding_box: &BoundingBox, zoom: u8) -> u32 {
    let min_lon = bounding_box.min_lon as f64 / 1_000_000.0;
    let max_lon = bounding_box.max_lon as f64 / 1_000_000.0;
    let min_lat = bounding_box.min_lat as f64 / 1_000_000.0;
    let max_lat = bounding_box.max_lat as f64 / 1_000_000.0;

    let x_min = ((min_lon + 180.0) / 360.0 * 2_f64.powi(zoom as i32)).floor() as i64;
    let x_max = ((max_lon + 180.0) / 360.0 * 2_f64.powi(zoom as i32)).floor() as i64;

    let lat_rad_min = min_lat.to_radians();
    let lat_rad_max = max_lat.to_radians();

    let y_min = ((1.0 - (lat_rad_max.tan() + 1.0 / lat_rad_max.cos()).ln()
        / std::f64::consts::PI) / 2.0 * 2_f64.powi(zoom as i32))
        .floor() as i64;
    let y_max = ((1.0 - (lat_rad_min.tan() + 1.0 / lat_rad_min.cos()).ln()
        / std::f64::consts::PI) / 2.0 * 2_f64.powi(zoom as i32))
        .floor() as i64;

    let num_x = (x_max - x_min + 1) as u32;
    let num_y = (y_max - y_min + 1) as u32;

    num_x * num_y
}

/// A whole little map file: the header of `header_test`, then one tile
/// index record at the subfile start.
fn sample_map_bytes() -> Vec<u8> {
    let mut d: Vec<u8> = Vec::new();
    d.extend(b"mapsforge binary OSM");
    d.extend(70u32.to_be_bytes());
    d.extend(3u32.to_be_bytes());
    d.extend(101u64.to_be_bytes());
    d.extend(0u64.to_be_bytes());
    d.extend(10i32.to_be_bytes());
    d.extend(20i32.to_be_bytes());
    d.extend(40i32.to_be_bytes());
    d.extend(50i32.to_be_bytes());
    d.extend(256u16.to_be_bytes());
    d.push(8);
    d.extend(b"Mercator");
    d.push(0x00);
    d.extend(0u16.to_be_bytes());
    d.extend(0u16.to_be_bytes());
    d.push(1);
    d.push(8);
    d.push(6);
    d.push(10);
    d.extend(96u64.to_be_bytes());
    d.extend(5u64.to_be_bytes());
    // the tile index: one record, not water, offset 5
    d.extend([0x00, 0x00, 0x00, 0x00, 0x05]);
    d
}

#[test]
fn test_tile_index_reading() {
    let mut reader = Reader::new(sample_map_bytes());
    let header = MapHeader::read_from_file(&mut reader).unwrap();
    let debug = header.flags & 0x80 != 0;

    let mut tile_indices = Vec::new();
    for interval in &header.zoom_interval_configuration {
        reader.seek(interval.sub_file_start).unwrap();
        read_tile_index_header(&mut reader, debug).unwrap();
        let total_tiles_index =
            calculate_total_tiles(&header.bounding_box, interval.base_zoom_level);
        let tile_index = read_tile_index(&mut reader, total_tiles_index).unwrap();
        tile_indices.push(tile_index);
    }

    assert_eq!(tile_indices.len(), header.num_zoom_intervals as usize);

    if let Some(first_interval) = tile_indices.first() {
        let expected_tiles = calculate_total_tiles(
            &header.bounding_box,
            header.zoom_interval_configuration[0].base_zoom_level,
        );
        assert_eq!(first_interval.len(), expected_tiles as usize);

        if let Some(first_tile) = first_interval.first() {
            assert!(first_tile.offset > 0 || first_tile.is_water);
        }
    }
}

#[test]
fn test_tile_index_entries() {
    // Water flag set in the top bit of the first byte; the offset comes
    // from the remaining 39 bits.
    let data = vec![
        0x80, 0x00, 0x00, 0x00, 0x07, // water, offset 7
        0x00, 0x00, 0x00, 0x00, 0x00, // not water, offset 0
        0x7f, 0xff, 0xff, 0xff, 0xff, // not water, the largest 39-bit offset
    ];
    let mut reader = Reader::new(data);
    let entries = read_tile_index(&mut reader, 3).unwrap();
    assert!(entries[0].is_water);
    assert_eq!(entries[0].offset, 7);
    assert!(!entries[1].is_water);
    assert_eq!(entries[1].offset, 0);
    assert!(!entries[2].is_water);
    assert_eq!(entries[2].offset, 0x7f_ff_ff_ff_ff);
}

#[test]
fn test_tile_index_signature() {
    let mut good: Vec<u8> = Vec::new();
    good.extend(b"+++IndexStart+++");
    let mut reader = Reader::new(good);
    let h = read_tile_index_header(&mut reader, true).unwrap();
    assert_eq!(h.debug_signature.as_deref(), Some("+++IndexStart+++"));

    let mut bad: Vec<u8> = Vec::new();
    bad.extend(b"+++WrongHeader++");
    let mut reader = Reader::new(bad);
    let r = read_tile_index_header(&mut reader, true);
    assert!(matches!(
        r,
        Err(mapsforge_rs::MapforgeError::InvalidIndexSignature)
    ));
}

#[test]
fn test_tile_index_idempotent() {
    // Reading the same index bytes twice yields identical entries.
    let data = vec![0x80, 0x00, 0x00, 0x00, 0x07, 0x00, 0x00, 0x00, 0x01, 0x00];
    let mut r1 = Reader::new(data.clone());
    let mut r2 = Reader::new(data);
    let e1 = read_tile_index(&mut r1, 2).unwrap();
    let e2 = read_tile_index(&mut r2, 2).unwrap();
    assert_eq!(e1, e2);
}

#[test]
fn test_interval_tile_index() {
    let mut reader = Reader::new(sample_map_bytes());
    let header = MapHeader::read_from_file(&mut reader).unwrap();
    let interval = &header.zoom_interval_configuration[0];
    let count = calculate_total_tiles(&header.bounding_box, interval.base_zoom_level);
    let index = read_interval_tile_index(&mut reader, interval, count, false).unwrap();
    assert_eq!(index.len(), count as usize);
    assert_eq!(index[0].offset, 5);
    assert!(!index[0].is_water);
}
