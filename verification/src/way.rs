//! The way decoder: per record a size field, a sub-tile bitmap, layer and
//! tag information, a feature-flag byte gating optional name, house number,
//! reference and label position, and one or more coordinate blocks decoded
//! with single- or double-delta encoding.

use crate::error::MapforgeError;
use crate::header::{read_opt_string, spec_parse_opt_string};
use crate::poi::{
    read_tag_ids, skip_debug_signature, spec_layer, spec_parse_tag_ids, spec_skip_debug,
    spec_tag_count,
};
use crate::reader::{spec_read_be, spec_read_u8, Reader};
use crate::tag::spec_make_tag;
use crate::types::{
    blocks_view, strings_view, tags_view, LatLong, TagV, Way, WayCoordinateBlock,
    WayCoordinateBlockV, WayV,
};
use crate::utils::{
    read_vbe_s_int, read_vbe_u_int, spec_read_vbe_s, spec_read_vbe_u, LONGITUDE_MAX, LONGITUDE_MIN,
};
use vstd::prelude::*;

verus! {

/// True when `x` fits the 64-bit signed range.
pub open spec fn in_i64(x: int) -> bool {
    i64::MIN <= x <= i64::MAX
}

/// The date-line correction: a longitude that overshoots either limit by
/// less than 0.001 degrees (1000 microdegrees) is clamped to that limit;
/// every other value passes through unchanged.
pub open spec fn clamp_lon(l: int) -> int {
    if l > LONGITUDE_MAX && l - LONGITUDE_MAX < 1000 {
        LONGITUDE_MAX as int
    } else if l < LONGITUDE_MIN && LONGITUDE_MIN - l < 1000 {
        LONGITUDE_MIN as int
    } else {
        l
    }
}

/// Law: the double-delta longitude clamp. A longitude within 0.001 degrees
/// past either limit comes back as exactly that limit, and a longitude
/// already in range comes back unchanged.
pub fn clamp_longitude(lon: i64) -> (r: i64)
    ensures
        r as int == clamp_lon(lon as int),
{
    if lon > LONGITUDE_MAX && lon - LONGITUDE_MAX < 1000 {
        LONGITUDE_MAX
    } else if lon < LONGITUDE_MIN && lon > LONGITUDE_MIN - 1000 {
        LONGITUDE_MIN
    } else {
        lon
    }
}

/// An optional pair of VBE-signed microdegree deltas, read only when its
/// flag bit was set.
pub open spec fn spec_parse_opt_vbe_latlong(s: Seq<u8>, p: int, present: bool) -> Result<
    (Option<LatLong>, int),
    MapforgeError,
> {
    if !present {
        Ok((None, p))
    } else {
        match spec_read_vbe_s(s, p) {
            Err(e) => Err(e),
            Ok((lat, p2)) => match spec_read_vbe_s(s, p2) {
                Err(e) => Err(e),
                Ok((lon, p3)) => Ok(
                    (Some(LatLong { latitude: lat as i64, longitude: lon as i64 }), p3),
                ),
            },
        }
    }
}

/// The number of coordinate data blocks: an explicit VBE count when its
/// flag bit was set, exactly one otherwise.
pub open spec fn spec_parse_block_count(s: Seq<u8>, p: int, present: bool) -> Result<
    (nat, int),
    MapforgeError,
> {
    if present {
        spec_read_vbe_u(s, p)
    } else {
        Ok((1, p))
    }
}

/// `rem` single-delta nodes after the running position (`lat`, `lon`): each
/// node is a pair of signed deltas added to the running position. A sum
/// that leaves the 64-bit range fails with `NumericOverflow`.
pub open spec fn spec_parse_nodes_single(s: Seq<u8>, p: int, rem: nat, lat: int, lon: int) -> Result<
    (Seq<LatLong>, int),
    MapforgeError,
>
    decreases rem,
{
    if rem == 0 {
        Ok((Seq::empty(), p))
    } else {
        match spec_read_vbe_s(s, p) {
            Err(e) => Err(e),
            Ok((dlat, p1)) => match spec_read_vbe_s(s, p1) {
                Err(e) => Err(e),
                Ok((dlon, p2)) => {
                    let nlat = lat + dlat;
                    let nlon = lon + dlon;
                    if !in_i64(nlat) || !in_i64(nlon) {
                        Err(MapforgeError::NumericOverflow)
                    } else {
                        let node = LatLong { latitude: nlat as i64, longitude: nlon as i64 };
                        match spec_parse_nodes_single(s, p2, (rem - 1) as nat, nlat, nlon) {
                            Err(e) => Err(e),
                            Ok((rest, p3)) => Ok((seq![node] + rest, p3)),
                        }
                    }
                },
            },
        }
    }
}

/// `rem` double-delta nodes: each pair read is a delta of deltas, added to
/// the running single delta, which is then added to the running position;
/// the longitude passes through the date-line clamp. Sums that leave the
/// 64-bit range fail with `NumericOverflow`.
pub open spec fn spec_parse_nodes_double(
    s: Seq<u8>,
    p: int,
    rem: nat,
    lat: int,
    lon: int,
    sdlat: int,
    sdlon: int,
) -> Result<(Seq<LatLong>, int), MapforgeError>
    decreases rem,
{
    if rem == 0 {
        Ok((Seq::empty(), p))
    } else {
        match spec_read_vbe_s(s, p) {
            Err(e) => Err(e),
            Ok((ddlat, p1)) => match spec_read_vbe_s(s, p1) {
                Err(e) => Err(e),
                Ok((ddlon, p2)) => {
                    let nsdlat = sdlat + ddlat;
                    let nsdlon = sdlon + ddlon;
                    if !in_i64(nsdlat) || !in_i64(nsdlon) {
                        Err(MapforgeError::NumericOverflow)
                    } else {
                        let nlat = lat + nsdlat;
                        let nlon0 = lon + nsdlon;
                        if !in_i64(nlat) || !in_i64(nlon0) {
                            Err(MapforgeError::NumericOverflow)
                        } else {
                            let nlon = clamp_lon(nlon0);
                            let node = LatLong { latitude: nlat as i64, longitude: nlon as i64 };
                            match spec_parse_nodes_double(
                                s,
                                p2,
                                (rem - 1) as nat,
                                nlat,
                                nlon,
                                nsdlat,
                                nsdlon,
                            ) {
                                Err(e) => Err(e),
                                Ok((rest, p3)) => Ok((seq![node] + rest, p3)),
                            }
                        }
                    }
                },
            },
        }
    }
}

/// One coordinate sub-block of `nn` nodes: an absolute first position, then
/// the remaining nodes in the selected delta mode. With single-delta
/// encoding the first position heads the coordinate list; with double-delta
/// it stands only in `initial_position`.
pub open spec fn spec_parse_nodes(s: Seq<u8>, p: int, nn: nat, double: bool) -> Result<
    (WayCoordinateBlockV, int),
    MapforgeError,
> {
    match spec_read_vbe_s(s, p) {
        Err(e) => Err(e),
        Ok((lat0, p1)) => match spec_read_vbe_s(s, p1) {
            Err(e) => Err(e),
            Ok((lon0, p2)) => {
                let init = LatLong { latitude: lat0 as i64, longitude: lon0 as i64 };
                let rem: nat = if nn == 0 {
                    0
                } else {
                    (nn - 1) as nat
                };
                if double {
                    match spec_parse_nodes_double(s, p2, rem, lat0, lon0, 0, 0) {
                        Err(e) => Err(e),
                        Ok((coords, p3)) => Ok(
                            (WayCoordinateBlockV { initial_position: init, coordinates: coords }, p3),
                        ),
                    }
                } else {
                    match spec_parse_nodes_single(s, p2, rem, lat0, lon0) {
                        Err(e) => Err(e),
                        Ok((coords, p3)) => Ok(
                            (
                                WayCoordinateBlockV {
                                    initial_position: init,
                                    coordinates: seq![init] + coords,
                                },
                                p3,
                            ),
                        ),
                    }
                }
            },
        },
    }
}

/// `m` coordinate sub-blocks of `nn` nodes each.
pub open spec fn spec_parse_subblocks(s: Seq<u8>, p: int, m: nat, nn: nat, double: bool) -> Result<
    (Seq<WayCoordinateBlockV>, int),
    MapforgeError,
>
    decreases m,
{
    if m == 0 {
        Ok((Seq::empty(), p))
    } else {
        match spec_parse_nodes(s, p, nn, double) {
            Err(e) => Err(e),
            Ok((blk, p2)) => match spec_parse_subblocks(s, p2, (m - 1) as nat, nn, double) {
                Err(e) => Err(e),
                Ok((rest, p3)) => Ok((seq![blk] + rest, p3)),
            },
        }
    }
}

/// `nb` data blocks: each begins with a VBE sub-block count; a zero count
/// contributes nothing, otherwise one shared VBE node count is read and
/// that many sub-blocks follow.
pub open spec fn spec_parse_data_blocks(s: Seq<u8>, p: int, nb: nat, double: bool) -> Result<
    (Seq<WayCoordinateBlockV>, int),
    MapforgeError,
>
    decreases nb,
{
    if nb == 0 {
        Ok((Seq::empty(), p))
    } else {
        match spec_read_vbe_u(s, p) {
            Err(e) => Err(e),
            Ok((m, p2)) => if m == 0 {
                spec_parse_data_blocks(s, p2, (nb - 1) as nat, double)
            } else {
                match spec_read_vbe_u(s, p2) {
                    Err(e) => Err(e),
                    Ok((nn, p3)) => match spec_parse_subblocks(s, p3, m, nn, double) {
                        Err(e) => Err(e),
                        Ok((blks, p4)) => match spec_parse_data_blocks(
                            s,
                            p4,
                            (nb - 1) as nat,
                            double,
                        ) {
                            Err(e) => Err(e),
                            Ok((rest, p5)) => Ok((blks + rest, p5)),
                        },
                    },
                }
            },
        }
    }
}

/// The tail of a way record after the feature-flag byte: optional name,
/// house number and reference strings (each appended to the tag list),
/// optional label position, the block count, and the coordinate blocks.
pub open spec fn spec_parse_way_rest(
    s: Seq<u8>,
    p: int,
    bitmap: u16,
    special: u8,
    ids: Seq<usize>,
    tags0: Seq<TagV>,
    flags: u8,
) -> Result<(WayV, int), MapforgeError> {
    match spec_parse_opt_string(s, p, flags & 0x80 != 0) {
        Err(e) => Err(e),
        Ok((nm, p)) => {
            let tags1 = match nm {
                Some(x) => tags0 + seq![spec_make_tag("name"@, x)],
                None => tags0,
            };
            match spec_parse_opt_string(s, p, flags & 0x40 != 0) {
                Err(e) => Err(e),
                Ok((hn, p)) => {
                    let tags2 = match hn {
                        Some(x) => tags1 + seq![spec_make_tag("addr:housenumber"@, x)],
                        None => tags1,
                    };
                    match spec_parse_opt_string(s, p, flags & 0x20 != 0) {
                        Err(e) => Err(e),
                        Ok((rf, p)) => {
                            let tags3 = match rf {
                                Some(x) => tags2 + seq![spec_make_tag("ref"@, x)],
                                None => tags2,
                            };
                            match spec_parse_opt_vbe_latlong(s, p, flags & 0x10 != 0) {
                                Err(e) => Err(e),
                                Ok((lp, p)) => match spec_parse_block_count(
                                    s,
                                    p,
                                    flags & 0x08 != 0,
                                ) {
                                    Err(e) => Err(e),
                                    Ok((nb, p)) => match spec_parse_data_blocks(
                                        s,
                                        p,
                                        nb,
                                        flags & 0x04 != 0,
                                    ) {
                                        Err(e) => Err(e),
                                        Ok((blocks, p)) => Ok(
                                            (
                                                WayV {
                                                    debug_signature: None,
                                                    sub_tile_bitmap: bitmap,
                                                    layer: spec_layer(special),
                                                    tag_ids: ids,
                                                    tags: Some(tags3),
                                                    name: None,
                                                    house_number: None,
                                                    reference: None,
                                                    label_position: lp,
                                                    coordinate_blocks: blocks,
                                                    double_delta_encoding: flags & 0x04 != 0,
                                                },
                                                p,
                                            ),
                                        ),
                                    },
                                },
                            }
                        },
                    }
                },
            }
        },
    }
}

/// One way record, parsed strictly in file order.
pub open spec fn spec_parse_way(s: Seq<u8>, p: int, dict: Seq<Seq<char>>, debug: bool) -> Result<
    (WayV, int),
    MapforgeError,
> {
    match spec_skip_debug(s, p, debug) {
        Err(e) => Err(e),
        Ok(p) => match spec_read_vbe_u(s, p) {
            Err(e) => Err(e),
            Ok((way_data_size, p)) => match spec_read_be(s, p, 2) {
                Err(e) => Err(e),
                Ok((bitmap, p)) => match spec_read_u8(s, p) {
                    Err(e) => Err(e),
                    Ok((special, p)) => match spec_parse_tag_ids(
                        s,
                        p,
                        spec_tag_count(special),
                        dict,
                    ) {
                        Err(e) => Err(e),
                        Ok(((ids, tags0), p)) => match spec_read_u8(s, p) {
                            Err(e) => Err(e),
                            Ok((flags, p)) => spec_parse_way_rest(
                                s,
                                p,
                                bitmap as u16,
                                special,
                                ids,
                                tags0,
                                flags,
                            ),
                        },
                    },
                },
            },
        },
    }
}

/// `n` consecutive way records.
pub open spec fn spec_parse_ways(
    s: Seq<u8>,
    p: int,
    n: nat,
    dict: Seq<Seq<char>>,
    debug: bool,
) -> Result<(Seq<WayV>, int), MapforgeError>
    decreases n,
{
    if n == 0 {
        Ok((Seq::empty(), p))
    } else {
        match spec_parse_way(s, p, dict, debug) {
            Err(e) => Err(e),
            Ok((way, p2)) => match spec_parse_ways(s, p2, (n - 1) as nat, dict, debug) {
                Err(e) => Err(e),
                Ok((rest, p3)) => Ok((seq![way] + rest, p3)),
            },
        }
    }
}

/// Decodes one single-delta coordinate sub-block: the first node is
/// absolute and heads the coordinate list; each further node is a signed
/// delta pair added to the running position.
fn decode_way_nodes_single_delta(reader: &mut Reader, num_way_nodes: u64) -> (r: Result<
    WayCoordinateBlock,
    MapforgeError,
>)
    ensures
        final(reader).data@ == old(reader).data@,
        match spec_parse_nodes(old(reader).data@, old(reader).pos as int, num_way_nodes as nat, false) {
            Ok((b, p2)) => r matches Ok(x) && x@ == b && final(reader).pos == p2,
            Err(e) => r == Err::<WayCoordinateBlock, MapforgeError>(e),
        },
{
    let ghost s = reader.data@;
    let lat0 = match read_vbe_s_int(reader) {
        Ok(v) => v,
        Err(e) => {
            return Err(e);
        },
    };
    let lon0 = match read_vbe_s_int(reader) {
        Ok(v) => v,
        Err(e) => {
            return Err(e);
        },
    };
    let init = LatLong { latitude: lat0, longitude: lon0 };
    let ghost p_init = reader.pos as int;
    let rem: u64 = if num_way_nodes == 0 {
        0
    } else {
        num_way_nodes - 1
    };
    let mut coords: Vec<LatLong> = Vec::new();
    coords.push(init);
    let mut lat: i64 = lat0;
    let mut lon: i64 = lon0;
    let mut j: u64 = 0;
    proof {
        assert(coords@.subrange(1, coords@.len() as int) =~= Seq::<LatLong>::empty());
    }
    while j < rem
        invariant
            j <= rem,
            old(reader).data@ == s,
            reader.data@ == s,
            coords@.len() == 1 + j,
            coords@[0] == init,
            init == (LatLong { latitude: lat0, longitude: lon0 }),
            spec_parse_nodes(s, old(reader).pos as int, num_way_nodes as nat, false) == (
            match spec_parse_nodes_single(s, p_init, rem as nat, lat0 as int, lon0 as int) {
                Ok((coords2, pe)) => Ok::<(WayCoordinateBlockV, int), MapforgeError>(
                    (
                        WayCoordinateBlockV {
                            initial_position: init,
                            coordinates: seq![init] + coords2,
                        },
                        pe,
                    ),
                ),
                Err(e) => Err::<(WayCoordinateBlockV, int), MapforgeError>(e),
            }),
            spec_parse_nodes_single(s, p_init, rem as nat, lat0 as int, lon0 as int) == (
            match spec_parse_nodes_single(
                s,
                reader.pos as int,
                (rem - j) as nat,
                lat as int,
                lon as int,
            ) {
                Ok((rest, pe)) => Ok::<(Seq<LatLong>, int), MapforgeError>(
                    (coords@.subrange(1, coords@.len() as int) + rest, pe),
                ),
                Err(e) => Err::<(Seq<LatLong>, int), MapforgeError>(e),
            }),
        decreases rem - j,
    {
        let ghost coords_before = coords@;
        let dlat = match read_vbe_s_int(reader) {
            Ok(v) => v,
            Err(e) => {
                return Err(e);
            },
        };
        let dlon = match read_vbe_s_int(reader) {
            Ok(v) => v,
            Err(e) => {
                return Err(e);
            },
        };
        let nlat = match lat.checked_add(dlat) {
            Some(v) => v,
            None => {
                return Err(MapforgeError::NumericOverflow);
            },
        };
        let nlon = match lon.checked_add(dlon) {
            Some(v) => v,
            None => {
                return Err(MapforgeError::NumericOverflow);
            },
        };
        let node = LatLong { latitude: nlat, longitude: nlon };
        coords.push(node);
        proof {
            assert(coords@.subrange(1, coords@.len() as int) =~= coords_before.subrange(
                1,
                coords_before.len() as int,
            ) + seq![node]);
            match spec_parse_nodes_single(
                s,
                reader.pos as int,
                (rem - j - 1) as nat,
                nlat as int,
                nlon as int,
            ) {
                Ok((rest, pe)) => {
                    assert(coords_before.subrange(1, coords_before.len() as int) + (seq![node]
                        + rest) =~= coords@.subrange(1, coords@.len() as int) + rest);
                },
                Err(_) => {},
            }
        }
        lat = nlat;
        lon = nlon;
        j = j + 1;
    }
    proof {
        match spec_parse_nodes_single(s, reader.pos as int, 0, lat as int, lon as int) {
            Ok((rest, pe)) => {
                assert(coords@.subrange(1, coords@.len() as int) + rest =~= coords@.subrange(
                    1,
                    coords@.len() as int,
                ));
            },
            Err(_) => {},
        }
        match spec_parse_nodes(s, old(reader).pos as int, num_way_nodes as nat, false) {
            Ok((b, p2)) => {
                assert(seq![init] + coords@.subrange(1, coords@.len() as int) =~= coords@);
            },
            Err(_) => {},
        }
    }
    Ok(WayCoordinateBlock { initial_position: init, coordinates: coords })
}

/// Decodes one double-delta coordinate sub-block: the first node is
/// absolute; each further pair is a delta of deltas, applied through the
/// running single delta, the longitude corrected by the date-line clamp.
fn decode_way_nodes_double_delta(reader: &mut Reader, num_way_nodes: u64) -> (r: Result<
    WayCoordinateBlock,
    MapforgeError,
>)
    ensures
        final(reader).data@ == old(reader).data@,
        match spec_parse_nodes(old(reader).data@, old(reader).pos as int, num_way_nodes as nat, true) {
            Ok((b, p2)) => r matches Ok(x) && x@ == b && final(reader).pos == p2,
            Err(e) => r == Err::<WayCoordinateBlock, MapforgeError>(e),
        },
{
    let ghost s = reader.data@;
    let lat0 = match read_vbe_s_int(reader) {
        Ok(v) => v,
        Err(e) => {
            return Err(e);
        },
    };
    let lon0 = match read_vbe_s_int(reader) {
        Ok(v) => v,
        Err(e) => {
            return Err(e);
        },
    };
    let init = LatLong { latitude: lat0, longitude: lon0 };
    let ghost p_init = reader.pos as int;
    let rem: u64 = if num_way_nodes == 0 {
        0
    } else {
        num_way_nodes - 1
    };
    let mut coords: Vec<LatLong> = Vec::new();
    let mut lat: i64 = lat0;
    let mut lon: i64 = lon0;
    let mut sdlat: i64 = 0;
    let mut sdlon: i64 = 0;
    let mut j: u64 = 0;
    proof {
        assert(coords@ =~= Seq::<LatLong>::empty());
    }
    while j < rem
        invariant
            j <= rem,
            old(reader).data@ == s,
            reader.data@ == s,
            init == (LatLong { latitude: lat0, longitude: lon0 }),
            spec_parse_nodes(s, old(reader).pos as int, num_way_nodes as nat, true) == (
            match spec_parse_nodes_double(s, p_init, rem as nat, lat0 as int, lon0 as int, 0, 0) {
                Ok((coords2, pe)) => Ok::<(WayCoordinateBlockV, int), MapforgeError>(
                    (WayCoordinateBlockV { initial_position: init, coordinates: coords2 }, pe),
                ),
                Err(e) => Err::<(WayCoordinateBlockV, int), MapforgeError>(e),
            }),
            spec_parse_nodes_double(s, p_init, rem as nat, lat0 as int, lon0 as int, 0, 0) == (
            match spec_parse_nodes_double(
                s,
                reader.pos as int,
                (rem - j) as nat,
                lat as int,
                lon as int,
                sdlat as int,
                sdlon as int,
            ) {
                Ok((rest, pe)) => Ok::<(Seq<LatLong>, int), MapforgeError>((coords@ + rest, pe)),
                Err(e) => Err::<(Seq<LatLong>, int), MapforgeError>(e),
            }),
        decreases rem - j,
    {
        let ghost coords_before = coords@;
        let ddlat = match read_vbe_s_int(reader) {
            Ok(v) => v,
            Err(e) => {
                return Err(e);
            },
        };
        let ddlon = match read_vbe_s_int(reader) {
            Ok(v) => v,
            Err(e) => {
                return Err(e);
            },
        };
        let nsdlat = match sdlat.checked_add(ddlat) {
            Some(v) => v,
            None => {
                return Err(MapforgeError::NumericOverflow);
            },
        };
        let nsdlon = match sdlon.checked_add(ddlon) {
            Some(v) => v,
            None => {
                return Err(MapforgeError::NumericOverflow);
            },
        };
        let nlat = match lat.checked_add(nsdlat) {
            Some(v) => v,
            None => {
                return Err(MapforgeError::NumericOverflow);
            },
        };
        let nlon0 = match lon.checked_add(nsdlon) {
            Some(v) => v,
            None => {
                return Err(MapforgeError::NumericOverflow);
            },
        };
        let nlon = clamp_longitude(nlon0);
        let node = LatLong { latitude: nlat, longitude: nlon };
        coords.push(node);
        proof {
            assert(coords@ =~= coords_before + seq![node]);
            match spec_parse_nodes_double(
                s,
                reader.pos as int,
                (rem - j - 1) as nat,
                nlat as int,
                nlon as int,
                nsdlat as int,
                nsdlon as int,
            ) {
                Ok((rest, pe)) => {
                    assert(coords_before + (seq![node] + rest) =~= coords@ + rest);
                },
                Err(_) => {},
            }
        }
        lat = nlat;
        lon = nlon;
        sdlat = nsdlat;
        sdlon = nsdlon;
        j = j + 1;
    }
    proof {
        match spec_parse_nodes_double(
            s,
            reader.pos as int,
            0,
            lat as int,
            lon as int,
            sdlat as int,
            sdlon as int,
        ) {
            Ok((rest, pe)) => {
                assert(coords@ + rest =~= coords@);
            },
            Err(_) => {},
        }
    }
    Ok(WayCoordinateBlock { initial_position: init, coordinates: coords })
}

/// Reads `m` coordinate sub-blocks of `nn` nodes each.
fn read_subblocks(reader: &mut Reader, m: u64, nn: u64, double: bool) -> (r: Result<
    Vec<WayCoordinateBlock>,
    MapforgeError,
>)
    ensures
        final(reader).data@ == old(reader).data@,
        match spec_parse_subblocks(
            old(reader).data@,
            old(reader).pos as int,
            m as nat,
            nn as nat,
            double,
        ) {
            Ok((l, p2)) => r matches Ok(v) && blocks_view(v@) == l && final(reader).pos == p2,
            Err(e) => r == Err::<Vec<WayCoordinateBlock>, MapforgeError>(e),
        },
{
    let ghost s = reader.data@;
    let ghost p0 = reader.pos as int;
    let mut out: Vec<WayCoordinateBlock> = Vec::new();
    let mut j: u64 = 0;
    proof {
        assert(blocks_view(out@) =~= Seq::<WayCoordinateBlockV>::empty());
    }
    while j < m
        invariant
            j <= m,
            old(reader).data@ == s,
            old(reader).pos == p0,
            reader.data@ == s,
            spec_parse_subblocks(s, p0, m as nat, nn as nat, double) == (
            match spec_parse_subblocks(s, reader.pos as int, (m - j) as nat, nn as nat, double) {
                Ok((rest, pe)) => Ok::<(Seq<WayCoordinateBlockV>, int), MapforgeError>(
                    (blocks_view(out@) + rest, pe),
                ),
                Err(e) => Err::<(Seq<WayCoordinateBlockV>, int), MapforgeError>(e),
            }),
        decreases m - j,
    {
        let ghost out_before = out@;
        let blk = if double {
            match decode_way_nodes_double_delta(reader, nn) {
                Ok(b) => b,
                Err(e) => {
                    return Err(e);
                },
            }
        } else {
            match decode_way_nodes_single_delta(reader, nn) {
                Ok(b) => b,
                Err(e) => {
                    return Err(e);
                },
            }
        };
        out.push(blk);
        proof {
            assert(blocks_view(out@) =~= blocks_view(out_before) + seq![blk@]);
            match spec_parse_subblocks(
                s,
                reader.pos as int,
                (m - j - 1) as nat,
                nn as nat,
                double,
            ) {
                Ok((rest, pe)) => {
                    assert(blocks_view(out_before) + (seq![blk@] + rest) =~= blocks_view(out@)
                        + rest);
                },
                Err(_) => {},
            }
        }
        j = j + 1;
    }
    proof {
        match spec_parse_subblocks(s, reader.pos as int, 0, nn as nat, double) {
            Ok((rest, pe)) => {
                assert(blocks_view(out@) + rest =~= blocks_view(out@));
            },
            Err(_) => {},
        }
    }
    Ok(out)
}

/// Reads `nb` coordinate data blocks.
fn read_data_blocks(reader: &mut Reader, nb: u64, double: bool) -> (r: Result<
    Vec<WayCoordinateBlock>,
    MapforgeError,
>)
    ensures
        final(reader).data@ == old(reader).data@,
        match spec_parse_data_blocks(old(reader).data@, old(reader).pos as int, nb as nat, double) {
            Ok((l, p2)) => r matches Ok(v) && blocks_view(v@) == l && final(reader).pos == p2,
            Err(e) => r == Err::<Vec<WayCoordinateBlock>, MapforgeError>(e),
        },
{
    let ghost s = reader.data@;
    let ghost p0 = reader.pos as int;
    let mut out: Vec<WayCoordinateBlock> = Vec::new();
    let mut j: u64 = 0;
    proof {
        assert(blocks_view(out@) =~= Seq::<WayCoordinateBlockV>::empty());
    }
    while j < nb
        invariant
            j <= nb,
            old(reader).data@ == s,
            old(reader).pos == p0,
            reader.data@ == s,
            spec_parse_data_blocks(s, p0, nb as nat, double) == (match spec_parse_data_blocks(
                s,
                reader.pos as int,
                (nb - j) as nat,
                double,
            ) {
                Ok((rest, pe)) => Ok::<(Seq<WayCoordinateBlockV>, int), MapforgeError>(
                    (blocks_view(out@) + rest, pe),
                ),
                Err(e) => Err::<(Seq<WayCoordinateBlockV>, int), MapforgeError>(e),
            }),
        decreases nb - j,
    {
        let ghost out_before = out@;
        let num_way_coordinates = match read_vbe_u_int(reader) {
            Ok(v) => v,
            Err(e) => {
                return Err(e);
            },
        };
        if num_way_coordinates > 0 {
            let num_way_nodes = match read_vbe_u_int(reader) {
                Ok(v) => v,
                Err(e) => {
                    return Err(e);
                },
            };
            let mut sub = match read_subblocks(reader, num_way_coordinates, num_way_nodes, double) {
                Ok(v) => v,
                Err(e) => {
                    return Err(e);
                },
            };
            let ghost subv = sub@;
            out.append(&mut sub);
            proof {
                assert(blocks_view(out@) =~= blocks_view(out_before) + blocks_view(subv));
                match spec_parse_data_blocks(s, reader.pos as int, (nb - j - 1) as nat, double) {
                    Ok((rest, pe)) => {
                        assert(blocks_view(out_before) + (blocks_view(subv) + rest)
                            =~= blocks_view(out@) + rest);
                    },
                    Err(_) => {},
                }
            }
        }
        j = j + 1;
    }
    proof {
        match spec_parse_data_blocks(s, reader.pos as int, 0, double) {
            Ok((rest, pe)) => {
                assert(blocks_view(out@) + rest =~= blocks_view(out@));
            },
            Err(_) => {},
        }
    }
    Ok(out)
}

/// Reads one way record.
#[verifier::rlimit(100)]
fn read_way(reader: &mut Reader, way_tags: &Vec<String>, debug: bool) -> (r: Result<
    Way,
    MapforgeError,
>)
    ensures
        final(reader).data@ == old(reader).data@,
        match spec_parse_way(
            old(reader).data@,
            old(reader).pos as int,
            strings_view(way_tags@),
            debug,
        ) {
            Ok((wv, p2)) => r matches Ok(w) && w@ == wv && final(reader).pos == p2,
            Err(e) => r == Err::<Way, MapforgeError>(e),
        },
{
    let ghost s = reader.data@;
    let ghost dv = strings_view(way_tags@);
    match skip_debug_signature(reader, debug) {
        Ok(()) => {},
        Err(e) => {
            return Err(e);
        },
    }
    let _way_data_size: u64 = match read_vbe_u_int(reader) {
        Ok(v) => v,
        Err(e) => {
            return Err(e);
        },
    };
    let sub_tile_bitmap = match reader.read_u16_be() {
        Ok(v) => v,
        Err(e) => {
            return Err(e);
        },
    };
    let special_byte = match reader.read_u8() {
        Ok(b) => b,
        Err(e) => {
            return Err(e);
        },
    };
    proof {
        assert((special_byte & 0xf0) >> 4 < 16) by (bit_vector);
    }
    let nibble = (special_byte & 0xf0) >> 4;
    let layer: i8 = if nibble < 8 {
        nibble as i8
    } else {
        (nibble as i8) - 16
    };
    let number_of_tags = special_byte & 0x0f;
    let (tag_ids, mut tags) = match read_tag_ids(reader, number_of_tags, way_tags) {
        Ok(x) => x,
        Err(e) => {
            return Err(e);
        },
    };
    let flags = match reader.read_u8() {
        Ok(b) => b,
        Err(e) => {
            return Err(e);
        },
    };
    let ghost tags0v = tags_view(tags@);
    let name_opt = match read_opt_string(reader, flags & 0x80 != 0) {
        Ok(o) => o,
        Err(e) => {
            return Err(e);
        },
    };
    match &name_opt {
        Some(nm) => {
            let tag = crate::types::Tag::new("name", nm.as_str());
            tags.push(tag);
            proof {
                assert(tags_view(tags@) =~= tags0v + seq![tag@]);
            }
        },
        None => {},
    }
    let ghost tags1v = tags_view(tags@);
    let house_opt = match read_opt_string(reader, flags & 0x40 != 0) {
        Ok(o) => o,
        Err(e) => {
            return Err(e);
        },
    };
    match &house_opt {
        Some(hn) => {
            let tag = crate::types::Tag::new("addr:housenumber", hn.as_str());
            tags.push(tag);
            proof {
                assert(tags_view(tags@) =~= tags1v + seq![tag@]);
            }
        },
        None => {},
    }
    let ghost tags2v = tags_view(tags@);
    let ref_opt = match read_opt_string(reader, flags & 0x20 != 0) {
        Ok(o) => o,
        Err(e) => {
            return Err(e);
        },
    };
    match &ref_opt {
        Some(rf) => {
            let tag = crate::types::Tag::new("ref", rf.as_str());
            tags.push(tag);
            proof {
                assert(tags_view(tags@) =~= tags2v + seq![tag@]);
            }
        },
        None => {},
    }
    let label_position = match read_opt_vbe_latlong(reader, flags & 0x10 != 0) {
        Ok(o) => o,
        Err(e) => {
            return Err(e);
        },
    };
    let number_of_way_data_blocks: u64 = if flags & 0x08 != 0 {
        match read_vbe_u_int(reader) {
            Ok(v) => v,
            Err(e) => {
                return Err(e);
            },
        }
    } else {
        1
    };
    let double_delta_encoding = flags & 0x04 != 0;
    let coordinate_blocks = match read_data_blocks(
        reader,
        number_of_way_data_blocks,
        double_delta_encoding,
    ) {
        Ok(v) => v,
        Err(e) => {
            return Err(e);
        },
    };
    let way = Way {
        debug_signature: None,
        sub_tile_bitmap,
        layer,
        tag_ids,
        tags: Some(tags),
        name: None,
        house_number: None,
        reference: None,
        label_position,
        coordinate_blocks,
        double_delta_encoding,
    };
    proof {
        match spec_parse_way(s, old(reader).pos as int, dv, debug) {
            Ok((wv, pn)) => {
                assert(way@ =~= wv);
            },
            Err(_) => {},
        }
    }
    Ok(way)
}

/// Reads `ways_on_query_zoomlevel` way records, resolving tags through the
/// way tag dictionary. Any malformed record aborts the whole read with its
/// error.
pub fn process_ways(
    reader: &mut Reader,
    ways_on_query_zoomlevel: u64,
    way_tags: &Vec<String>,
    debug: bool,
) -> (r: Result<Vec<Way>, MapforgeError>)
    ensures
        final(reader).data@ == old(reader).data@,
        match spec_parse_ways(
            old(reader).data@,
            old(reader).pos as int,
            ways_on_query_zoomlevel as nat,
            strings_view(way_tags@),
            debug,
        ) {
            Ok((l, p2)) => r matches Ok(v) && crate::types::ways_view(v@) == l
                && final(reader).pos == p2,
            Err(e) => r == Err::<Vec<Way>, MapforgeError>(e),
        },
{
    let ghost s = reader.data@;
    let ghost p0 = reader.pos as int;
    let ghost dv = strings_view(way_tags@);
    let mut ways: Vec<Way> = Vec::new();
    let mut i: u64 = 0;
    proof {
        assert(crate::types::ways_view(ways@) =~= Seq::<WayV>::empty());
    }
    while i < ways_on_query_zoomlevel
        invariant
            i <= ways_on_query_zoomlevel,
            old(reader).data@ == s,
            old(reader).pos == p0,
            reader.data@ == s,
            dv == strings_view(way_tags@),
            spec_parse_ways(s, p0, ways_on_query_zoomlevel as nat, dv, debug) == (
            match spec_parse_ways(
                s,
                reader.pos as int,
                (ways_on_query_zoomlevel - i) as nat,
                dv,
                debug,
            ) {
                Ok((rest, pe)) => Ok::<(Seq<WayV>, int), MapforgeError>(
                    (crate::types::ways_view(ways@) + rest, pe),
                ),
                Err(e) => Err::<(Seq<WayV>, int), MapforgeError>(e),
            }),
        decreases ways_on_query_zoomlevel - i,
    {
        let ghost ways_before = ways@;
        let way = match read_way(reader, way_tags, debug) {
            Ok(w) => w,
            Err(e) => {
                return Err(e);
            },
        };
        ways.push(way);
        proof {
            assert(crate::types::ways_view(ways@) =~= crate::types::ways_view(ways_before)
                + seq![way@]);
            match spec_parse_ways(
                s,
                reader.pos as int,
                (ways_on_query_zoomlevel - i - 1) as nat,
                dv,
                debug,
            ) {
                Ok((rest, pe)) => {
                    assert(crate::types::ways_view(ways_before) + (seq![way@] + rest)
                        =~= crate::types::ways_view(ways@) + rest);
                },
                Err(_) => {},
            }
        }
        i = i + 1;
    }
    proof {
        match spec_parse_ways(s, reader.pos as int, 0, dv, debug) {
            Ok((rest, pe)) => {
                assert(crate::types::ways_view(ways@) + rest =~= crate::types::ways_view(ways@));
            },
            Err(_) => {},
        }
    }
    Ok(ways)
}

/// Reads an optional pair of VBE-signed deltas, present only when `present`
/// holds.
fn read_opt_vbe_latlong(reader: &mut Reader, present: bool) -> (r: Result<
    Option<LatLong>,
    MapforgeError,
>)
    ensures
        final(reader).data@ == old(reader).data@,
        match spec_parse_opt_vbe_latlong(old(reader).data@, old(reader).pos as int, present) {
            Ok((o, p2)) => r == Ok::<Option<LatLong>, MapforgeError>(o) && final(reader).pos == p2,
            Err(e) => r == Err::<Option<LatLong>, MapforgeError>(e),
        },
{
    if !present {
        return Ok(None);
    }
    let lat = match read_vbe_s_int(reader) {
        Ok(v) => v,
        Err(e) => {
            return Err(e);
        },
    };
    let lon = match read_vbe_s_int(reader) {
        Ok(v) => v,
        Err(e) => {
            return Err(e);
        },
    };
    Ok(Some(LatLong { latitude: lat, longitude: lon }))
}

} // verus!
