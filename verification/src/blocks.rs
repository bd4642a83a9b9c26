//! Per-tile data blocks: the zoom table heading each block, and the block
//! decoder that combines it with the POI and way decoders.

use crate::error::MapforgeError;
use crate::poi::{spec_parse_pois, spec_skip_debug, skip_debug_signature};
use crate::reader::Reader;
use crate::types::{strings_view, Tile, TileV, ZoomInterval};
use crate::utils::{read_vbe_u_int, spec_read_vbe_u};
use crate::way::spec_parse_ways;
use vstd::prelude::*;

verus! {

/// How many zoom levels an interval spans: from its minimum to its maximum
/// level inclusive, and none when the two are out of order.
pub open spec fn spec_zoom_levels(zi: ZoomInterval) -> nat {
    if zi.min_zoom_level <= zi.max_zoom_level {
        (zi.max_zoom_level - zi.min_zoom_level + 1) as nat
    } else {
        0
    }
}

/// `k` pairs of VBE unsigned integers: a POI count and a way count per zoom
/// level, in ascending level order.
pub open spec fn spec_parse_zoom_table(s: Seq<u8>, p: int, k: nat) -> Result<
    (Seq<(u64, u64)>, int),
    MapforgeError,
>
    decreases k,
{
    if k == 0 {
        Ok((Seq::empty(), p))
    } else {
        match spec_read_vbe_u(s, p) {
            Err(e) => Err(e),
            Ok((pois, p1)) => match spec_read_vbe_u(s, p1) {
                Err(e) => Err(e),
                Ok((ways, p2)) => match spec_parse_zoom_table(s, p2, (k - 1) as nat) {
                    Err(e) => Err(e),
                    Ok((rest, p3)) => Ok((seq![(pois as u64, ways as u64)] + rest, p3)),
                },
            },
        }
    }
}

/// The POI and way counts the zoom table gives for a queried zoom level,
/// clamped into the interval's range; an empty table yields no records.
pub open spec fn spec_zoom_counts(table: Seq<(u64, u64)>, min_zoom: u8, query: u8) -> (u64, u64) {
    if table.len() == 0 {
        (0u64, 0u64)
    } else {
        let i: int = if query <= min_zoom {
            0
        } else if query - min_zoom >= table.len() {
            table.len() - 1
        } else {
            query - min_zoom
        };
        table[i]
    }
}

/// One whole tile data block: an optional debug signature, the zoom table,
/// the first-way offset, then the POI and way records the table's counts
/// announce for the queried zoom level.
pub open spec fn spec_parse_block(
    s: Seq<u8>,
    p: int,
    zi: ZoomInterval,
    query_zoom: u8,
    poi_dict: Seq<Seq<char>>,
    way_dict: Seq<Seq<char>>,
    debug: bool,
) -> Result<(TileV, int), MapforgeError> {
    match spec_skip_debug(s, p, debug) {
        Err(e) => Err(e),
        Ok(p) => match spec_parse_zoom_table(s, p, spec_zoom_levels(zi)) {
            Err(e) => Err(e),
            Ok((table, p)) => match spec_read_vbe_u(s, p) {
                Err(e) => Err(e),
                Ok((fwo, p)) => {
                    let counts = spec_zoom_counts(table, zi.min_zoom_level, query_zoom);
                    match spec_parse_pois(s, p, counts.0 as nat, poi_dict, debug) {
                        Err(e) => Err(e),
                        Ok((pois, p)) => match spec_parse_ways(
                            s,
                            p,
                            counts.1 as nat,
                            way_dict,
                            debug,
                        ) {
                            Err(e) => Err(e),
                            Ok((ways, p)) => Ok(
                                (
                                    TileV {
                                        debug_signature: None,
                                        zoom_table: table,
                                        first_way_offset: fwo as u64,
                                        pois,
                                        ways,
                                    },
                                    p,
                                ),
                            ),
                        },
                    }
                },
            },
        },
    }
}

/// Reads one (POI count, way count) pair per zoom level of the interval,
/// from its minimum to its maximum level inclusive.
pub fn read_zoom_table(reader: &mut Reader, zoom_interval: &ZoomInterval) -> (r: Result<
    Vec<(u64, u64)>,
    MapforgeError,
>)
    ensures
        final(reader).data@ == old(reader).data@,
        match spec_parse_zoom_table(
            old(reader).data@,
            old(reader).pos as int,
            spec_zoom_levels(*zoom_interval),
        ) {
            Ok((l, p2)) => r matches Ok(v) && v@ == l && v@.len() == spec_zoom_levels(
                *zoom_interval,
            ) && final(reader).pos == p2,
            Err(e) => r == Err::<Vec<(u64, u64)>, MapforgeError>(e),
        },
{
    let ghost s = reader.data@;
    let ghost p0 = reader.pos as int;
    let k: u16 = if zoom_interval.min_zoom_level <= zoom_interval.max_zoom_level {
        (zoom_interval.max_zoom_level - zoom_interval.min_zoom_level) as u16 + 1
    } else {
        0
    };
    let ghost kk = spec_zoom_levels(*zoom_interval);
    let mut out: Vec<(u64, u64)> = Vec::new();
    let mut i: u16 = 0;
    proof {
        assert(out@ =~= Seq::<(u64, u64)>::empty());
    }
    while i < k
        invariant
            i <= k,
            k == kk,
            kk == spec_zoom_levels(*zoom_interval),
            old(reader).data@ == s,
            old(reader).pos == p0,
            reader.data@ == s,
            out@.len() == i as nat,
            spec_parse_zoom_table(s, p0, kk) == (match spec_parse_zoom_table(
                s,
                reader.pos as int,
                (k - i) as nat,
            ) {
                Ok((rest, pe)) => Ok::<(Seq<(u64, u64)>, int), MapforgeError>((out@ + rest, pe)),
                Err(e) => Err::<(Seq<(u64, u64)>, int), MapforgeError>(e),
            }),
        decreases k - i,
    {
        let ghost out_before = out@;
        let pois = match read_vbe_u_int(reader) {
            Ok(v) => v,
            Err(e) => {
                return Err(e);
            },
        };
        let ways = match read_vbe_u_int(reader) {
            Ok(v) => v,
            Err(e) => {
                return Err(e);
            },
        };
        let pair = (pois, ways);
        out.push(pair);
        proof {
            assert(out@ =~= out_before + seq![pair]);
            match spec_parse_zoom_table(s, reader.pos as int, (k - i - 1) as nat) {
                Ok((rest, pe)) => {
                    assert(out_before + (seq![pair] + rest) =~= out@ + rest);
                },
                Err(_) => {},
            }
        }
        i = i + 1;
    }
    proof {
        match spec_parse_zoom_table(s, reader.pos as int, 0) {
            Ok((rest, pe)) => {
                assert(out@ + rest =~= out@);
            },
            Err(_) => {},
        }
    }
    Ok(out)
}

/// Decodes one whole tile data block at the cursor: the optional debug
/// signature, the zoom table, the first-way offset, then the POI and way
/// records announced for the queried zoom level, which is clamped into the
/// interval's range.
pub fn process_poi_way_block(
    reader: &mut Reader,
    zoom_interval: &ZoomInterval,
    query_zoom: u8,
    poi_tags: &Vec<String>,
    way_tags: &Vec<String>,
    debug: bool,
) -> (r: Result<Tile, MapforgeError>)
    ensures
        final(reader).data@ == old(reader).data@,
        match spec_parse_block(
            old(reader).data@,
            old(reader).pos as int,
            *zoom_interval,
            query_zoom,
            strings_view(poi_tags@),
            strings_view(way_tags@),
            debug,
        ) {
            Ok((tv, p2)) => r matches Ok(t) && t@ == tv && final(reader).pos == p2,
            Err(e) => r == Err::<Tile, MapforgeError>(e),
        },
{
    let ghost s = reader.data@;
    match skip_debug_signature(reader, debug) {
        Ok(()) => {},
        Err(e) => {
            return Err(e);
        },
    }
    let zoom_table = match read_zoom_table(reader, zoom_interval) {
        Ok(t) => t,
        Err(e) => {
            return Err(e);
        },
    };
    let first_way_offset = match read_vbe_u_int(reader) {
        Ok(v) => v,
        Err(e) => {
            return Err(e);
        },
    };
    let (n_pois, n_ways): (u64, u64) = if zoom_table.len() == 0 {
        (0, 0)
    } else {
        let idx: usize = if query_zoom <= zoom_interval.min_zoom_level {
            0
        } else if (query_zoom - zoom_interval.min_zoom_level) as usize >= zoom_table.len() {
            zoom_table.len() - 1
        } else {
            (query_zoom - zoom_interval.min_zoom_level) as usize
        };
        let pair = zoom_table[idx];
        (pair.0, pair.1)
    };
    let pois = match crate::poi::process_pois(reader, n_pois, poi_tags, debug) {
        Ok(v) => v,
        Err(e) => {
            return Err(e);
        },
    };
    let ways = match crate::way::process_ways(reader, n_ways, way_tags, debug) {
        Ok(v) => v,
        Err(e) => {
            return Err(e);
        },
    };
    let tile = Tile { debug_signature: None, zoom_table, first_way_offset, pois, ways };
    proof {
        match spec_parse_block(
            s,
            old(reader).pos as int,
            *zoom_interval,
            query_zoom,
            strings_view(poi_tags@),
            strings_view(way_tags@),
            debug,
        ) {
            Ok((tv, pn)) => {
                assert(tile@ =~= tv);
            },
            Err(_) => {},
        }
    }
    Ok(tile)
}

} // verus!
