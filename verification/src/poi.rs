//! The POI decoder: per record an optional debug signature, a delta-coded
//! position, a flag byte carrying the layer and the tag count, and the tag
//! ids, resolved through the POI tag dictionary.

use crate::error::MapforgeError;
use crate::reader::{spec_read_bytes, spec_read_u8, Reader};
use crate::tag::spec_resolve_tag;
use crate::types::{pois_view, strings_view, tags_view, LatLong, PoiV, Tag, TagV, POI};
use crate::utils::{decode_poi_tag, read_vbe_s_int, read_vbe_u_int, spec_read_vbe_s,
    spec_read_vbe_u};
use vstd::prelude::*;

verus! {

/// The layer a record's flag byte names: its high nibble read as a 4-bit
/// two's-complement value, so every layer lies in -8..=7.
pub open spec fn spec_layer(b: u8) -> i8 {
    let nibble = (b & 0xf0) >> 4;
    if nibble < 8 {
        nibble as i8
    } else {
        (nibble - 16) as i8
    }
}

/// Law: a record's layer always lies in the signed 4-bit range -8..=7.
pub proof fn lemma_layer_range(b: u8)
    ensures
        -8 <= spec_layer(b) <= 7,
{
    assert((b & 0xf0) >> 4 < 16) by (bit_vector);
}

/// The tag count a record's flag byte names: its low nibble.
pub open spec fn spec_tag_count(b: u8) -> nat {
    (b & 0x0f) as nat
}

/// The position just past an optional 16-byte debug signature, present only
/// with debug information; its content is not interpreted.
pub open spec fn spec_skip_debug(s: Seq<u8>, p: int, debug: bool) -> Result<int, MapforgeError> {
    if !debug {
        Ok(p)
    } else {
        match spec_read_bytes(s, p, 16) {
            Err(e) => Err(e),
            Ok((sig, p2)) => Ok(p2),
        }
    }
}

/// `t` VBE tag ids, each required to fall inside the dictionary and
/// resolved to its tag; an id at or past the dictionary's length fails with
/// `TagIndexOutOfRange` naming the id and the length.
pub open spec fn spec_parse_tag_ids(s: Seq<u8>, p: int, t: nat, dict: Seq<Seq<char>>) -> Result<
    ((Seq<usize>, Seq<TagV>), int),
    MapforgeError,
>
    decreases t,
{
    if t == 0 {
        Ok(((Seq::empty(), Seq::empty()), p))
    } else {
        match spec_read_vbe_u(s, p) {
            Err(e) => Err(e),
            Ok((id, p2)) => if id >= dict.len() {
                Err(MapforgeError::TagIndexOutOfRange(id as u64, dict.len() as usize))
            } else {
                match spec_parse_tag_ids(s, p2, (t - 1) as nat, dict) {
                    Err(e) => Err(e),
                    Ok(((ids, tags), p3)) => Ok(
                        (
                            (
                                seq![id as usize] + ids,
                                seq![spec_resolve_tag(dict[id as int])] + tags,
                            ),
                            p3,
                        ),
                    ),
                }
            },
        }
    }
}


/// One POI record: position deltas, the layer/tag-count byte, and the
/// resolved tags.
pub open spec fn spec_parse_poi(s: Seq<u8>, p: int, dict: Seq<Seq<char>>, debug: bool) -> Result<
    (PoiV, int),
    MapforgeError,
> {
    match spec_skip_debug(s, p, debug) {
        Err(e) => Err(e),
        Ok(p) => match spec_read_vbe_s(s, p) {
            Err(e) => Err(e),
            Ok((lat, p)) => match spec_read_vbe_s(s, p) {
                Err(e) => Err(e),
                Ok((lon, p)) => match spec_read_u8(s, p) {
                    Err(e) => Err(e),
                    Ok((special, p)) => match spec_parse_tag_ids(
                        s,
                        p,
                        spec_tag_count(special),
                        dict,
                    ) {
                        Err(e) => Err(e),
                        Ok(((ids, tags), p)) => Ok(
                            (
                                PoiV {
                                    debug_signature: None,
                                    position_offset: LatLong {
                                        latitude: lat as i64,
                                        longitude: lon as i64,
                                    },
                                    layer: spec_layer(special),
                                    tag_ids: ids,
                                    tags: Some(tags),
                                    name: None,
                                    house_number: None,
                                    elevation: None,
                                },
                                p,
                            ),
                        ),
                    },
                },
            },
        },
    }
}

/// `n` consecutive POI records.
pub open spec fn spec_parse_pois(
    s: Seq<u8>,
    p: int,
    n: nat,
    dict: Seq<Seq<char>>,
    debug: bool,
) -> Result<(Seq<PoiV>, int), MapforgeError>
    decreases n,
{
    if n == 0 {
        Ok((Seq::empty(), p))
    } else {
        match spec_parse_poi(s, p, dict, debug) {
            Err(e) => Err(e),
            Ok((poi, p2)) => match spec_parse_pois(s, p2, (n - 1) as nat, dict, debug) {
                Err(e) => Err(e),
                Ok((rest, p3)) => Ok((seq![poi] + rest, p3)),
            },
        }
    }
}

/// Reads `count` VBE tag ids, resolving each through the dictionary.
pub(crate) fn read_tag_ids(reader: &mut Reader, count: u8, dict: &Vec<String>) -> (r: Result<
    (Vec<usize>, Vec<Tag>),
    MapforgeError,
>)
    ensures
        final(reader).data@ == old(reader).data@,
        match spec_parse_tag_ids(
            old(reader).data@,
            old(reader).pos as int,
            count as nat,
            strings_view(dict@),
        ) {
            Ok(((ids, tags), p2)) => r matches Ok(x) && x.0@ == ids && tags_view(x.1@) == tags
                && final(reader).pos == p2,
            Err(e) => r == Err::<(Vec<usize>, Vec<Tag>), MapforgeError>(e),
        },
{
    let ghost s = reader.data@;
    let ghost p0 = reader.pos as int;
    let ghost dv = strings_view(dict@);
    let mut ids: Vec<usize> = Vec::new();
    let mut tags: Vec<Tag> = Vec::new();
    let mut i: u8 = 0;
    proof {
        assert(ids@ =~= Seq::<usize>::empty());
        assert(tags_view(tags@) =~= Seq::<TagV>::empty());
    }
    while i < count
        invariant
            i <= count,
            old(reader).data@ == s,
            old(reader).pos == p0,
            reader.data@ == s,
            dv == strings_view(dict@),
            spec_parse_tag_ids(s, p0, count as nat, dv) == (match spec_parse_tag_ids(
                s,
                reader.pos as int,
                (count - i) as nat,
                dv,
            ) {
                Ok(((rids, rtags), pe)) => Ok::<((Seq<usize>, Seq<TagV>), int), MapforgeError>(
                    ((ids@ + rids, tags_view(tags@) + rtags), pe),
                ),
                Err(e) => Err::<((Seq<usize>, Seq<TagV>), int), MapforgeError>(e),
            }),
        decreases count - i,
    {
        let ghost ids_before = ids@;
        let ghost tags_before = tags@;
        let id = match read_vbe_u_int(reader) {
            Ok(v) => v,
            Err(e) => {
                return Err(e);
            },
        };
        let tag = match decode_poi_tag(dict, id) {
            Ok(t) => t,
            Err(e) => {
                return Err(e);
            },
        };
        ids.push(id as usize);
        tags.push(tag);
        proof {
            assert(ids@ =~= ids_before + seq![id as usize]);
            assert(tags_view(tags@) =~= tags_view(tags_before) + seq![tag@]);
            match spec_parse_tag_ids(s, reader.pos as int, (count - i - 1) as nat, dv) {
                Ok(((rids, rtags), pe)) => {
                    assert(ids_before + (seq![id as usize] + rids) =~= ids@ + rids);
                    assert(tags_view(tags_before) + (seq![tag@] + rtags) =~= tags_view(tags@)
                        + rtags);
                },
                Err(_) => {},
            }
        }
        i = i + 1;
    }
    proof {
        match spec_parse_tag_ids(s, reader.pos as int, 0, dv) {
            Ok(((rids, rtags), pe)) => {
                assert(ids@ + rids =~= ids@);
                assert(tags_view(tags@) + rtags =~= tags_view(tags@));
            },
            Err(_) => {},
        }
    }
    Ok((ids, tags))
}

/// Skips an optional 16-byte debug signature.
pub(crate) fn skip_debug_signature(reader: &mut Reader, debug: bool) -> (r: Result<
    (),
    MapforgeError,
>)
    ensures
        final(reader).data@ == old(reader).data@,
        match spec_skip_debug(old(reader).data@, old(reader).pos as int, debug) {
            Ok(p2) => r == Ok::<(), MapforgeError>(()) && final(reader).pos == p2,
            Err(e) => r == Err::<(), MapforgeError>(e),
        },
{
    if !debug {
        return Ok(());
    }
    match reader.read_bytes(16) {
        Ok(_) => Ok(()),
        Err(e) => Err(e),
    }
}

/// Reads `pois_on_query_zoomlevel` POI records, resolving tags through the
/// POI tag dictionary. Any malformed record aborts the whole read with its
/// error; an out-of-range tag id yields `TagIndexOutOfRange`, never a
/// crash.
pub fn process_pois(
    reader: &mut Reader,
    pois_on_query_zoomlevel: u64,
    poi_tags: &Vec<String>,
    debug: bool,
) -> (r: Result<Vec<POI>, MapforgeError>)
    ensures
        final(reader).data@ == old(reader).data@,
        match spec_parse_pois(
            old(reader).data@,
            old(reader).pos as int,
            pois_on_query_zoomlevel as nat,
            strings_view(poi_tags@),
            debug,
        ) {
            Ok((l, p2)) => r matches Ok(v) && pois_view(v@) == l && final(reader).pos == p2,
            Err(e) => r == Err::<Vec<POI>, MapforgeError>(e),
        },
{
    let ghost s = reader.data@;
    let ghost p0 = reader.pos as int;
    let ghost dv = strings_view(poi_tags@);
    let mut pois: Vec<POI> = Vec::new();
    let mut i: u64 = 0;
    proof {
        assert(pois_view(pois@) =~= Seq::<PoiV>::empty());
    }
    while i < pois_on_query_zoomlevel
        invariant
            i <= pois_on_query_zoomlevel,
            old(reader).data@ == s,
            old(reader).pos == p0,
            reader.data@ == s,
            dv == strings_view(poi_tags@),
            spec_parse_pois(s, p0, pois_on_query_zoomlevel as nat, dv, debug) == (
            match spec_parse_pois(
                s,
                reader.pos as int,
                (pois_on_query_zoomlevel - i) as nat,
                dv,
                debug,
            ) {
                Ok((rest, pe)) => Ok::<(Seq<PoiV>, int), MapforgeError>(
                    (pois_view(pois@) + rest, pe),
                ),
                Err(e) => Err::<(Seq<PoiV>, int), MapforgeError>(e),
            }),
        decreases pois_on_query_zoomlevel - i,
    {
        let ghost pois_before = pois@;
        let ghost pos_start = reader.pos as int;
        match skip_debug_signature(reader, debug) {
            Ok(()) => {},
            Err(e) => {
                return Err(e);
            },
        }
        let lat = match read_vbe_s_int(reader) {
            Ok(v) => v,
            Err(e) => {
                return Err(e);
            },
        };
        let lon = match read_vbe_s_int(reader) {
            Ok(v) => v,
            Err(e) => {
                return Err(e);
            },
        };
        let special_byte = match reader.read_u8() {
            Ok(b) => b,
            Err(e) => {
                return Err(e);
            },
        };
        proof {
            assert((special_byte & 0xf0) >> 4 < 16) by (bit_vector);
        }
        let nibble = (special_byte & 0xf0) >> 4;
        let layer: i8 = if nibble < 8 {
            nibble as i8
        } else {
            (nibble as i8) - 16
        };
        let number_of_tags = special_byte & 0x0f;
        let (tag_ids, tags) = match read_tag_ids(reader, number_of_tags, poi_tags) {
            Ok(x) => x,
            Err(e) => {
                return Err(e);
            },
        };
        let poi = POI {
            debug_signature: None,
            position_offset: LatLong { latitude: lat, longitude: lon },
            layer,
            tag_ids,
            tags: Some(tags),
            name: None,
            house_number: None,
            elevation: None,
        };
        pois.push(poi);
        proof {
            assert(pois_view(pois@) =~= pois_view(pois_before) + seq![poi@]);
            match spec_parse_poi(s, pos_start, dv, debug) {
                Ok((pv, pn)) => {
                    assert(poi@ =~= pv);
                },
                Err(_) => {},
            }
            match spec_parse_pois(
                s,
                reader.pos as int,
                (pois_on_query_zoomlevel - i - 1) as nat,
                dv,
                debug,
            ) {
                Ok((rest, pe)) => {
                    assert(pois_view(pois_before) + (seq![poi@] + rest) =~= pois_view(pois@)
                        + rest);
                },
                Err(_) => {},
            }
        }
        i = i + 1;
    }
    proof {
        match spec_parse_pois(s, reader.pos as int, 0, dv, debug) {
            Ok((rest, pe)) => {
                assert(pois_view(pois@) + rest =~= pois_view(pois@));
            },
            Err(_) => {},
        }
    }
    Ok(pois)
}

} // verus!
