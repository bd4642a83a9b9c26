//! The header decoder: a strictly sequential parse of the fixed preamble,
//! the bounding box, the flag-gated optional section, the two tag-name
//! dictionaries and the zoom-interval table.

use crate::error::MapforgeError;
use crate::reader::{spec_read_be, spec_read_bytes, spec_read_u8, to_i32, Reader};
use crate::types::{
    opt_str_view, strings_view, BoundingBox, LatLong, MapHeader, MapHeaderV, ZoomInterval,
};
use crate::utils::{
    spec_read_vbe_string, spec_trim_spaces, str_eq, str_eq_trimmed, trim_end_idx, trim_start_idx,
    LATITUDE_MAX, LATITUDE_MIN, LONGITUDE_MAX, LONGITUDE_MIN,
};
use vstd::prelude::*;
use vstd::utf8::{decode_utf8, valid_utf8};

verus! {

/// The 20-character signature every map file begins with.
pub open spec fn spec_magic() -> Seq<char> {
    "mapsforge binary OSM"@
}

/// The lowest supported file version.
pub const MIN_SUPPORTED_VERSION: u32 = 3;

/// Flag bit: the file carries debug signatures.
pub const DEBUG_INFO_MASK: u8 = 0x80;

/// Flag bit: a map start position follows.
pub const MAP_START_POSITION_MASK: u8 = 0x40;

/// Flag bit: a start zoom level follows.
pub const START_ZOOM_LEVEL_MASK: u8 = 0x20;

/// Flag bit: a language preference string follows.
pub const LANGUAGE_PREFERENCE_MASK: u8 = 0x10;

/// Flag bit: a comment string follows.
pub const COMMENT_MASK: u8 = 0x08;

/// Flag bit: a created-by string follows.
pub const CREATED_BY_MASK: u8 = 0x04;

/// A bounding box is valid when every coordinate is in range and each
/// minimum is at or below its maximum.
pub open spec fn spec_bbox_valid(b: BoundingBox) -> bool {
    LATITUDE_MIN <= b.min_lat <= LATITUDE_MAX && LATITUDE_MIN <= b.max_lat <= LATITUDE_MAX
        && LONGITUDE_MIN <= b.min_lon <= LONGITUDE_MAX && LONGITUDE_MIN <= b.max_lon
        <= LONGITUDE_MAX && b.min_lat <= b.max_lat && b.min_lon <= b.max_lon
}

/// A big-endian `i32` field, as a mathematical integer.
pub open spec fn spec_read_i32(s: Seq<u8>, p: int) -> Result<(int, int), MapforgeError> {
    match spec_read_be(s, p, 4) {
        Ok((v, p2)) => Ok((to_i32(v), p2)),
        Err(e) => Err(e),
    }
}

/// Four big-endian `i32` microdegree fields in the order minimum latitude,
/// minimum longitude, maximum latitude, maximum longitude, rejected with
/// `InvalidBoundingBox` when the ranges or the ordering fail.
pub open spec fn spec_parse_bbox(s: Seq<u8>, p: int) -> Result<(BoundingBox, int), MapforgeError> {
    match spec_read_i32(s, p) {
        Err(e) => Err(e),
        Ok((min_lat, p)) => match spec_read_i32(s, p) {
            Err(e) => Err(e),
            Ok((min_lon, p)) => match spec_read_i32(s, p) {
                Err(e) => Err(e),
                Ok((max_lat, p)) => match spec_read_i32(s, p) {
                    Err(e) => Err(e),
                    Ok((max_lon, p)) => {
                        let b = BoundingBox {
                            min_lat: min_lat as i64,
                            min_lon: min_lon as i64,
                            max_lat: max_lat as i64,
                            max_lon: max_lon as i64,
                        };
                        if spec_bbox_valid(b) {
                            Ok((b, p))
                        } else {
                            Err(MapforgeError::InvalidBoundingBox)
                        }
                    },
                },
            },
        },
    }
}

/// An optional pair of microdegree coordinates, read only when its flag bit
/// was set.
pub open spec fn spec_parse_opt_latlong(s: Seq<u8>, p: int, present: bool) -> Result<
    (Option<LatLong>, int),
    MapforgeError,
> {
    if !present {
        Ok((None, p))
    } else {
        match spec_read_i32(s, p) {
            Err(e) => Err(e),
            Ok((lat, p2)) => match spec_read_i32(s, p2) {
                Err(e) => Err(e),
                Ok((lon, p3)) => Ok(
                    (Some(LatLong { latitude: lat as i64, longitude: lon as i64 }), p3),
                ),
            },
        }
    }
}

/// An optional single byte, read only when its flag bit was set.
pub open spec fn spec_parse_opt_u8(s: Seq<u8>, p: int, present: bool) -> Result<
    (Option<u8>, int),
    MapforgeError,
> {
    if !present {
        Ok((None, p))
    } else {
        match spec_read_u8(s, p) {
            Err(e) => Err(e),
            Ok((b, p2)) => Ok((Some(b), p2)),
        }
    }
}

/// An optional VBE string, read only when its flag bit was set.
pub open spec fn spec_parse_opt_string(s: Seq<u8>, p: int, present: bool) -> Result<
    (Option<Seq<char>>, int),
    MapforgeError,
> {
    if !present {
        Ok((None, p))
    } else {
        match spec_read_vbe_string(s, p) {
            Err(e) => Err(e),
            Ok((st, p2)) => Ok((Some(st), p2)),
        }
    }
}

/// `k` consecutive VBE strings.
pub open spec fn spec_parse_string_list(s: Seq<u8>, p: int, k: nat) -> Result<
    (Seq<Seq<char>>, int),
    MapforgeError,
>
    decreases k,
{
    if k == 0 {
        Ok((Seq::empty(), p))
    } else {
        match spec_read_vbe_string(s, p) {
            Err(e) => Err(e),
            Ok((st, p2)) => match spec_parse_string_list(s, p2, (k - 1) as nat) {
                Err(e) => Err(e),
                Ok((rest, p3)) => Ok((seq![st] + rest, p3)),
            },
        }
    }
}

/// One fixed 19-byte zoom-interval record: base, minimum and maximum zoom
/// levels, then the subfile's start and size.
pub open spec fn spec_parse_zoom_interval(s: Seq<u8>, p: int) -> Result<
    (ZoomInterval, int),
    MapforgeError,
> {
    match spec_read_u8(s, p) {
        Err(e) => Err(e),
        Ok((base, p)) => match spec_read_u8(s, p) {
            Err(e) => Err(e),
            Ok((min, p)) => match spec_read_u8(s, p) {
                Err(e) => Err(e),
                Ok((max, p)) => match spec_read_be(s, p, 8) {
                    Err(e) => Err(e),
                    Ok((start, p)) => match spec_read_be(s, p, 8) {
                        Err(e) => Err(e),
                        Ok((size, p)) => Ok(
                            (
                                ZoomInterval {
                                    base_zoom_level: base,
                                    min_zoom_level: min,
                                    max_zoom_level: max,
                                    sub_file_start: start as u64,
                                    sub_file_size: size as u64,
                                },
                                p,
                            ),
                        ),
                    },
                },
            },
        },
    }
}

/// `k` consecutive zoom-interval records.
pub open spec fn spec_parse_zoom_intervals(s: Seq<u8>, p: int, k: nat) -> Result<
    (Seq<ZoomInterval>, int),
    MapforgeError,
>
    decreases k,
{
    if k == 0 {
        Ok((Seq::empty(), p))
    } else {
        match spec_parse_zoom_interval(s, p) {
            Err(e) => Err(e),
            Ok((zi, p2)) => match spec_parse_zoom_intervals(s, p2, (k - 1) as nat) {
                Err(e) => Err(e),
                Ok((rest, p3)) => Ok((seq![zi] + rest, p3)),
            },
        }
    }
}

/// The whole header, parsed strictly in file order from position `p`:
/// magic, sizes and version, bounding box, tile size and projection, the
/// flags byte with its gated optional fields, both tag dictionaries, and
/// the zoom-interval table, followed by the final validity check on the
/// declared header size.
pub open spec fn spec_parse_header(s: Seq<u8>, p: int) -> Result<
    (MapHeaderV, int),
    MapforgeError,
> {
    match spec_read_bytes(s, p, 20) {
        Err(e) => Err(e),
        Ok((mb, p)) => if !(valid_utf8(mb) && decode_utf8(mb) == spec_magic()) {
            Err(MapforgeError::InvalidMagic)
        } else {
            match spec_read_be(s, p, 4) {
                Err(e) => Err(e),
                Ok((hs, p)) => match spec_read_be(s, p, 4) {
                    Err(e) => Err(e),
                    Ok((fv, p)) => if fv < MIN_SUPPORTED_VERSION {
                        Err(MapforgeError::UnsupportedVersion(fv as u32))
                    } else {
                        match spec_read_be(s, p, 8) {
                            Err(e) => Err(e),
                            Ok((fsz, p)) => match spec_read_be(s, p, 8) {
                                Err(e) => Err(e),
                                Ok((cd, p)) => match spec_parse_bbox(s, p) {
                                    Err(e) => Err(e),
                                    Ok((bbox, p)) => match spec_read_be(s, p, 2) {
                                        Err(e) => Err(e),
                                        Ok((ts, p)) => match spec_read_vbe_string(s, p) {
                                            Err(e) => Err(e),
                                            Ok((proj, p)) => spec_parse_header_rest(
                                                s,
                                                p,
                                                decode_utf8(mb),
                                                hs as u32,
                                                fv as u32,
                                                fsz as u64,
                                                cd as u64,
                                                bbox,
                                                ts as u16,
                                                proj,
                                            ),
                                        },
                                    },
                                },
                            },
                        }
                    },
                },
            }
        },
    }
}

/// The tail of the header parse, from the flags byte on.
pub open spec fn spec_parse_header_rest(
    s: Seq<u8>,
    p: int,
    magic: Seq<char>,
    header_size: u32,
    file_version: u32,
    file_size: u64,
    creation_date: u64,
    bounding_box: BoundingBox,
    tile_size: u16,
    projection: Seq<char>,
) -> Result<(MapHeaderV, int), MapforgeError> {
    match spec_read_u8(s, p) {
        Err(e) => Err(e),
        Ok((flags, p)) => match spec_parse_opt_latlong(s, p, flags & MAP_START_POSITION_MASK != 0) {
            Err(e) => Err(e),
            Ok((msp, p)) => match spec_parse_opt_u8(s, p, flags & START_ZOOM_LEVEL_MASK != 0) {
                Err(e) => Err(e),
                Ok((szl, p)) => match spec_parse_opt_string(
                    s,
                    p,
                    flags & LANGUAGE_PREFERENCE_MASK != 0,
                ) {
                    Err(e) => Err(e),
                    Ok((lang, p)) => match spec_parse_opt_string(s, p, flags & COMMENT_MASK != 0) {
                        Err(e) => Err(e),
                        Ok((comm, p)) => match spec_parse_opt_string(
                            s,
                            p,
                            flags & CREATED_BY_MASK != 0,
                        ) {
                            Err(e) => Err(e),
                            Ok((crby, p)) => match spec_read_be(s, p, 2) {
                                Err(e) => Err(e),
                                Ok((npoi, p)) => match spec_parse_string_list(s, p, npoi) {
                                    Err(e) => Err(e),
                                    Ok((ptags, p)) => match spec_read_be(s, p, 2) {
                                        Err(e) => Err(e),
                                        Ok((nway, p)) => match spec_parse_string_list(s, p, nway) {
                                            Err(e) => Err(e),
                                            Ok((wtags, p)) => match spec_read_u8(s, p) {
                                                Err(e) => Err(e),
                                                Ok((nzi, p)) => match spec_parse_zoom_intervals(
                                                    s,
                                                    p,
                                                    nzi as nat,
                                                ) {
                                                    Err(e) => Err(e),
                                                    Ok((zis, p)) => if header_size == 0 {
                                                        Err(
                                                            MapforgeError::InvalidHeaderSize(
                                                                header_size,
                                                            ),
                                                        )
                                                    } else {
                                                        Ok(
                                                            (
                                                                MapHeaderV {
                                                                    magic,
                                                                    header_size,
                                                                    file_version,
                                                                    file_size,
                                                                    creation_date,
                                                                    bounding_box,
                                                                    tile_size,
                                                                    projection,
                                                                    flags,
                                                                    map_start_position: msp,
                                                                    start_zoom_level: szl,
                                                                    language_preference: lang,
                                                                    comment: comm,
                                                                    created_by: crby,
                                                                    poi_tags: ptags,
                                                                    way_tags: wtags,
                                                                    num_zoom_intervals: nzi,
                                                                    zoom_interval_configuration:
                                                                        zis,
                                                                },
                                                                p,
                                                            ),
                                                        )
                                                    },
                                                },
                                            },
                                        },
                                    },
                                },
                            },
                        },
                    },
                },
            },
        },
    }
}

/// A header is valid when its magic, with space padding trimmed, matches
/// the fixed signature, the declared header size is positive and the
/// version is supported.
pub open spec fn spec_header_valid(h: MapHeaderV) -> bool {
    spec_trim_spaces(h.magic) == spec_magic() && h.header_size > 0 && h.file_version
        >= MIN_SUPPORTED_VERSION
}

/// The fixed signature carries no space padding: trimming leaves it as it
/// is.
proof fn lemma_magic_trim()
    ensures
        spec_trim_spaces(spec_magic()) == spec_magic(),
{
    reveal_strlit("mapsforge binary OSM");
    assert(spec_magic().len() == 20);
    assert(spec_magic()[0] == 'm');
    assert(spec_magic()[19] == 'M');
    assert(trim_start_idx(spec_magic(), 0) == 0);
    assert(trim_end_idx(spec_magic(), 20) == 20);
    assert(spec_magic().subrange(0, 20) =~= spec_magic());
}

/// A string-list parse never fails with `InvalidMagic`: its errors come
/// from the stream alone.
proof fn lemma_string_list_err_not_magic(s: Seq<u8>, p: int, k: nat)
    ensures
        (match spec_parse_string_list(s, p, k) {
            Err(e) => e != MapforgeError::InvalidMagic,
            Ok(_) => true,
        }),
    decreases k,
{
    if k > 0 {
        match spec_read_vbe_string(s, p) {
            Ok((st, p2)) => {
                lemma_string_list_err_not_magic(s, p2, (k - 1) as nat);
            },
            Err(_) => {},
        }
    }
}

/// A zoom-interval-list parse never fails with `InvalidMagic` either.
proof fn lemma_zoom_intervals_err_not_magic(s: Seq<u8>, p: int, k: nat)
    ensures
        (match spec_parse_zoom_intervals(s, p, k) {
            Err(e) => e != MapforgeError::InvalidMagic,
            Ok(_) => true,
        }),
    decreases k,
{
    if k > 0 {
        match spec_parse_zoom_interval(s, p) {
            Ok((zi, p2)) => {
                lemma_zoom_intervals_err_not_magic(s, p2, (k - 1) as nat);
            },
            Err(_) => {},
        }
    }
}

impl BoundingBox {
    /// True when every coordinate is in range and each minimum is at or
    /// below its maximum.
    pub fn is_valid(&self) -> (r: bool)
        ensures
            r == spec_bbox_valid(*self),
    {
        self.min_lat >= LATITUDE_MIN && self.min_lat <= LATITUDE_MAX && self.max_lat
            >= LATITUDE_MIN && self.max_lat <= LATITUDE_MAX && self.min_lon >= LONGITUDE_MIN
            && self.min_lon <= LONGITUDE_MAX && self.max_lon >= LONGITUDE_MIN && self.max_lon
            <= LONGITUDE_MAX && self.min_lat <= self.max_lat && self.min_lon <= self.max_lon
    }

    /// Reads a bounding box: four big-endian `i32` microdegree fields,
    /// validated before they are returned.
    pub fn read_from_buffer(reader: &mut Reader) -> (r: Result<BoundingBox, MapforgeError>)
        ensures
            final(reader).data@ == old(reader).data@,
            match spec_parse_bbox(old(reader).data@, old(reader).pos as int) {
                Ok((b, p2)) => r == Ok::<BoundingBox, MapforgeError>(b) && final(reader).pos
                    == p2,
                Err(e) => r == Err::<BoundingBox, MapforgeError>(e) && (e
                    == MapforgeError::InvalidBoundingBox ==> final(reader).pos == old(reader).pos
                    + 16),
            },
    {
        let min_lat = match reader.read_i32_be() {
            Ok(v) => v,
            Err(e) => {
                return Err(e);
            },
        };
        let min_lon = match reader.read_i32_be() {
            Ok(v) => v,
            Err(e) => {
                return Err(e);
            },
        };
        let max_lat = match reader.read_i32_be() {
            Ok(v) => v,
            Err(e) => {
                return Err(e);
            },
        };
        let max_lon = match reader.read_i32_be() {
            Ok(v) => v,
            Err(e) => {
                return Err(e);
            },
        };
        let bbox = BoundingBox {
            min_lat: min_lat as i64,
            min_lon: min_lon as i64,
            max_lat: max_lat as i64,
            max_lon: max_lon as i64,
        };
        if !bbox.is_valid() {
            return Err(MapforgeError::InvalidBoundingBox);
        }
        Ok(bbox)
    }
}

/// Reads an optional coordinate pair, present only when `present` holds.
fn read_opt_latlong(reader: &mut Reader, present: bool) -> (r: Result<
    Option<LatLong>,
    MapforgeError,
>)
    ensures
        final(reader).data@ == old(reader).data@,
        match spec_parse_opt_latlong(old(reader).data@, old(reader).pos as int, present) {
            Ok((o, p2)) => r == Ok::<Option<LatLong>, MapforgeError>(o) && final(reader).pos == p2,
            Err(e) => r == Err::<Option<LatLong>, MapforgeError>(e),
        },
{
    if !present {
        return Ok(None);
    }
    let lat = match reader.read_i32_be() {
        Ok(v) => v,
        Err(e) => {
            return Err(e);
        },
    };
    let lon = match reader.read_i32_be() {
        Ok(v) => v,
        Err(e) => {
            return Err(e);
        },
    };
    Ok(Some(LatLong { latitude: lat as i64, longitude: lon as i64 }))
}

/// Reads an optional byte, present only when `present` holds.
fn read_opt_u8(reader: &mut Reader, present: bool) -> (r: Result<Option<u8>, MapforgeError>)
    ensures
        final(reader).data@ == old(reader).data@,
        match spec_parse_opt_u8(old(reader).data@, old(reader).pos as int, present) {
            Ok((o, p2)) => r == Ok::<Option<u8>, MapforgeError>(o) && final(reader).pos == p2,
            Err(e) => r == Err::<Option<u8>, MapforgeError>(e),
        },
{
    if !present {
        return Ok(None);
    }
    match reader.read_u8() {
        Ok(b) => Ok(Some(b)),
        Err(e) => Err(e),
    }
}

/// Reads an optional VBE string, present only when `present` holds.
pub(crate) fn read_opt_string(reader: &mut Reader, present: bool) -> (r: Result<
    Option<String>,
    MapforgeError,
>)
    ensures
        final(reader).data@ == old(reader).data@,
        match spec_parse_opt_string(old(reader).data@, old(reader).pos as int, present) {
            Ok((o, p2)) => r matches Ok(x) && opt_str_view(x) == o && final(reader).pos == p2,
            Err(e) => r == Err::<Option<String>, MapforgeError>(e),
        },
{
    if !present {
        return Ok(None);
    }
    match crate::utils::read_vbe_u(reader) {
        Ok(st) => Ok(Some(st)),
        Err(e) => Err(e),
    }
}

/// Reads `k` consecutive VBE strings.
fn read_string_list(reader: &mut Reader, k: u16) -> (r: Result<Vec<String>, MapforgeError>)
    ensures
        final(reader).data@ == old(reader).data@,
        match spec_parse_string_list(old(reader).data@, old(reader).pos as int, k as nat) {
            Ok((l, p2)) => r matches Ok(v) && strings_view(v@) == l && final(reader).pos == p2,
            Err(e) => r == Err::<Vec<String>, MapforgeError>(e),
        },
{
    let ghost s = reader.data@;
    let ghost p0 = reader.pos as int;
    let mut out: Vec<String> = Vec::new();
    let mut i: usize = 0;
    proof {
        assert(strings_view(out@) =~= Seq::<Seq<char>>::empty());
    }
    while i < k as usize
        invariant
            i <= k as usize,
            old(reader).data@ == s,
            old(reader).pos == p0,
            reader.data@ == s,
            spec_parse_string_list(s, p0, k as nat) == (match spec_parse_string_list(
                s,
                reader.pos as int,
                (k - i) as nat,
            ) {
                Ok((rest, pe)) => Ok::<(Seq<Seq<char>>, int), MapforgeError>(
                    (strings_view(out@) + rest, pe),
                ),
                Err(e) => Err::<(Seq<Seq<char>>, int), MapforgeError>(e),
            }),
        decreases k as usize - i,
    {
        let ghost out_before = out@;
        let ghost pos_before = reader.pos as int;
        let st = match crate::utils::read_vbe_u(reader) {
            Ok(st) => st,
            Err(e) => {
                return Err(e);
            },
        };
        out.push(st);
        proof {
            assert(strings_view(out@) =~= strings_view(out_before) + seq![st@]);
            match spec_parse_string_list(s, reader.pos as int, (k - i - 1) as nat) {
                Ok((rest, pe)) => {
                    assert(strings_view(out_before) + (seq![st@] + rest) =~= strings_view(out@)
                        + rest);
                },
                Err(_) => {},
            }
        }
        i = i + 1;
    }
    proof {
        match spec_parse_string_list(s, reader.pos as int, 0) {
            Ok((rest, pe)) => {
                assert(strings_view(out@) + rest =~= strings_view(out@));
            },
            Err(_) => {},
        }
    }
    Ok(out)
}

/// Reads `k` consecutive 19-byte zoom-interval records.
fn read_zoom_intervals(reader: &mut Reader, k: u8) -> (r: Result<Vec<ZoomInterval>, MapforgeError>)
    ensures
        final(reader).data@ == old(reader).data@,
        match spec_parse_zoom_intervals(old(reader).data@, old(reader).pos as int, k as nat) {
            Ok((l, p2)) => r matches Ok(v) && v@ == l && final(reader).pos == p2,
            Err(e) => r == Err::<Vec<ZoomInterval>, MapforgeError>(e),
        },
{
    let ghost s = reader.data@;
    let ghost p0 = reader.pos as int;
    let mut out: Vec<ZoomInterval> = Vec::new();
    let mut i: usize = 0;
    proof {
        assert(out@ =~= Seq::<ZoomInterval>::empty());
    }
    while i < k as usize
        invariant
            i <= k as usize,
            old(reader).data@ == s,
            old(reader).pos == p0,
            reader.data@ == s,
            spec_parse_zoom_intervals(s, p0, k as nat) == (match spec_parse_zoom_intervals(
                s,
                reader.pos as int,
                (k - i) as nat,
            ) {
                Ok((rest, pe)) => Ok::<(Seq<ZoomInterval>, int), MapforgeError>(
                    (out@ + rest, pe),
                ),
                Err(e) => Err::<(Seq<ZoomInterval>, int), MapforgeError>(e),
            }),
        decreases k as usize - i,
    {
        let ghost out_before = out@;
        let base_zoom_level = match reader.read_u8() {
            Ok(v) => v,
            Err(e) => {
                return Err(e);
            },
        };
        let min_zoom_level = match reader.read_u8() {
            Ok(v) => v,
            Err(e) => {
                return Err(e);
            },
        };
        let max_zoom_level = match reader.read_u8() {
            Ok(v) => v,
            Err(e) => {
                return Err(e);
            },
        };
        let sub_file_start = match reader.read_u64_be() {
            Ok(v) => v,
            Err(e) => {
                return Err(e);
            },
        };
        let sub_file_size = match reader.read_u64_be() {
            Ok(v) => v,
            Err(e) => {
                return Err(e);
            },
        };
        let zi = ZoomInterval {
            base_zoom_level,
            min_zoom_level,
            max_zoom_level,
            sub_file_start,
            sub_file_size,
        };
        out.push(zi);
        proof {
            assert(out@ =~= out_before + seq![zi]);
            match spec_parse_zoom_intervals(s, reader.pos as int, (k - i - 1) as nat) {
                Ok((rest, pe)) => {
                    assert(out_before + (seq![zi] + rest) =~= out@ + rest);
                },
                Err(_) => {},
            }
        }
        i = i + 1;
    }
    proof {
        match spec_parse_zoom_intervals(s, reader.pos as int, 0) {
            Ok((rest, pe)) => {
                assert(out@ + rest =~= out@);
            },
            Err(_) => {},
        }
    }
    Ok(out)
}

impl MapHeader {
    /// Reads and validates the whole header, in strict file order, with no
    /// backtracking. Any validation or end-of-stream failure aborts the
    /// parse with the error `spec_parse_header` names for it.
    #[verifier::rlimit(100)]
    pub fn read_from_file(reader: &mut Reader) -> (r: Result<MapHeader, MapforgeError>)
        ensures
            final(reader).data@ == old(reader).data@,
            match spec_parse_header(old(reader).data@, old(reader).pos as int) {
                Ok((h, p2)) => r matches Ok(x) && x@ == h && final(reader).pos == p2,
                Err(e) => r == Err::<MapHeader, MapforgeError>(e) && (e
                    == MapforgeError::InvalidMagic ==> final(reader).pos == old(reader).pos
                    + 20),
            },
    {
        let magic_bytes = match reader.read_bytes(20) {
            Ok(b) => b,
            Err(e) => {
                return Err(e);
            },
        };
        let magic = match crate::utils::bytes_to_string(magic_bytes) {
            Some(m) => m,
            None => {
                return Err(MapforgeError::InvalidMagic);
            },
        };
        if !str_eq(magic.as_str(), "mapsforge binary OSM") {
            return Err(MapforgeError::InvalidMagic);
        }
        let header_size = match reader.read_u32_be() {
            Ok(v) => v,
            Err(e) => {
                return Err(e);
            },
        };
        let file_version = match reader.read_u32_be() {
            Ok(v) => v,
            Err(e) => {
                return Err(e);
            },
        };
        if file_version < MIN_SUPPORTED_VERSION {
            return Err(MapforgeError::UnsupportedVersion(file_version));
        }
        let file_size = match reader.read_u64_be() {
            Ok(v) => v,
            Err(e) => {
                return Err(e);
            },
        };
        let creation_date = match reader.read_u64_be() {
            Ok(v) => v,
            Err(e) => {
                return Err(e);
            },
        };
        let bounding_box = match BoundingBox::read_from_buffer(reader) {
            Ok(b) => b,
            Err(e) => {
                return Err(e);
            },
        };
        let tile_size = match reader.read_u16_be() {
            Ok(v) => v,
            Err(e) => {
                return Err(e);
            },
        };
        let projection = match Self::read_vbe_u(reader) {
            Ok(st) => st,
            Err(e) => {
                return Err(e);
            },
        };
        let flags = match reader.read_u8() {
            Ok(b) => b,
            Err(e) => {
                return Err(e);
            },
        };
        let map_start_position = match read_opt_latlong(
            reader,
            flags & MAP_START_POSITION_MASK != 0,
        ) {
            Ok(o) => o,
            Err(e) => {
                return Err(e);
            },
        };
        let start_zoom_level = match read_opt_u8(reader, flags & START_ZOOM_LEVEL_MASK != 0) {
            Ok(o) => o,
            Err(e) => {
                return Err(e);
            },
        };
        let language_preference = match read_opt_string(
            reader,
            flags & LANGUAGE_PREFERENCE_MASK != 0,
        ) {
            Ok(o) => o,
            Err(e) => {
                return Err(e);
            },
        };
        let comment = match read_opt_string(reader, flags & COMMENT_MASK != 0) {
            Ok(o) => o,
            Err(e) => {
                return Err(e);
            },
        };
        let created_by = match read_opt_string(reader, flags & CREATED_BY_MASK != 0) {
            Ok(o) => o,
            Err(e) => {
                return Err(e);
            },
        };
        let num_poi_tags = match reader.read_u16_be() {
            Ok(v) => v,
            Err(e) => {
                return Err(e);
            },
        };
        let ghost p_poi_tags = reader.pos as int;
        let poi_tags = match read_string_list(reader, num_poi_tags) {
            Ok(v) => v,
            Err(e) => {
                proof {
                    lemma_string_list_err_not_magic(
                        old(reader).data@,
                        p_poi_tags,
                        num_poi_tags as nat,
                    );
                }
                return Err(e);
            },
        };
        let num_way_tags = match reader.read_u16_be() {
            Ok(v) => v,
            Err(e) => {
                return Err(e);
            },
        };
        let ghost p_way_tags = reader.pos as int;
        let way_tags = match read_string_list(reader, num_way_tags) {
            Ok(v) => v,
            Err(e) => {
                proof {
                    lemma_string_list_err_not_magic(
                        old(reader).data@,
                        p_way_tags,
                        num_way_tags as nat,
                    );
                }
                return Err(e);
            },
        };
        let num_zoom_intervals = match reader.read_u8() {
            Ok(b) => b,
            Err(e) => {
                return Err(e);
            },
        };
        let ghost p_intervals = reader.pos as int;
        let zoom_interval_configuration = match read_zoom_intervals(reader, num_zoom_intervals) {
            Ok(v) => v,
            Err(e) => {
                proof {
                    lemma_zoom_intervals_err_not_magic(
                        old(reader).data@,
                        p_intervals,
                        num_zoom_intervals as nat,
                    );
                }
                return Err(e);
            },
        };
        let header = MapHeader {
            magic,
            header_size,
            file_version,
            file_size,
            creation_date,
            bounding_box,
            tile_size,
            projection,
            flags,
            map_start_position,
            start_zoom_level,
            language_preference,
            comment,
            created_by,
            poi_tags,
            way_tags,
            num_zoom_intervals,
            zoom_interval_configuration,
        };
        proof {
            lemma_magic_trim();
        }
        if !header.is_valid() {
            return Err(MapforgeError::InvalidHeaderSize(header_size));
        }
        proof {
            match spec_parse_header(old(reader).data@, old(reader).pos as int) {
                Ok((h, p2)) => {
                    assert(header@ =~= h);
                },
                Err(_) => {},
            }
        }
        Ok(header)
    }

    /// Reads a length-prefixed VBE string.
    pub fn read_vbe_u(reader: &mut Reader) -> (r: Result<String, MapforgeError>)
        ensures
            final(reader).data@ == old(reader).data@,
            match spec_read_vbe_string(old(reader).data@, old(reader).pos as int) {
                Ok((cs, p2)) => r matches Ok(x) && x@ == cs && final(reader).pos == p2,
                Err(e) => r == Err::<String, MapforgeError>(e),
            },
    {
        crate::utils::read_vbe_u(reader)
    }

    /// True when the magic, with space padding trimmed, matches the fixed
    /// signature, the declared header size is positive and the file version
    /// is supported.
    pub fn is_valid(&self) -> (r: bool)
        ensures
            r == spec_header_valid(self@),
    {
        str_eq_trimmed(self.magic.as_str(), "mapsforge binary OSM") && self.header_size > 0
            && self.file_version >= MIN_SUPPORTED_VERSION
    }
}

} // verus!
