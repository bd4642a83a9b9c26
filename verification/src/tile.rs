//! The tile index: per zoom interval, an optional 16-byte signature
//! followed by fixed 5-byte records, each a water flag and a 39-bit byte
//! offset into the subfile.

use crate::error::MapforgeError;
use crate::reader::{be_val, spec_read_bytes, Reader};
use crate::types::{opt_str_view, TileIndexEntry, TileIndexHeader, ZoomInterval};
use crate::utils::str_eq;
use vstd::prelude::*;
use vstd::utf8::{decode_utf8, valid_utf8};

verus! {

/// The 16-character signature at the start of a subfile's index when the
/// file carries debug information.
pub open spec fn spec_index_signature() -> Seq<char> {
    "+++IndexStart+++"@
}

/// The optional index signature: absent without debug information, and
/// required to match `spec_index_signature` with it.
pub open spec fn spec_parse_tile_index_header(s: Seq<u8>, p: int, debug: bool) -> Result<
    (Option<Seq<char>>, int),
    MapforgeError,
> {
    if !debug {
        Ok((None, p))
    } else {
        match spec_read_bytes(s, p, 16) {
            Err(e) => Err(e),
            Ok((sig, p2)) => if valid_utf8(sig) && decode_utf8(sig) == spec_index_signature() {
                Ok((Some(decode_utf8(sig)), p2))
            } else {
                Err(MapforgeError::InvalidIndexSignature)
            },
        }
    }
}

/// One 5-byte index record: the top bit of the first byte is the water
/// flag; the remaining 39 bits are a big-endian offset.
pub open spec fn spec_parse_tile_entry(s: Seq<u8>, p: int) -> Result<
    (TileIndexEntry, int),
    MapforgeError,
> {
    if 0 <= p && p + 5 <= s.len() {
        Ok(
            (
                TileIndexEntry {
                    is_water: s[p] & 0x80 != 0,
                    offset: (((s[p] & 0x7f) as nat * 0x1_0000_0000 + be_val(s, p + 1, 4)) as u64),
                },
                p + 5,
            ),
        )
    } else {
        Err(MapforgeError::UnexpectedEof)
    }
}

/// `k` consecutive 5-byte index records.
pub open spec fn spec_parse_tile_entries(s: Seq<u8>, p: int, k: nat) -> Result<
    (Seq<TileIndexEntry>, int),
    MapforgeError,
>
    decreases k,
{
    if k == 0 {
        Ok((Seq::empty(), p))
    } else {
        match spec_parse_tile_entry(s, p) {
            Err(e) => Err(e),
            Ok((te, p2)) => match spec_parse_tile_entries(s, p2, (k - 1) as nat) {
                Err(e) => Err(e),
                Ok((rest, p3)) => Ok((seq![te] + rest, p3)),
            },
        }
    }
}

/// Reads and validates the optional index signature at a subfile start.
pub fn read_tile_index_header(reader: &mut Reader, debug: bool) -> (r: Result<
    TileIndexHeader,
    MapforgeError,
>)
    ensures
        final(reader).data@ == old(reader).data@,
        match spec_parse_tile_index_header(old(reader).data@, old(reader).pos as int, debug) {
            Ok((o, p2)) => r matches Ok(h) && opt_str_view(h.debug_signature) == o
                && final(reader).pos == p2,
            Err(e) => r == Err::<TileIndexHeader, MapforgeError>(e),
        },
{
    if !debug {
        return Ok(TileIndexHeader { debug_signature: None });
    }
    let sig_bytes = match reader.read_bytes(16) {
        Ok(b) => b,
        Err(e) => {
            return Err(e);
        },
    };
    let sig = match crate::utils::bytes_to_string(sig_bytes) {
        Some(x) => x,
        None => {
            return Err(MapforgeError::InvalidIndexSignature);
        },
    };
    if !str_eq(sig.as_str(), "+++IndexStart+++") {
        return Err(MapforgeError::InvalidIndexSignature);
    }
    Ok(TileIndexHeader { debug_signature: Some(sig) })
}

/// Reads `tile_count` fixed 5-byte tile-index records.
///
/// On success the array holds exactly `tile_count` entries, in the file's
/// tile enumeration order; each entry's offset fits in 39 bits, and its
/// water flag reflects the top bit of the record's first byte before
/// masking.
pub fn read_tile_index(reader: &mut Reader, tile_count: u32) -> (r: Result<
    Vec<TileIndexEntry>,
    MapforgeError,
>)
    ensures
        final(reader).data@ == old(reader).data@,
        match spec_parse_tile_entries(old(reader).data@, old(reader).pos as int, tile_count as nat) {
            Ok((l, p2)) => r matches Ok(v) && v@ == l && v@.len() == tile_count as nat
                && final(reader).pos == p2,
            Err(e) => r == Err::<Vec<TileIndexEntry>, MapforgeError>(e),
        },
{
    let ghost s = reader.data@;
    let ghost p0 = reader.pos as int;
    let mut out: Vec<TileIndexEntry> = Vec::new();
    let mut i: u32 = 0;
    proof {
        assert(out@ =~= Seq::<TileIndexEntry>::empty());
    }
    while i < tile_count
        invariant
            i <= tile_count,
            old(reader).data@ == s,
            old(reader).pos == p0,
            reader.data@ == s,
            out@.len() == i as nat,
            spec_parse_tile_entries(s, p0, tile_count as nat) == (match spec_parse_tile_entries(
                s,
                reader.pos as int,
                (tile_count - i) as nat,
            ) {
                Ok((rest, pe)) => Ok::<(Seq<TileIndexEntry>, int), MapforgeError>(
                    (out@ + rest, pe),
                ),
                Err(e) => Err::<(Seq<TileIndexEntry>, int), MapforgeError>(e),
            }),
        decreases tile_count - i,
    {
        let ghost out_before = out@;
        let b0 = match reader.read_u8() {
            Ok(b) => b,
            Err(e) => {
                return Err(e);
            },
        };
        let low = match reader.read_be(4) {
            Ok(v) => v,
            Err(e) => {
                return Err(e);
            },
        };
        proof {
            assert(b0 & 0x7f < 128) by (bit_vector);
            crate::reader::lemma_be_val_bound(s, reader.pos - 4, 4);
            assert(crate::reader::pow256(4) == 0x1_0000_0000) by {
                reveal_with_fuel(crate::reader::pow256, 5);
            }
        }
        let te = TileIndexEntry {
            is_water: b0 & 0x80 != 0,
            offset: ((b0 & 0x7f) as u64) * 0x1_0000_0000 + low,
        };
        out.push(te);
        proof {
            assert(out@ =~= out_before + seq![te]);
            match spec_parse_tile_entries(s, reader.pos as int, (tile_count - i - 1) as nat) {
                Ok((rest, pe)) => {
                    assert(out_before + (seq![te] + rest) =~= out@ + rest);
                },
                Err(_) => {},
            }
        }
        i = i + 1;
    }
    proof {
        match spec_parse_tile_entries(s, reader.pos as int, 0) {
            Ok((rest, pe)) => {
                assert(out@ + rest =~= out@);
            },
            Err(_) => {},
        }
    }
    Ok(out)
}

/// One zoom interval's whole tile index: a seek to the interval's subfile
/// start, the optional index signature, then `k` fixed records.
pub open spec fn spec_parse_interval_index(
    s: Seq<u8>,
    zi: ZoomInterval,
    k: nat,
    debug: bool,
) -> Result<(Seq<TileIndexEntry>, int), MapforgeError> {
    if zi.sub_file_start > s.len() {
        Err(MapforgeError::UnexpectedEof)
    } else {
        match spec_parse_tile_index_header(s, zi.sub_file_start as int, debug) {
            Err(e) => Err(e),
            Ok((sig, p)) => spec_parse_tile_entries(s, p, k),
        }
    }
}

/// Builds one zoom interval's tile index: seeks to its subfile start,
/// checks the optional index signature, and reads `tile_count` fixed
/// records. On success the index holds exactly `tile_count` entries.
pub fn read_interval_tile_index(
    reader: &mut Reader,
    interval: &ZoomInterval,
    tile_count: u32,
    debug: bool,
) -> (r: Result<Vec<TileIndexEntry>, MapforgeError>)
    ensures
        final(reader).data@ == old(reader).data@,
        match spec_parse_interval_index(
            old(reader).data@,
            *interval,
            tile_count as nat,
            debug,
        ) {
            Ok((l, p2)) => r matches Ok(v) && v@ == l && v@.len() == tile_count as nat
                && final(reader).pos == p2,
            Err(e) => r == Err::<Vec<TileIndexEntry>, MapforgeError>(e),
        },
{
    match reader.seek(interval.sub_file_start) {
        Ok(()) => {},
        Err(e) => {
            return Err(e);
        },
    }
    match read_tile_index_header(reader, debug) {
        Ok(_) => {},
        Err(e) => {
            return Err(e);
        },
    }
    read_tile_index(reader, tile_count)
}

/// Law: a decoded tile-index offset always fits in 39 bits, and the water
/// flag reflects exactly the top bit of the record's first byte.
pub proof fn lemma_tile_entry_offset_bound(s: Seq<u8>, p: int)
    ensures
        (match spec_parse_tile_entry(s, p) {
            Ok((te, _)) => te.offset < 0x80_0000_0000u64 && te.is_water == (s[p] & 0x80 != 0),
            Err(_) => true,
        }),
{
    if 0 <= p && p + 5 <= s.len() {
        let b = s[p];
        assert(b & 0x7f < 128) by (bit_vector);
        crate::reader::lemma_be_val_bound(s, p + 1, 4);
        assert(crate::reader::pow256(4) == 0x1_0000_0000) by {
            reveal_with_fuel(crate::reader::pow256, 5);
        }
    }
}

/// Law: every entry of a decoded tile index holds an offset below 39 bits.
pub proof fn lemma_tile_index_offsets_bounded(s: Seq<u8>, p: int, k: nat)
    ensures
        (match spec_parse_tile_entries(s, p, k) {
            Ok((l, _)) => forall|i: int|
                0 <= i < l.len() ==> #[trigger] l[i].offset < 0x80_0000_0000u64,
            Err(_) => true,
        }),
    decreases k,
{
    if k > 0 {
        lemma_tile_entry_offset_bound(s, p);
        match spec_parse_tile_entry(s, p) {
            Ok((te, p2)) => {
                lemma_tile_index_offsets_bounded(s, p2, (k - 1) as nat);
            },
            Err(_) => {},
        }
    }
}

/// Law: decoding is a pure function of the bytes. Opening the same data
/// twice yields the same parsed header and the same tile indices — no
/// state is shared between runs, so two reads of one file cannot differ.
pub proof fn lemma_open_deterministic(s1: Seq<u8>, s2: Seq<u8>, p: int, k: nat)
    requires
        s1 == s2,
    ensures
        crate::header::spec_parse_header(s1, p) == crate::header::spec_parse_header(s2, p),
        spec_parse_tile_entries(s1, p, k) == spec_parse_tile_entries(s2, p, k),
{
}

} // verus!
