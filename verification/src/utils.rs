//! The variable-byte-encoding (VBE) primitive layer: unsigned and signed
//! integers and length-prefixed UTF-8 strings, decoded from a byte cursor.
//!
//! A VBE integer is stored least-significant group first, seven data bits
//! per byte, with the high bit of each byte marking that another byte
//! follows. The signed variant reserves bit 6 of the terminal byte as a
//! sign flag, leaving six data bits there.

use crate::error::MapforgeError;
use crate::reader::Reader;
use crate::tag::{spec_resolve_tag, split_tag};
use crate::types::{strings_view, Tag};
use vstd::prelude::*;
use vstd::string::*;
use vstd::utf8::{decode_utf8, valid_utf8};

verus! {

/// Largest valid longitude, in microdegrees.
pub const LONGITUDE_MAX: i64 = 180_000_000;

/// Smallest valid longitude, in microdegrees.
pub const LONGITUDE_MIN: i64 = -180_000_000;

/// Largest valid latitude, in microdegrees.
pub const LATITUDE_MAX: i64 = 90_000_000;

/// Smallest valid latitude, in microdegrees.
pub const LATITUDE_MIN: i64 = -90_000_000;

/// 128 to the power `n`: the weight of the `n`-th seven-bit group.
pub open spec fn pow128(n: nat) -> nat
    decreases n,
{
    if n == 0 {
        1
    } else {
        128 * pow128((n - 1) as nat)
    }
}

pub proof fn lemma_pow128_monotone(a: nat, b: nat)
    requires
        a <= b,
    ensures
        pow128(a) <= pow128(b),
    decreases b,
{
    if a < b {
        lemma_pow128_monotone(a, (b - 1) as nat);
    }
}

/// Bounds on where a VBE value can end: at a terminal byte at or after the
/// start, or at the end of the stream.
pub proof fn lemma_vbe_end_ge(s: Seq<u8>, i: int)
    requires
        0 <= i,
    ensures
        vbe_end(s, i) == s.len() || (i <= vbe_end(s, i) && vbe_end(s, i) < s.len()),
    decreases s.len() - i,
{
    if i < s.len() && s[i] & 0x80 != 0 {
        lemma_vbe_end_ge(s, i + 1);
    }
}

/// Index of the terminal byte (high bit clear) of the VBE value starting at
/// `i`, or `s.len()` when the stream ends inside the value.
pub open spec fn vbe_end(s: Seq<u8>, i: int) -> int
    decreases s.len() - i,
{
    if i < 0 || i >= s.len() {
        s.len() as int
    } else if s[i] & 0x80 == 0 {
        i
    } else {
        vbe_end(s, i + 1)
    }
}

/// The unsigned value of the VBE groups starting at `i`: every byte,
/// including the terminal one, contributes its low seven bits at its own
/// group's weight.
pub open spec fn vbe_value(s: Seq<u8>, i: int) -> nat
    decreases s.len() - i,
{
    if i < 0 || i >= s.len() {
        0
    } else if s[i] & 0x80 == 0 {
        (s[i] & 0x7f) as nat
    } else {
        ((s[i] & 0x7f) + 128 * vbe_value(s, i + 1)) as nat
    }
}

/// The magnitude of the signed VBE groups starting at `i`: continuation
/// bytes contribute seven bits, the terminal byte only its low six.
pub open spec fn vbe_s_mag(s: Seq<u8>, i: int) -> nat
    decreases s.len() - i,
{
    if i < 0 || i >= s.len() {
        0
    } else if s[i] & 0x80 == 0 {
        (s[i] & 0x3f) as nat
    } else {
        ((s[i] & 0x7f) + 128 * vbe_s_mag(s, i + 1)) as nat
    }
}

/// The signed value starting at `i`: the magnitude, negated when bit 6 of
/// the terminal byte is set.
pub open spec fn vbe_s_value(s: Seq<u8>, i: int) -> int {
    let e = vbe_end(s, i);
    if 0 <= e && e < s.len() && s[e] & 0x40 != 0 {
        -(vbe_s_mag(s, i) as int)
    } else {
        vbe_s_mag(s, i) as int
    }
}

/// True when an unsigned VBE value starting at `p` terminates within ten
/// bytes and fits in 64 bits.
pub open spec fn vbe_u_ok(s: Seq<u8>, p: int) -> bool {
    let e = vbe_end(s, p);
    e < s.len() && e - p <= 9 && (e - p == 9 ==> s[e] & 0x7f <= 1)
}

/// True when a signed VBE value starting at `p` terminates within ten bytes
/// and its magnitude fits in 63 bits.
pub open spec fn vbe_s_ok(s: Seq<u8>, p: int) -> bool {
    let e = vbe_end(s, p);
    e < s.len() && e - p <= 9 && (e - p == 9 ==> s[e] & 0x3f == 0)
}

/// The error for a malformed VBE value: `UnexpectedEof` when the stream ran
/// out first, `NumericOverflow` when the value spans too many groups.
pub open spec fn vbe_err_kind(s: Seq<u8>, p: int) -> MapforgeError {
    if vbe_end(s, p) == s.len() && s.len() - p <= 9 {
        MapforgeError::UnexpectedEof
    } else {
        MapforgeError::NumericOverflow
    }
}

/// The unsigned VBE integer starting at `p` and the position just past it.
pub open spec fn spec_read_vbe_u(s: Seq<u8>, p: int) -> Result<(nat, int), MapforgeError> {
    if vbe_u_ok(s, p) {
        Ok((vbe_value(s, p), vbe_end(s, p) + 1))
    } else {
        Err(vbe_err_kind(s, p))
    }
}

/// The signed VBE integer starting at `p` and the position just past it.
pub open spec fn spec_read_vbe_s(s: Seq<u8>, p: int) -> Result<(int, int), MapforgeError> {
    if vbe_s_ok(s, p) {
        Ok((vbe_s_value(s, p), vbe_end(s, p) + 1))
    } else {
        Err(vbe_err_kind(s, p))
    }
}

/// The length-prefixed string starting at `p`: an unsigned VBE byte length,
/// then that many bytes of UTF-8.
pub open spec fn spec_read_vbe_string(s: Seq<u8>, p: int) -> Result<
    (Seq<char>, int),
    MapforgeError,
> {
    match spec_read_vbe_u(s, p) {
        Err(e) => Err(e),
        Ok((n, p2)) => if p2 + n <= s.len() {
            let bytes = s.subrange(p2, p2 + n);
            if valid_utf8(bytes) {
                Ok((decode_utf8(bytes), p2 + n))
            } else {
                Err(MapforgeError::MalformedString)
            }
        } else {
            Err(MapforgeError::UnexpectedEof)
        },
    }
}

/// Reads an unsigned variable-byte-encoded integer.
///
/// Seven-bit groups arrive least significant first; the high bit of each
/// byte says that another group follows. A value that would not fit in 64
/// bits is rejected with `NumericOverflow` rather than read wrongly.
pub fn read_vbe_u_int(reader: &mut Reader) -> (r: Result<u64, MapforgeError>)
    ensures
        final(reader).data@ == old(reader).data@,
        match spec_read_vbe_u(old(reader).data@, old(reader).pos as int) {
            Ok((v, p2)) => r matches Ok(x) && x as nat == v && final(reader).pos == p2,
            Err(e) => r == Err::<u64, MapforgeError>(e),
        },
{
    let ghost s = reader.data@;
    let ghost p = reader.pos as int;
    let mut value: u64 = 0;
    let mut mult: u64 = 1;
    let mut k: usize = 0;
    loop
        invariant
            old(reader).data@ == s,
            old(reader).pos == p,
            reader.data@ == s,
            reader.pos == p + k,
            k <= 9,
            mult == pow128(k as nat),
            value < mult,
            vbe_end(s, p) == vbe_end(s, p + k),
            vbe_value(s, p) == value + mult * vbe_value(s, p + k),
        decreases 10 - k,
    {
        proof {
            lemma_pow128_monotone(k as nat, 9);
            assert(pow128(8) == 0x100_0000_0000_0000 && pow128(9) == 0x8000_0000_0000_0000) by {
                reveal_with_fuel(pow128, 10);
            }
        }
        let byte = match reader.read_u8() {
            Ok(b) => b,
            Err(e) => {
                proof {
                    assert(vbe_end(s, p + k) == s.len());
                }
                return Err(e);
            },
        };
        let group = (byte & 0x7f) as u64;
        proof {
            assert(byte & 0x7f < 128) by (bit_vector);
            assert(value + group * mult < 128 * mult) by (nonlinear_arith)
                requires
                    value < mult,
                    group < 128,
                    0 < mult,
            ;
        }
        if (byte & 0x80) == 0 {
            // terminal group
            if k == 9 && group > 1 {
                proof {
                    assert(vbe_end(s, p + k) == p + k);
                }
                return Err(MapforgeError::NumericOverflow);
            }
            proof {
                assert(vbe_end(s, p + k) == p + k);
                assert(vbe_value(s, p + k) == group);
                assert(mult * group == group * mult) by (nonlinear_arith);
            }
            return Ok(value + group * mult);
        }
        if k == 9 {
            proof {
                assert(vbe_end(s, p + k) == vbe_end(s, p + k + 1));
                lemma_vbe_end_ge(s, p + k + 1);
            }
            return Err(MapforgeError::NumericOverflow);
        }
        proof {
            assert(vbe_end(s, p + k) == vbe_end(s, p + k + 1));
            assert(vbe_value(s, p + k) == group + 128 * vbe_value(s, p + k + 1));
            let rest = vbe_value(s, p + k + 1);
            assert(mult * (group + 128 * rest) == group * mult + (mult * 128) * rest)
                by (nonlinear_arith);
        }
        proof {
            lemma_pow128_monotone((k + 1) as nat, 9);
        }
        value = value + group * mult;
        mult = mult * 128;
        k = k + 1;
    }
}

/// Reads a signed variable-byte-encoded integer.
///
/// The group layout matches the unsigned form, except that bit 6 of the
/// terminal byte is a sign flag and only that byte's low six bits carry
/// data. A magnitude that would not fit in 63 bits is rejected with
/// `NumericOverflow`.
pub fn read_vbe_s_int(reader: &mut Reader) -> (r: Result<i64, MapforgeError>)
    ensures
        final(reader).data@ == old(reader).data@,
        match spec_read_vbe_s(old(reader).data@, old(reader).pos as int) {
            Ok((v, p2)) => r matches Ok(x) && x as int == v && final(reader).pos == p2,
            Err(e) => r == Err::<i64, MapforgeError>(e),
        },
{
    let ghost s = reader.data@;
    let ghost p = reader.pos as int;
    let mut value: u64 = 0;
    let mut mult: u64 = 1;
    let mut k: usize = 0;
    loop
        invariant
            old(reader).data@ == s,
            old(reader).pos == p,
            reader.data@ == s,
            reader.pos == p + k,
            k <= 9,
            mult == pow128(k as nat),
            value < mult,
            vbe_end(s, p) == vbe_end(s, p + k),
            vbe_s_mag(s, p) == value + mult * vbe_s_mag(s, p + k),
        decreases 10 - k,
    {
        proof {
            lemma_pow128_monotone(k as nat, 9);
            assert(pow128(8) == 0x100_0000_0000_0000 && pow128(9) == 0x8000_0000_0000_0000) by {
                reveal_with_fuel(pow128, 10);
            }
        }
        let byte = match reader.read_u8() {
            Ok(b) => b,
            Err(e) => {
                proof {
                    assert(vbe_end(s, p + k) == s.len());
                }
                return Err(e);
            },
        };
        if (byte & 0x80) == 0 {
            // terminal group: six data bits and the sign flag
            let tgroup = (byte & 0x3f) as u64;
            proof {
                assert(byte & 0x3f < 64) by (bit_vector);
            }
            if k == 9 && tgroup != 0 {
                proof {
                    assert(vbe_end(s, p + k) == p + k);
                }
                return Err(MapforgeError::NumericOverflow);
            }
            proof {
                if k <= 8 {
                    lemma_pow128_monotone(k as nat, 8);
                }
                assert(vbe_end(s, p + k) == p + k);
                assert(vbe_s_mag(s, p + k) == tgroup);
                assert(value + tgroup * mult < 64 * mult) by (nonlinear_arith)
                    requires
                        value < mult,
                        tgroup < 64,
                        0 < mult,
                ;
                assert(mult * tgroup == tgroup * mult) by (nonlinear_arith);
            }
            let mag = value + tgroup * mult;
            if (byte & 0x40) != 0 {
                return Ok(-(mag as i64));
            } else {
                return Ok(mag as i64);
            }
        }
        if k == 9 {
            proof {
                assert(vbe_end(s, p + k) == vbe_end(s, p + k + 1));
                lemma_vbe_end_ge(s, p + k + 1);
            }
            return Err(MapforgeError::NumericOverflow);
        }
        let group = (byte & 0x7f) as u64;
        proof {
            assert(byte & 0x7f < 128) by (bit_vector);
            assert(value + group * mult < 128 * mult) by (nonlinear_arith)
                requires
                    value < mult,
                    group < 128,
                    0 < mult,
            ;
            assert(vbe_end(s, p + k) == vbe_end(s, p + k + 1));
            assert(vbe_s_mag(s, p + k) == group + 128 * vbe_s_mag(s, p + k + 1));
            let rest = vbe_s_mag(s, p + k + 1);
            assert(mult * (group + 128 * rest) == group * mult + (mult * 128) * rest)
                by (nonlinear_arith);
        }
        proof {
            lemma_pow128_monotone((k + 1) as nat, 9);
        }
        value = value + group * mult;
        mult = mult * 128;
        k = k + 1;
    }
}

/// Relies on `String::from_utf8`: it succeeds exactly on valid UTF-8 input
/// and decodes the bytes to the characters that vstd's UTF-8 specification
/// gives.
#[verifier::external_body]
pub(crate) fn bytes_to_string(bytes: Vec<u8>) -> (r: Option<String>)
    ensures
        r matches Some(x) ==> valid_utf8(bytes@) && x@ == decode_utf8(bytes@),
        r is None ==> !valid_utf8(bytes@),
{
    String::from_utf8(bytes).ok()
}

/// Reads a length-prefixed string: an unsigned VBE byte length, then that
/// many bytes decoded as UTF-8. Bytes that are not valid UTF-8 yield
/// `MalformedString`.
pub fn read_vbe_u(reader: &mut Reader) -> (r: Result<String, MapforgeError>)
    ensures
        final(reader).data@ == old(reader).data@,
        match spec_read_vbe_string(old(reader).data@, old(reader).pos as int) {
            Ok((cs, p2)) => r matches Ok(x) && x@ == cs && final(reader).pos == p2,
            Err(e) => r == Err::<String, MapforgeError>(e),
        },
{
    let n = match read_vbe_u_int(reader) {
        Ok(n) => n,
        Err(e) => {
            return Err(e);
        },
    };
    if reader.pos > reader.data.len() || n > (reader.data.len() - reader.pos) as u64 {
        return Err(MapforgeError::UnexpectedEof);
    }
    let bytes = match reader.read_bytes(n as usize) {
        Ok(b) => b,
        Err(e) => {
            return Err(e);
        },
    };
    match bytes_to_string(bytes) {
        Some(x) => Ok(x),
        None => Err(MapforgeError::MalformedString),
    }
}

/// The variable-byte encoding of an unsigned value: seven bits per group,
/// least significant group first, the high bit set on every byte but the
/// last.
pub open spec fn spec_encode_vbe_u(n: nat) -> Seq<u8>
    decreases n,
{
    if n < 128 {
        seq![n as u8]
    } else {
        seq![((n % 128) + 128) as u8] + spec_encode_vbe_u(n / 128)
    }
}

/// The variable-byte encoding of a signed magnitude: as the unsigned form,
/// but the terminal byte carries only six data bits plus the sign flag.
pub open spec fn spec_encode_vbe_s_mag(m: nat, neg: bool) -> Seq<u8>
    decreases m,
{
    if m < 64 {
        if neg {
            seq![(m + 0x40) as u8]
        } else {
            seq![m as u8]
        }
    } else {
        seq![((m % 128) + 128) as u8] + spec_encode_vbe_s_mag(m / 128, neg)
    }
}

/// The variable-byte encoding of a signed value.
pub open spec fn spec_encode_vbe_s(v: int) -> Seq<u8> {
    if v < 0 {
        spec_encode_vbe_s_mag((-v) as nat, true)
    } else {
        spec_encode_vbe_s_mag(v as nat, false)
    }
}

/// Encodes an unsigned integer with variable-byte encoding.
pub fn encode_vbe_u(n: u64) -> (r: Vec<u8>)
    ensures
        r@ == spec_encode_vbe_u(n as nat),
{
    let mut out: Vec<u8> = Vec::new();
    let mut m: u64 = n;
    loop
        invariant
            spec_encode_vbe_u(n as nat) == out@ + spec_encode_vbe_u(m as nat),
        decreases m,
    {
        if m < 128 {
            out.push(m as u8);
            proof {
                assert(spec_encode_vbe_u(n as nat) =~= out@);
            }
            return out;
        }
        out.push((m % 128 + 128) as u8);
        proof {
            assert(spec_encode_vbe_u(n as nat) =~= out@ + spec_encode_vbe_u((m / 128) as nat));
        }
        m = m / 128;
    }
}

/// Encodes a signed integer with variable-byte encoding. `i64::MIN` is
/// excluded: its magnitude does not fit the 63 bits the signed decoder
/// accepts.
pub fn encode_vbe_s(v: i64) -> (r: Vec<u8>)
    requires
        v != i64::MIN,
    ensures
        r@ == spec_encode_vbe_s(v as int),
{
    let neg = v < 0;
    let mut out: Vec<u8> = Vec::new();
    let mut m: u64 = if neg {
        (-v) as u64
    } else {
        v as u64
    };
    loop
        invariant
            spec_encode_vbe_s(v as int) == out@ + spec_encode_vbe_s_mag(m as nat, neg),
        decreases m,
    {
        if m < 64 {
            if neg {
                out.push((m + 0x40) as u8);
            } else {
                out.push(m as u8);
            }
            proof {
                assert(spec_encode_vbe_s(v as int) =~= out@);
            }
            return out;
        }
        out.push((m % 128 + 128) as u8);
        proof {
            assert(spec_encode_vbe_s(v as int) =~= out@ + spec_encode_vbe_s_mag(
                (m / 128) as nat,
                neg,
            ));
        }
        m = m / 128;
    }
}

/// Where an unsigned encoding sits inside a larger stream, decoding finds
/// its terminal byte and recovers the encoded value.
proof fn lemma_vbe_u_decode_at(s: Seq<u8>, p: int, n: nat)
    requires
        0 <= p,
        p + spec_encode_vbe_u(n).len() <= s.len(),
        s.subrange(p, p + spec_encode_vbe_u(n).len() as int) == spec_encode_vbe_u(n),
    ensures
        vbe_end(s, p) == p + spec_encode_vbe_u(n).len() - 1,
        vbe_value(s, p) == n,
    decreases n,
{
    let enc = spec_encode_vbe_u(n);
    if n < 128 {
        let b = n as u8;
        assert(s[p] == enc[0]);
        assert(b & 0x80 == 0 && b & 0x7f == b) by (bit_vector)
            requires
                b < 128,
        ;
    } else {
        let g = (n % 128) as u8;
        assert(s[p] == enc[0]);
        assert(((g + 128) as u8) & 0x80 != 0 && ((g + 128) as u8) & 0x7f == g) by (bit_vector)
            requires
                g < 128,
        ;
        let enc2 = spec_encode_vbe_u(n / 128);
        assert forall|j: int| 0 <= j < enc2.len() implies s.subrange(
            p + 1,
            p + 1 + enc2.len() as int,
        )[j] == enc2[j] by {
            assert(s.subrange(p, p + enc.len() as int)[j + 1] == enc[j + 1]);
        }
        assert(s.subrange(p + 1, p + 1 + enc2.len() as int) =~= enc2);
        lemma_vbe_u_decode_at(s, p + 1, n / 128);
        vstd::arithmetic::div_mod::lemma_fundamental_div_mod(n as int, 128);
    }
}

/// As `lemma_vbe_u_decode_at`, for the signed encoding: the terminal byte
/// carries the sign flag and the low six magnitude bits.
proof fn lemma_vbe_s_decode_at(s: Seq<u8>, p: int, m: nat, neg: bool)
    requires
        0 <= p,
        p + spec_encode_vbe_s_mag(m, neg).len() <= s.len(),
        s.subrange(p, p + spec_encode_vbe_s_mag(m, neg).len() as int) == spec_encode_vbe_s_mag(
            m,
            neg,
        ),
    ensures
        vbe_end(s, p) == p + spec_encode_vbe_s_mag(m, neg).len() - 1,
        vbe_s_mag(s, p) == m,
        (s[vbe_end(s, p)] & 0x40 != 0) == neg,
    decreases m,
{
    let enc = spec_encode_vbe_s_mag(m, neg);
    if m < 64 {
        assert(s[p] == enc[0]);
        let b = m as u8;
        if neg {
            assert(((b + 0x40) as u8) & 0x80 == 0 && ((b + 0x40) as u8) & 0x3f == b && ((b
                + 0x40) as u8) & 0x40 != 0) by (bit_vector)
                requires
                    b < 64,
            ;
        } else {
            assert(b & 0x80 == 0 && b & 0x3f == b && b & 0x40 == 0) by (bit_vector)
                requires
                    b < 64,
            ;
        }
    } else {
        let g = (m % 128) as u8;
        assert(s[p] == enc[0]);
        assert(((g + 128) as u8) & 0x80 != 0 && ((g + 128) as u8) & 0x7f == g) by (bit_vector)
            requires
                g < 128,
        ;
        let enc2 = spec_encode_vbe_s_mag(m / 128, neg);
        assert forall|j: int| 0 <= j < enc2.len() implies s.subrange(
            p + 1,
            p + 1 + enc2.len() as int,
        )[j] == enc2[j] by {
            assert(s.subrange(p, p + enc.len() as int)[j + 1] == enc[j + 1]);
        }
        assert(s.subrange(p + 1, p + 1 + enc2.len() as int) =~= enc2);
        lemma_vbe_s_decode_at(s, p + 1, m / 128, neg);
        vstd::arithmetic::div_mod::lemma_fundamental_div_mod(m as int, 128);
    }
}

/// Size and top group of an unsigned encoding: `n` lies below the weight
/// just past the last group, at or above the weight of the last group, and
/// the last byte is the top group itself.
proof fn lemma_encode_vbe_u_len(n: nat)
    ensures
        1 <= spec_encode_vbe_u(n).len(),
        n < pow128(spec_encode_vbe_u(n).len() as nat),
        spec_encode_vbe_u(n).len() >= 2 ==> pow128((spec_encode_vbe_u(n).len() - 1) as nat) <= n,
        spec_encode_vbe_u(n).last() as nat == n / pow128((spec_encode_vbe_u(n).len() - 1) as nat),
    decreases n,
{
    let enc = spec_encode_vbe_u(n);
    if n < 128 {
        assert(pow128(0) == 1 && pow128(1) == 128) by {
            reveal_with_fuel(pow128, 2);
        }
        assert(n / pow128(0) == n);
    } else {
        lemma_encode_vbe_u_len(n / 128);
        let enc2 = spec_encode_vbe_u(n / 128);
        let l2 = enc2.len();
        vstd::arithmetic::div_mod::lemma_fundamental_div_mod(n as int, 128);
        assert(n < 128 * pow128(l2)) by (nonlinear_arith)
            requires
                n / 128 < pow128(l2),
                n == 128 * (n / 128) + n % 128,
                n % 128 < 128,
        ;
        assert(pow128((l2 + 1) as nat) == 128 * pow128(l2));
        if l2 >= 2 {
            assert(128 * pow128((l2 - 1) as nat) <= n) by (nonlinear_arith)
                requires
                    pow128((l2 - 1) as nat) <= n / 128,
                    n == 128 * (n / 128) + n % 128,
                    0 <= n % 128,
            ;
        } else {
            assert(pow128(1) == 128) by {
                reveal_with_fuel(pow128, 2);
            }
        }
        vstd::arithmetic::div_mod::lemma_div_denominator(n as int, 128, pow128((l2 - 1) as nat) as int);
        assert(enc.last() == enc2.last());
    }
}

/// As `lemma_encode_vbe_u_len`, for the signed encoding, whose terminal
/// group holds six bits.
proof fn lemma_encode_vbe_s_len(m: nat, neg: bool)
    ensures
        1 <= spec_encode_vbe_s_mag(m, neg).len(),
        m < 64 * pow128((spec_encode_vbe_s_mag(m, neg).len() - 1) as nat),
        spec_encode_vbe_s_mag(m, neg).len() >= 2 ==> 64 * pow128(
            (spec_encode_vbe_s_mag(m, neg).len() - 2) as nat,
        ) <= m,
        (spec_encode_vbe_s_mag(m, neg).last() & 0x3f) as nat == m / pow128(
            (spec_encode_vbe_s_mag(m, neg).len() - 1) as nat,
        ),
    decreases m,
{
    let enc = spec_encode_vbe_s_mag(m, neg);
    if m < 64 {
        assert(pow128(0) == 1) by {
            reveal_with_fuel(pow128, 1);
        }
        assert(m / pow128(0) == m);
        let b = m as u8;
        if neg {
            assert(((b + 0x40) as u8) & 0x3f == b) by (bit_vector)
                requires
                    b < 64,
            ;
        } else {
            assert(b & 0x3f == b) by (bit_vector)
                requires
                    b < 64,
            ;
        }
    } else {
        lemma_encode_vbe_s_len(m / 128, neg);
        let enc2 = spec_encode_vbe_s_mag(m / 128, neg);
        let l2 = enc2.len();
        vstd::arithmetic::div_mod::lemma_fundamental_div_mod(m as int, 128);
        assert(m < 64 * (128 * pow128((l2 - 1) as nat))) by (nonlinear_arith)
            requires
                m / 128 < 64 * pow128((l2 - 1) as nat),
                m == 128 * (m / 128) + m % 128,
                m % 128 < 128,
        ;
        assert(pow128(l2) == 128 * pow128((l2 - 1) as nat));
        if l2 >= 2 {
            assert(64 * pow128((l2 - 1) as nat) == 128 * (64 * pow128((l2 - 2) as nat)));
            assert(128 * (64 * pow128((l2 - 2) as nat)) <= m) by (nonlinear_arith)
                requires
                    64 * pow128((l2 - 2) as nat) <= m / 128,
                    m == 128 * (m / 128) + m % 128,
                    0 <= m % 128,
            ;
        } else {
            assert(pow128(0) == 1) by {
                reveal_with_fuel(pow128, 1);
            }
        }
        vstd::arithmetic::div_mod::lemma_div_denominator(m as int, 128, pow128((l2 - 1) as nat) as int);
        assert(enc.last() == enc2.last());
    }
}

/// Law: encoding any unsigned 64-bit value with variable-byte encoding and
/// decoding the result returns the same value, consuming exactly the
/// encoded bytes.
pub proof fn lemma_vbe_u_round_trip(n: u64)
    ensures
        spec_read_vbe_u(spec_encode_vbe_u(n as nat), 0) == Ok::<(nat, int), MapforgeError>(
            (n as nat, spec_encode_vbe_u(n as nat).len() as int),
        ),
{
    let enc = spec_encode_vbe_u(n as nat);
    lemma_encode_vbe_u_len(n as nat);
    assert(pow128(9) == 0x8000_0000_0000_0000 && pow128(10) == 0x40_0000_0000_0000_0000) by {
        reveal_with_fuel(pow128, 11);
    }
    if enc.len() >= 11 {
        lemma_pow128_monotone(10, (enc.len() - 1) as nat);
        assert(false);
    }
    assert(enc.subrange(0, enc.len() as int) =~= enc);
    lemma_vbe_u_decode_at(enc, 0, n as nat);
    let e = vbe_end(enc, 0);
    assert(e == enc.len() - 1);
    if enc.len() == 10 {
        assert(enc[e] == enc.last());
        assert(n as nat / pow128(9) <= 1) by (nonlinear_arith)
            requires
                (n as nat) < 2 * pow128(9),
                pow128(9) == 0x8000_0000_0000_0000,
        ;
        let b = enc.last();
        assert(b < 2 ==> b & 0x7f <= 1) by (bit_vector);
    } else {
        assert(enc.len() <= 9);
    }
    assert(vbe_u_ok(enc, 0));
}

/// Law: encoding any signed 64-bit value other than `i64::MIN` with
/// variable-byte encoding and decoding the result returns the same value,
/// consuming exactly the encoded bytes.
pub proof fn lemma_vbe_s_round_trip(v: i64)
    requires
        v != i64::MIN,
    ensures
        spec_read_vbe_s(spec_encode_vbe_s(v as int), 0) == Ok::<(int, int), MapforgeError>(
            (v as int, spec_encode_vbe_s(v as int).len() as int),
        ),
{
    let neg = v < 0;
    let m: nat = if v < 0 {
        (-(v as int)) as nat
    } else {
        v as nat
    };
    let enc = spec_encode_vbe_s(v as int);
    assert(enc == spec_encode_vbe_s_mag(m, neg));
    lemma_encode_vbe_s_len(m, neg);
    assert(pow128(9) == 0x8000_0000_0000_0000 && pow128(10) == 0x40_0000_0000_0000_0000) by {
        reveal_with_fuel(pow128, 11);
    }
    if enc.len() >= 11 {
        lemma_pow128_monotone(9, (enc.len() - 2) as nat);
        assert(false);
    }
    assert(enc.subrange(0, enc.len() as int) =~= enc);
    lemma_vbe_s_decode_at(enc, 0, m, neg);
    let e = vbe_end(enc, 0);
    assert(e == enc.len() - 1);
    if enc.len() == 10 {
        assert(enc[e] == enc.last());
        assert(m / pow128(9) == 0) by (nonlinear_arith)
            requires
                m < pow128(9),
                pow128(9) == 0x8000_0000_0000_0000,
        ;
    } else {
        assert(enc.len() <= 9);
    }
    assert(vbe_s_ok(enc, 0));
    if neg {
        assert(vbe_s_value(enc, 0) == -(m as int));
    } else {
        assert(vbe_s_value(enc, 0) == m as int);
    }
}

/// 31 to the power `e`, in wrapping `usize` arithmetic: the weight the tag
/// hash gives one character.
pub open spec fn wrap_pow31(e: nat) -> usize
    decreases e,
{
    if e == 0 {
        1usize
    } else {
        vstd::wrapping::usize_specs::wrapping_mul(wrap_pow31((e - 1) as nat), 31)
    }
}

/// The tag hash accumulated over the characters of `s` from `i` on,
/// starting from `acc`: each step adds the character and multiplies by a
/// power of 31, all wrapping.
pub open spec fn tag_hash_from(s: Seq<char>, i: int, acc: usize) -> usize
    decreases s.len() - i,
{
    if i < 0 || i >= s.len() {
        acc
    } else {
        tag_hash_from(
            s,
            i + 1,
            vstd::wrapping::usize_specs::wrapping_mul(
                vstd::wrapping::usize_specs::wrapping_add(acc, s[i] as usize),
                wrap_pow31((s.len() - i + 1) as nat),
            ),
        )
    }
}

/// The hash code of a tag key or value.
pub open spec fn tag_hash(s: Seq<char>) -> usize {
    tag_hash_from(s, 0, 0)
}

/// 31 to the power `e`, wrapping.
fn pow31(e: usize) -> (r: usize)
    ensures
        r == wrap_pow31(e as nat),
{
    let mut r: usize = 1;
    let mut k: usize = 0;
    while k < e
        invariant
            k <= e,
            r == wrap_pow31(k as nat),
        decreases e - k,
    {
        r = r.wrapping_mul(31);
        k = k + 1;
    }
    r
}

/// The hash code of a tag key or value: each character added to the
/// running hash, the sum scaled by a position-dependent power of 31, all in
/// wrapping arithmetic.
pub fn hash_tag_parameter(key_value: &str) -> (r: usize)
    ensures
        r == tag_hash(key_value@),
{
    let n = key_value.unicode_len();
    let mut hash: usize = 0;
    let mut i: usize = 0;
    while i < n
        invariant
            i <= n,
            n == key_value@.len(),
            tag_hash(key_value@) == tag_hash_from(key_value@, i as int, hash),
        decreases n - i,
    {
        let c = key_value.get_char(i);
        let w = pow31(n - i).wrapping_mul(31);
        hash = hash.wrapping_add(c as usize).wrapping_mul(w);
        i = i + 1;
    }
    hash
}

/// The index of the first character at or after `i` that is not a space,
/// or `s.len()` when all of them are.
pub open spec fn trim_start_idx(s: Seq<char>, i: int) -> int
    decreases s.len() - i,
{
    if i < 0 || i >= s.len() {
        s.len() as int
    } else if s[i] == ' ' {
        trim_start_idx(s, i + 1)
    } else {
        i
    }
}

/// The position just past the last character before `i` that is not a
/// space, or 0 when all of them are.
pub open spec fn trim_end_idx(s: Seq<char>, i: int) -> int
    decreases i,
{
    if i <= 0 || i > s.len() {
        0
    } else if s[i - 1] == ' ' {
        trim_end_idx(s, i - 1)
    } else {
        i
    }
}

/// The end index of a trim never exceeds where it started from.
proof fn lemma_trim_end_le(s: Seq<char>, i: int)
    requires
        i <= s.len(),
    ensures
        0 <= trim_end_idx(s, i),
        trim_end_idx(s, i) <= s.len(),
        i >= 0 ==> trim_end_idx(s, i) <= i,
    decreases i,
{
    if i > 0 && s[i - 1] == ' ' {
        lemma_trim_end_le(s, i - 1);
    }
}

/// `s` with its leading and trailing space padding removed.
pub open spec fn spec_trim_spaces(s: Seq<char>) -> Seq<char> {
    let a = trim_start_idx(s, 0);
    let b = trim_end_idx(s, s.len() as int);
    if a < b {
        s.subrange(a, b)
    } else {
        Seq::empty()
    }
}

/// True when `a`, with leading and trailing space padding removed, holds
/// the same characters as `b`.
pub fn str_eq_trimmed(a: &str, b: &str) -> (r: bool)
    ensures
        r == (spec_trim_spaces(a@) == b@),
{
    let n = a.unicode_len();
    let m = b.unicode_len();
    let mut start: usize = 0;
    while start < n && a.get_char(start) == ' '
        invariant
            start <= n,
            n == a@.len(),
            trim_start_idx(a@, 0) == trim_start_idx(a@, start as int),
        decreases n - start,
    {
        start = start + 1;
    }
    if start == n {
        // all spaces: the trimmed string is empty
        proof {
            assert(trim_start_idx(a@, 0) == n);
            lemma_trim_end_le(a@, n as int);
            assert(spec_trim_spaces(a@) =~= Seq::<char>::empty());
            if m == 0 {
                assert(b@ =~= Seq::<char>::empty());
            }
        }
        return m == 0;
    }
    let mut end: usize = n;
    while end > start && a.get_char(end - 1) == ' '
        invariant
            start < n,
            start < end <= n,
            n == a@.len(),
            a@[start as int] != ' ',
            trim_end_idx(a@, n as int) == trim_end_idx(a@, end as int),
        decreases end,
    {
        end = end - 1;
    }
    proof {
        assert(end > start);
        assert(trim_end_idx(a@, n as int) == end);
        assert(trim_start_idx(a@, 0) == start);
    }
    if end - start != m {
        proof {
            assert(spec_trim_spaces(a@).len() != b@.len());
        }
        return false;
    }
    let mut i: usize = 0;
    while i < m
        invariant
            i <= m,
            m == b@.len(),
            n == a@.len(),
            start < end,
            start + m == end <= n,
            trim_start_idx(a@, 0) == start as int,
            trim_end_idx(a@, n as int) == end as int,
            forall|j: int| 0 <= j < i ==> a@[start + j] == b@[j],
        decreases m - i,
    {
        if a.get_char(start + i) != b.get_char(i) {
            proof {
                assert(spec_trim_spaces(a@)[i as int] != b@[i as int]);
            }
            return false;
        }
        i = i + 1;
    }
    proof {
        assert(spec_trim_spaces(a@) =~= b@);
    }
    true
}

/// True when two strings hold the same characters.
pub fn str_eq(a: &str, b: &str) -> (r: bool)
    ensures
        r == (a@ == b@),
{
    let n = a.unicode_len();
    if n != b.unicode_len() {
        proof {
            assert(a@ != b@);
        }
        return false;
    }
    let mut i: usize = 0;
    while i < n
        invariant
            i <= n,
            n == a@.len(),
            n == b@.len(),
            forall|j: int| 0 <= j < i ==> a@[j] == b@[j],
        decreases n - i,
    {
        if a.get_char(i) != b.get_char(i) {
            return false;
        }
        i = i + 1;
    }
    proof {
        assert(a@ =~= b@);
    }
    true
}

/// Resolves one tag id against a tag dictionary: the entry is split on its
/// first `=` and both halves are hashed. An id at or beyond the
/// dictionary's length yields `TagIndexOutOfRange`, never a crash.
pub fn decode_poi_tag(tags: &Vec<String>, tag_id: u64) -> (r: Result<Tag, MapforgeError>)
    ensures
        tag_id < tags@.len() ==> (r matches Ok(t) && t@ == spec_resolve_tag(
            strings_view(tags@)[tag_id as int],
        )),
        tag_id >= tags@.len() ==> r == Err::<Tag, MapforgeError>(
            MapforgeError::TagIndexOutOfRange(tag_id, tags@.len() as usize),
        ),
{
    if tag_id < tags.len() as u64 {
        let entry = &tags[tag_id as usize];
        let (key, value) = split_tag(entry.as_str());
        Ok(Tag::new(key.as_str(), value.as_str()))
    } else {
        Err(MapforgeError::TagIndexOutOfRange(tag_id, tags.len()))
    }
}

} // verus!
