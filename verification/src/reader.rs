//! A cursor over an in-memory byte buffer, together with the specification
//! functions that say exactly which bytes each primitive read consumes and
//! what value it yields.

use crate::error::MapforgeError;
use vstd::prelude::*;

verus! {

/// 256 to the power `n`: the number of values an `n`-byte big-endian field
/// can take.
pub open spec fn pow256(n: nat) -> nat
    decreases n,
{
    if n == 0 {
        1
    } else {
        256 * pow256((n - 1) as nat)
    }
}

pub proof fn lemma_pow256_monotone(a: nat, b: nat)
    requires
        a <= b,
    ensures
        pow256(a) <= pow256(b),
    decreases b,
{
    if a < b {
        lemma_pow256_monotone(a, (b - 1) as nat);
    }
}

/// The value of the `n` bytes starting at `p` read as a big-endian unsigned
/// integer.
pub open spec fn be_val(s: Seq<u8>, p: int, n: nat) -> nat
    recommends
        0 <= p,
        p + n <= s.len(),
    decreases n,
{
    if n == 0 {
        0
    } else {
        (be_val(s, p, (n - 1) as nat) * 256 + s[p + n - 1]) as nat
    }
}

pub proof fn lemma_be_val_bound(s: Seq<u8>, p: int, n: nat)
    requires
        0 <= p,
        p + n <= s.len(),
    ensures
        be_val(s, p, n) < pow256(n),
    decreases n,
{
    if n > 0 {
        lemma_be_val_bound(s, p, (n - 1) as nat);
        assert(be_val(s, p, (n - 1) as nat) * 256 + 256 <= pow256((n - 1) as nat) * 256)
            by (nonlinear_arith)
            requires
                be_val(s, p, (n - 1) as nat) < pow256((n - 1) as nat),
        ;
    }
}

/// Reinterpretation of a 32-bit unsigned value as a two's-complement signed
/// one.
pub open spec fn to_i32(n: nat) -> int
    recommends
        n < 0x1_0000_0000,
{
    if n < 0x8000_0000 {
        n as int
    } else {
        n - 0x1_0000_0000
    }
}

/// One byte at `p`, or `UnexpectedEof` past the end.
pub open spec fn spec_read_u8(s: Seq<u8>, p: int) -> Result<(u8, int), MapforgeError> {
    if 0 <= p && p < s.len() {
        Ok((s[p], p + 1))
    } else {
        Err(MapforgeError::UnexpectedEof)
    }
}

/// `n` raw bytes starting at `p`.
pub open spec fn spec_read_bytes(s: Seq<u8>, p: int, n: nat) -> Result<
    (Seq<u8>, int),
    MapforgeError,
> {
    if 0 <= p && p + n <= s.len() {
        Ok((s.subrange(p, p + n), p + n))
    } else {
        Err(MapforgeError::UnexpectedEof)
    }
}

/// The `n`-byte big-endian unsigned integer starting at `p`.
pub open spec fn spec_read_be(s: Seq<u8>, p: int, n: nat) -> Result<(nat, int), MapforgeError> {
    if 0 <= p && p + n <= s.len() {
        Ok((be_val(s, p, n), p + n))
    } else {
        Err(MapforgeError::UnexpectedEof)
    }
}

/// A cursor-positioned view of a byte buffer. All decoding in this crate
/// consumes bytes strictly forward through one of these; seeking is only
/// used to jump to a subfile start.
#[derive(Debug)]
pub struct Reader {
    pub data: Vec<u8>,
    pub pos: usize,
}

impl Reader {
    /// A reader positioned at the start of `data`.
    pub fn new(data: Vec<u8>) -> (r: Reader)
        ensures
            r.data@ == data@,
            r.pos == 0,
    {
        Reader { data, pos: 0 }
    }

    /// Repositions the cursor at absolute offset `p`.
    pub fn seek(&mut self, p: u64) -> (r: Result<(), MapforgeError>)
        ensures
            final(self).data@ == old(self).data@,
            p <= old(self).data@.len() ==> r == Ok::<(), MapforgeError>(()) && final(self).pos
                == p,
            p > old(self).data@.len() ==> r == Err::<(), MapforgeError>(
                MapforgeError::UnexpectedEof,
            ) && final(self).pos == old(self).pos,
    {
        if p <= self.data.len() as u64 {
            self.pos = p as usize;
            Ok(())
        } else {
            Err(MapforgeError::UnexpectedEof)
        }
    }

    /// Reads one byte and advances.
    pub fn read_u8(&mut self) -> (r: Result<u8, MapforgeError>)
        ensures
            final(self).data@ == old(self).data@,
            match spec_read_u8(old(self).data@, old(self).pos as int) {
                Ok((b, p2)) => r == Ok::<u8, MapforgeError>(b) && final(self).pos == p2,
                Err(e) => r == Err::<u8, MapforgeError>(e) && final(self).pos == old(self).pos,
            },
    {
        if self.pos < self.data.len() {
            let b = self.data[self.pos];
            self.pos = self.pos + 1;
            Ok(b)
        } else {
            Err(MapforgeError::UnexpectedEof)
        }
    }

    /// Reads `n` raw bytes and advances.
    pub fn read_bytes(&mut self, n: usize) -> (r: Result<Vec<u8>, MapforgeError>)
        ensures
            final(self).data@ == old(self).data@,
            match spec_read_bytes(old(self).data@, old(self).pos as int, n as nat) {
                Ok((b, p2)) => r matches Ok(v) && v@ == b && final(self).pos == p2,
                Err(e) => r == Err::<Vec<u8>, MapforgeError>(e) && final(self).pos == old(
                    self,
                ).pos,
            },
    {
        if self.pos > self.data.len() || n > self.data.len() - self.pos {
            return Err(MapforgeError::UnexpectedEof);
        }
        let ghost s = self.data@;
        let ghost p = self.pos as int;
        let mut out: Vec<u8> = Vec::new();
        let mut i: usize = 0;
        while i < n
            invariant
                i <= n,
                self.data@ == s,
                self.pos == p + i,
                0 <= p,
                p + n <= s.len(),
                s.len() <= usize::MAX,
                out@ == s.subrange(p, p + i),
            decreases n - i,
        {
            let b = self.data[self.pos];
            out.push(b);
            proof {
                assert(out@ == s.subrange(p, p + i + 1));
            }
            self.pos = self.pos + 1;
            i = i + 1;
        }
        Ok(out)
    }

    /// Reads an `n`-byte big-endian unsigned integer, `n` at most 8.
    pub(crate) fn read_be(&mut self, n: usize) -> (r: Result<u64, MapforgeError>)
        requires
            n <= 8,
        ensures
            final(self).data@ == old(self).data@,
            match spec_read_be(old(self).data@, old(self).pos as int, n as nat) {
                Ok((v, p2)) => r matches Ok(x) && x as nat == v && final(self).pos == p2,
                Err(e) => r == Err::<u64, MapforgeError>(e) && final(self).pos == old(self).pos,
            },
    {
        if self.pos > self.data.len() || n > self.data.len() - self.pos {
            return Err(MapforgeError::UnexpectedEof);
        }
        let ghost s = self.data@;
        let ghost p = self.pos as int;
        let mut val: u64 = 0;
        let mut i: usize = 0;
        while i < n
            invariant
                i <= n,
                n <= 8,
                self.data@ == s,
                self.pos == p + i,
                0 <= p,
                p + n <= s.len(),
                s.len() <= usize::MAX,
                val as nat == be_val(s, p, i as nat),
                val < pow256(i as nat),
            decreases n - i,
        {
            let b = self.data[self.pos];
            proof {
                lemma_pow256_monotone((i + 1) as nat, 8);
                assert(pow256(8) == 0x1_0000_0000_0000_0000) by {
                    reveal_with_fuel(pow256, 9);
                }
                assert(val * 256 + b < 256 * pow256(i as nat)) by (nonlinear_arith)
                    requires
                        val < pow256(i as nat),
                        b < 256,
                ;
            }
            val = val * 256 + (b as u64);
            self.pos = self.pos + 1;
            i = i + 1;
        }
        Ok(val)
    }

    /// Reads a big-endian `u16`.
    pub fn read_u16_be(&mut self) -> (r: Result<u16, MapforgeError>)
        ensures
            final(self).data@ == old(self).data@,
            match spec_read_be(old(self).data@, old(self).pos as int, 2) {
                Ok((v, p2)) => r matches Ok(x) && x as nat == v && final(self).pos == p2,
                Err(e) => r == Err::<u16, MapforgeError>(e) && final(self).pos == old(self).pos,
            },
    {
        proof {
            if 0 <= old(self).pos as int && old(self).pos + 2 <= old(self).data@.len() {
                lemma_be_val_bound(old(self).data@, old(self).pos as int, 2);
                assert(pow256(2) == 0x1_0000) by {
                    reveal_with_fuel(pow256, 3);
                }
            }
        }
        match self.read_be(2) {
            Ok(v) => Ok(v as u16),
            Err(e) => Err(e),
        }
    }

    /// Reads a big-endian `u32`.
    pub fn read_u32_be(&mut self) -> (r: Result<u32, MapforgeError>)
        ensures
            final(self).data@ == old(self).data@,
            match spec_read_be(old(self).data@, old(self).pos as int, 4) {
                Ok((v, p2)) => r matches Ok(x) && x as nat == v && final(self).pos == p2,
                Err(e) => r == Err::<u32, MapforgeError>(e) && final(self).pos == old(self).pos,
            },
    {
        proof {
            if 0 <= old(self).pos as int && old(self).pos + 4 <= old(self).data@.len() {
                lemma_be_val_bound(old(self).data@, old(self).pos as int, 4);
                assert(pow256(4) == 0x1_0000_0000) by {
                    reveal_with_fuel(pow256, 5);
                }
            }
        }
        match self.read_be(4) {
            Ok(v) => Ok(v as u32),
            Err(e) => Err(e),
        }
    }

    /// Reads a big-endian `u64`.
    pub fn read_u64_be(&mut self) -> (r: Result<u64, MapforgeError>)
        ensures
            final(self).data@ == old(self).data@,
            match spec_read_be(old(self).data@, old(self).pos as int, 8) {
                Ok((v, p2)) => r matches Ok(x) && x as nat == v && final(self).pos == p2,
                Err(e) => r == Err::<u64, MapforgeError>(e) && final(self).pos == old(self).pos,
            },
    {
        self.read_be(8)
    }

    /// Reads a big-endian two's-complement `i32`.
    pub fn read_i32_be(&mut self) -> (r: Result<i32, MapforgeError>)
        ensures
            final(self).data@ == old(self).data@,
            match spec_read_be(old(self).data@, old(self).pos as int, 4) {
                Ok((v, p2)) => r matches Ok(x) && x as int == to_i32(v) && final(self).pos == p2,
                Err(e) => r == Err::<i32, MapforgeError>(e) && final(self).pos == old(self).pos,
            },
    {
        proof {
            if 0 <= old(self).pos as int && old(self).pos + 4 <= old(self).data@.len() {
                lemma_be_val_bound(old(self).data@, old(self).pos as int, 4);
                assert(pow256(4) == 0x1_0000_0000) by {
                    reveal_with_fuel(pow256, 5);
                }
            }
        }
        match self.read_be(4) {
            Ok(v) => {
                let u = v as u32;
                if u >= 0x8000_0000 {
                    let low = (u - 0x8000_0000) as i32;
                    Ok(low - 0x7fff_ffff - 1)
                } else {
                    Ok(u as i32)
                }
            },
            Err(e) => Err(e),
        }
    }
}

} // verus!
