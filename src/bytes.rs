use vstd::prelude::*;

use crate::error::Error;

verus! {

/// `n` bytes are available at position `p`.
pub open spec fn fits(s: Seq<u8>, p: int, n: int) -> bool {
    0 <= p && 0 <= n && p + n <= s.len()
}

/// The big-endian 16-bit value at `p`.
pub open spec fn be16(s: Seq<u8>, p: int) -> int {
    s[p] as int * 256 + s[p + 1] as int
}

/// The big-endian 32-bit value at `p`.
pub open spec fn be32(s: Seq<u8>, p: int) -> int {
    be16(s, p) * 65536 + be16(s, p + 2)
}

/// The little-endian 16-bit value at `p`.
pub open spec fn le16(s: Seq<u8>, p: int) -> int {
    s[p] as int + s[p + 1] as int * 256
}

/// The little-endian 32-bit value at `p`.
pub open spec fn le32(s: Seq<u8>, p: int) -> int {
    le16(s, p) + le16(s, p + 2) * 65536
}

/// Reads the byte at `p`.
pub fn read_u8(b: &[u8], p: usize) -> (r: Result<u8, Error>)
    ensures
        b@.len() <= usize::MAX,
        match r {
            Ok(v) => fits(b@, p as int, 1) && v == b@[p as int],
            Err(e) => !fits(b@, p as int, 1) && e == Error::Truncated,
        },
{
    if p < b.len() {
        Ok(b[p])
    } else {
        Err(Error::Truncated)
    }
}

/// Reads a big-endian `u16` at `p`.
pub fn read_be_u16(b: &[u8], p: usize) -> (r: Result<u16, Error>)
    ensures
        b@.len() <= usize::MAX,
        match r {
            Ok(v) => fits(b@, p as int, 2) && v == be16(b@, p as int),
            Err(e) => !fits(b@, p as int, 2) && e == Error::Truncated,
        },
{
    if p < b.len() && b.len() - p >= 2 {
        Ok((b[p] as u16) * 256 + b[p + 1] as u16)
    } else {
        Err(Error::Truncated)
    }
}

/// Reads a big-endian `u32` at `p`.
pub fn read_be_u32(b: &[u8], p: usize) -> (r: Result<u32, Error>)
    ensures
        b@.len() <= usize::MAX,
        match r {
            Ok(v) => fits(b@, p as int, 4) && v == be32(b@, p as int),
            Err(e) => !fits(b@, p as int, 4) && e == Error::Truncated,
        },
{
    if p < b.len() && b.len() - p >= 4 {
        let hi = (b[p] as u32) * 256 + b[p + 1] as u32;
        let lo = (b[p + 2] as u32) * 256 + b[p + 3] as u32;
        Ok(hi * 65536 + lo)
    } else {
        Err(Error::Truncated)
    }
}

/// Reads a little-endian `u16` at `p`.
pub fn read_le_u16(b: &[u8], p: usize) -> (r: Result<u16, Error>)
    ensures
        b@.len() <= usize::MAX,
        match r {
            Ok(v) => fits(b@, p as int, 2) && v == le16(b@, p as int),
            Err(e) => !fits(b@, p as int, 2) && e == Error::Truncated,
        },
{
    if p < b.len() && b.len() - p >= 2 {
        Ok(b[p] as u16 + (b[p + 1] as u16) * 256)
    } else {
        Err(Error::Truncated)
    }
}

/// Reads a little-endian `u32` at `p`.
pub fn read_le_u32(b: &[u8], p: usize) -> (r: Result<u32, Error>)
    ensures
        b@.len() <= usize::MAX,
        match r {
            Ok(v) => fits(b@, p as int, 4) && v == le32(b@, p as int),
            Err(e) => !fits(b@, p as int, 4) && e == Error::Truncated,
        },
{
    if p < b.len() && b.len() - p >= 4 {
        let lo = b[p] as u32 + (b[p + 1] as u32) * 256;
        let hi = b[p + 2] as u32 + (b[p + 3] as u32) * 256;
        Ok(lo + hi * 65536)
    } else {
        Err(Error::Truncated)
    }
}

} // verus!
