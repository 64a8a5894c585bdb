use vstd::prelude::*;

use crate::bytes::fits;
use crate::error::Error;

verus! {

/// The code point that the 1 to 4 byte sequence at `p` encodes, as one UTF-16
/// unit in the low half, or as a surrogate pair (high surrogate low, low
/// surrogate high) for a code point above `0xFFFF`; and the position after it.
pub open spec fn spec_utf16_unit(s: Seq<u8>, p: int) -> Option<(u32, int)> {
    if !fits(s, p, 1) {
        None
    } else if s[p] & 0x80 == 0 {
        Some((s[p] as u32, p + 1))
    } else if !fits(s, p, 2) {
        None
    } else if s[p] & 0x20 == 0 {
        Some((((s[p] & 0x1f) as u32) << 6u32 | ((s[p + 1] & 0x3f) as u32), p + 2))
    } else if !fits(s, p, 3) {
        None
    } else if s[p] & 0x10 == 0 {
        Some((
            ((s[p] & 0x0f) as u32) << 12u32 | ((s[p + 1] & 0x3f) as u32) << 6u32 | ((s[p + 2]
                & 0x3f) as u32),
            p + 3,
        ))
    } else if !fits(s, p, 4) {
        None
    } else {
        let cp = code_point4(s[p], s[p + 1], s[p + 2], s[p + 3]);
        Some((surrogates(cp), p + 4))
    }
}

/// The code point of a four-byte sequence.
pub open spec fn code_point4(a: u8, b: u8, c: u8, d: u8) -> u32 {
    ((a & 0x07) as u32) << 18u32 | ((b & 0x3f) as u32) << 12u32 | ((c & 0x3f) as u32) << 6u32 | ((d
        & 0x3f) as u32)
}

/// The surrogate pair of a supplementary code point, packed with the high
/// surrogate in the low half.
pub open spec fn surrogates(cp: u32) -> u32 {
    ((((cp >> 10u32) + 0xd7c0) as u32) & 0xffff) | ((((cp & 0x3ff) + 0xdc00) as u32) << 16u32)
}

/// The UTF-16 units of the zero-terminated string at `p`, and the position of
/// its terminating zero.
pub open spec fn spec_utf16_str(s: Seq<u8>, p: int) -> Option<(Seq<u16>, int)>
    decreases s.len() - p,
{
    if !fits(s, p, 1) {
        None
    } else if s[p] == 0 {
        Some((Seq::empty(), p))
    } else {
        match spec_utf16_unit(s, p) {
            None => None,
            Some((ch, q)) => if q <= p {
                None
            } else {
                match spec_utf16_str(s, q) {
                    None => None,
                    Some((rest, e)) => Some((units_of(ch) + rest, e)),
                }
            },
        }
    }
}

/// The one or two units that a packed value stands for.
pub open spec fn units_of(ch: u32) -> Seq<u16> {
    if ch >> 16u32 != 0 {
        seq![(ch & 0xffff) as u16, (ch >> 16u32) as u16]
    } else {
        seq![(ch & 0xffff) as u16]
    }
}

/// Decodes the code point at `p`, packed as `spec_utf16_unit` says.
pub fn parse_utf16(b: &[u8], p: usize) -> (r: Result<(u32, usize), Error>)
    ensures
        match r {
            Ok((ch, q)) => spec_utf16_unit(b@, p as int) == Some((ch, q as int)),
            Err(e) => spec_utf16_unit(b@, p as int) is None && e == Error::Truncated,
        },
{
    let len = b.len();
    if p >= len {
        return Err(Error::Truncated);
    }
    let one = b[p];
    if one & 0x80 == 0 {
        return Ok((one as u32, p + 1));
    }
    if len - p < 2 {
        return Err(Error::Truncated);
    }
    let two = b[p + 1];
    if one & 0x20 == 0 {
        return Ok((((one & 0x1f) as u32) << 6u32 | ((two & 0x3f) as u32), p + 2));
    }
    if len - p < 3 {
        return Err(Error::Truncated);
    }
    let three = b[p + 2];
    if one & 0x10 == 0 {
        return Ok((
            ((one & 0x0f) as u32) << 12u32 | ((two & 0x3f) as u32) << 6u32 | ((three & 0x3f) as u32),
            p + 3,
        ));
    }
    if len - p < 4 {
        return Err(Error::Truncated);
    }
    let four = b[p + 3];
    let cp: u32 = ((one & 0x07) as u32) << 18u32 | ((two & 0x3f) as u32) << 12u32 | ((three & 0x3f)
        as u32) << 6u32 | ((four & 0x3f) as u32);
    assert(cp >> 10u32 <= 0x3f_ffff) by (bit_vector);
    assert(cp & 0x3ffu32 <= 0x3ff) by (bit_vector);
    let pair: u32 = (((cp >> 10u32) + 0xd7c0) & 0xffff) | (((cp & 0x3ff) + 0xdc00) << 16u32);
    Ok((pair, p + 4))
}

/// Decodes the zero-terminated string at `p` into UTF-16 units; returns them
/// with the position of the terminating zero.
pub fn parse_utf16_str(b: &[u8], p: usize) -> (r: Result<(Vec<u16>, usize), Error>)
    ensures
        match r {
            Ok((v, q)) => spec_utf16_str(b@, p as int) == Some((v@, q as int)),
            Err(e) => spec_utf16_str(b@, p as int) is None && e == Error::Truncated,
        },
{
    let len = b.len();
    let mut out: Vec<u16> = Vec::new();
    let mut pos = p;
    loop
        invariant
            len == b@.len(),
            spec_utf16_str(b@, p as int) == match spec_utf16_str(b@, pos as int) {
                Some((rest, e)) => Some((out@ + rest, e)),
                None => None,
            },
        decreases len - pos,
    {
        if pos >= len {
            return Err(Error::Truncated);
        }
        if b[pos] == 0 {
            assert(out@ + Seq::<u16>::empty() =~= out@);
            return Ok((out, pos));
        }
        let (ch, q) = match parse_utf16(b, pos) {
            Ok(x) => x,
            Err(e) => {
                return Err(e);
            },
        };
        let ghost before = out@;
        let lead = (ch & 0xffff) as u16;
        out.push(lead);
        if ch >> 16u32 != 0 {
            out.push((ch >> 16u32) as u16);
        }
        assert(out@ =~= before + units_of(ch));
        proof {
            match spec_utf16_str(b@, q as int) {
                Some((rest, e)) => {
                    assert(out@ + rest =~= before + (units_of(ch) + rest));
                },
                None => {},
            }
        }
        pos = q;
    }
}

} // verus!
