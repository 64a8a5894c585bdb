use vstd::prelude::*;

verus! {

/// What an IEEE-754 bit pattern stands for. A finite value is
/// `(-1)^negative * significand * 2^exponent`.
#[derive(Debug, Clone, Copy, PartialEq, Eq, Structural)]
pub enum FloatValue {
    PosInfinity,
    NegInfinity,
    NaN,
    Finite { negative: bool, significand: u64, exponent: i32 },
}

/// The value of a binary32 bit pattern; the three canonical special patterns
/// are recognised exactly.
pub open spec fn float_of_bits(v: u32) -> FloatValue {
    if v == 0x7f80_0000 {
        FloatValue::PosInfinity
    } else if v == 0xff80_0000 {
        FloatValue::NegInfinity
    } else if v == 0x7fc0_0000 {
        FloatValue::NaN
    } else {
        let e = (v / 0x80_0000) % 256;
        let mant = v % 0x80_0000;
        FloatValue::Finite {
            negative: v >= 0x8000_0000,
            significand: (if e == 0 { mant * 2 } else { mant + 0x80_0000 }) as u64,
            exponent: (e - 150) as i32,
        }
    }
}

/// The value of a binary64 bit pattern; every NaN pattern is recognised.
pub open spec fn double_of_bits(v: u64) -> FloatValue {
    if v == 0x7ff0_0000_0000_0000 {
        FloatValue::PosInfinity
    } else if v == 0xfff0_0000_0000_0000 {
        FloatValue::NegInfinity
    } else if (0x7ff0_0000_0000_0001 <= v <= 0x7fff_ffff_ffff_ffff) || v >= 0xfff0_0000_0000_0001 {
        FloatValue::NaN
    } else {
        let e = (v / 0x10_0000_0000_0000) % 2048;
        let mant = v % 0x10_0000_0000_0000;
        FloatValue::Finite {
            negative: v >= 0x8000_0000_0000_0000,
            significand: (if e == 0 { mant * 2 } else { mant + 0x10_0000_0000_0000 }) as u64,
            exponent: (e - 1075) as i32,
        }
    }
}

/// Decodes a binary32 bit pattern; a subnormal (zero exponent field) gets no
/// implicit leading bit.
pub fn parse_float(value: u32) -> (r: FloatValue)
    ensures
        r == float_of_bits(value),
{
    if value == 0x7f80_0000 {
        FloatValue::PosInfinity
    } else if value == 0xff80_0000 {
        FloatValue::NegInfinity
    } else if value == 0x7fc0_0000 {
        FloatValue::NaN
    } else {
        let e: u32 = (value / 0x80_0000) % 256;
        let mant: u32 = value % 0x80_0000;
        let m: u64 = if e == 0 {
            mant as u64 * 2
        } else {
            mant as u64 + 0x80_0000
        };
        FloatValue::Finite { negative: value >= 0x8000_0000, significand: m, exponent: e as i32 - 150 }
    }
}

/// Decodes a binary64 bit pattern; a subnormal (zero exponent field) gets no
/// implicit leading bit.
pub fn parse_double(value: u64) -> (r: FloatValue)
    ensures
        r == double_of_bits(value),
{
    if value == 0x7ff0_0000_0000_0000 {
        FloatValue::PosInfinity
    } else if value == 0xfff0_0000_0000_0000 {
        FloatValue::NegInfinity
    } else if (value >= 0x7ff0_0000_0000_0001 && value <= 0x7fff_ffff_ffff_ffff) || value
        >= 0xfff0_0000_0000_0001 {
        FloatValue::NaN
    } else {
        let e: u64 = (value / 0x10_0000_0000_0000) % 2048;
        let mant: u64 = value % 0x10_0000_0000_0000;
        let m: u64 = if e == 0 {
            mant * 2
        } else {
            mant + 0x10_0000_0000_0000
        };
        FloatValue::Finite {
            negative: value >= 0x8000_0000_0000_0000,
            significand: m,
            exponent: e as i32 - 1075,
        }
    }
}

} // verus!
