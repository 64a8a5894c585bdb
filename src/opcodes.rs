use vstd::prelude::*;

use crate::bytes::fits;
use crate::error::Error;

verus! {

/// How many operand bytes follow each opcode that the decoder knows.
pub open spec fn operand_width(op: u8) -> Option<u8> {
    if 0x01 <= op <= 0x0f || 0x2a <= op <= 0x2d || 0x26 <= op <= 0x29 || op == 0x32 || op == 0x53
        || op == 0xaf || op == 0xb1 {
        Some(0)
    } else if op == 0x10 || op == 0x12 {
        Some(1)
    } else if op == 0x11 || op == 0x13 || op == 0x14 || op == 0xb4 || op == 0xb5 || op == 0xb7
        || op == 0xbd {
        Some(2)
    } else {
        None
    }
}

/// Operand bytes of an opcode; one the table lacks takes none.
pub fn operand_count(op: u8) -> (r: Option<u8>)
    ensures
        r == operand_width(op),
{
    if (op >= 0x01 && op <= 0x0f) || (op >= 0x2a && op <= 0x2d) || (op >= 0x26 && op <= 0x29) || op
        == 0x32 || op == 0x53 || op == 0xaf || op == 0xb1 {
        Some(0)
    } else if op == 0x10 || op == 0x12 {
        Some(1)
    } else if op == 0x11 || op == 0x13 || op == 0x14 || op == 0xb4 || op == 0xb5 || op == 0xb7 || op
        == 0xbd {
        Some(2)
    } else {
        None
    }
}

/// The mnemonic of each opcode that the table knows.
pub open spec fn mnemonic(op: u8) -> Option<Seq<char>> {
    match op {
        0x01 => Some("aconst_null"@),
        0x02 => Some("iconst_m1"@),
        0x03 => Some("iconst_0"@),
        0x04 => Some("iconst_1"@),
        0x05 => Some("iconst_2"@),
        0x06 => Some("iconst_3"@),
        0x07 => Some("iconst_4"@),
        0x08 => Some("iconst_5"@),
        0x09 => Some("lconst_0"@),
        0x0a => Some("lconst_1"@),
        0x0b => Some("fconst_0"@),
        0x0c => Some("fconst_1"@),
        0x0d => Some("fconst_2"@),
        0x0e => Some("dconst_0"@),
        0x0f => Some("dconst_1"@),
        0x10 => Some("bipush"@),
        0x11 => Some("sipush"@),
        0x12 => Some("ldc"@),
        0x13 => Some("ldc_w"@),
        0x14 => Some("ldc2_w"@),
        0x26 => Some("dload_0"@),
        0x27 => Some("dload_1"@),
        0x28 => Some("dload_2"@),
        0x29 => Some("dload_3"@),
        0x2a => Some("aload_0"@),
        0x2b => Some("aload_1"@),
        0x2c => Some("aload_2"@),
        0x2d => Some("aload_3"@),
        0x32 => Some("aaload"@),
        0x53 => Some("aastore"@),
        0xaf => Some("dreturn"@),
        0xb1 => Some("return"@),
        0xb4 => Some("getfield"@),
        0xb5 => Some("putfield"@),
        0xb7 => Some("invokespecial"@),
        0xbd => Some("anewarray"@),
        _ => None,
    }
}

/// The mnemonic of an opcode that the table knows.
pub fn opcode_name(op: u8) -> (r: Option<&'static str>)
    ensures
        r is Some <==> operand_width(op) is Some,
        match r {
            Some(n) => mnemonic(op) == Some(n@),
            None => mnemonic(op) is None,
        },
{
    match op {
        0x01 => Some("aconst_null"),
        0x02 => Some("iconst_m1"),
        0x03 => Some("iconst_0"),
        0x04 => Some("iconst_1"),
        0x05 => Some("iconst_2"),
        0x06 => Some("iconst_3"),
        0x07 => Some("iconst_4"),
        0x08 => Some("iconst_5"),
        0x09 => Some("lconst_0"),
        0x0a => Some("lconst_1"),
        0x0b => Some("fconst_0"),
        0x0c => Some("fconst_1"),
        0x0d => Some("fconst_2"),
        0x0e => Some("dconst_0"),
        0x0f => Some("dconst_1"),
        0x10 => Some("bipush"),
        0x11 => Some("sipush"),
        0x12 => Some("ldc"),
        0x13 => Some("ldc_w"),
        0x14 => Some("ldc2_w"),
        0x26 => Some("dload_0"),
        0x27 => Some("dload_1"),
        0x28 => Some("dload_2"),
        0x29 => Some("dload_3"),
        0x2a => Some("aload_0"),
        0x2b => Some("aload_1"),
        0x2c => Some("aload_2"),
        0x2d => Some("aload_3"),
        0x32 => Some("aaload"),
        0x53 => Some("aastore"),
        0xaf => Some("dreturn"),
        0xb1 => Some("return"),
        0xb4 => Some("getfield"),
        0xb5 => Some("putfield"),
        0xb7 => Some("invokespecial"),
        0xbd => Some("anewarray"),
        _ => None,
    }
}

/// One instruction: an opcode and up to two operand bytes.
#[derive(Debug, Clone, Copy, PartialEq, Eq)]
pub struct CodeInfo {
    pub code: u8,
    pub index_byte1: Option<u8>,
    pub index_byte2: Option<u8>,
}

/// The instruction encoded at `p`, and the position after it. An opcode that
/// the table lacks is taken as one without operands.
pub open spec fn spec_code_info(s: Seq<u8>, p: int) -> Option<(CodeInfo, int)> {
    if !fits(s, p, 1) {
        None
    } else {
        let op = s[p];
        let w = match operand_width(op) {
            Some(w) => w as int,
            None => 0,
        };
        if !fits(s, p + 1, w) {
            None
        } else {
            Some((
                CodeInfo {
                    code: op,
                    index_byte1: if w >= 1 { Some(s[p + 1]) } else { None },
                    index_byte2: if w >= 2 { Some(s[p + 2]) } else { None },
                },
                p + 1 + w,
            ))
        }
    }
}

/// The instructions of the code bytes `c` from `p` to the end.
pub open spec fn spec_code_infos(c: Seq<u8>, p: int) -> Option<Seq<CodeInfo>>
    decreases c.len() - p,
{
    if p < 0 || p >= c.len() {
        Some(Seq::empty())
    } else {
        match spec_code_info(c, p) {
            None => None,
            Some((i, q)) => if q <= p {
                None
            } else {
                match spec_code_infos(c, q) {
                    None => None,
                    Some(rest) => Some(seq![i] + rest),
                }
            },
        }
    }
}

impl CodeInfo {
    /// Decodes the instruction at `p`.
    pub fn parse(b: &[u8], p: usize) -> (r: Result<(CodeInfo, usize), Error>)
        ensures
            match r {
                Ok((i, q)) => spec_code_info(b@, p as int) == Some((i, q as int)),
                Err(e) => spec_code_info(b@, p as int) is None && e == Error::Truncated,
            },
    {
        if p >= b.len() {
            return Err(Error::Truncated);
        }
        let op = b[p];
        let w: usize = match operand_count(op) {
            Some(w) => w as usize,
            None => 0,
        };
        if b.len() - (p + 1) < w {
            return Err(Error::Truncated);
        }
        let b1 = if w >= 1 {
            Some(b[p + 1])
        } else {
            None
        };
        let b2 = if w >= 2 {
            Some(b[p + 2])
        } else {
            None
        };
        Ok((CodeInfo { code: op, index_byte1: b1, index_byte2: b2 }, p + 1 + w))
    }
}

/// Decodes the code bytes `c` as a sequence of instructions.
pub fn parse_code_infos(c: &[u8]) -> (r: Result<Vec<CodeInfo>, Error>)
    ensures
        match r {
            Ok(v) => spec_code_infos(c@, 0) == Some(v@),
            Err(e) => spec_code_infos(c@, 0) is None && e == Error::Truncated,
        },
{
    let mut out: Vec<CodeInfo> = Vec::new();
    let mut pos: usize = 0;
    let n = c.len();
    while pos < n
        invariant
            n == c@.len(),
            pos <= n,
            spec_code_infos(c@, 0) == match spec_code_infos(c@, pos as int) {
                Some(rest) => Some(out@ + rest),
                None => None,
            },
        decreases n - pos,
    {
        let (i, q) = match CodeInfo::parse(c, pos) {
            Ok(x) => x,
            Err(e) => {
                assert(spec_code_infos(c@, pos as int) is None);
                return Err(e);
            },
        };
        let ghost before = out@;
        out.push(i);
        proof {
            match spec_code_infos(c@, q as int) {
                Some(rest) => {
                    assert(out@ + rest =~= before + (seq![i] + rest));
                },
                None => {},
            }
        }
        pos = q;
    }
    assert(out@ + Seq::<CodeInfo>::empty() =~= out@);
    Ok(out)
}

} // verus!
