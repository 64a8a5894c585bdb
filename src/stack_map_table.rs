use vstd::prelude::*;

use crate::bytes::{be16, fits, read_be_u16, read_u8};
use crate::error::Error;

verus! {

/// The type of one local variable or stack slot in a stack-map frame.
#[derive(Debug, Clone, Copy, PartialEq, Eq, Structural)]
pub enum VerificationTypeInfo {
    Top,
    Integer,
    Float,
    Long,
    Double,
    Null,
    UninitializedThis,
    /// A class, by constant-pool index.
    Object(u16),
    /// An object not yet initialised, by the offset of its `new` instruction.
    Uninitialized(u16),
    /// A tag that the format does not define.
    Invalid,
}

/// The verification type encoded at `p`, and the position after it.
pub open spec fn spec_type_info(s: Seq<u8>, p: int) -> Option<(VerificationTypeInfo, int)> {
    if !fits(s, p, 1) {
        None
    } else {
        let tag = s[p];
        if tag == 7 || tag == 8 {
            if fits(s, p + 1, 2) {
                let v = be16(s, p + 1) as u16;
                Some((
                    if tag == 7 {
                        VerificationTypeInfo::Object(v)
                    } else {
                        VerificationTypeInfo::Uninitialized(v)
                    },
                    p + 3,
                ))
            } else {
                None
            }
        } else {
            Some((
                if tag == 0 {
                    VerificationTypeInfo::Top
                } else if tag == 1 {
                    VerificationTypeInfo::Integer
                } else if tag == 2 {
                    VerificationTypeInfo::Float
                } else if tag == 3 {
                    VerificationTypeInfo::Long
                } else if tag == 4 {
                    VerificationTypeInfo::Double
                } else if tag == 5 {
                    VerificationTypeInfo::Null
                } else if tag == 6 {
                    VerificationTypeInfo::UninitializedThis
                } else {
                    VerificationTypeInfo::Invalid
                },
                p + 1,
            ))
        }
    }
}

/// `n` verification types encoded one after another from `p`.
pub open spec fn spec_type_infos(s: Seq<u8>, p: int, n: nat) -> Option<
    (Seq<VerificationTypeInfo>, int),
>
    decreases n,
{
    if n == 0 {
        Some((Seq::empty(), p))
    } else {
        match spec_type_info(s, p) {
            None => None,
            Some((t, q)) => match spec_type_infos(s, q, (n - 1) as nat) {
                None => None,
                Some((rest, e)) => Some((seq![t] + rest, e)),
            },
        }
    }
}

impl VerificationTypeInfo {
    /// Decodes the verification type at `p`.
    pub fn parse(b: &[u8], p: usize) -> (r: Result<(VerificationTypeInfo, usize), Error>)
        ensures
            match r {
                Ok((t, q)) => spec_type_info(b@, p as int) == Some((t, q as int)),
                Err(e) => spec_type_info(b@, p as int) is None && e == Error::Truncated,
            },
    {
        let tag = read_u8(b, p)?;
        if tag == 7 || tag == 8 {
            let v = read_be_u16(b, p + 1)?;
            let t = if tag == 7 {
                VerificationTypeInfo::Object(v)
            } else {
                VerificationTypeInfo::Uninitialized(v)
            };
            Ok((t, p + 3))
        } else {
            let t = if tag == 0 {
                VerificationTypeInfo::Top
            } else if tag == 1 {
                VerificationTypeInfo::Integer
            } else if tag == 2 {
                VerificationTypeInfo::Float
            } else if tag == 3 {
                VerificationTypeInfo::Long
            } else if tag == 4 {
                VerificationTypeInfo::Double
            } else if tag == 5 {
                VerificationTypeInfo::Null
            } else if tag == 6 {
                VerificationTypeInfo::UninitializedThis
            } else {
                VerificationTypeInfo::Invalid
            };
            Ok((t, p + 1))
        }
    }
}

/// Decodes `n` verification types one after another from `p`.
pub fn parse_type_infos(b: &[u8], p: usize, n: usize) -> (r: Result<
    (Vec<VerificationTypeInfo>, usize),
    Error,
>)
    ensures
        match r {
            Ok((v, q)) => spec_type_infos(b@, p as int, n as nat) == Some((v@, q as int)),
            Err(e) => spec_type_infos(b@, p as int, n as nat) is None && e == Error::Truncated,
        },
{
    let mut out: Vec<VerificationTypeInfo> = Vec::new();
    let mut pos = p;
    let mut i: usize = 0;
    while i < n
        invariant
            i <= n,
            spec_type_infos(b@, p as int, n as nat) == match spec_type_infos(
                b@,
                pos as int,
                (n - i) as nat,
            ) {
                Some((rest, e)) => Some((out@ + rest, e)),
                None => None,
            },
        decreases n - i,
    {
        let (t, q) = VerificationTypeInfo::parse(b, pos)?;
        let ghost before = out@;
        out.push(t);
        proof {
            match spec_type_infos(b@, q as int, (n - i - 1) as nat) {
                Some((rest, e)) => {
                    assert(out@ + rest =~= before + (seq![t] + rest));
                },
                None => {},
            }
        }
        pos = q;
        i = i + 1;
    }
    assert(out@ + Seq::<VerificationTypeInfo>::empty() =~= out@);
    Ok((out, pos))
}

/// One stack-map frame; the frame-type byte comes first in each variant.
#[derive(Debug)]
pub enum StackMapFrame {
    /// Frame types 0 to 63.
    SameFrame(u8),
    /// Frame types 64 to 127: one stack item.
    SameLocals1StackItemFrame(u8, VerificationTypeInfo),
    /// Frame type 247: an offset delta and one stack item.
    SameLocals1StackItemFrameExtended(u8, u16, VerificationTypeInfo),
    /// Frame types 248 to 250.
    ChopFrame(u8, u16),
    /// Frame type 251.
    SameFrameExtended(u8, u16),
    /// Frame types 252 to 254: `type - 251` appended locals.
    AppendFrame(u8, u16, Vec<VerificationTypeInfo>),
    /// Frame type 255: explicit locals and stack.
    FullFrame(u8, u16, Vec<VerificationTypeInfo>, Vec<VerificationTypeInfo>),
    /// Frame types 128 to 246, which the format reserves.
    Invalid,
}

/// A stack-map frame with its lists as sequences.
pub enum Frame {
    Same(u8),
    SameLocals1(u8, VerificationTypeInfo),
    SameLocals1Extended(u8, u16, VerificationTypeInfo),
    Chop(u8, u16),
    SameExtended(u8, u16),
    Append(u8, u16, Seq<VerificationTypeInfo>),
    Full(u8, u16, Seq<VerificationTypeInfo>, Seq<VerificationTypeInfo>),
    Invalid,
}

impl View for StackMapFrame {
    type V = Frame;

    open spec fn view(&self) -> Frame {
        match self {
            StackMapFrame::SameFrame(t) => Frame::Same(*t),
            StackMapFrame::SameLocals1StackItemFrame(t, v) => Frame::SameLocals1(*t, *v),
            StackMapFrame::SameLocals1StackItemFrameExtended(t, d, v) => Frame::SameLocals1Extended(
                *t,
                *d,
                *v,
            ),
            StackMapFrame::ChopFrame(t, d) => Frame::Chop(*t, *d),
            StackMapFrame::SameFrameExtended(t, d) => Frame::SameExtended(*t, *d),
            StackMapFrame::AppendFrame(t, d, l) => Frame::Append(*t, *d, l@),
            StackMapFrame::FullFrame(t, d, l, st) => Frame::Full(*t, *d, l@, st@),
            StackMapFrame::Invalid => Frame::Invalid,
        }
    }
}

/// The frame encoded at `p`, selected by the range its type byte falls in,
/// and the position after it.
pub open spec fn spec_frame(s: Seq<u8>, p: int) -> Option<(Frame, int)> {
    if !fits(s, p, 1) {
        None
    } else {
        let ft = s[p];
        let q = p + 1;
        if ft <= 63 {
            Some((Frame::Same(ft), q))
        } else if ft <= 127 {
            match spec_type_info(s, q) {
                Some((v, e)) => Some((Frame::SameLocals1(ft, v), e)),
                None => None,
            }
        } else if ft <= 246 {
            Some((Frame::Invalid, q))
        } else if !fits(s, q, 2) {
            None
        } else {
            let d = be16(s, q) as u16;
            if ft == 247 {
                match spec_type_info(s, q + 2) {
                    Some((v, e)) => Some((Frame::SameLocals1Extended(ft, d, v), e)),
                    None => None,
                }
            } else if ft <= 250 {
                Some((Frame::Chop(ft, d), q + 2))
            } else if ft == 251 {
                Some((Frame::SameExtended(ft, d), q + 2))
            } else if ft <= 254 {
                match spec_type_infos(s, q + 2, (ft - 251) as nat) {
                    Some((l, e)) => Some((Frame::Append(ft, d, l), e)),
                    None => None,
                }
            } else if !fits(s, q + 2, 2) {
                None
            } else {
                match spec_type_infos(s, q + 4, be16(s, q + 2) as nat) {
                    None => None,
                    Some((l, e1)) => if !fits(s, e1, 2) {
                        None
                    } else {
                        match spec_type_infos(s, e1 + 2, be16(s, e1) as nat) {
                            None => None,
                            Some((st, e2)) => Some((Frame::Full(ft, d, l, st), e2)),
                        }
                    },
                }
            }
        }
    }
}

impl StackMapFrame {
    /// Decodes the frame at `p`.
    pub fn parse(b: &[u8], p: usize) -> (r: Result<(StackMapFrame, usize), Error>)
        ensures
            match r {
                Ok((f, q)) => spec_frame(b@, p as int) == Some((f@, q as int)),
                Err(e) => spec_frame(b@, p as int) is None && e == Error::Truncated,
            },
    {
        let ft = read_u8(b, p)?;
        let q = p + 1;
        if ft <= 63 {
            Ok((StackMapFrame::SameFrame(ft), q))
        } else if ft <= 127 {
            let (v, e) = VerificationTypeInfo::parse(b, q)?;
            Ok((StackMapFrame::SameLocals1StackItemFrame(ft, v), e))
        } else if ft <= 246 {
            Ok((StackMapFrame::Invalid, q))
        } else {
            let d = read_be_u16(b, q)?;
            if ft == 247 {
                let (v, e) = VerificationTypeInfo::parse(b, q + 2)?;
                Ok((StackMapFrame::SameLocals1StackItemFrameExtended(ft, d, v), e))
            } else if ft <= 250 {
                Ok((StackMapFrame::ChopFrame(ft, d), q + 2))
            } else if ft == 251 {
                Ok((StackMapFrame::SameFrameExtended(ft, d), q + 2))
            } else if ft <= 254 {
                let (l, e) = parse_type_infos(b, q + 2, (ft - 251) as usize)?;
                Ok((StackMapFrame::AppendFrame(ft, d, l), e))
            } else {
                let nl = read_be_u16(b, q + 2)?;
                let (l, e1) = parse_type_infos(b, q + 4, nl as usize)?;
                let ns = read_be_u16(b, e1)?;
                let (st, e2) = parse_type_infos(b, e1 + 2, ns as usize)?;
                Ok((StackMapFrame::FullFrame(ft, d, l, st), e2))
            }
        }
    }
}

/// `n` frames encoded one after another from `p`.
pub open spec fn spec_frames(s: Seq<u8>, p: int, n: nat) -> Option<(Seq<Frame>, int)>
    decreases n,
{
    if n == 0 {
        Some((Seq::empty(), p))
    } else {
        match spec_frame(s, p) {
            None => None,
            Some((f, q)) => match spec_frames(s, q, (n - 1) as nat) {
                None => None,
                Some((rest, e)) => Some((seq![f] + rest, e)),
            },
        }
    }
}

/// The frames of a list as the contracts speak of them.
pub open spec fn frames_view(v: Seq<StackMapFrame>) -> Seq<Frame> {
    v.map_values(|f: StackMapFrame| f@)
}

/// The payload of a `StackMapTable` attribute.
#[derive(Debug)]
pub struct StackMapTable {
    pub number_of_entries: u16,
    pub entries: Vec<StackMapFrame>,
}

impl StackMapTable {
    /// Decodes an entry count and that many frames at `p`.
    pub fn parse(b: &[u8], p: usize) -> (r: Result<(StackMapTable, usize), Error>)
        ensures
            match r {
                Ok((t, q)) => fits(b@, p as int, 2) && t.number_of_entries == be16(b@, p as int)
                    && spec_frames(b@, p + 2, t.number_of_entries as nat) == Some(
                    (frames_view(t.entries@), q as int),
                ),
                Err(e) => e == Error::Truncated && (!fits(b@, p as int, 2) || spec_frames(
                    b@,
                    p + 2,
                    be16(b@, p as int) as nat,
                ) is None),
            },
    {
        let n = read_be_u16(b, p)?;
        let mut entries: Vec<StackMapFrame> = Vec::new();
        let mut pos = p + 2;
        let mut i: u16 = 0;
        while i < n
            invariant
                i <= n,
                fits(b@, p as int, 2),
                n == be16(b@, p as int),
                spec_frames(b@, p + 2, n as nat) == match spec_frames(
                    b@,
                    pos as int,
                    (n - i) as nat,
                ) {
                    Some((rest, e)) => Some((frames_view(entries@) + rest, e)),
                    None => None,
                },
            decreases n - i,
        {
            let (f, q) = match StackMapFrame::parse(b, pos) {
                Ok(x) => x,
                Err(e) => {
                    assert(spec_frames(b@, pos as int, (n - i) as nat) is None);
                    return Err(e);
                },
            };
            let ghost before = frames_view(entries@);
            let ghost fv = f@;
            entries.push(f);
            assert(frames_view(entries@) =~= before.push(fv));
            proof {
                match spec_frames(b@, q as int, (n - i - 1) as nat) {
                    Some((rest, e)) => {
                        assert(frames_view(entries@) + rest =~= before + (seq![fv] + rest));
                    },
                    None => {},
                }
            }
            pos = q;
            i = i + 1;
        }
        assert(frames_view(entries@) + Seq::<Frame>::empty() =~= frames_view(entries@));
        Ok((StackMapTable { number_of_entries: n, entries }, pos))
    }
}

} // verus!
