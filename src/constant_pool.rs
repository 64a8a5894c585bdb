use vstd::prelude::*;

use crate::bytes::{be16, be32, fits, read_be_u16, read_be_u32, read_u8};
use crate::error::Error;

verus! {

/// One entry of a class file's constant pool. Text is held as the modified
/// UTF-8 bytes of the file; floating-point constants as their bit patterns.
#[derive(Debug)]
pub enum ConstantType {
    Utf8(Vec<u8>),
    Integer(u32),
    Float(u32),
    Long(u64),
    Double(u64),
    Class(u16),
    String(u16),
    Fieldref(u16, u16),
    Methodref(u16, u16),
    InterfaceMethodref(u16, u16),
    NameAndType(u16, u16),
    MethodHandle(u8, u16),
    MethodType(u16),
    InvokeDynamic(u16, u16),
    /// The slot after a `Long` or `Double`.
    Empty,
}

/// What a constant-pool entry holds, with text as a sequence of bytes.
pub enum Constant {
    Utf8(Seq<u8>),
    Integer(u32),
    Float(u32),
    Long(u64),
    Double(u64),
    Class(u16),
    String(u16),
    Fieldref(u16, u16),
    Methodref(u16, u16),
    InterfaceMethodref(u16, u16),
    NameAndType(u16, u16),
    MethodHandle(u8, u16),
    MethodType(u16),
    InvokeDynamic(u16, u16),
    Empty,
}

impl View for ConstantType {
    type V = Constant;

    open spec fn view(&self) -> Constant {
        match self {
            ConstantType::Utf8(v) => Constant::Utf8(v@),
            ConstantType::Integer(x) => Constant::Integer(*x),
            ConstantType::Float(x) => Constant::Float(*x),
            ConstantType::Long(x) => Constant::Long(*x),
            ConstantType::Double(x) => Constant::Double(*x),
            ConstantType::Class(x) => Constant::Class(*x),
            ConstantType::String(x) => Constant::String(*x),
            ConstantType::Fieldref(a, b) => Constant::Fieldref(*a, *b),
            ConstantType::Methodref(a, b) => Constant::Methodref(*a, *b),
            ConstantType::InterfaceMethodref(a, b) => Constant::InterfaceMethodref(*a, *b),
            ConstantType::NameAndType(a, b) => Constant::NameAndType(*a, *b),
            ConstantType::MethodHandle(a, b) => Constant::MethodHandle(*a, *b),
            ConstantType::MethodType(x) => Constant::MethodType(*x),
            ConstantType::InvokeDynamic(a, b) => Constant::InvokeDynamic(*a, *b),
            ConstantType::Empty => Constant::Empty,
        }
    }
}

/// The tag byte that stands for each kind of entry (0 for the placeholder).
pub open spec fn tag_of(c: Constant) -> u8 {
    match c {
        Constant::Utf8(_) => 1,
        Constant::Integer(_) => 3,
        Constant::Float(_) => 4,
        Constant::Long(_) => 5,
        Constant::Double(_) => 6,
        Constant::Class(_) => 7,
        Constant::String(_) => 8,
        Constant::Fieldref(_, _) => 9,
        Constant::Methodref(_, _) => 10,
        Constant::InterfaceMethodref(_, _) => 11,
        Constant::NameAndType(_, _) => 12,
        Constant::MethodHandle(_, _) => 15,
        Constant::MethodType(_) => 16,
        Constant::InvokeDynamic(_, _) => 18,
        Constant::Empty => 0,
    }
}

/// A `Long` or a `Double`: an entry that takes two slots.
pub open spec fn is_wide(c: Constant) -> bool {
    c is Long || c is Double
}

/// The entry encoded at `p`, and the position after it. A tag that the
/// format does not define stands for an empty text entry of one byte.
pub open spec fn spec_constant(s: Seq<u8>, p: int) -> Option<(Constant, int)> {
    if !fits(s, p, 1) {
        None
    } else {
        let tag = s[p];
        let q = p + 1;
        if tag == 1 {
            if fits(s, q, 2) && fits(s, q + 2, be16(s, q)) {
                Some((Constant::Utf8(s.subrange(q + 2, q + 2 + be16(s, q))), q + 2 + be16(s, q)))
            } else {
                None
            }
        } else if tag == 3 || tag == 4 {
            if fits(s, q, 4) {
                let v = be32(s, q) as u32;
                Some((if tag == 3 { Constant::Integer(v) } else { Constant::Float(v) }, q + 4))
            } else {
                None
            }
        } else if tag == 5 || tag == 6 {
            if fits(s, q, 8) {
                let v = (be32(s, q) * 0x1_0000_0000 + be32(s, q + 4)) as u64;
                Some((if tag == 5 { Constant::Long(v) } else { Constant::Double(v) }, q + 8))
            } else {
                None
            }
        } else if tag == 7 || tag == 8 || tag == 16 {
            if fits(s, q, 2) {
                let v = be16(s, q) as u16;
                Some((
                    if tag == 7 {
                        Constant::Class(v)
                    } else if tag == 8 {
                        Constant::String(v)
                    } else {
                        Constant::MethodType(v)
                    },
                    q + 2,
                ))
            } else {
                None
            }
        } else if tag == 9 || tag == 10 || tag == 11 || tag == 12 || tag == 18 {
            if fits(s, q, 4) {
                let a = be16(s, q) as u16;
                let b = be16(s, q + 2) as u16;
                Some((
                    if tag == 9 {
                        Constant::Fieldref(a, b)
                    } else if tag == 10 {
                        Constant::Methodref(a, b)
                    } else if tag == 11 {
                        Constant::InterfaceMethodref(a, b)
                    } else if tag == 12 {
                        Constant::NameAndType(a, b)
                    } else {
                        Constant::InvokeDynamic(a, b)
                    },
                    q + 4,
                ))
            } else {
                None
            }
        } else if tag == 15 {
            if fits(s, q, 3) {
                Some((Constant::MethodHandle(s[q], be16(s, q + 1) as u16), q + 3))
            } else {
                None
            }
        } else {
            Some((Constant::Utf8(Seq::empty()), q))
        }
    }
}

/// Copies `n` bytes at `p`.
pub fn copy_bytes(b: &[u8], p: usize, n: usize) -> (r: Vec<u8>)
    requires
        fits(b@, p as int, n as int),
    ensures
        r@ == b@.subrange(p as int, p + n),
{
    let avail = b.len();
    let mut out: Vec<u8> = Vec::with_capacity(n);
    let mut i: usize = 0;
    while i < n
        invariant
            fits(b@, p as int, n as int),
            avail == b@.len(),
            i <= n,
            out@ == b@.subrange(p as int, p + i),
        decreases n - i,
    {
        out.push(b[p + i]);
        assert(out@ =~= b@.subrange(p as int, p + i + 1));
        i = i + 1;
    }
    out
}

impl ConstantType {
    /// Decodes the entry at `p`: a tag byte, then its payload. Returns the
    /// entry and the position after it.
    pub fn parse(b: &[u8], p: usize) -> (r: Result<(ConstantType, usize), Error>)
        ensures
            match r {
                Ok((c, q)) => spec_constant(b@, p as int) == Some((c@, q as int)),
                Err(e) => spec_constant(b@, p as int) is None && e == Error::Truncated,
            },
    {
        let tag = read_u8(b, p)?;
        let q = p + 1;
        if tag == 1 {
            let len = read_be_u16(b, q)? as usize;
            if b.len() - (q + 2) < len {
                return Err(Error::Truncated);
            }
            let text = copy_bytes(b, q + 2, len);
            Ok((ConstantType::Utf8(text), q + 2 + len))
        } else if tag == 3 || tag == 4 {
            let v = read_be_u32(b, q)?;
            Ok((if tag == 3 { ConstantType::Integer(v) } else { ConstantType::Float(v) }, q + 4))
        } else if tag == 5 || tag == 6 {
            let hi = read_be_u32(b, q)?;
            let lo = read_be_u32(b, q + 4)?;
            let v = hi as u64 * 0x1_0000_0000 + lo as u64;
            Ok((if tag == 5 { ConstantType::Long(v) } else { ConstantType::Double(v) }, q + 8))
        } else if tag == 7 || tag == 8 || tag == 16 {
            let v = read_be_u16(b, q)?;
            let c = if tag == 7 {
                ConstantType::Class(v)
            } else if tag == 8 {
                ConstantType::String(v)
            } else {
                ConstantType::MethodType(v)
            };
            Ok((c, q + 2))
        } else if tag == 9 || tag == 10 || tag == 11 || tag == 12 || tag == 18 {
            let x = read_be_u16(b, q)?;
            let y = read_be_u16(b, q + 2)?;
            let c = if tag == 9 {
                ConstantType::Fieldref(x, y)
            } else if tag == 10 {
                ConstantType::Methodref(x, y)
            } else if tag == 11 {
                ConstantType::InterfaceMethodref(x, y)
            } else if tag == 12 {
                ConstantType::NameAndType(x, y)
            } else {
                ConstantType::InvokeDynamic(x, y)
            };
            Ok((c, q + 4))
        } else if tag == 15 {
            let kind = read_u8(b, q)?;
            let index = read_be_u16(b, q + 1)?;
            Ok((ConstantType::MethodHandle(kind, index), q + 3))
        } else {
            Ok((ConstantType::Utf8(Vec::new()), q))
        }
    }

    /// The tag byte of this kind of entry (0 for the placeholder).
    pub fn value(&self) -> (r: u8)
        ensures
            r == tag_of(self@),
    {
        match self {
            ConstantType::Utf8(_) => 1,
            ConstantType::Integer(_) => 3,
            ConstantType::Float(_) => 4,
            ConstantType::Long(_) => 5,
            ConstantType::Double(_) => 6,
            ConstantType::Class(_) => 7,
            ConstantType::String(_) => 8,
            ConstantType::Fieldref(_, _) => 9,
            ConstantType::Methodref(_, _) => 10,
            ConstantType::InterfaceMethodref(_, _) => 11,
            ConstantType::NameAndType(_, _) => 12,
            ConstantType::MethodHandle(_, _) => 15,
            ConstantType::MethodType(_) => 16,
            ConstantType::InvokeDynamic(_, _) => 18,
            ConstantType::Empty => 0,
        }
    }
}

/// A constant-pool slot: the entry with its tag.
#[derive(Debug)]
pub struct ConstantPoolInfo {
    pub tag: u8,
    pub info: ConstantType,
}

impl ConstantPoolInfo {
    /// Decodes the entry at `p`.
    pub fn parse(b: &[u8], p: usize) -> (r: Result<(ConstantPoolInfo, usize), Error>)
        ensures
            match r {
                Ok((c, q)) => spec_constant(b@, p as int) == Some((c.info@, q as int)) && c.tag
                    == tag_of(c.info@),
                Err(e) => spec_constant(b@, p as int) is None && e == Error::Truncated,
            },
    {
        let (info, q) = ConstantType::parse(b, p)?;
        let tag = info.value();
        Ok((ConstantPoolInfo { tag, info }, q))
    }

    /// The entry takes two slots.
    pub fn is_double_size(&self) -> (r: bool)
        ensures
            r == is_wide(self.info@),
    {
        match self.info {
            ConstantType::Double(_) => true,
            ConstantType::Long(_) => true,
            _ => false,
        }
    }

    /// The entry is text.
    pub fn is_utf8(&self) -> (r: bool)
        ensures
            r == self.info@ is Utf8,
    {
        match self.info {
            ConstantType::Utf8(_) => true,
            _ => false,
        }
    }

    /// The entry's text, where it is text.
    pub fn as_utf8(&self) -> (r: Option<&Vec<u8>>)
        ensures
            match self.info@ {
                Constant::Utf8(t) => r is Some && r.unwrap()@ == t,
                _ => r is None,
            },
    {
        match &self.info {
            ConstantType::Utf8(value) => Some(value),
            _ => None,
        }
    }

    /// The placeholder that follows a two-slot entry.
    pub fn new_empty() -> (r: Self)
        ensures
            r.tag == 0,
            r.info@ == Constant::Empty,
    {
        ConstantPoolInfo { tag: 0, info: ConstantType::Empty }
    }
}

/// The entries of a pool `n` slots of which are left to fill, encoded from
/// `p` on, and the position after them. A two-slot entry is followed by the
/// placeholder.
pub open spec fn spec_pool(s: Seq<u8>, p: int, n: nat) -> Option<(Seq<Constant>, int)>
    decreases n,
{
    if n == 0 {
        Some((Seq::empty(), p))
    } else {
        match spec_constant(s, p) {
            None => None,
            Some((c, q)) => {
                let wide = is_wide(c);
                let left: nat = if wide {
                    if n >= 2 { (n - 2) as nat } else { 0 }
                } else {
                    (n - 1) as nat
                };
                match spec_pool(s, q, left) {
                    None => None,
                    Some((rest, e)) => Some((
                        if wide { seq![c, Constant::Empty] + rest } else { seq![c] + rest },
                        e,
                    )),
                }
            },
        }
    }
}

/// The entries of a pool as the contracts speak of them.
pub open spec fn pool_view(v: Seq<ConstantPoolInfo>) -> Seq<Constant> {
    v.map_values(|c: ConstantPoolInfo| c.info@)
}

/// Decodes the constant pool at `p` of a class file that declares
/// `pool_count`: `pool_count - 1` slots (none where it is 0), the placeholder
/// after each two-slot entry included. Returns the pool and the position after it.
pub fn parse_constant_pool(b: &[u8], p: usize, pool_count: u16) -> (r: Result<
    (Vec<ConstantPoolInfo>, usize),
    Error,
>)
    ensures
        match r {
            Ok((v, q)) => spec_pool(b@, p as int, slots_of(pool_count)) == Some(
                (pool_view(v@), q as int),
            ) && forall|i: int| 0 <= i < v@.len() ==> v@[i].tag == tag_of(v@[i].info@),
            Err(e) => spec_pool(b@, p as int, slots_of(pool_count)) is None && e
                == Error::Truncated,
        },
{
    let mut left: u16 = if pool_count == 0 {
        0
    } else {
        pool_count - 1
    };
    let mut pos = p;
    let mut pool: Vec<ConstantPoolInfo> = Vec::with_capacity(left as usize);
    while left > 0
        invariant
            spec_pool(b@, p as int, slots_of(pool_count)) == match spec_pool(
                b@,
                pos as int,
                left as nat,
            ) {
                Some((rest, e)) => Some((pool_view(pool@) + rest, e)),
                None => None,
            },
            forall|i: int| 0 <= i < pool@.len() ==> pool@[i].tag == tag_of(pool@[i].info@),
        decreases left,
    {
        let (entry, q) = ConstantPoolInfo::parse(b, pos)?;
        let ghost before = pool_view(pool@);
        let ghost c = entry.info@;
        let wide = entry.is_double_size();
        pool.push(entry);
        assert(pool_view(pool@) =~= before.push(c));
        if wide {
            pool.push(ConstantPoolInfo::new_empty());
            assert(pool_view(pool@) =~= before.push(c).push(Constant::Empty));
            left = if left >= 2 {
                left - 2
            } else {
                0
            };
        } else {
            left = left - 1;
        }
        proof {
            match spec_pool(b@, q as int, left as nat) {
                Some((rest, e)) => {
                    if wide {
                        assert(pool_view(pool@) + rest =~= before + (seq![c, Constant::Empty]
                            + rest));
                    } else {
                        assert(pool_view(pool@) + rest =~= before + (seq![c] + rest));
                    }
                },
                None => {},
            }
        }
        pos = q;
    }
    assert(pool_view(pool@) + Seq::<Constant>::empty() =~= pool_view(pool@));
    Ok((pool, pos))
}

/// The number of slots that a pool count declares.
pub open spec fn slots_of(pool_count: u16) -> nat {
    if pool_count == 0 {
        0
    } else {
        (pool_count - 1) as nat
    }
}

/// Every pool that `spec_pool` yields has the placeholder right after each
/// two-slot entry, so the next real entry comes two slots on.
pub proof fn lemma_wide_entry_then_placeholder(s: Seq<u8>, p: int, n: nat, i: int)
    requires
        spec_pool(s, p, n) is Some,
        0 <= i < spec_pool(s, p, n).unwrap().0.len(),
        is_wide(spec_pool(s, p, n).unwrap().0[i]),
    ensures
        i + 1 < spec_pool(s, p, n).unwrap().0.len(),
        spec_pool(s, p, n).unwrap().0[i + 1] == Constant::Empty,
    decreases n,
{
    if n > 0 {
        let (c, q) = spec_constant(s, p).unwrap();
        let wide = is_wide(c);
        let left: nat = if wide {
            if n >= 2 { (n - 2) as nat } else { 0 }
        } else {
            (n - 1) as nat
        };
        let rest = spec_pool(s, q, left).unwrap().0;
        if wide {
            if i >= 2 {
                lemma_wide_entry_then_placeholder(s, q, left, i - 2);
            }
        } else {
            if i >= 1 {
                lemma_wide_entry_then_placeholder(s, q, left, i - 1);
            }
        }
    }
}

} // verus!
