use vstd::prelude::*;

use crate::access_flag::{field_flags, method_flags, AccessFlags};
use crate::attribute::{
    attr_ok, attr_pos, attrs_ok_from, lemma_attributes_unique, same_attributes, kind_of_attribute, parse_attributes, pool_text, resolve_utf8, AttributeInfo,
    AttributeKind,
};
use crate::constant_pool::Constant;
use crate::bytes::{be16, fits, read_be_u16};
use crate::constant_pool::{pool_view, ConstantPoolInfo};
use crate::error::Error;

verus! {

/// A field of a class.
#[derive(Debug)]
pub struct FieldInfo {
    pub access_flags: AccessFlags,
    pub name_index: u16,
    pub descriptor_index: u16,
    pub attributes: Vec<AttributeInfo>,
}

/// A method of a class.
#[derive(Debug)]
pub struct MethodInfo {
    pub access_flags: AccessFlags,
    pub name_index: u16,
    pub descriptor_index: u16,
    pub attributes: Vec<AttributeInfo>,
}

/// The fixed part of a field or method record at `p` holds these values,
/// and its attribute list declares `n` entries.
pub open spec fn member_header(s: Seq<u8>, p: int, flags: u16, name: u16, desc: u16, n: int) -> bool {
    fits(s, p, 8) && flags == be16(s, p) && name == be16(s, p + 2) && desc == be16(s, p + 4) && n
        == be16(s, p + 6)
}

/// Where the field or method record at `p` ends: after its eight fixed bytes
/// and its attributes.
pub open spec fn member_end(s: Seq<u8>, p: int) -> int {
    attr_pos(s, p + 8, be16(s, p + 6) as nat)
}

/// Where record `i` of a list whose first record is at `p` begins.
pub open spec fn member_pos(s: Seq<u8>, p: int, i: nat) -> int
    decreases i,
{
    if i == 0 {
        p
    } else {
        member_end(s, member_pos(s, p, (i - 1) as nat))
    }
}

/// The field or method record at `at` has its eight fixed bytes, and its
/// attributes decode.
pub open spec fn member_ok_at(pool: Seq<Constant>, s: Seq<u8>, at: int) -> bool {
    fits(s, at, 8) && attrs_ok_from(pool, s, at + 8, be16(s, at + 6) as nat)
}

/// `k` records, the first at `p`, each decode.
pub open spec fn members_ok_from(pool: Seq<Constant>, s: Seq<u8>, p: int, k: nat) -> bool
    decreases k,
{
    if k == 0 {
        true
    } else {
        member_ok_at(pool, s, p) && members_ok_from(pool, s, member_end(s, p), (k - 1) as nat)
    }
}

/// `f` is the field record at `at`.
pub open spec fn field_at(pool: Seq<Constant>, s: Seq<u8>, at: int, f: FieldInfo) -> bool {
    &&& member_header(
        s,
        at,
        f.access_flags.1,
        f.name_index,
        f.descriptor_index,
        f.attributes@.len() as int,
    )
    &&& f.access_flags.0@ == field_flags(f.access_flags.1)
    &&& forall|i: int|
        0 <= i < f.attributes@.len() ==> #[trigger] attr_ok(pool, s, at + 8, f.attributes@, i)
}

/// `m` is the method record at `at`.
pub open spec fn method_at(pool: Seq<Constant>, s: Seq<u8>, at: int, m: MethodInfo) -> bool {
    &&& member_header(
        s,
        at,
        m.access_flags.1,
        m.name_index,
        m.descriptor_index,
        m.attributes@.len() as int,
    )
    &&& m.access_flags.0@ == method_flags(m.access_flags.1)
    &&& forall|i: int|
        0 <= i < m.attributes@.len() ==> #[trigger] attr_ok(pool, s, at + 8, m.attributes@, i)
}

/// Field `i` of the list that starts at `p` is held at `v[i]`.
pub open spec fn field_ok(pool: Seq<Constant>, s: Seq<u8>, p: int, v: Seq<FieldInfo>, i: int) -> bool {
    field_at(pool, s, member_pos(s, p, i as nat), v[i])
}

/// Method `i` of the list that starts at `p` is held at `v[i]`.
pub open spec fn method_ok(pool: Seq<Constant>, s: Seq<u8>, p: int, v: Seq<MethodInfo>, i: int) -> bool {
    method_at(pool, s, member_pos(s, p, i as nat), v[i])
}

impl FieldInfo {
    /// Decodes the field record at `p`: flags, name index, descriptor index,
    /// then its attribute list.
    pub fn parse(pool: &Vec<ConstantPoolInfo>, b: &[u8], p: usize) -> (r: Result<
        (FieldInfo, usize),
        Error,
    >)
        ensures
            match r {
                Ok((f, q)) => field_at(pool_view(pool@), b@, p as int, f) && q == member_end(
                    b@,
                    p as int,
                ) && p + 8 <= q <= b@.len(),
                Err(e) => (!fits(b@, p as int, 8) ==> e == Error::Truncated),
            },
            r is Ok <==> member_ok_at(pool_view(pool@), b@, p as int),
    {
        let flags = read_be_u16(b, p)?;
        let name_index = read_be_u16(b, p + 2)?;
        let descriptor_index = read_be_u16(b, p + 4)?;
        let (attributes, q) = parse_attributes(pool, b, p + 6)?;
        Ok((
            FieldInfo {
                access_flags: AccessFlags::new_field_flag(flags),
                name_index,
                descriptor_index,
                attributes,
            },
            q,
        ))
    }

    /// The field's name, resolved through the pool.
    pub fn name<'a>(&self, pool: &'a Vec<ConstantPoolInfo>) -> (r: Option<&'a Vec<u8>>)
        ensures
            match pool_text(pool_view(pool@), self.name_index as int) {
                Some(t) => r is Some && r.unwrap()@ == t,
                None => r is None,
            },
    {
        resolve_utf8(pool, self.name_index)
    }
}

impl MethodInfo {
    /// Decodes the method record at `p`: flags, name index, descriptor index,
    /// then its attribute list.
    pub fn parse(pool: &Vec<ConstantPoolInfo>, b: &[u8], p: usize) -> (r: Result<
        (MethodInfo, usize),
        Error,
    >)
        ensures
            match r {
                Ok((m, q)) => method_at(pool_view(pool@), b@, p as int, m) && q == member_end(
                    b@,
                    p as int,
                ) && p + 8 <= q <= b@.len(),
                Err(e) => (!fits(b@, p as int, 8) ==> e == Error::Truncated),
            },
            r is Ok <==> member_ok_at(pool_view(pool@), b@, p as int),
    {
        let flags = read_be_u16(b, p)?;
        let name_index = read_be_u16(b, p + 2)?;
        let descriptor_index = read_be_u16(b, p + 4)?;
        let (attributes, q) = parse_attributes(pool, b, p + 6)?;
        Ok((
            MethodInfo {
                access_flags: AccessFlags::new_method_flag(flags),
                name_index,
                descriptor_index,
                attributes,
            },
            q,
        ))
    }

    /// The method's name, resolved through the pool.
    pub fn name<'a>(&self, pool: &'a Vec<ConstantPoolInfo>) -> (r: Option<&'a Vec<u8>>)
        ensures
            match pool_text(pool_view(pool@), self.name_index as int) {
                Some(t) => r is Some && r.unwrap()@ == t,
                None => r is None,
            },
    {
        resolve_utf8(pool, self.name_index)
    }

    /// The method's descriptor, resolved through the pool.
    pub fn descriptor<'a>(&self, pool: &'a Vec<ConstantPoolInfo>) -> (r: Option<&'a Vec<u8>>)
        ensures
            match pool_text(pool_view(pool@), self.descriptor_index as int) {
                Some(t) => r is Some && r.unwrap()@ == t,
                None => r is None,
            },
    {
        resolve_utf8(pool, self.descriptor_index)
    }

    /// The method carries a `Code` attribute.
    pub fn has_code(&self) -> (r: bool)
        ensures
            r == exists|i: int|
                0 <= i < self.attributes@.len() && kind_of_attribute(
                    #[trigger] self.attributes@[i].attribute_info,
                ) == AttributeKind::Code,
    {
        let mut i: usize = 0;
        while i < self.attributes.len()
            invariant
                i <= self.attributes@.len(),
                forall|j: int|
                    0 <= j < i ==> kind_of_attribute(#[trigger] self.attributes@[j].attribute_info)
                        != AttributeKind::Code,
            decreases self.attributes@.len() - i,
        {
            if let crate::attribute::Attribute::Code(_) = &self.attributes[i].attribute_info {
                return true;
            }
            i = i + 1;
        }
        false
    }
}

/// Decodes a count at `p` and that many field records.
pub fn parse_fields(pool: &Vec<ConstantPoolInfo>, b: &[u8], p: usize) -> (r: Result<
    (Vec<FieldInfo>, usize),
    Error,
>)
    ensures
        match r {
            Ok((v, q)) => fits(b@, p as int, 2) && v@.len() == be16(b@, p as int) && p + 2 <= q
                <= b@.len() && q == member_pos(b@, p + 2, v@.len()) && forall|i: int|
                0 <= i < v@.len() ==> #[trigger] field_ok(pool_view(pool@), b@, p + 2, v@, i),
            Err(e) => !fits(b@, p as int, 2) ==> e == Error::Truncated,
        },
        r is Ok <==> fits(b@, p as int, 2) && members_ok_from(
            pool_view(pool@),
            b@,
            p + 2,
            be16(b@, p as int) as nat,
        ),
{
    let n = read_be_u16(b, p)?;
    let mut out: Vec<FieldInfo> = Vec::new();
    let mut pos = p + 2;
    let mut i: u16 = 0;
    while i < n
        invariant
            fits(b@, p as int, 2),
            n == be16(b@, p as int),
            i <= n,
            out@.len() == i,
            p + 2 <= pos <= b@.len(),
            pos == member_pos(b@, p + 2, i as nat),
            forall|j: int| 0 <= j < i ==> #[trigger] field_ok(pool_view(pool@), b@, p + 2, out@, j),
            members_ok_from(pool_view(pool@), b@, p + 2, n as nat) == members_ok_from(
                pool_view(pool@),
                b@,
                pos as int,
                (n - i) as nat,
            ),
        decreases n - i,
    {
        let (f, q) = FieldInfo::parse(pool, b, pos)?;
        let ghost before = out@;
        out.push(f);
        assert forall|j: int| 0 <= j < i + 1 implies #[trigger] field_ok(
            pool_view(pool@),
            b@,
            p + 2,
            out@,
            j,
        ) by {
            if j < i {
                assert(field_ok(pool_view(pool@), b@, p + 2, before, j));
            }
        }
        pos = q;
        i = i + 1;
    }
    Ok((out, pos))
}

/// Decodes a count at `p` and that many method records.
pub fn parse_methods(pool: &Vec<ConstantPoolInfo>, b: &[u8], p: usize) -> (r: Result<
    (Vec<MethodInfo>, usize),
    Error,
>)
    ensures
        match r {
            Ok((v, q)) => fits(b@, p as int, 2) && v@.len() == be16(b@, p as int) && p + 2 <= q
                <= b@.len() && q == member_pos(b@, p + 2, v@.len()) && forall|i: int|
                0 <= i < v@.len() ==> #[trigger] method_ok(pool_view(pool@), b@, p + 2, v@, i),
            Err(e) => !fits(b@, p as int, 2) ==> e == Error::Truncated,
        },
        r is Ok <==> fits(b@, p as int, 2) && members_ok_from(
            pool_view(pool@),
            b@,
            p + 2,
            be16(b@, p as int) as nat,
        ),
{
    let n = read_be_u16(b, p)?;
    let mut out: Vec<MethodInfo> = Vec::new();
    let mut pos = p + 2;
    let mut i: u16 = 0;
    while i < n
        invariant
            fits(b@, p as int, 2),
            n == be16(b@, p as int),
            i <= n,
            out@.len() == i,
            p + 2 <= pos <= b@.len(),
            pos == member_pos(b@, p + 2, i as nat),
            forall|j: int| 0 <= j < i ==> #[trigger] method_ok(pool_view(pool@), b@, p + 2, out@, j),
            members_ok_from(pool_view(pool@), b@, p + 2, n as nat) == members_ok_from(
                pool_view(pool@),
                b@,
                pos as int,
                (n - i) as nat,
            ),
        decreases n - i,
    {
        let (m, q) = MethodInfo::parse(pool, b, pos)?;
        let ghost before = out@;
        out.push(m);
        assert forall|j: int| 0 <= j < i + 1 implies #[trigger] method_ok(
            pool_view(pool@),
            b@,
            p + 2,
            out@,
            j,
        ) by {
            if j < i {
                assert(method_ok(pool_view(pool@), b@, p + 2, before, j));
            }
        }
        pos = q;
        i = i + 1;
    }
    Ok((out, pos))
}

/// Two field records hold the same values and attributes.
pub open spec fn same_field(a: FieldInfo, b: FieldInfo) -> bool {
    &&& a.access_flags.1 == b.access_flags.1
    &&& a.access_flags.0@ == b.access_flags.0@
    &&& a.name_index == b.name_index
    &&& a.descriptor_index == b.descriptor_index
    &&& same_attributes(a.attributes@, b.attributes@)
}

/// Two method records hold the same values and attributes.
pub open spec fn same_method_info(a: MethodInfo, b: MethodInfo) -> bool {
    &&& a.access_flags.1 == b.access_flags.1
    &&& a.access_flags.0@ == b.access_flags.0@
    &&& a.name_index == b.name_index
    &&& a.descriptor_index == b.descriptor_index
    &&& same_attributes(a.attributes@, b.attributes@)
}

/// A field record is a function of the bytes it is read from and of the pool.
pub proof fn lemma_field_unique(pool: Seq<Constant>, s: Seq<u8>, at: int, a: FieldInfo, b: FieldInfo)
    requires
        field_at(pool, s, at, a),
        field_at(pool, s, at, b),
    ensures
        same_field(a, b),
{
    lemma_attributes_unique(pool, s, at + 8, a.attributes@, b.attributes@);
}

/// A method record is a function of the bytes it is read from and of the pool.
pub proof fn lemma_method_info_unique(pool: Seq<Constant>, s: Seq<u8>, at: int, a: MethodInfo, b: MethodInfo)
    requires
        method_at(pool, s, at, a),
        method_at(pool, s, at, b),
    ensures
        same_method_info(a, b),
{
    lemma_attributes_unique(pool, s, at + 8, a.attributes@, b.attributes@);
}

} // verus!
