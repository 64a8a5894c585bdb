use vstd::prelude::*;

use crate::access_flag::{class_flags, AccessFlags};
use crate::attribute::{attr_ok, attrs_ok_from, lemma_attributes_unique, same_attributes, parse_attributes, pool_text, resolve_utf8, Attribute, AttributeInfo};
use crate::bytes::{be16, be32, fits, read_be_u16, read_be_u32};
use crate::constant_pool::{
    parse_constant_pool, pool_view, slots_of, spec_pool, Constant, ConstantPoolInfo, ConstantType,
};
use crate::error::Error;
use crate::member::{
    field_ok, lemma_field_unique, lemma_method_info_unique, member_pos, members_ok_from, method_ok,
    same_field, same_method_info, parse_fields, parse_methods, FieldInfo, MethodInfo,
};

verus! {

/// The magic number that opens every class file.
pub const CLASS_MAGIC: u32 = 0xCAFE_BABE;

/// A decoded class file. The constant pool is the table that every index in
/// the other parts refers to.
#[derive(Debug)]
pub struct ClassFile {
    pub magic: u32,
    pub minor_version: u16,
    pub major_version: u16,
    pub constant_pool_count: u16,
    pub constant_pool: Vec<ConstantPoolInfo>,
    pub access_flags: AccessFlags,
    pub this_class: u16,
    pub super_class: u16,
    pub interfaces: Vec<u16>,
    pub fields: Vec<FieldInfo>,
    pub methods: Vec<MethodInfo>,
    pub attributes: Vec<AttributeInfo>,
}

/// The name that the 1-based pool index `idx` gives a class: through a
/// `Class` entry to its text, or the text itself where the index names one.
pub open spec fn class_name_of(pool: Seq<Constant>, idx: int) -> Option<Seq<u8>> {
    if 1 <= idx <= pool.len() {
        match pool[idx - 1] {
            Constant::Class(n) => pool_text(pool, n as int),
            Constant::Utf8(t) => Some(t),
            _ => None,
        }
    } else {
        None
    }
}

/// Resolves a class reference to its name.
pub fn resolve_class_name(pool: &Vec<ConstantPoolInfo>, idx: u16) -> (r: Option<&Vec<u8>>)
    ensures
        match class_name_of(pool_view(pool@), idx as int) {
            Some(t) => r is Some && r.unwrap()@ == t,
            None => r is None,
        },
{
    if idx == 0 || idx as usize > pool.len() {
        return None;
    }
    match &pool[(idx - 1) as usize].info {
        ConstantType::Class(n) => resolve_utf8(pool, *n),
        ConstantType::Utf8(t) => Some(t),
        _ => None,
    }
}

/// `c` is the class file `s` whose constant pool ends at `e`: header, pool,
/// flags, this and super class, interfaces, and the field, method and
/// attribute lists, each entry at the position that the lengths before it give.
pub open spec fn class_decoded(s: Seq<u8>, c: ClassFile, e: int) -> bool {
    &&& fits(s, 0, 10)
    &&& c.magic == CLASS_MAGIC
    &&& be32(s, 0) == CLASS_MAGIC
    &&& c.minor_version == be16(s, 4)
    &&& c.major_version == be16(s, 6)
    &&& c.constant_pool_count == be16(s, 8)
    &&& spec_pool(s, 10, slots_of(c.constant_pool_count)) == Some(
        (pool_view(c.constant_pool@), e),
    )
    &&& fits(s, e, 8)
    &&& c.access_flags.1 == be16(s, e)
    &&& c.access_flags.0@ == class_flags(c.access_flags.1)
    &&& c.this_class == be16(s, e + 2)
    &&& c.super_class == be16(s, e + 4)
    &&& c.interfaces@.len() == be16(s, e + 6)
    &&& fits(s, e + 8, 2 * c.interfaces@.len() as int)
    &&& (forall|i: int|
        0 <= i < c.interfaces@.len() ==> c.interfaces@[i] == be16(s, e + 8 + 2 * i))
    &&& class_lists(pool_view(c.constant_pool@), s, e + 8 + 2 * c.interfaces@.len(), c)
}

/// The field list of `c` starts at `f0`, its method list and its attribute
/// list follow.
pub open spec fn class_lists(pool: Seq<Constant>, s: Seq<u8>, f0: int, c: ClassFile) -> bool {
    let m0 = member_pos(s, f0 + 2, c.fields@.len());
    let a0 = member_pos(s, m0 + 2, c.methods@.len());
    &&& fits(s, f0, 2)
    &&& c.fields@.len() == be16(s, f0)
    &&& (forall|i: int| 0 <= i < c.fields@.len() ==> #[trigger] field_ok(pool, s, f0 + 2, c.fields@, i))
    &&& fits(s, m0, 2)
    &&& c.methods@.len() == be16(s, m0)
    &&& (forall|i: int|
        0 <= i < c.methods@.len() ==> #[trigger] method_ok(pool, s, m0 + 2, c.methods@, i))
    &&& fits(s, a0, 2)
    &&& c.attributes@.len() == be16(s, a0)
    &&& (forall|i: int|
        0 <= i < c.attributes@.len() ==> #[trigger] attr_ok(pool, s, a0 + 2, c.attributes@, i))
}

/// Decodes `n` big-endian `u16` values one after another from `p`.
pub fn parse_u16_list(b: &[u8], p: usize, n: u16) -> (r: Result<Vec<u16>, Error>)
    ensures
        match r {
            Ok(v) => fits(b@, p as int, 2 * n) && v@.len() == n && forall|i: int|
                0 <= i < n ==> v@[i] == be16(b@, p + 2 * i),
            Err(e) => !fits(b@, p as int, 2 * n) && e == Error::Truncated,
        },
{
    let len = b.len();
    if p > len {
        return Err(Error::Truncated);
    }
    let mut out: Vec<u16> = Vec::new();
    let mut i: u16 = 0;
    while i < n
        invariant
            len == b@.len(),
            p <= len,
            i <= n,
            out@.len() == i,
            fits(b@, p as int, 2 * i),
            forall|j: int| 0 <= j < i ==> out@[j] == be16(b@, p + 2 * j),
        decreases n - i,
    {
        if p > len || len - p < 2 * (i as usize) + 2 {
            return Err(Error::Truncated);
        }
        let v = read_be_u16(b, p + 2 * (i as usize))?;
        out.push(v);
        i = i + 1;
    }
    Ok(out)
}

/// The bytes `s` form a whole class file: the magic, a header and pool that
/// fit, and flags, class indices, interfaces, fields, methods and attributes
/// that all decode.
pub open spec fn class_ok(s: Seq<u8>) -> bool {
    let sp = spec_pool(s, 10, slots_of(be16(s, 8) as u16));
    let pool = sp.unwrap().0;
    let e = sp.unwrap().1;
    let f0 = e + 8 + 2 * be16(s, e + 6);
    let m0 = member_pos(s, f0 + 2, be16(s, f0) as nat);
    let a0 = member_pos(s, m0 + 2, be16(s, m0) as nat);
    &&& fits(s, 0, 4)
    &&& be32(s, 0) == CLASS_MAGIC
    &&& fits(s, 0, 10)
    &&& sp is Some
    &&& fits(s, e, 8)
    &&& fits(s, e + 8, 2 * be16(s, e + 6))
    &&& fits(s, f0, 2)
    &&& members_ok_from(pool, s, f0 + 2, be16(s, f0) as nat)
    &&& fits(s, m0, 2)
    &&& members_ok_from(pool, s, m0 + 2, be16(s, m0) as nat)
    &&& fits(s, a0, 2)
    &&& attrs_ok_from(pool, s, a0 + 2, be16(s, a0) as nat)
}

/// The position just after the constant pool of a class file that declares
/// `count`.
pub open spec fn pool_end(s: Seq<u8>, count: u16) -> int {
    spec_pool(s, 10, slots_of(count)).unwrap().1
}

impl ClassFile {
    /// Decodes a whole class file: magic, versions, constant pool, flags,
    /// this and super class, interfaces, fields, methods and attributes.
    pub fn parse_from_u8(bytes: &[u8]) -> (r: Result<ClassFile, Error>)
        ensures
            match r {
                Ok(c) => class_decoded(bytes@, c, pool_end(bytes@, c.constant_pool_count)),
                Err(e) => (!fits(bytes@, 0, 4) ==> e == Error::Truncated) && (fits(bytes@, 0, 4)
                    && be32(bytes@, 0) != CLASS_MAGIC ==> e == Error::Format),
            },
            r is Ok <==> class_ok(bytes@),
    {
        let magic = read_be_u32(bytes, 0)?;
        if magic != CLASS_MAGIC {
            return Err(Error::Format);
        }
        let minor_version = read_be_u16(bytes, 4)?;
        let major_version = read_be_u16(bytes, 6)?;
        let constant_pool_count = read_be_u16(bytes, 8)?;
        let (constant_pool, e) = parse_constant_pool(bytes, 10, constant_pool_count)?;
        let flags = read_be_u16(bytes, e)?;
        let this_class = read_be_u16(bytes, e + 2)?;
        let super_class = read_be_u16(bytes, e + 4)?;
        let n = read_be_u16(bytes, e + 6)?;
        let interfaces = parse_u16_list(bytes, e + 8, n)?;
        let (fields, q1) = parse_fields(&constant_pool, bytes, e + 8 + 2 * (n as usize))?;
        let (methods, q2) = parse_methods(&constant_pool, bytes, q1)?;
        let (attributes, _q3) = parse_attributes(&constant_pool, bytes, q2)?;
        let c = ClassFile {
            magic,
            minor_version,
            major_version,
            constant_pool_count,
            constant_pool,
            access_flags: AccessFlags::new_class_flag(flags),
            this_class,
            super_class,
            interfaces,
            fields,
            methods,
            attributes,
        };
        assert(class_decoded(bytes@, c, e as int));
        Ok(c)
    }

    /// The name of this class.
    pub fn this_class_name(&self) -> (r: Option<&Vec<u8>>)
        ensures
            match class_name_of(pool_view(self.constant_pool@), self.this_class as int) {
                Some(t) => r is Some && r.unwrap()@ == t,
                None => r is None,
            },
    {
        resolve_class_name(&self.constant_pool, self.this_class)
    }

    /// The name of the superclass; none where the index is 0.
    pub fn super_class_name(&self) -> (r: Option<&Vec<u8>>)
        ensures
            match class_name_of(pool_view(self.constant_pool@), self.super_class as int) {
                Some(t) => r is Some && r.unwrap()@ == t,
                None => r is None,
            },
    {
        resolve_class_name(&self.constant_pool, self.super_class)
    }

    /// The file name that the first `SourceFile` attribute with a
    /// resolvable name gives; none where no attribute gives one.
    pub fn source_file_name(&self) -> (r: Option<&Vec<u8>>)
        ensures
            match r {
                Some(t) => exists|i: int|
                    0 <= i < self.attributes@.len() && source_name_of(
                        pool_view(self.constant_pool@),
                        #[trigger] self.attributes@[i],
                    ) == Some(t@) && forall|j: int|
                        0 <= j < i ==> source_name_of(
                            pool_view(self.constant_pool@),
                            #[trigger] self.attributes@[j],
                        ) is None,
                None => forall|i: int|
                    0 <= i < self.attributes@.len() ==> source_name_of(
                        pool_view(self.constant_pool@),
                        #[trigger] self.attributes@[i],
                    ) is None,
            },
    {
        let mut i: usize = 0;
        while i < self.attributes.len()
            invariant
                i <= self.attributes@.len(),
                forall|j: int|
                    0 <= j < i ==> source_name_of(
                        pool_view(self.constant_pool@),
                        #[trigger] self.attributes@[j],
                    ) is None,
            decreases self.attributes@.len() - i,
        {
            match self.attributes[i].get_sourcefile(&self.constant_pool) {
                Some(name) => {
                    assert(source_name_of(pool_view(self.constant_pool@), self.attributes@[i as int])
                        == Some(name@));
                    return Some(name);
                },
                None => {},
            }
            i = i + 1;
        }
        None
    }
}

/// The file name that an attribute gives, where it is a `SourceFile`
/// attribute whose index resolves.
pub open spec fn source_name_of(pool: Seq<Constant>, a: AttributeInfo) -> Option<Seq<u8>> {
    match a.attribute_info {
        Attribute::SourceFile(f) => pool_text(pool, f.sourcefile_index as int),
        _ => None,
    }
}

/// Decodes a whole class file.
pub fn parse(bytes: &[u8]) -> (r: Result<ClassFile, Error>)
    ensures
        match r {
            Ok(c) => class_decoded(bytes@, c, pool_end(bytes@, c.constant_pool_count)),
            Err(e) => (!fits(bytes@, 0, 4) ==> e == Error::Truncated) && (fits(bytes@, 0, 4) && be32(
                bytes@,
                0,
            ) != CLASS_MAGIC ==> e == Error::Format),
        },
        r is Ok <==> class_ok(bytes@),
{
    ClassFile::parse_from_u8(bytes)
}

/// Decoding is a function of the bytes: two class files that the decoder's
/// contract admits for the same input agree on the header, the constant
/// pool, the flags, this and super class, the interfaces, and every field,
/// method and attribute (a Code attribute down to the number of its nested
/// attributes).
pub proof fn lemma_class_decode_deterministic(s: Seq<u8>, c1: ClassFile, c2: ClassFile)
    requires
        class_decoded(s, c1, pool_end(s, c1.constant_pool_count)),
        class_decoded(s, c2, pool_end(s, c2.constant_pool_count)),
    ensures
        c1.magic == c2.magic,
        c1.minor_version == c2.minor_version,
        c1.major_version == c2.major_version,
        c1.constant_pool_count == c2.constant_pool_count,
        pool_view(c1.constant_pool@) == pool_view(c2.constant_pool@),
        c1.access_flags.1 == c2.access_flags.1,
        c1.access_flags.0@ == c2.access_flags.0@,
        c1.this_class == c2.this_class,
        c1.super_class == c2.super_class,
        c1.interfaces@ == c2.interfaces@,
        c1.fields@.len() == c2.fields@.len(),
        forall|i: int|
            0 <= i < c1.fields@.len() ==> same_field(#[trigger] c1.fields@[i], c2.fields@[i]),
        c1.methods@.len() == c2.methods@.len(),
        forall|i: int|
            0 <= i < c1.methods@.len() ==> same_method_info(
                #[trigger] c1.methods@[i],
                c2.methods@[i],
            ),
        same_attributes(c1.attributes@, c2.attributes@),
{
    assert(c1.interfaces@ =~= c2.interfaces@);
    let pool = pool_view(c1.constant_pool@);
    let f0 = pool_end(s, c1.constant_pool_count) + 8 + 2 * c1.interfaces@.len();
    let m0 = member_pos(s, f0 + 2, c1.fields@.len());
    let a0 = member_pos(s, m0 + 2, c1.methods@.len());
    assert forall|i: int| 0 <= i < c1.fields@.len() implies same_field(
        #[trigger] c1.fields@[i],
        c2.fields@[i],
    ) by {
        assert(field_ok(pool, s, f0 + 2, c1.fields@, i));
        assert(field_ok(pool, s, f0 + 2, c2.fields@, i));
        lemma_field_unique(pool, s, member_pos(s, f0 + 2, i as nat), c1.fields@[i], c2.fields@[i]);
    }
    assert forall|i: int| 0 <= i < c1.methods@.len() implies same_method_info(
        #[trigger] c1.methods@[i],
        c2.methods@[i],
    ) by {
        assert(method_ok(pool, s, m0 + 2, c1.methods@, i));
        assert(method_ok(pool, s, m0 + 2, c2.methods@, i));
        lemma_method_info_unique(
            pool,
            s,
            member_pos(s, m0 + 2, i as nat),
            c1.methods@[i],
            c2.methods@[i],
        );
    }
    lemma_attributes_unique(pool, s, a0 + 2, c1.attributes@, c2.attributes@);
}

} // verus!
