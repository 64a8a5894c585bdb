use vstd::prelude::*;

use crate::bytes::{be32, fits, le16, le32, read_be_u32, read_le_u16, read_le_u32, read_u8};
use crate::error::Error;
use crate::leb128::{read_uleb128, spec_uleb};
use crate::utf::{parse_utf16_str, spec_utf16_str};
use crate::class_def::{
    class_def_decoded, class_def_ok_at, lemma_class_data_unique, parse_class_def, same_fields,
    same_methods, ClassDefItem,
};

verus! {

/// `dex\n` read big-endian: the start of every DEX file.
pub const DEX_MAGIC: u32 = 0x6465_780a;

/// Marks an absent optional index.
pub const NO_INDEX: u32 = 0xffff_ffff;

/// The size of the header; the id tables follow it.
pub const HEADER_SIZE: usize = 0x70;

/// The header of a DEX file. All fields but the magic are little-endian.
#[derive(Debug)]
pub struct DexHeader {
    pub magic: u64,
    /// The three ASCII version digits and their terminating zero.
    pub version: u32,
    pub checksum: u32,
    pub signature: [u8; 20],
    pub file_size: u32,
    pub header_size: u32,
    pub endian_tag: u32,
    pub link_size: u32,
    pub link_off: u32,
    pub map_off: u32,
    pub string_ids_size: u32,
    pub string_ids_off: u32,
    pub type_ids_size: u32,
    pub type_ids_off: u32,
    pub proto_ids_size: u32,
    pub proto_ids_off: u32,
    pub field_ids_size: u32,
    pub field_ids_off: u32,
    pub method_ids_size: u32,
    pub method_ids_off: u32,
    pub class_defs_size: u32,
    pub class_defs_off: u32,
    pub data_size: u32,
    pub data_off: u32,
}

/// `h` holds the header that the first `HEADER_SIZE` bytes of `s` encode.
pub open spec fn header_decoded(s: Seq<u8>, h: DexHeader) -> bool {
    &&& fits(s, 0, 0x70)
    &&& be32(s, 0) == DEX_MAGIC
    &&& h.magic == DEX_MAGIC
    &&& h.version == le32(s, 4)
    &&& h.checksum == le32(s, 8)
    &&& h.signature@ == s.subrange(12, 32)
    &&& h.file_size == le32(s, 32)
    &&& h.header_size == le32(s, 36)
    &&& h.endian_tag == le32(s, 40)
    &&& h.link_size == le32(s, 44)
    &&& h.link_off == le32(s, 48)
    &&& h.map_off == le32(s, 52)
    &&& h.string_ids_size == le32(s, 56)
    &&& h.string_ids_off == le32(s, 60)
    &&& h.type_ids_size == le32(s, 64)
    &&& h.type_ids_off == le32(s, 68)
    &&& h.proto_ids_size == le32(s, 72)
    &&& h.proto_ids_off == le32(s, 76)
    &&& h.field_ids_size == le32(s, 80)
    &&& h.field_ids_off == le32(s, 84)
    &&& h.method_ids_size == le32(s, 88)
    &&& h.method_ids_off == le32(s, 92)
    &&& h.class_defs_size == le32(s, 96)
    &&& h.class_defs_off == le32(s, 100)
    &&& h.data_size == le32(s, 104)
    &&& h.data_off == le32(s, 108)
}

/// The version digits (each ASCII byte less `0x30`), where all three are
/// digits.
pub open spec fn version_digits_of(v: u32) -> Option<(u8, u8, u8)> {
    let a = v % 256;
    let b = (v / 256) % 256;
    let c = (v / 65536) % 256;
    if 0x30 <= a <= 0x39 && 0x30 <= b <= 0x39 && 0x30 <= c <= 0x39 {
        Some(((a - 0x30) as u8, (b - 0x30) as u8, (c - 0x30) as u8))
    } else {
        None
    }
}

impl DexHeader {
    /// Decodes the header at the start of `b`. Fails with `Format` where the
    /// magic is not `dex\n`, with `Truncated` where `b` is shorter than the header.
    pub fn parse(b: &[u8]) -> (r: Result<DexHeader, Error>)
        ensures
            match r {
                Ok(h) => header_decoded(b@, h),
                Err(e) => (e == Error::Format <==> (fits(b@, 0, 4) && be32(b@, 0) != DEX_MAGIC))
                    && (e == Error::Truncated <==> (!fits(b@, 0, 4) || (be32(b@, 0) == DEX_MAGIC
                    && !fits(b@, 0, 0x70)))),
            },
            r is Ok <==> (fits(b@, 0, 4) && be32(b@, 0) == DEX_MAGIC && fits(b@, 0, 0x70)),
    {
        let magic = read_be_u32(b, 0)?;
        if magic != DEX_MAGIC {
            return Err(Error::Format);
        }
        if b.len() < 0x70 {
            return Err(Error::Truncated);
        }
        let mut signature: [u8; 20] = [0u8; 20];
        let mut i: usize = 0;
        while i < 20
            invariant
                b@.len() >= 0x70,
                i <= 20,
                forall|j: int| 0 <= j < i ==> signature@[j] == b@[12 + j],
            decreases 20 - i,
        {
            signature[i] = b[12 + i];
            i = i + 1;
        }
        assert(signature@ =~= b@.subrange(12, 32));
        Ok(DexHeader {
            magic: magic as u64,
            version: read_le_u32(b, 4)?,
            checksum: read_le_u32(b, 8)?,
            signature,
            file_size: read_le_u32(b, 32)?,
            header_size: read_le_u32(b, 36)?,
            endian_tag: read_le_u32(b, 40)?,
            link_size: read_le_u32(b, 44)?,
            link_off: read_le_u32(b, 48)?,
            map_off: read_le_u32(b, 52)?,
            string_ids_size: read_le_u32(b, 56)?,
            string_ids_off: read_le_u32(b, 60)?,
            type_ids_size: read_le_u32(b, 64)?,
            type_ids_off: read_le_u32(b, 68)?,
            proto_ids_size: read_le_u32(b, 72)?,
            proto_ids_off: read_le_u32(b, 76)?,
            field_ids_size: read_le_u32(b, 80)?,
            field_ids_off: read_le_u32(b, 84)?,
            method_ids_size: read_le_u32(b, 88)?,
            method_ids_off: read_le_u32(b, 92)?,
            class_defs_size: read_le_u32(b, 96)?,
            class_defs_off: read_le_u32(b, 100)?,
            data_size: read_le_u32(b, 104)?,
            data_off: read_le_u32(b, 108)?,
        })
    }

    /// The three version digits, where the version bytes are ASCII digits.
    pub fn version_digits(&self) -> (r: Option<(u8, u8, u8)>)
        ensures
            r == version_digits_of(self.version),
    {
        let a = self.version % 256;
        let b = (self.version / 256) % 256;
        let c = (self.version / 65536) % 256;
        if 0x30 <= a && a <= 0x39 && 0x30 <= b && b <= 0x39 && 0x30 <= c && c <= 0x39 {
            Some(((a - 0x30) as u8, (b - 0x30) as u8, (c - 0x30) as u8))
        } else {
            None
        }
    }
}

/// An entry of the string table: where its data is, its declared UTF-16
/// length, and its text as UTF-16 units.
#[derive(Debug)]
pub struct StringIdItem {
    pub string_data_off: u32,
    pub string_utf16_size: u32,
    pub string_data: Vec<u16>,
}

/// `it` holds the string whose data starts at `off`: a varint length, then
/// zero-terminated modified UTF-8.
pub open spec fn string_decoded(s: Seq<u8>, off: int, it: StringIdItem) -> bool {
    &&& it.string_data_off == off
    &&& match spec_uleb(s, off) {
        Some((len, q)) => it.string_utf16_size == len && match spec_utf16_str(s, q) {
            Some((d, _)) => it.string_data@ == d,
            None => false,
        },
        None => false,
    }
}

/// The string data at `off` decodes: a varint, then zero-terminated text.
pub open spec fn string_ok(s: Seq<u8>, off: int) -> bool {
    off <= s.len() && spec_uleb(s, off) is Some && spec_utf16_str(s, spec_uleb(s, off).unwrap().1) is Some
}

/// Decodes the string whose data starts at `off`.
pub fn parse_string_data(b: &[u8], off: u32) -> (r: Result<StringIdItem, Error>)
    ensures
        r is Ok ==> string_decoded(b@, off as int, r.unwrap()),
        r is Ok <==> string_ok(b@, off as int),
{
    if off as usize > b.len() {
        return Err(Error::IndexOutOfRange);
    }
    let (len, q) = read_uleb128(b, off as usize)?;
    let (data, _) = parse_utf16_str(b, q)?;
    Ok(StringIdItem { string_data_off: off, string_utf16_size: len, string_data: data })
}

/// An entry of the type table: the string index of its descriptor.
#[derive(Debug, Clone, Copy, PartialEq, Eq, Structural)]
pub struct TypeIdItem {
    pub descriptor_idx: u32,
}

/// A list of types, read at an offset: a count and that many type indices,
/// each resolved to its entry.
#[derive(Debug)]
pub struct TypeList {
    pub size: u32,
    pub list: Vec<TypeIdItem>,
}

/// `t` holds the type list at `o`, with each index resolved in `types`.
pub open spec fn type_list_decoded(s: Seq<u8>, o: int, types: Seq<TypeIdItem>, t: TypeList) -> bool {
    &&& fits(s, o, 4)
    &&& t.size == le32(s, o)
    &&& t.list@.len() == t.size
    &&& fits(s, o + 4, 2 * t.size)
    &&& forall|i: int| 0 <= i < t.size ==> #[trigger] type_ref_ok(s, o, types, t.list@, i)
}

/// Entry `i` of the list at `o` names a type of `types`, and `list` holds it.
pub open spec fn type_ref_ok(
    s: Seq<u8>,
    o: int,
    types: Seq<TypeIdItem>,
    list: Seq<TypeIdItem>,
    i: int,
) -> bool {
    le16(s, o + 4 + 2 * i) < types.len() && list[i] == types[le16(s, o + 4 + 2 * i)]
}

/// Entry `i` of the type list at `o` names one of `nt` types.
pub open spec fn type_idx_ok(s: Seq<u8>, o: int, nt: int, i: int) -> bool {
    le16(s, o + 4 + 2 * i) < nt
}

/// The type list at `o` is all there and names only types among `nt`.
pub open spec fn type_list_ok(s: Seq<u8>, o: int, nt: int) -> bool {
    &&& fits(s, o, 4)
    &&& fits(s, o + 4, 2 * le32(s, o))
    &&& forall|i: int| 0 <= i < le32(s, o) ==> #[trigger] type_idx_ok(s, o, nt, i)
}

impl TypeList {
    /// Decodes the type list at `o`, resolving each index in `types`.
    pub fn parse(b: &[u8], o: usize, types: &Vec<TypeIdItem>) -> (r: Result<TypeList, Error>)
        ensures
            r is Ok ==> type_list_decoded(b@, o as int, types@, r.unwrap()),
            r is Ok <==> type_list_ok(b@, o as int, types@.len() as int),
    {
        let size = read_le_u32(b, o)?;
        let mut list: Vec<TypeIdItem> = Vec::new();
        let mut pos = o + 4;
        let mut i: u32 = 0;
        while i < size
            invariant
                fits(b@, o as int, 4),
                size == le32(b@, o as int),
                i <= size,
                pos == o + 4 + 2 * i,
                pos <= b@.len(),
                list@.len() == i,
                forall|j: int| 0 <= j < i ==> #[trigger] type_ref_ok(b@, o as int, types@, list@, j),
                forall|j: int| 0 <= j < i ==> #[trigger] type_idx_ok(b@, o as int, types@.len() as int, j),
            decreases size - i,
        {
            let idx = match read_le_u16(b, pos) {
                Ok(x) => x,
                Err(e) => {
                    assert(!fits(b@, o + 4, 2 * size)) by (nonlinear_arith)
                        requires
                            !fits(b@, pos as int, 2),
                            pos == o + 4 + 2 * i,
                            i < size;
                    return Err(e);
                },
            };
            if idx as usize >= types.len() {
                assert(!type_idx_ok(b@, o as int, types@.len() as int, i as int));
                return Err(Error::IndexOutOfRange);
            }
            let ghost before = list@;
            list.push(types[idx as usize]);
            assert forall|j: int| 0 <= j < i + 1 implies #[trigger] type_ref_ok(
                b@,
                o as int,
                types@,
                list@,
                j,
            ) by {
                if j < i {
                    assert(type_ref_ok(b@, o as int, types@, before, j));
                    assert(list@[j] == before[j]);
                }
            }
            assert(type_idx_ok(b@, o as int, types@.len() as int, i as int));
            pos = pos + 2;
            i = i + 1;
        }
        Ok(TypeList { size, list })
    }

    /// A copy of the list.
    pub fn duplicate(&self) -> (r: TypeList)
        ensures
            r.size == self.size,
            r.list@ == self.list@,
    {
        let mut list: Vec<TypeIdItem> = Vec::new();
        let mut i: usize = 0;
        while i < self.list.len()
            invariant
                i <= self.list@.len(),
                list@ == self.list@.subrange(0, i as int),
            decreases self.list@.len() - i,
        {
            list.push(self.list[i]);
            assert(list@ =~= self.list@.subrange(0, i + 1));
            i = i + 1;
        }
        assert(list@ =~= self.list@);
        TypeList { size: self.size, list }
    }
}

/// An entry of the prototype table.
#[derive(Debug)]
pub struct ProtoIdItem {
    pub shorty_idx: u32,
    pub return_type_idx: u32,
    pub return_type: TypeIdItem,
    pub parameters_off: u32,
    pub parameters_type_list: Option<TypeList>,
}

/// Two prototypes hold the same values.
pub open spec fn same_proto(a: ProtoIdItem, b: ProtoIdItem) -> bool {
    &&& a.shorty_idx == b.shorty_idx
    &&& a.return_type_idx == b.return_type_idx
    &&& a.return_type == b.return_type
    &&& a.parameters_off == b.parameters_off
    &&& match (a.parameters_type_list, b.parameters_type_list) {
        (Some(x), Some(y)) => x.size == y.size && x.list@ == y.list@,
        (None, None) => true,
        _ => false,
    }
}

impl ProtoIdItem {
    /// A copy of the prototype.
    pub fn duplicate(&self) -> (r: ProtoIdItem)
        ensures
            same_proto(r, *self),
    {
        let params = match &self.parameters_type_list {
            Some(t) => Some(t.duplicate()),
            None => None,
        };
        ProtoIdItem {
            shorty_idx: self.shorty_idx,
            return_type_idx: self.return_type_idx,
            return_type: self.return_type,
            parameters_off: self.parameters_off,
            parameters_type_list: params,
        }
    }
}

/// An entry of the field table, with its class and type resolved.
#[derive(Debug, Clone, Copy, PartialEq, Eq, Structural)]
pub struct FieldIdItem {
    pub class_idx: u16,
    pub class: TypeIdItem,
    pub type_idx: u16,
    pub type_item: TypeIdItem,
    pub name_idx: u32,
}

/// An entry of the method table, with its class and prototype resolved.
#[derive(Debug)]
pub struct MethodIdItem {
    pub class_idx: u16,
    pub class: TypeIdItem,
    pub proto_idx: u16,
    pub proto: ProtoIdItem,
    pub name_idx: u32,
}

/// An entry of the call-site table.
#[derive(Debug, Clone, Copy, PartialEq, Eq, Structural)]
pub struct CallSiteIdItem {
    pub call_site_off: u32,
}

impl CallSiteIdItem {
    /// Decodes the entry at `p`.
    pub fn parse(b: &[u8], p: usize) -> (r: Result<CallSiteIdItem, Error>)
        ensures
            match r {
                Ok(c) => fits(b@, p as int, 4) && c.call_site_off == le32(b@, p as int),
                Err(e) => !fits(b@, p as int, 4) && e == Error::Truncated,
            },
    {
        let call_site_off = read_le_u32(b, p)?;
        Ok(CallSiteIdItem { call_site_off })
    }
}

/// An entry of the method-handle table.
#[derive(Debug, Clone, Copy, PartialEq, Eq, Structural)]
pub struct MethodHandleItem {
    pub method_handle_type: u16,
    pub field_or_method_id: u16,
}

impl MethodHandleItem {
    /// Decodes the entry at `p`: its type, then the field or method id.
    pub fn parse(b: &[u8], p: usize) -> (r: Result<MethodHandleItem, Error>)
        ensures
            match r {
                Ok(m) => fits(b@, p as int, 4) && m.method_handle_type == le16(b@, p as int)
                    && m.field_or_method_id == le16(b@, p + 2),
                Err(e) => !fits(b@, p as int, 4) && e == Error::Truncated,
            },
    {
        let method_handle_type = read_le_u16(b, p)?;
        let field_or_method_id = read_le_u16(b, p + 2)?;
        Ok(MethodHandleItem { method_handle_type, field_or_method_id })
    }
}

/// The data of entry `i` of the string table at `p` decodes.
pub open spec fn string_at_ok(s: Seq<u8>, p: int, i: int) -> bool {
    string_ok(s, le32(s, p + 4 * i))
}

/// The string table of `n` entries at `p` decodes.
pub open spec fn strings_ok(s: Seq<u8>, p: int, n: int) -> bool {
    fits(s, p, 4 * n) && forall|i: int| 0 <= i < n ==> #[trigger] string_at_ok(s, p, i)
}

/// Entry `i` of the prototype table at `p` names one of `nt` types and has a
/// parameter list that decodes, where it has one.
pub open spec fn proto_at_ok(s: Seq<u8>, p: int, nt: int, i: int) -> bool {
    let o = p + 12 * i;
    le32(s, o + 4) < nt && (le32(s, o + 8) == 0 || type_list_ok(s, le32(s, o + 8), nt))
}

/// The prototype table of `n` entries at `p` decodes.
pub open spec fn protos_ok(s: Seq<u8>, p: int, n: int, nt: int) -> bool {
    fits(s, p, 12 * n) && forall|i: int| 0 <= i < n ==> #[trigger] proto_at_ok(s, p, nt, i)
}

/// Entry `i` of the field table at `p` names two of `nt` types.
pub open spec fn field_at_ok(s: Seq<u8>, p: int, nt: int, i: int) -> bool {
    le16(s, p + 8 * i) < nt && le16(s, p + 8 * i + 2) < nt
}

/// The field table of `n` entries at `p` decodes.
pub open spec fn fields_ok(s: Seq<u8>, p: int, n: int, nt: int) -> bool {
    fits(s, p, 8 * n) && forall|i: int| 0 <= i < n ==> #[trigger] field_at_ok(s, p, nt, i)
}

/// Entry `i` of the method table at `p` names one of `nt` types and one of
/// `np` prototypes.
pub open spec fn method_at_ok(s: Seq<u8>, p: int, nt: int, np: int, i: int) -> bool {
    le16(s, p + 8 * i) < nt && le16(s, p + 8 * i + 2) < np
}

/// The method table of `n` entries at `p` decodes.
pub open spec fn methods_ok(s: Seq<u8>, p: int, n: int, nt: int, np: int) -> bool {
    fits(s, p, 8 * n) && forall|i: int| 0 <= i < n ==> #[trigger] method_at_ok(s, p, nt, np, i)
}

/// Class definition `i` of the list at `p` decodes.
pub open spec fn class_def_at_ok(s: Seq<u8>, p: int, nt: int, nf: int, nm: int, i: int) -> bool {
    class_def_ok_at(s, p + 32 * i, nt, nf, nm)
}

/// The `n` class definitions at `p` decode.
pub open spec fn class_defs_ok(s: Seq<u8>, p: int, n: int, nt: int, nf: int, nm: int) -> bool {
    fits(s, p, 32 * n) && forall|i: int| 0 <= i < n ==> #[trigger] class_def_at_ok(s, p, nt, nf, nm, i)
}

/// Entry `i` of the string table at `p` is held at `v[i]`.
pub open spec fn string_id_ok(s: Seq<u8>, p: int, v: Seq<StringIdItem>, i: int) -> bool {
    string_decoded(s, le32(s, p + 4 * i), v[i])
}

/// Decodes the string table at `p`: `n` data offsets, each followed into `b`.
pub fn parse_string_ids(b: &[u8], p: usize, n: u32) -> (r: Result<(Vec<StringIdItem>, usize), Error>)
    requires
        p <= b@.len(),
    ensures
        match r {
            Ok((v, q)) => q == p + 4 * n && q <= b@.len() && v@.len() == n && forall|i: int|
                0 <= i < n ==> #[trigger] string_id_ok(b@, p as int, v@, i),
            Err(_) => true,
        },
        r is Ok <==> strings_ok(b@, p as int, n as int),
{
    let len = b.len();
    if (len - p) / 4 < n as usize {
        assert(!fits(b@, p as int, 4 * n)) by (nonlinear_arith)
            requires
                (len - p) / 4 < n,
                len == b@.len(),
                p <= len;
        return Err(Error::Truncated);
    }
    let mut out: Vec<StringIdItem> = Vec::new();
    let mut pos = p;
    let mut i: u32 = 0;
    while i < n
        invariant
            fits(b@, p as int, 4 * n),
            i <= n,
            pos == p + 4 * i,
            pos <= b@.len(),
            out@.len() == i,
            forall|j: int| 0 <= j < i ==> #[trigger] string_id_ok(b@, p as int, out@, j),
            forall|j: int| 0 <= j < i ==> #[trigger] string_at_ok(b@, p as int, j),
        decreases n - i,
    {
        let off = read_le_u32(b, pos)?;
        let item = match parse_string_data(b, off) {
            Ok(x) => x,
            Err(e) => {
                assert(!string_at_ok(b@, p as int, i as int));
                return Err(e);
            },
        };
        let ghost before = out@;
        out.push(item);
        assert forall|j: int| 0 <= j < i + 1 implies #[trigger] string_id_ok(b@, p as int, out@, j) by {
            if j < i {
                assert(string_id_ok(b@, p as int, before, j));
            }
        }
        assert(string_at_ok(b@, p as int, i as int));
        pos = pos + 4;
        i = i + 1;
    }
    Ok((out, pos))
}

/// Entry `i` of the type table at `p` is held at `v[i]`.
pub open spec fn type_id_ok(s: Seq<u8>, p: int, v: Seq<TypeIdItem>, i: int) -> bool {
    v[i].descriptor_idx == le32(s, p + 4 * i)
}

/// Decodes the type table at `p`: `n` string indices.
pub fn parse_type_ids(b: &[u8], p: usize, n: u32) -> (r: Result<(Vec<TypeIdItem>, usize), Error>)
    requires
        p <= b@.len(),
    ensures
        match r {
            Ok((v, q)) => q == p + 4 * n && q <= b@.len() && v@.len() == n && forall|i: int|
                0 <= i < n ==> #[trigger] type_id_ok(b@, p as int, v@, i),
            Err(e) => e == Error::Truncated,
        },
        r is Ok <==> fits(b@, p as int, 4 * n),
{
    let len = b.len();
    if (len - p) / 4 < n as usize {
        assert(!fits(b@, p as int, 4 * n)) by (nonlinear_arith)
            requires
                (len - p) / 4 < n,
                len == b@.len(),
                p <= len;
        return Err(Error::Truncated);
    }
    let mut out: Vec<TypeIdItem> = Vec::new();
    let mut pos = p;
    let mut i: u32 = 0;
    while i < n
        invariant
            fits(b@, p as int, 4 * n),
            i <= n,
            pos == p + 4 * i,
            pos <= b@.len(),
            out@.len() == i,
            forall|j: int| 0 <= j < i ==> #[trigger] type_id_ok(b@, p as int, out@, j),
        decreases n - i,
    {
        let d = read_le_u32(b, pos)?;
        let ghost before = out@;
        out.push(TypeIdItem { descriptor_idx: d });
        assert forall|j: int| 0 <= j < i + 1 implies #[trigger] type_id_ok(b@, p as int, out@, j) by {
            if j < i {
                assert(type_id_ok(b@, p as int, before, j));
            }
        }
        pos = pos + 4;
        i = i + 1;
    }
    Ok((out, pos))
}

/// Entry `i` of the prototype table at `p` is held, resolved in `types`,
/// at `v[i]`.
pub open spec fn proto_id_ok(
    s: Seq<u8>,
    p: int,
    types: Seq<TypeIdItem>,
    v: Seq<ProtoIdItem>,
    i: int,
) -> bool {
    let o = p + 12 * i;
    &&& v[i].shorty_idx == le32(s, o)
    &&& v[i].return_type_idx == le32(s, o + 4)
    &&& v[i].return_type_idx < types.len()
    &&& v[i].return_type == types[v[i].return_type_idx as int]
    &&& v[i].parameters_off == le32(s, o + 8)
    &&& match v[i].parameters_type_list {
        Some(t) => v[i].parameters_off != 0 && type_list_decoded(
            s,
            v[i].parameters_off as int,
            types,
            t,
        ),
        None => v[i].parameters_off == 0,
    }
}

/// Decodes the prototype table at `p`: `n` records of shorty index, return
/// type index and parameter-list offset.
pub fn parse_proto_ids(b: &[u8], p: usize, n: u32, types: &Vec<TypeIdItem>) -> (r: Result<
    (Vec<ProtoIdItem>, usize),
    Error,
>)
    requires
        p <= b@.len(),
    ensures
        match r {
            Ok((v, q)) => q == p + 12 * n && q <= b@.len() && v@.len() == n && forall|i: int|
                0 <= i < n ==> #[trigger] proto_id_ok(b@, p as int, types@, v@, i),
            Err(_) => true,
        },
        r is Ok <==> protos_ok(b@, p as int, n as int, types@.len() as int),
{
    let len = b.len();
    if (len - p) / 12 < n as usize {
        assert(!fits(b@, p as int, 12 * n)) by (nonlinear_arith)
            requires
                (len - p) / 12 < n,
                len == b@.len(),
                p <= len;
        return Err(Error::Truncated);
    }
    let mut out: Vec<ProtoIdItem> = Vec::new();
    let mut pos = p;
    let mut i: u32 = 0;
    while i < n
        invariant
            fits(b@, p as int, 12 * n),
            i <= n,
            pos == p + 12 * i,
            pos <= b@.len(),
            out@.len() == i,
            forall|j: int| 0 <= j < i ==> #[trigger] proto_id_ok(b@, p as int, types@, out@, j),
            forall|j: int| 0 <= j < i ==> #[trigger] proto_at_ok(b@, p as int, types@.len() as int, j),
        decreases n - i,
    {
        assert(fits(b@, pos as int, 12)) by (nonlinear_arith)
            requires
                fits(b@, p as int, 12 * n),
                pos == p + 12 * i,
                i < n;
        let shorty_idx = read_le_u32(b, pos)?;
        let return_type_idx = read_le_u32(b, pos + 4)?;
        let parameters_off = read_le_u32(b, pos + 8)?;
        if return_type_idx as usize >= types.len() {
            assert(!proto_at_ok(b@, p as int, types@.len() as int, i as int));
            return Err(Error::IndexOutOfRange);
        }
        let parameters_type_list = if parameters_off == 0 {
            None
        } else {
            match TypeList::parse(b, parameters_off as usize, types) {
                Ok(t) => Some(t),
                Err(e) => {
                    assert(!proto_at_ok(b@, p as int, types@.len() as int, i as int));
                    return Err(e);
                },
            }
        };
        let item = ProtoIdItem {
            shorty_idx,
            return_type_idx,
            return_type: types[return_type_idx as usize],
            parameters_off,
            parameters_type_list,
        };
        let ghost before = out@;
        out.push(item);
        assert forall|j: int| 0 <= j < i + 1 implies #[trigger] proto_id_ok(
            b@,
            p as int,
            types@,
            out@,
            j,
        ) by {
            if j < i {
                assert(proto_id_ok(b@, p as int, types@, before, j));
            }
        }
        assert(proto_at_ok(b@, p as int, types@.len() as int, i as int));
        pos = pos + 12;
        i = i + 1;
    }
    Ok((out, pos))
}

/// Entry `i` of the field table at `p` is held, resolved in `types`, at `v[i]`.
pub open spec fn field_id_ok(
    s: Seq<u8>,
    p: int,
    types: Seq<TypeIdItem>,
    v: Seq<FieldIdItem>,
    i: int,
) -> bool {
    let o = p + 8 * i;
    &&& v[i].class_idx == le16(s, o)
    &&& v[i].type_idx == le16(s, o + 2)
    &&& v[i].name_idx == le32(s, o + 4)
    &&& v[i].class_idx < types.len()
    &&& v[i].type_idx < types.len()
    &&& v[i].class == types[v[i].class_idx as int]
    &&& v[i].type_item == types[v[i].type_idx as int]
}

/// Decodes the field table at `p`: `n` records of class index, type index
/// and name index.
pub fn parse_field_ids(b: &[u8], p: usize, n: u32, types: &Vec<TypeIdItem>) -> (r: Result<
    (Vec<FieldIdItem>, usize),
    Error,
>)
    requires
        p <= b@.len(),
    ensures
        match r {
            Ok((v, q)) => q == p + 8 * n && q <= b@.len() && v@.len() == n && forall|i: int|
                0 <= i < n ==> #[trigger] field_id_ok(b@, p as int, types@, v@, i),
            Err(_) => true,
        },
        r is Ok <==> fields_ok(b@, p as int, n as int, types@.len() as int),
{
    let len = b.len();
    if (len - p) / 8 < n as usize {
        assert(!fits(b@, p as int, 8 * n)) by (nonlinear_arith)
            requires
                (len - p) / 8 < n,
                len == b@.len(),
                p <= len;
        return Err(Error::Truncated);
    }
    let mut out: Vec<FieldIdItem> = Vec::new();
    let mut pos = p;
    let mut i: u32 = 0;
    while i < n
        invariant
            fits(b@, p as int, 8 * n),
            i <= n,
            pos == p + 8 * i,
            pos <= b@.len(),
            out@.len() == i,
            forall|j: int| 0 <= j < i ==> #[trigger] field_id_ok(b@, p as int, types@, out@, j),
            forall|j: int| 0 <= j < i ==> #[trigger] field_at_ok(b@, p as int, types@.len() as int, j),
        decreases n - i,
    {
        assert(fits(b@, pos as int, 8)) by (nonlinear_arith)
            requires
                fits(b@, p as int, 8 * n),
                pos == p + 8 * i,
                i < n;
        let class_idx = read_le_u16(b, pos)?;
        let type_idx = read_le_u16(b, pos + 2)?;
        let name_idx = read_le_u32(b, pos + 4)?;
        if class_idx as usize >= types.len() || type_idx as usize >= types.len() {
            assert(!field_at_ok(b@, p as int, types@.len() as int, i as int));
            return Err(Error::IndexOutOfRange);
        }
        let item = FieldIdItem {
            class_idx,
            class: types[class_idx as usize],
            type_idx,
            type_item: types[type_idx as usize],
            name_idx,
        };
        let ghost before = out@;
        out.push(item);
        assert forall|j: int| 0 <= j < i + 1 implies #[trigger] field_id_ok(
            b@,
            p as int,
            types@,
            out@,
            j,
        ) by {
            if j < i {
                assert(field_id_ok(b@, p as int, types@, before, j));
            }
        }
        assert(field_at_ok(b@, p as int, types@.len() as int, i as int));
        pos = pos + 8;
        i = i + 1;
    }
    Ok((out, pos))
}

/// Entry `i` of the method table at `p` is held, resolved in `types` and
/// `protos`, at `v[i]`.
pub open spec fn method_id_ok(
    s: Seq<u8>,
    p: int,
    types: Seq<TypeIdItem>,
    protos: Seq<ProtoIdItem>,
    v: Seq<MethodIdItem>,
    i: int,
) -> bool {
    let o = p + 8 * i;
    &&& v[i].class_idx == le16(s, o)
    &&& v[i].proto_idx == le16(s, o + 2)
    &&& v[i].name_idx == le32(s, o + 4)
    &&& v[i].class_idx < types.len()
    &&& v[i].proto_idx < protos.len()
    &&& v[i].class == types[v[i].class_idx as int]
    &&& same_proto(v[i].proto, protos[v[i].proto_idx as int])
}

/// Decodes the method table at `p`: `n` records of class index, prototype
/// index and name index.
pub fn parse_method_ids(
    b: &[u8],
    p: usize,
    n: u32,
    types: &Vec<TypeIdItem>,
    protos: &Vec<ProtoIdItem>,
) -> (r: Result<(Vec<MethodIdItem>, usize), Error>)
    requires
        p <= b@.len(),
    ensures
        match r {
            Ok((v, q)) => q == p + 8 * n && q <= b@.len() && v@.len() == n && forall|i: int|
                0 <= i < n ==> #[trigger] method_id_ok(b@, p as int, types@, protos@, v@, i),
            Err(_) => true,
        },
        r is Ok <==> methods_ok(b@, p as int, n as int, types@.len() as int, protos@.len() as int),
{
    let len = b.len();
    if (len - p) / 8 < n as usize {
        assert(!fits(b@, p as int, 8 * n)) by (nonlinear_arith)
            requires
                (len - p) / 8 < n,
                len == b@.len(),
                p <= len;
        return Err(Error::Truncated);
    }
    let mut out: Vec<MethodIdItem> = Vec::new();
    let mut pos = p;
    let mut i: u32 = 0;
    while i < n
        invariant
            fits(b@, p as int, 8 * n),
            i <= n,
            pos == p + 8 * i,
            pos <= b@.len(),
            out@.len() == i,
            forall|j: int|
                0 <= j < i ==> #[trigger] method_id_ok(b@, p as int, types@, protos@, out@, j),
            forall|j: int|
                0 <= j < i ==> #[trigger] method_at_ok(
                    b@,
                    p as int,
                    types@.len() as int,
                    protos@.len() as int,
                    j,
                ),
        decreases n - i,
    {
        assert(fits(b@, pos as int, 8)) by (nonlinear_arith)
            requires
                fits(b@, p as int, 8 * n),
                pos == p + 8 * i,
                i < n;
        let class_idx = read_le_u16(b, pos)?;
        let proto_idx = read_le_u16(b, pos + 2)?;
        let name_idx = read_le_u32(b, pos + 4)?;
        if class_idx as usize >= types.len() || proto_idx as usize >= protos.len() {
            assert(!method_at_ok(b@, p as int, types@.len() as int, protos@.len() as int, i as int));
            return Err(Error::IndexOutOfRange);
        }
        let item = MethodIdItem {
            class_idx,
            class: types[class_idx as usize],
            proto_idx,
            proto: protos[proto_idx as usize].duplicate(),
            name_idx,
        };
        let ghost before = out@;
        out.push(item);
        assert forall|j: int| 0 <= j < i + 1 implies #[trigger] method_id_ok(
            b@,
            p as int,
            types@,
            protos@,
            out@,
            j,
        ) by {
            if j < i {
                assert(method_id_ok(b@, p as int, types@, protos@, before, j));
            }
        }
        assert(method_at_ok(b@, p as int, types@.len() as int, protos@.len() as int, i as int));
        pos = pos + 8;
        i = i + 1;
    }
    Ok((out, pos))
}

/// Entry `i` of the class-definition list at `p` is held at `v[i]`.
pub open spec fn class_def_ok(
    s: Seq<u8>,
    p: int,
    types: Seq<TypeIdItem>,
    fields: Seq<FieldIdItem>,
    methods: Seq<MethodIdItem>,
    v: Seq<ClassDefItem>,
    i: int,
) -> bool {
    class_def_decoded(s, p + 32 * i, types, fields, methods, v[i])
}

/// Decodes `n` class definitions from `p`.
pub fn parse_class_defs(
    b: &[u8],
    p: usize,
    n: u32,
    types: &Vec<TypeIdItem>,
    fields: &Vec<FieldIdItem>,
    methods: &Vec<MethodIdItem>,
) -> (r: Result<(Vec<ClassDefItem>, usize), Error>)
    requires
        p <= b@.len(),
    ensures
        match r {
            Ok((v, q)) => q == p + 32 * n && q <= b@.len() && v@.len() == n && forall|i: int|
                0 <= i < n ==> #[trigger] class_def_ok(b@, p as int, types@, fields@, methods@, v@, i),
            Err(_) => true,
        },
        r is Ok <==> class_defs_ok(
            b@,
            p as int,
            n as int,
            types@.len() as int,
            fields@.len() as int,
            methods@.len() as int,
        ),
{
    let len = b.len();
    if (len - p) / 32 < n as usize {
        assert(!fits(b@, p as int, 32 * n)) by (nonlinear_arith)
            requires
                (len - p) / 32 < n,
                len == b@.len(),
                p <= len;
        return Err(Error::Truncated);
    }
    let ghost nt = types@.len() as int;
    let ghost nf = fields@.len() as int;
    let ghost nm = methods@.len() as int;
    let mut out: Vec<ClassDefItem> = Vec::new();
    let mut pos = p;
    let mut i: u32 = 0;
    while i < n
        invariant
            len == b@.len(),
            nt == types@.len(),
            nf == fields@.len(),
            nm == methods@.len(),
            fits(b@, p as int, 32 * n),
            i <= n,
            pos == p + 32 * i,
            pos <= b@.len(),
            out@.len() == i,
            forall|j: int|
                0 <= j < i ==> #[trigger] class_def_ok(b@, p as int, types@, fields@, methods@, out@, j),
            forall|j: int| 0 <= j < i ==> #[trigger] class_def_at_ok(b@, p as int, nt, nf, nm, j),
        decreases n - i,
    {
        let c = match parse_class_def(b, pos, types, fields, methods) {
            Ok(c) => c,
            Err(e) => {
                assert(!class_def_at_ok(b@, p as int, nt, nf, nm, i as int));
                return Err(e);
            },
        };
        let ghost before = out@;
        out.push(c);
        assert forall|j: int| 0 <= j < i + 1 implies #[trigger] class_def_ok(
            b@,
            p as int,
            types@,
            fields@,
            methods@,
            out@,
            j,
        ) by {
            if j < i {
                assert(class_def_ok(b@, p as int, types@, fields@, methods@, before, j));
            }
        }
        assert(class_def_at_ok(b@, p as int, nt, nf, nm, i as int));
        pos = pos + 32;
        i = i + 1;
    }
    Ok((out, pos))
}

/// A decoded DEX file: its header, the id tables that every later index
/// refers to, and its class definitions.
#[derive(Debug)]
pub struct DexFile {
    pub dex_header: DexHeader,
    pub string_ids: Vec<StringIdItem>,
    pub type_ids: Vec<TypeIdItem>,
    pub proto_ids: Vec<ProtoIdItem>,
    pub field_ids: Vec<FieldIdItem>,
    pub method_ids: Vec<MethodIdItem>,
    pub class_defs: Vec<ClassDefItem>,
    pub call_site_ids: Vec<CallSiteIdItem>,
    pub method_handles: Vec<MethodHandleItem>,
}

/// `d` holds the DEX file `s`: the header, then the string, type, prototype,
/// field and method tables and the class definitions, one after another.
pub open spec fn dex_decoded(s: Seq<u8>, d: DexFile) -> bool {
    let h = d.dex_header;
    let p0 = 0x70int;
    let p1 = p0 + 4 * h.string_ids_size;
    let p2 = p1 + 4 * h.type_ids_size;
    let p3 = p2 + 12 * h.proto_ids_size;
    let p4 = p3 + 8 * h.field_ids_size;
    let p5 = p4 + 8 * h.method_ids_size;
    &&& header_decoded(s, h)
    &&& d.string_ids@.len() == h.string_ids_size
    &&& (forall|i: int|
        0 <= i < h.string_ids_size ==> #[trigger] string_id_ok(s, p0, d.string_ids@, i))
    &&& d.type_ids@.len() == h.type_ids_size
    &&& (forall|i: int| 0 <= i < h.type_ids_size ==> #[trigger] type_id_ok(s, p1, d.type_ids@, i))
    &&& d.proto_ids@.len() == h.proto_ids_size
    &&& (forall|i: int|
        0 <= i < h.proto_ids_size ==> #[trigger] proto_id_ok(s, p2, d.type_ids@, d.proto_ids@, i))
    &&& d.field_ids@.len() == h.field_ids_size
    &&& (forall|i: int|
        0 <= i < h.field_ids_size ==> #[trigger] field_id_ok(s, p3, d.type_ids@, d.field_ids@, i))
    &&& d.method_ids@.len() == h.method_ids_size
    &&& (forall|i: int|
        0 <= i < h.method_ids_size ==> #[trigger] method_id_ok(
            s,
            p4,
            d.type_ids@,
            d.proto_ids@,
            d.method_ids@,
            i,
        ))
    &&& d.class_defs@.len() == h.class_defs_size
    &&& (forall|i: int|
        0 <= i < h.class_defs_size ==> #[trigger] class_def_ok(
            s,
            p5,
            d.type_ids@,
            d.field_ids@,
            d.method_ids@,
            d.class_defs@,
            i,
        ))
    &&& p5 + 32 * h.class_defs_size <= s.len()
    &&& d.call_site_ids@.len() == 0
    &&& d.method_handles@.len() == 0
}

/// The bytes `s` form a whole DEX file: a header with the magic, then
/// string, type, prototype, field and method tables and class definitions,
/// of the sizes that the header gives, that all decode.
pub open spec fn dex_ok(s: Seq<u8>) -> bool {
    let ns = le32(s, 56);
    let nt = le32(s, 64);
    let np = le32(s, 72);
    let nf = le32(s, 80);
    let nm = le32(s, 88);
    let nc = le32(s, 96);
    let p1 = 0x70 + 4 * ns;
    let p2 = p1 + 4 * nt;
    let p3 = p2 + 12 * np;
    let p4 = p3 + 8 * nf;
    let p5 = p4 + 8 * nm;
    &&& fits(s, 0, 4)
    &&& be32(s, 0) == DEX_MAGIC
    &&& fits(s, 0, 0x70)
    &&& strings_ok(s, 0x70, ns)
    &&& fits(s, p1, 4 * nt)
    &&& protos_ok(s, p2, np, nt)
    &&& fields_ok(s, p3, nf, nt)
    &&& methods_ok(s, p4, nm, nt, np)
    &&& class_defs_ok(s, p5, nc, nt, nf, nm)
}

impl DexFile {
    /// Decodes a whole DEX file held in `bytes`.
    pub fn parse(bytes: &[u8]) -> (r: Result<DexFile, Error>)
        ensures
            r is Ok ==> dex_decoded(bytes@, r.unwrap()),
            !fits(bytes@, 0, 4) ==> r == Err::<DexFile, Error>(Error::Truncated),
            fits(bytes@, 0, 4) && be32(bytes@, 0) != DEX_MAGIC ==> r == Err::<DexFile, Error>(
                Error::Format,
            ),
            r is Ok <==> dex_ok(bytes@),
    {
        let dex_header = DexHeader::parse(bytes)?;
        let (string_ids, p1) = parse_string_ids(bytes, HEADER_SIZE, dex_header.string_ids_size)?;
        let (type_ids, p2) = parse_type_ids(bytes, p1, dex_header.type_ids_size)?;
        let (proto_ids, p3) = parse_proto_ids(bytes, p2, dex_header.proto_ids_size, &type_ids)?;
        let (field_ids, p4) = parse_field_ids(bytes, p3, dex_header.field_ids_size, &type_ids)?;
        let (method_ids, p5) = parse_method_ids(
            bytes,
            p4,
            dex_header.method_ids_size,
            &type_ids,
            &proto_ids,
        )?;
        let (class_defs, _) = parse_class_defs(
            bytes,
            p5,
            dex_header.class_defs_size,
            &type_ids,
            &field_ids,
            &method_ids,
        )?;
        Ok(DexFile {
            dex_header,
            string_ids,
            type_ids,
            proto_ids,
            field_ids,
            method_ids,
            class_defs,
            call_site_ids: Vec::new(),
            method_handles: Vec::new(),
        })
    }
}

/// Decodes a whole DEX file.
pub fn parse(bytes: &[u8]) -> (r: Result<DexFile, Error>)
    ensures
        r is Ok ==> dex_decoded(bytes@, r.unwrap()),
        !fits(bytes@, 0, 4) ==> r == Err::<DexFile, Error>(Error::Truncated),
        fits(bytes@, 0, 4) && be32(bytes@, 0) != DEX_MAGIC ==> r == Err::<DexFile, Error>(
            Error::Format,
        ),
        r is Ok <==> dex_ok(bytes@),
{
    DexFile::parse(bytes)
}

/// The text of string `i` of the table, where it exists.
pub open spec fn dex_text(strings: Seq<StringIdItem>, i: int) -> Option<Seq<u16>> {
    if 0 <= i < strings.len() {
        Some(strings[i].string_data@)
    } else {
        None
    }
}

/// The text of string `index` of the file.
pub fn get_str_const(dex: &DexFile, index: usize) -> (r: Option<&Vec<u16>>)
    ensures
        match dex_text(dex.string_ids@, index as int) {
            Some(t) => r is Some && r.unwrap()@ == t,
            None => r is None,
        },
{
    if index < dex.string_ids.len() {
        Some(&dex.string_ids[index].string_data)
    } else {
        None
    }
}

/// Type `index` of the file.
pub fn get_type_id(dex: &DexFile, index: usize) -> (r: Option<TypeIdItem>)
    ensures
        r == (if index < dex.type_ids@.len() {
            Some(dex.type_ids@[index as int])
        } else {
            None::<TypeIdItem>
        }),
{
    if index < dex.type_ids.len() {
        Some(dex.type_ids[index])
    } else {
        None
    }
}

/// Method `index` of the file.
pub fn get_method_id(dex: &DexFile, index: usize) -> (r: Option<&MethodIdItem>)
    ensures
        match r {
            Some(m) => index < dex.method_ids@.len() && *m == dex.method_ids@[index as int],
            None => index >= dex.method_ids@.len(),
        },
{
    if index < dex.method_ids.len() {
        Some(&dex.method_ids[index])
    } else {
        None
    }
}

/// Field `index` of the file.
pub fn get_field_id(dex: &DexFile, index: usize) -> (r: Option<FieldIdItem>)
    ensures
        r == (if index < dex.field_ids@.len() {
            Some(dex.field_ids@[index as int])
        } else {
            None::<FieldIdItem>
        }),
{
    if index < dex.field_ids.len() {
        Some(dex.field_ids[index])
    } else {
        None
    }
}

impl TypeIdItem {
    /// The type's descriptor.
    pub fn descriptor<'a>(&self, dex: &'a DexFile) -> (r: Option<&'a Vec<u16>>)
        ensures
            match dex_text(dex.string_ids@, self.descriptor_idx as int) {
                Some(t) => r is Some && r.unwrap()@ == t,
                None => r is None,
            },
    {
        get_str_const(dex, self.descriptor_idx as usize)
    }
}

impl ProtoIdItem {
    /// The prototype's short form.
    pub fn shorty<'a>(&self, dex: &'a DexFile) -> (r: Option<&'a Vec<u16>>)
        ensures
            match dex_text(dex.string_ids@, self.shorty_idx as int) {
                Some(t) => r is Some && r.unwrap()@ == t,
                None => r is None,
            },
    {
        get_str_const(dex, self.shorty_idx as usize)
    }

    /// The descriptor of the return type.
    pub fn return_type<'a>(&self, dex: &'a DexFile) -> (r: Option<&'a Vec<u16>>)
        ensures
            match dex_text(dex.string_ids@, self.return_type.descriptor_idx as int) {
                Some(t) => r is Some && r.unwrap()@ == t,
                None => r is None,
            },
    {
        self.return_type.descriptor(dex)
    }
}

impl FieldIdItem {
    /// The field's name.
    pub fn name<'a>(&self, dex: &'a DexFile) -> (r: Option<&'a Vec<u16>>)
        ensures
            match dex_text(dex.string_ids@, self.name_idx as int) {
                Some(t) => r is Some && r.unwrap()@ == t,
                None => r is None,
            },
    {
        get_str_const(dex, self.name_idx as usize)
    }

    /// The descriptor of the field's type.
    pub fn descriptor<'a>(&self, dex: &'a DexFile) -> (r: Option<&'a Vec<u16>>)
        ensures
            match dex_text(dex.string_ids@, self.type_item.descriptor_idx as int) {
                Some(t) => r is Some && r.unwrap()@ == t,
                None => r is None,
            },
    {
        self.type_item.descriptor(dex)
    }
}

impl MethodIdItem {
    /// The method's name.
    pub fn name<'a>(&self, dex: &'a DexFile) -> (r: Option<&'a Vec<u16>>)
        ensures
            match dex_text(dex.string_ids@, self.name_idx as int) {
                Some(t) => r is Some && r.unwrap()@ == t,
                None => r is None,
            },
    {
        get_str_const(dex, self.name_idx as usize)
    }

    /// The short form of the method's prototype.
    pub fn param_type<'a>(&self, dex: &'a DexFile) -> (r: Option<&'a Vec<u16>>)
        ensures
            match dex_text(dex.string_ids@, self.proto.shorty_idx as int) {
                Some(t) => r is Some && r.unwrap()@ == t,
                None => r is None,
            },
    {
        self.proto.shorty(dex)
    }

    /// The descriptor of the method's return type.
    pub fn return_type<'a>(&self, dex: &'a DexFile) -> (r: Option<&'a Vec<u16>>)
        ensures
            match dex_text(dex.string_ids@, self.proto.return_type.descriptor_idx as int) {
                Some(t) => r is Some && r.unwrap()@ == t,
                None => r is None,
            },
    {
        self.proto.return_type(dex)
    }
}

/// A type list is a function of the bytes it is read from.
pub proof fn lemma_type_list_unique(s: Seq<u8>, o: int, types: Seq<TypeIdItem>, t1: TypeList, t2: TypeList)
    requires
        type_list_decoded(s, o, types, t1),
        type_list_decoded(s, o, types, t2),
    ensures
        t1.size == t2.size,
        t1.list@ == t2.list@,
{
    assert forall|i: int| 0 <= i < t1.list@.len() implies t1.list@[i] == t2.list@[i] by {
        assert(type_ref_ok(s, o, types, t1.list@, i));
        assert(type_ref_ok(s, o, types, t2.list@, i));
    }
    assert(t1.list@ =~= t2.list@);
}

/// Decoding is a function of the bytes: two DEX files that the decoder's
/// contract admits for the same input have the same header, the same string,
/// type, prototype, field and method tables, and the same class definitions,
/// class data and code items included.
pub proof fn lemma_dex_decode_deterministic(s: Seq<u8>, d1: DexFile, d2: DexFile)
    requires
        dex_decoded(s, d1),
        dex_decoded(s, d2),
    ensures
        d1.dex_header == d2.dex_header,
        d1.string_ids@.len() == d2.string_ids@.len(),
        forall|i: int|
            0 <= i < d1.string_ids@.len() ==> (#[trigger] d1.string_ids@[i]).string_data@
                == d2.string_ids@[i].string_data@ && d1.string_ids@[i].string_utf16_size
                == d2.string_ids@[i].string_utf16_size && d1.string_ids@[i].string_data_off
                == d2.string_ids@[i].string_data_off,
        d1.type_ids@ == d2.type_ids@,
        d1.proto_ids@.len() == d2.proto_ids@.len(),
        forall|i: int|
            0 <= i < d1.proto_ids@.len() ==> same_proto(
                #[trigger] d1.proto_ids@[i],
                d2.proto_ids@[i],
            ),
        d1.field_ids@ == d2.field_ids@,
        d1.method_ids@.len() == d2.method_ids@.len(),
        forall|i: int|
            0 <= i < d1.method_ids@.len() ==> crate::class_def::same_method(
                #[trigger] d1.method_ids@[i],
                d2.method_ids@[i],
            ),
        d1.class_defs@.len() == d2.class_defs@.len(),
        forall|i: int|
            0 <= i < d1.class_defs@.len() ==> same_class_def(
                #[trigger] d1.class_defs@[i],
                d2.class_defs@[i],
            ),
{
    let h1 = d1.dex_header;
    let h2 = d2.dex_header;
    assert(h1.signature@ =~= h2.signature@);
    assert(h1.signature =~= h2.signature);
    let p1 = 0x70int + 4 * h1.string_ids_size;
    let p2 = p1 + 4 * h1.type_ids_size;
    let p3 = p2 + 12 * h1.proto_ids_size;
    let p4 = p3 + 8 * h1.field_ids_size;
    let p5 = p4 + 8 * h1.method_ids_size;
    assert forall|i: int| 0 <= i < d1.string_ids@.len() implies (#[trigger] d1.string_ids@[i]).string_data@
        == d2.string_ids@[i].string_data@ && d1.string_ids@[i].string_utf16_size
        == d2.string_ids@[i].string_utf16_size && d1.string_ids@[i].string_data_off
        == d2.string_ids@[i].string_data_off by {
        assert(string_id_ok(s, 0x70, d1.string_ids@, i));
        assert(string_id_ok(s, 0x70, d2.string_ids@, i));
    }
    assert forall|i: int| 0 <= i < d1.type_ids@.len() implies d1.type_ids@[i] == d2.type_ids@[i] by {
        assert(type_id_ok(s, p1, d1.type_ids@, i));
        assert(type_id_ok(s, p1, d2.type_ids@, i));
    }
    assert(d1.type_ids@ =~= d2.type_ids@);
    let types = d1.type_ids@;
    assert forall|i: int| 0 <= i < d1.proto_ids@.len() implies same_proto(
        #[trigger] d1.proto_ids@[i],
        d2.proto_ids@[i],
    ) by {
        assert(proto_id_ok(s, p2, types, d1.proto_ids@, i));
        assert(proto_id_ok(s, p2, types, d2.proto_ids@, i));
        match (d1.proto_ids@[i].parameters_type_list, d2.proto_ids@[i].parameters_type_list) {
            (Some(x), Some(y)) => {
                lemma_type_list_unique(s, d1.proto_ids@[i].parameters_off as int, types, x, y);
            },
            _ => {},
        }
    }
    assert forall|i: int| 0 <= i < d1.field_ids@.len() implies d1.field_ids@[i] == d2.field_ids@[i] by {
        assert(field_id_ok(s, p3, types, d1.field_ids@, i));
        assert(field_id_ok(s, p3, types, d2.field_ids@, i));
    }
    assert(d1.field_ids@ =~= d2.field_ids@);
    assert forall|i: int| 0 <= i < d1.method_ids@.len() implies crate::class_def::same_method(
        #[trigger] d1.method_ids@[i],
        d2.method_ids@[i],
    ) by {
        assert(method_id_ok(s, p4, types, d1.proto_ids@, d1.method_ids@, i));
        assert(method_id_ok(s, p4, types, d2.proto_ids@, d2.method_ids@, i));
        let k = d1.method_ids@[i].proto_idx as int;
        assert(same_proto(d1.proto_ids@[k], d2.proto_ids@[k]));
    }
    assert forall|i: int| 0 <= i < d1.class_defs@.len() implies same_class_def(
        #[trigger] d1.class_defs@[i],
        d2.class_defs@[i],
    ) by {
        assert(class_def_ok(s, p5, types, d1.field_ids@, d1.method_ids@, d1.class_defs@, i));
        assert(class_def_ok(s, p5, types, d2.field_ids@, d2.method_ids@, d2.class_defs@, i));
        let c1 = d1.class_defs@[i];
        let c2 = d2.class_defs@[i];
        match (c1.interfaces, c2.interfaces) {
            (Some(x), Some(y)) => {
                lemma_type_list_unique(s, c1.interfaces_off as int, types, x, y);
            },
            _ => {},
        }
        match (c1.class_data_item, c2.class_data_item) {
            (Some(x), Some(y)) => {
                lemma_class_data_unique(
                    s,
                    c1.class_data_off as int,
                    d1.field_ids@,
                    d1.method_ids@,
                    d2.method_ids@,
                    x,
                    y,
                );
            },
            _ => {},
        }
    }
}

/// Two class definitions agree on their fixed fields, the types they resolve
/// to, their interfaces and whether they have class data.
pub open spec fn same_class_def(a: ClassDefItem, b: ClassDefItem) -> bool {
    &&& a.class_idx == b.class_idx
    &&& a.class == b.class
    &&& a.access_flags.1 == b.access_flags.1
    &&& a.superclass_idx == b.superclass_idx
    &&& a.superclass == b.superclass
    &&& a.interfaces_off == b.interfaces_off
    &&& match (a.interfaces, b.interfaces) {
        (Some(x), Some(y)) => x.size == y.size && x.list@ == y.list@,
        (None, None) => true,
        _ => false,
    }
    &&& a.source_file_idx == b.source_file_idx
    &&& a.annotations_off == b.annotations_off
    &&& a.class_data_off == b.class_data_off
    &&& a.static_values_off == b.static_values_off
    &&& match (a.class_data_item, b.class_data_item) {
        (Some(x), Some(y)) => same_fields(x.static_fields@, y.static_fields@) && same_fields(
            x.instance_fields@,
            y.instance_fields@,
        ) && same_methods(x.direct_methods@, y.direct_methods@) && same_methods(
            x.virtual_methods@,
            y.virtual_methods@,
        ),
        (None, None) => true,
        _ => false,
    }
}

} // verus!
