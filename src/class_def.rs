use vstd::prelude::*;

use crate::access_flag::{field_flags, method_flags, AccessFlags};
use crate::bytes::{fits, le16, le32, read_le_u16, read_le_u32};
use crate::error::Error;
use crate::leb128::{read_uleb128, spec_uleb};
use crate::raw_dex::{
    same_proto, type_list_decoded, type_list_ok, FieldIdItem, MethodIdItem, TypeIdItem, TypeList, NO_INDEX,
};

verus! {

/// The body of a method: register counts and the raw 16-bit instruction units.
#[derive(Debug)]
pub struct CodeItem {
    pub registers_size: u16,
    pub ins_size: u16,
    pub outs_size: u16,
    pub tries_size: u16,
    pub debug_info_off: u32,
    pub insns_size: u32,
    pub insns: Vec<u16>,
}

/// Instruction unit `i` of the code item at `o` is held at `insns[i]`.
pub open spec fn insn_ok(s: Seq<u8>, o: int, insns: Seq<u16>, i: int) -> bool {
    insns[i] == le16(s, o + 16 + 2 * i)
}

/// `c` holds the code item at `o`; where the unit count is odd and there are
/// try blocks, the two padding bytes after the units are present.
pub open spec fn code_item_decoded(s: Seq<u8>, o: int, c: CodeItem) -> bool {
    &&& fits(s, o, 16)
    &&& c.registers_size == le16(s, o)
    &&& c.ins_size == le16(s, o + 2)
    &&& c.outs_size == le16(s, o + 4)
    &&& c.tries_size == le16(s, o + 6)
    &&& c.debug_info_off == le32(s, o + 8)
    &&& c.insns_size == le32(s, o + 12)
    &&& fits(s, o + 16, 2 * c.insns_size)
    &&& c.insns@.len() == c.insns_size
    &&& (forall|i: int| 0 <= i < c.insns_size ==> #[trigger] insn_ok(s, o, c.insns@, i))
    &&& (c.insns_size % 2 == 1 && c.tries_size > 0 ==> fits(s, o + 16 + 2 * c.insns_size, 2))
}

/// The code item at `o` is all there: its header, its units, and the two
/// padding bytes where the unit count is odd and there are try blocks.
pub open spec fn code_item_ok(s: Seq<u8>, o: int) -> bool {
    let n = le32(s, o + 12);
    &&& fits(s, o, 16)
    &&& fits(s, o + 16, 2 * n)
    &&& (n % 2 == 1 && le16(s, o + 6) > 0 ==> fits(s, o + 16 + 2 * n, 2))
}

impl CodeItem {
    /// Decodes the code item at the absolute offset `o`.
    pub fn parse(b: &[u8], o: usize) -> (r: Result<CodeItem, Error>)
        ensures
            r is Ok ==> code_item_decoded(b@, o as int, r.unwrap()),
            r is Ok <==> code_item_ok(b@, o as int),
    {
        let registers_size = read_le_u16(b, o)?;
        let ins_size = read_le_u16(b, o + 2)?;
        let outs_size = read_le_u16(b, o + 4)?;
        let tries_size = read_le_u16(b, o + 6)?;
        let debug_info_off = read_le_u32(b, o + 8)?;
        let insns_size = read_le_u32(b, o + 12)?;
        let mut insns: Vec<u16> = Vec::new();
        let mut pos = o + 16;
        let mut i: u32 = 0;
        while i < insns_size
            invariant
                fits(b@, o as int, 16),
                insns_size == le32(b@, o + 12),
                i <= insns_size,
                pos == o + 16 + 2 * i,
                pos <= b@.len(),
                insns@.len() == i,
                forall|j: int| 0 <= j < i ==> #[trigger] insn_ok(b@, o as int, insns@, j),
            decreases insns_size - i,
        {
            let u = match read_le_u16(b, pos) {
                Ok(u) => u,
                Err(e) => {
                    assert(!fits(b@, o + 16, 2 * insns_size)) by (nonlinear_arith)
                        requires
                            !fits(b@, pos as int, 2),
                            pos == o + 16 + 2 * i,
                            i < insns_size;
                    return Err(e);
                },
            };
            let ghost before = insns@;
            insns.push(u);
            assert forall|j: int| 0 <= j < i + 1 implies #[trigger] insn_ok(
                b@,
                o as int,
                insns@,
                j,
            ) by {
                if j < i {
                    assert(insn_ok(b@, o as int, before, j));
                }
            }
            pos = pos + 2;
            i = i + 1;
        }
        if insns_size % 2 == 1 && tries_size > 0 {
            let _padding = read_le_u16(b, pos)?;
        }
        Ok(CodeItem {
            registers_size,
            ins_size,
            outs_size,
            tries_size,
            debug_info_off,
            insns_size,
            insns,
        })
    }
}

/// A field of a class: the step from the previous field's index, the index
/// that the steps add up to, the flags, and the field it names.
#[derive(Debug)]
pub struct EncodedField {
    pub field_idx_diff: u32,
    pub field_idx: u32,
    pub access_flags: AccessFlags,
    pub field: FieldIdItem,
}

/// A method of a class: the step from the previous method's index, the index
/// that the steps add up to, the flags, the method it names and its code.
#[derive(Debug)]
pub struct EncodedMethod {
    pub method_idx_diff: u32,
    pub method_idx: u32,
    pub access_flags: AccessFlags,
    pub code_off: u32,
    pub method: MethodIdItem,
    pub code_item: Option<CodeItem>,
}

/// Two method ids hold the same values.
pub open spec fn same_method(a: MethodIdItem, b: MethodIdItem) -> bool {
    &&& a.class_idx == b.class_idx
    &&& a.class == b.class
    &&& a.proto_idx == b.proto_idx
    &&& same_proto(a.proto, b.proto)
    &&& a.name_idx == b.name_idx
}

impl MethodIdItem {
    /// A copy of the method id.
    pub fn duplicate(&self) -> (r: MethodIdItem)
        ensures
            same_method(r, *self),
    {
        MethodIdItem {
            class_idx: self.class_idx,
            class: self.class,
            proto_idx: self.proto_idx,
            proto: self.proto.duplicate(),
            name_idx: self.name_idx,
        }
    }
}

/// Entry `i` of a field list has the index of the entry before it (0 for the
/// first) plus its own step, and names the field with that index.
pub open spec fn field_entry_ok(v: Seq<EncodedField>, ids: Seq<FieldIdItem>, i: int) -> bool {
    &&& v[i].field_idx == (if i == 0 { 0 } else { v[i - 1].field_idx as int }) + v[i].field_idx_diff
    &&& v[i].field_idx < ids.len()
    &&& v[i].field == ids[v[i].field_idx as int]
    &&& v[i].access_flags.0@ == field_flags(v[i].access_flags.1)
}

/// Entry `i` of a method list has the index of the entry before it (0 for
/// the first) plus its own step, names the method with that index, and has a
/// code item exactly where its code offset is not 0, decoded at that offset.
pub open spec fn method_entry_ok(
    s: Seq<u8>,
    v: Seq<EncodedMethod>,
    ids: Seq<MethodIdItem>,
    i: int,
) -> bool {
    &&& v[i].method_idx == (if i == 0 { 0 } else { v[i - 1].method_idx as int })
        + v[i].method_idx_diff
    &&& v[i].method_idx < ids.len()
    &&& same_method(v[i].method, ids[v[i].method_idx as int])
    &&& v[i].access_flags.0@ == method_flags(v[i].access_flags.1)
    &&& match v[i].code_item {
        Some(c) => v[i].code_off != 0 && code_item_decoded(s, v[i].code_off as int, c),
        None => v[i].code_off == 0,
    }
}

/// The (index step, flags) pairs of `n` encoded fields from `p`, and the
/// position after them.
pub open spec fn spec_field_entries(s: Seq<u8>, p: int, n: nat) -> Option<(Seq<(u32, u32)>, int)>
    decreases n,
{
    if n == 0 {
        Some((Seq::empty(), p))
    } else {
        match spec_uleb(s, p) {
            None => None,
            Some((d, q1)) => match spec_uleb(s, q1) {
                None => None,
                Some((f, q2)) => match spec_field_entries(s, q2, (n - 1) as nat) {
                    None => None,
                    Some((rest, e)) => Some((seq![(d, f)] + rest, e)),
                },
            },
        }
    }
}

/// The (index step, flags, code offset) triples of `n` encoded methods from
/// `p`, and the position after them.
pub open spec fn spec_method_entries(s: Seq<u8>, p: int, n: nat) -> Option<
    (Seq<(u32, u32, u32)>, int),
>
    decreases n,
{
    if n == 0 {
        Some((Seq::empty(), p))
    } else {
        match spec_uleb(s, p) {
            None => None,
            Some((d, q1)) => match spec_uleb(s, q1) {
                None => None,
                Some((f, q2)) => match spec_uleb(s, q2) {
                    None => None,
                    Some((c, q3)) => match spec_method_entries(s, q3, (n - 1) as nat) {
                        None => None,
                        Some((rest, e)) => Some((seq![(d, f, c)] + rest, e)),
                    },
                },
            },
        }
    }
}

/// `n` encoded fields from `p` decode, and the running index, starting from
/// `cur`, stays inside a table of `nf` fields.
pub open spec fn fields_ok_from(s: Seq<u8>, p: int, n: nat, cur: int, nf: int) -> bool
    decreases n,
{
    if n == 0 {
        true
    } else {
        match spec_uleb(s, p) {
            None => false,
            Some((d, q1)) => match spec_uleb(s, q1) {
                None => false,
                Some((_, q2)) => cur + d < nf && cur + d <= 0xffff_ffff && fields_ok_from(
                    s,
                    q2,
                    (n - 1) as nat,
                    cur + d,
                    nf,
                ),
            },
        }
    }
}

/// `n` encoded methods from `p` decode, the running index, starting from
/// `cur`, stays inside a table of `nm` methods, and each non-zero code offset
/// leads to a whole code item.
pub open spec fn methods_ok_from(s: Seq<u8>, p: int, n: nat, cur: int, nm: int) -> bool
    decreases n,
{
    if n == 0 {
        true
    } else {
        match spec_uleb(s, p) {
            None => false,
            Some((d, q1)) => match spec_uleb(s, q1) {
                None => false,
                Some((_, q2)) => match spec_uleb(s, q2) {
                    None => false,
                    Some((c, q3)) => cur + d < nm && cur + d <= 0xffff_ffff && (c == 0
                        || code_item_ok(s, c as int)) && methods_ok_from(
                        s,
                        q3,
                        (n - 1) as nat,
                        cur + d,
                        nm,
                    ),
                },
            },
        }
    }
}

/// Entry `i` of a field list holds the step and the (16 low bits of the)
/// flags that `raw` gives it.
pub open spec fn field_raw_ok(raw: Seq<(u32, u32)>, v: Seq<EncodedField>, i: int) -> bool {
    v[i].field_idx_diff == raw[i].0 && v[i].access_flags.1 == raw[i].1 % 0x1_0000
}

/// Entry `i` of a method list holds the step, the (16 low bits of the) flags
/// and the code offset that `raw` gives it.
pub open spec fn method_raw_ok(raw: Seq<(u32, u32, u32)>, v: Seq<EncodedMethod>, i: int) -> bool {
    v[i].method_idx_diff == raw[i].0 && v[i].access_flags.1 == raw[i].1 % 0x1_0000 && v[i].code_off
        == raw[i].2
}

/// Decodes `n` diff-encoded fields from `p`, resolving each in `ids`.
pub fn parse_encoded_fields(b: &[u8], p: usize, n: u32, ids: &Vec<FieldIdItem>) -> (r: Result<
    (Vec<EncodedField>, usize),
    Error,
>)
    requires
        p <= b@.len(),
    ensures
        match r {
            Ok((v, q)) => v@.len() == n && p <= q <= b@.len() && (forall|i: int|
                0 <= i < n ==> #[trigger] field_entry_ok(v@, ids@, i)) && match spec_field_entries(
                b@,
                p as int,
                n as nat,
            ) {
                Some((raw, e)) => e == q && raw.len() == n && forall|i: int|
                    0 <= i < n ==> #[trigger] field_raw_ok(raw, v@, i),
                None => false,
            },
            Err(_) => true,
        },
        r is Ok <==> fields_ok_from(b@, p as int, n as nat, 0, ids@.len() as int),
{
    let mut out: Vec<EncodedField> = Vec::new();
    let mut pos = p;
    let mut cur: u32 = 0;
    let mut i: u32 = 0;
    let ghost mut raw: Seq<(u32, u32)> = Seq::empty();
    while i < n
        invariant
            fields_ok_from(b@, p as int, n as nat, 0, ids@.len() as int) == fields_ok_from(
                b@,
                pos as int,
                (n - i) as nat,
                cur as int,
                ids@.len() as int,
            ),
            raw.len() == i,
            forall|j: int| 0 <= j < i ==> #[trigger] field_raw_ok(raw, out@, j),
            spec_field_entries(b@, p as int, n as nat) == match spec_field_entries(
                b@,
                pos as int,
                (n - i) as nat,
            ) {
                Some((rest, e)) => Some((raw + rest, e)),
                None => None,
            },
            p <= pos <= b@.len(),
            i <= n,
            out@.len() == i,
            i > 0 ==> cur == out@[i - 1].field_idx,
            i == 0 ==> cur == 0,
            forall|j: int| 0 <= j < i ==> #[trigger] field_entry_ok(out@, ids@, j),
        decreases n - i,
    {
        let (diff, q1) = read_uleb128(b, pos)?;
        let (flags, q2) = read_uleb128(b, q1)?;
        let idx: u64 = cur as u64 + diff as u64;
        if idx >= ids.len() as u64 || idx > 0xffff_ffff {
            return Err(Error::IndexOutOfRange);
        }
        let e = EncodedField {
            field_idx_diff: diff,
            field_idx: idx as u32,
            access_flags: AccessFlags::new_field_flag((flags % 0x1_0000) as u16),
            field: ids[idx as usize],
        };
        let ghost before = out@;
        out.push(e);
        assert forall|j: int| 0 <= j < i + 1 implies #[trigger] field_entry_ok(out@, ids@, j) by {
            if j < i {
                assert(field_entry_ok(before, ids@, j));
            }
        }
        proof {
            let old_raw = raw;
            raw = raw.push((diff, flags));
            assert forall|j: int| 0 <= j < i + 1 implies #[trigger] field_raw_ok(raw, out@, j) by {
                if j < i {
                    assert(field_raw_ok(old_raw, before, j));
                }
            }
            match spec_field_entries(b@, q2 as int, (n - i - 1) as nat) {
                Some((rest, e)) => {
                    assert(raw + rest =~= old_raw + (seq![(diff, flags)] + rest));
                },
                None => {},
            }
        }
        cur = idx as u32;
        pos = q2;
        i = i + 1;
    }
    Ok((out, pos))
}

/// Decodes `n` diff-encoded methods from `p`, resolving each in `ids` and
/// following each non-zero code offset into `b`.
pub fn parse_encoded_methods(b: &[u8], p: usize, n: u32, ids: &Vec<MethodIdItem>) -> (r: Result<
    (Vec<EncodedMethod>, usize),
    Error,
>)
    requires
        p <= b@.len(),
    ensures
        match r {
            Ok((v, q)) => v@.len() == n && p <= q <= b@.len() && (forall|i: int|
                0 <= i < n ==> #[trigger] method_entry_ok(b@, v@, ids@, i)) && match spec_method_entries(
                b@,
                p as int,
                n as nat,
            ) {
                Some((raw, e)) => e == q && raw.len() == n && forall|i: int|
                    0 <= i < n ==> #[trigger] method_raw_ok(raw, v@, i),
                None => false,
            },
            Err(_) => true,
        },
        r is Ok <==> methods_ok_from(b@, p as int, n as nat, 0, ids@.len() as int),
{
    let mut out: Vec<EncodedMethod> = Vec::new();
    let mut pos = p;
    let mut cur: u32 = 0;
    let mut i: u32 = 0;
    let ghost mut raw: Seq<(u32, u32, u32)> = Seq::empty();
    while i < n
        invariant
            methods_ok_from(b@, p as int, n as nat, 0, ids@.len() as int) == methods_ok_from(
                b@,
                pos as int,
                (n - i) as nat,
                cur as int,
                ids@.len() as int,
            ),
            raw.len() == i,
            forall|j: int| 0 <= j < i ==> #[trigger] method_raw_ok(raw, out@, j),
            spec_method_entries(b@, p as int, n as nat) == match spec_method_entries(
                b@,
                pos as int,
                (n - i) as nat,
            ) {
                Some((rest, e)) => Some((raw + rest, e)),
                None => None,
            },
            p <= pos <= b@.len(),
            i <= n,
            out@.len() == i,
            i > 0 ==> cur == out@[i - 1].method_idx,
            i == 0 ==> cur == 0,
            forall|j: int| 0 <= j < i ==> #[trigger] method_entry_ok(b@, out@, ids@, j),
        decreases n - i,
    {
        let (diff, q1) = read_uleb128(b, pos)?;
        let (flags, q2) = read_uleb128(b, q1)?;
        let (code_off, q3) = read_uleb128(b, q2)?;
        let idx: u64 = cur as u64 + diff as u64;
        if idx >= ids.len() as u64 || idx > 0xffff_ffff {
            return Err(Error::IndexOutOfRange);
        }
        let code_item = if code_off != 0 {
            Some(CodeItem::parse(b, code_off as usize)?)
        } else {
            None
        };
        let e = EncodedMethod {
            method_idx_diff: diff,
            method_idx: idx as u32,
            access_flags: AccessFlags::new_method_flag((flags % 0x1_0000) as u16),
            code_off,
            method: ids[idx as usize].duplicate(),
            code_item,
        };
        let ghost before = out@;
        out.push(e);
        assert forall|j: int| 0 <= j < i + 1 implies #[trigger] method_entry_ok(
            b@,
            out@,
            ids@,
            j,
        ) by {
            if j < i {
                assert(method_entry_ok(b@, before, ids@, j));
            }
        }
        proof {
            let old_raw = raw;
            raw = raw.push((diff, flags, code_off));
            assert forall|j: int| 0 <= j < i + 1 implies #[trigger] method_raw_ok(raw, out@, j) by {
                if j < i {
                    assert(method_raw_ok(old_raw, before, j));
                }
            }
            match spec_method_entries(b@, q3 as int, (n - i - 1) as nat) {
                Some((rest, e)) => {
                    assert(raw + rest =~= old_raw + (seq![(diff, flags, code_off)] + rest));
                },
                None => {},
            }
        }
        cur = idx as u32;
        pos = q3;
        i = i + 1;
    }
    Ok((out, pos))
}

/// The members of a class: four lists, each diff-encoded on its own.
#[derive(Debug)]
pub struct ClassDataItem {
    pub static_fields: Vec<EncodedField>,
    pub instance_fields: Vec<EncodedField>,
    pub direct_methods: Vec<EncodedMethod>,
    pub virtual_methods: Vec<EncodedMethod>,
}

/// The sizes of the four lists of the class data at `p`, and the position
/// after them.
pub open spec fn class_data_sizes(s: Seq<u8>, p: int) -> Option<(u32, u32, u32, u32, int)> {
    match spec_uleb(s, p) {
        None => None,
        Some((a, p1)) => match spec_uleb(s, p1) {
            None => None,
            Some((b, p2)) => match spec_uleb(s, p2) {
                None => None,
                Some((c, p3)) => match spec_uleb(s, p3) {
                    None => None,
                    Some((d, p4)) => Some((a, b, c, d, p4)),
                },
            },
        },
    }
}

/// A field list read from `raw`: each entry holds its step and flags, and
/// the indices add up from 0 and resolve in `ids`.
pub open spec fn fields_decoded(raw: Seq<(u32, u32)>, ids: Seq<FieldIdItem>, v: Seq<EncodedField>) -> bool {
    &&& v.len() == raw.len()
    &&& forall|i: int| 0 <= i < v.len() ==> #[trigger] field_raw_ok(raw, v, i)
    &&& forall|i: int| 0 <= i < v.len() ==> #[trigger] field_entry_ok(v, ids, i)
}

/// A method list read from `raw`: each entry holds its step, flags and code
/// offset, the indices add up from 0 and resolve in `ids`, and code items are
/// read from `s`.
pub open spec fn methods_decoded(
    s: Seq<u8>,
    raw: Seq<(u32, u32, u32)>,
    ids: Seq<MethodIdItem>,
    v: Seq<EncodedMethod>,
) -> bool {
    &&& v.len() == raw.len()
    &&& forall|i: int| 0 <= i < v.len() ==> #[trigger] method_raw_ok(raw, v, i)
    &&& forall|i: int| 0 <= i < v.len() ==> #[trigger] method_entry_ok(s, v, ids, i)
}

/// `d` holds the class data at `p`: four sizes, then that many static fields,
/// instance fields, direct methods and virtual methods, each list
/// diff-encoded on its own.
pub open spec fn class_data_decoded(
    s: Seq<u8>,
    p: int,
    fields: Seq<FieldIdItem>,
    methods: Seq<MethodIdItem>,
    d: ClassDataItem,
) -> bool {
    match class_data_sizes(s, p) {
        None => false,
        Some((a, b, c, e, p4)) => match spec_field_entries(s, p4, a as nat) {
            None => false,
            Some((r1, q1)) => fields_decoded(r1, fields, d.static_fields@) && match spec_field_entries(
                s,
                q1,
                b as nat,
            ) {
                None => false,
                Some((r2, q2)) => fields_decoded(r2, fields, d.instance_fields@)
                    && match spec_method_entries(s, q2, c as nat) {
                    None => false,
                    Some((r3, q3)) => methods_decoded(s, r3, methods, d.direct_methods@)
                        && match spec_method_entries(s, q3, e as nat) {
                        None => false,
                        Some((r4, _)) => methods_decoded(s, r4, methods, d.virtual_methods@),
                    },
                },
            },
        },
    }
}

/// The class data at `p` decodes: its four sizes, two field lists and two
/// method lists, with indices inside tables of `nf` fields and `nm` methods.
pub open spec fn class_data_ok(s: Seq<u8>, p: int, nf: int, nm: int) -> bool {
    match class_data_sizes(s, p) {
        None => false,
        Some((a, b, c, e, p4)) => {
            let q1 = spec_field_entries(s, p4, a as nat).unwrap().1;
            let q2 = spec_field_entries(s, q1, b as nat).unwrap().1;
            let q3 = spec_method_entries(s, q2, c as nat).unwrap().1;
            &&& fields_ok_from(s, p4, a as nat, 0, nf)
            &&& fields_ok_from(s, q1, b as nat, 0, nf)
            &&& methods_ok_from(s, q2, c as nat, 0, nm)
            &&& methods_ok_from(s, q3, e as nat, 0, nm)
        },
    }
}

impl ClassDataItem {
    /// Decodes the class data at `p` of the buffer `b`, resolving its members
    /// in `fields` and `methods`.
    pub fn parse(
        b: &[u8],
        p: usize,
        fields: &Vec<FieldIdItem>,
        methods: &Vec<MethodIdItem>,
    ) -> (r: Result<(ClassDataItem, usize), Error>)
        ensures
            r is Ok ==> class_data_decoded(b@, p as int, fields@, methods@, r.unwrap().0),
            r is Ok <==> class_data_ok(b@, p as int, fields@.len() as int, methods@.len() as int),
    {
        if p > b.len() {
            return Err(Error::IndexOutOfRange);
        }
        let (a, p1) = read_uleb128(b, p)?;
        let (bb, p2) = read_uleb128(b, p1)?;
        let (c, p3) = read_uleb128(b, p2)?;
        let (e, p4) = read_uleb128(b, p3)?;
        let (static_fields, q1) = parse_encoded_fields(b, p4, a, fields)?;
        let (instance_fields, q2) = parse_encoded_fields(b, q1, bb, fields)?;
        let (direct_methods, q3) = parse_encoded_methods(b, q2, c, methods)?;
        let (virtual_methods, q4) = parse_encoded_methods(b, q3, e, methods)?;
        Ok((ClassDataItem { static_fields, instance_fields, direct_methods, virtual_methods }, q4))
    }

    /// Decodes the class data at the absolute offset `offset` of `origin_bytes`.
    pub fn parse_from_u8(
        origin_bytes: &[u8],
        offset: usize,
        fields: &Vec<FieldIdItem>,
        methods: &Vec<MethodIdItem>,
    ) -> (r: Result<ClassDataItem, Error>)
        ensures
            r is Ok ==> class_data_decoded(origin_bytes@, offset as int, fields@, methods@, r.unwrap()),
            r is Ok <==> class_data_ok(
                origin_bytes@,
                offset as int,
                fields@.len() as int,
                methods@.len() as int,
            ),
    {
        let (d, _) = Self::parse(origin_bytes, offset, fields, methods)?;
        Ok(d)
    }
}

/// A class definition with its references resolved.
#[derive(Debug)]
pub struct ClassDefItem {
    pub class_idx: u32,
    pub class: TypeIdItem,
    pub access_flags: AccessFlags,
    pub superclass_idx: u32,
    pub superclass: Option<TypeIdItem>,
    pub interfaces_off: u32,
    pub interfaces: Option<TypeList>,
    pub source_file_idx: Option<u32>,
    pub annotations_off: u32,
    pub class_data_off: u32,
    pub static_values_off: u32,
    pub class_data_item: Option<ClassDataItem>,
}

impl ClassDefItem {
    /// Puts a class definition together from its parts.
    pub fn new(
        class_idx: u32,
        class: TypeIdItem,
        access_flags: AccessFlags,
        superclass_idx: u32,
        superclass: Option<TypeIdItem>,
        interfaces_off: u32,
        interfaces: Option<TypeList>,
        source_file_idx: Option<u32>,
        annotations_off: u32,
        class_data_off: u32,
        static_values_off: u32,
        class_data_item: Option<ClassDataItem>,
    ) -> (r: Self)
        ensures
            r == (ClassDefItem {
                class_idx,
                class,
                access_flags,
                superclass_idx,
                superclass,
                interfaces_off,
                interfaces,
                source_file_idx,
                annotations_off,
                class_data_off,
                static_values_off,
                class_data_item,
            }),
    {
        ClassDefItem {
            class_idx,
            class,
            access_flags,
            superclass_idx,
            superclass,
            interfaces_off,
            interfaces,
            source_file_idx,
            annotations_off,
            class_data_off,
            static_values_off,
            class_data_item,
        }
    }
}

/// `c` holds the 32-byte class definition at `p`, its references resolved in
/// `types`, `fields` and `methods`, and its type list and class data read at
/// the offsets it gives.
pub open spec fn class_def_decoded(
    s: Seq<u8>,
    p: int,
    types: Seq<TypeIdItem>,
    fields: Seq<FieldIdItem>,
    methods: Seq<MethodIdItem>,
    c: ClassDefItem,
) -> bool {
    &&& fits(s, p, 32)
    &&& c.class_idx == le32(s, p)
    &&& c.class_idx < types.len()
    &&& c.class == types[c.class_idx as int]
    &&& c.access_flags.1 == le32(s, p + 4) % 0x1_0000
    &&& c.superclass_idx == le32(s, p + 8)
    &&& c.superclass == (if c.superclass_idx == NO_INDEX {
        None::<TypeIdItem>
    } else {
        Some(types[c.superclass_idx as int])
    })
    &&& (c.superclass_idx != NO_INDEX ==> c.superclass_idx < types.len())
    &&& c.interfaces_off == le32(s, p + 12)
    &&& match c.interfaces {
        Some(t) => c.interfaces_off != 0 && type_list_decoded(s, c.interfaces_off as int, types, t),
        None => c.interfaces_off == 0,
    }
    &&& c.source_file_idx == (if le32(s, p + 16) == NO_INDEX {
        None::<u32>
    } else {
        Some(le32(s, p + 16) as u32)
    })
    &&& c.annotations_off == le32(s, p + 20)
    &&& c.class_data_off == le32(s, p + 24)
    &&& c.static_values_off == le32(s, p + 28)
    &&& match c.class_data_item {
        Some(d) => c.class_data_off != 0 && class_data_decoded(
            s,
            c.class_data_off as int,
            fields,
            methods,
            d,
        ),
        None => c.class_data_off == 0,
    }
}

/// The class definition at `p` decodes: its 32 bytes are there, its indices
/// name existing types, and its type list and class data decode.
pub open spec fn class_def_ok_at(s: Seq<u8>, p: int, nt: int, nf: int, nm: int) -> bool {
    &&& fits(s, p, 32)
    &&& le32(s, p) < nt
    &&& (le32(s, p + 8) == NO_INDEX || le32(s, p + 8) < nt)
    &&& (le32(s, p + 12) == 0 || type_list_ok(s, le32(s, p + 12), nt))
    &&& (le32(s, p + 24) == 0 || class_data_ok(s, le32(s, p + 24), nf, nm))
}

/// Decodes the class definition at `p`.
pub fn parse_class_def(
    b: &[u8],
    p: usize,
    types: &Vec<TypeIdItem>,
    fields: &Vec<FieldIdItem>,
    methods: &Vec<MethodIdItem>,
) -> (r: Result<ClassDefItem, Error>)
    ensures
        r is Ok ==> class_def_decoded(b@, p as int, types@, fields@, methods@, r.unwrap()),
        r is Ok <==> class_def_ok_at(
            b@,
            p as int,
            types@.len() as int,
            fields@.len() as int,
            methods@.len() as int,
        ),
{
    let class_idx = read_le_u32(b, p)?;
    let access_flags = read_le_u32(b, p + 4)?;
    let superclass_idx = read_le_u32(b, p + 8)?;
    let interfaces_off = read_le_u32(b, p + 12)?;
    let source_file_idx = read_le_u32(b, p + 16)?;
    let annotations_off = read_le_u32(b, p + 20)?;
    let class_data_off = read_le_u32(b, p + 24)?;
    let static_values_off = read_le_u32(b, p + 28)?;
    if class_idx as usize >= types.len() {
        return Err(Error::IndexOutOfRange);
    }
    let superclass = if superclass_idx == NO_INDEX {
        None
    } else {
        if superclass_idx as usize >= types.len() {
            return Err(Error::IndexOutOfRange);
        }
        Some(types[superclass_idx as usize])
    };
    let source_file = if source_file_idx == NO_INDEX {
        None
    } else {
        Some(source_file_idx)
    };
    let interfaces = if interfaces_off == 0 {
        None
    } else {
        Some(TypeList::parse(b, interfaces_off as usize, types)?)
    };
    let class_data_item = if class_data_off == 0 {
        None
    } else {
        Some(ClassDataItem::parse_from_u8(b, class_data_off as usize, fields, methods)?)
    };
    Ok(
        ClassDefItem::new(
            class_idx,
            types[class_idx as usize],
            AccessFlags::new_class_flag((access_flags % 0x1_0000) as u16),
            superclass_idx,
            superclass,
            interfaces_off,
            interfaces,
            source_file,
            annotations_off,
            class_data_off,
            static_values_off,
            class_data_item,
        ),
    )
}

/// Two code items hold the same values.
pub open spec fn same_code_item(a: Option<CodeItem>, b: Option<CodeItem>) -> bool {
    match (a, b) {
        (Some(x), Some(y)) => x.registers_size == y.registers_size && x.ins_size == y.ins_size
            && x.outs_size == y.outs_size && x.tries_size == y.tries_size && x.debug_info_off
            == y.debug_info_off && x.insns_size == y.insns_size && x.insns@ == y.insns@,
        (None, None) => true,
        _ => false,
    }
}

/// Two field lists hold the same entries.
pub open spec fn same_fields(a: Seq<EncodedField>, b: Seq<EncodedField>) -> bool {
    &&& a.len() == b.len()
    &&& forall|i: int|
        0 <= i < a.len() ==> (#[trigger] a[i]).field_idx_diff == b[i].field_idx_diff
            && a[i].field_idx == b[i].field_idx && a[i].access_flags.1 == b[i].access_flags.1
            && a[i].access_flags.0@ == b[i].access_flags.0@ && a[i].field == b[i].field
}

/// Two method lists hold the same entries.
pub open spec fn same_methods(a: Seq<EncodedMethod>, b: Seq<EncodedMethod>) -> bool {
    &&& a.len() == b.len()
    &&& forall|i: int|
        0 <= i < a.len() ==> (#[trigger] a[i]).method_idx_diff == b[i].method_idx_diff
            && a[i].method_idx == b[i].method_idx && a[i].access_flags.1 == b[i].access_flags.1
            && a[i].access_flags.0@ == b[i].access_flags.0@ && a[i].code_off == b[i].code_off
            && same_method(a[i].method, b[i].method) && same_code_item(a[i].code_item, b[i].code_item)
}

/// A code item is a function of the bytes it is read from.
pub proof fn lemma_code_item_unique(s: Seq<u8>, o: int, a: CodeItem, b: CodeItem)
    requires
        code_item_decoded(s, o, a),
        code_item_decoded(s, o, b),
    ensures
        same_code_item(Some(a), Some(b)),
{
    assert forall|i: int| 0 <= i < a.insns@.len() implies a.insns@[i] == b.insns@[i] by {
        assert(insn_ok(s, o, a.insns@, i));
        assert(insn_ok(s, o, b.insns@, i));
    }
    assert(a.insns@ =~= b.insns@);
}

proof fn lemma_field_idx_agree(
    raw: Seq<(u32, u32)>,
    ids: Seq<FieldIdItem>,
    a: Seq<EncodedField>,
    b: Seq<EncodedField>,
    i: int,
)
    requires
        fields_decoded(raw, ids, a),
        fields_decoded(raw, ids, b),
        0 <= i < a.len(),
    ensures
        a[i].field_idx == b[i].field_idx,
    decreases i,
{
    assert(field_entry_ok(a, ids, i));
    assert(field_entry_ok(b, ids, i));
    assert(field_raw_ok(raw, a, i));
    assert(field_raw_ok(raw, b, i));
    if i > 0 {
        lemma_field_idx_agree(raw, ids, a, b, i - 1);
    }
}

proof fn lemma_fields_unique(
    raw: Seq<(u32, u32)>,
    ids: Seq<FieldIdItem>,
    a: Seq<EncodedField>,
    b: Seq<EncodedField>,
)
    requires
        fields_decoded(raw, ids, a),
        fields_decoded(raw, ids, b),
    ensures
        same_fields(a, b),
{
    assert forall|i: int| 0 <= i < a.len() implies (#[trigger] a[i]).field_idx_diff
        == b[i].field_idx_diff && a[i].field_idx == b[i].field_idx && a[i].access_flags.1
        == b[i].access_flags.1 && a[i].access_flags.0@ == b[i].access_flags.0@ && a[i].field
        == b[i].field by {
        lemma_field_idx_agree(raw, ids, a, b, i);
        assert(field_entry_ok(a, ids, i));
        assert(field_entry_ok(b, ids, i));
        assert(field_raw_ok(raw, a, i));
        assert(field_raw_ok(raw, b, i));
    }
}

proof fn lemma_methods_unique(
    s: Seq<u8>,
    raw: Seq<(u32, u32, u32)>,
    ids1: Seq<MethodIdItem>,
    ids2: Seq<MethodIdItem>,
    a: Seq<EncodedMethod>,
    b: Seq<EncodedMethod>,
)
    requires
        methods_decoded(s, raw, ids1, a),
        methods_decoded(s, raw, ids2, b),
        ids1.len() == ids2.len(),
        forall|k: int| 0 <= k < ids1.len() ==> same_method(#[trigger] ids1[k], ids2[k]),
    ensures
        same_methods(a, b),
{
    assert forall|i: int| 0 <= i < a.len() implies (#[trigger] a[i]).method_idx_diff
        == b[i].method_idx_diff && a[i].method_idx == b[i].method_idx && a[i].access_flags.1
        == b[i].access_flags.1 && a[i].access_flags.0@ == b[i].access_flags.0@ && a[i].code_off
        == b[i].code_off && same_method(a[i].method, b[i].method) && same_code_item(
        a[i].code_item,
        b[i].code_item,
    ) by {
        assert(method_entry_ok(s, a, ids1, i));
        assert(method_entry_ok(s, b, ids2, i));
        assert(method_raw_ok(raw, a, i));
        assert(method_raw_ok(raw, b, i));
        lemma_method_idx_agree_across(s, raw, ids1, ids2, a, b, i);
        let k = a[i].method_idx as int;
        assert(same_method(ids1[k], ids2[k]));
        match (a[i].code_item, b[i].code_item) {
            (Some(x), Some(y)) => {
                lemma_code_item_unique(s, a[i].code_off as int, x, y);
            },
            _ => {},
        }
    }
}

proof fn lemma_method_idx_agree_across(
    s: Seq<u8>,
    raw: Seq<(u32, u32, u32)>,
    ids1: Seq<MethodIdItem>,
    ids2: Seq<MethodIdItem>,
    a: Seq<EncodedMethod>,
    b: Seq<EncodedMethod>,
    i: int,
)
    requires
        methods_decoded(s, raw, ids1, a),
        methods_decoded(s, raw, ids2, b),
        0 <= i < a.len(),
    ensures
        a[i].method_idx == b[i].method_idx,
    decreases i,
{
    assert(method_entry_ok(s, a, ids1, i));
    assert(method_entry_ok(s, b, ids2, i));
    assert(method_raw_ok(raw, a, i));
    assert(method_raw_ok(raw, b, i));
    if i > 0 {
        lemma_method_idx_agree_across(s, raw, ids1, ids2, a, b, i - 1);
    }
}

/// Class data is a function of the bytes it is read from and of the tables
/// its indices resolve in.
pub proof fn lemma_class_data_unique(
    s: Seq<u8>,
    p: int,
    fields: Seq<FieldIdItem>,
    methods1: Seq<MethodIdItem>,
    methods2: Seq<MethodIdItem>,
    d1: ClassDataItem,
    d2: ClassDataItem,
)
    requires
        class_data_decoded(s, p, fields, methods1, d1),
        class_data_decoded(s, p, fields, methods2, d2),
        methods1.len() == methods2.len(),
        forall|k: int| 0 <= k < methods1.len() ==> same_method(#[trigger] methods1[k], methods2[k]),
    ensures
        same_fields(d1.static_fields@, d2.static_fields@),
        same_fields(d1.instance_fields@, d2.instance_fields@),
        same_methods(d1.direct_methods@, d2.direct_methods@),
        same_methods(d1.virtual_methods@, d2.virtual_methods@),
{
    let (a, b, c, e, p4) = class_data_sizes(s, p).unwrap();
    let (r1, q1) = spec_field_entries(s, p4, a as nat).unwrap();
    let (r2, q2) = spec_field_entries(s, q1, b as nat).unwrap();
    let (r3, q3) = spec_method_entries(s, q2, c as nat).unwrap();
    let (r4, _) = spec_method_entries(s, q3, e as nat).unwrap();
    lemma_fields_unique(r1, fields, d1.static_fields@, d2.static_fields@);
    lemma_fields_unique(r2, fields, d1.instance_fields@, d2.instance_fields@);
    lemma_methods_unique(s, r3, methods1, methods2, d1.direct_methods@, d2.direct_methods@);
    lemma_methods_unique(s, r4, methods1, methods2, d1.virtual_methods@, d2.virtual_methods@);
}

} // verus!
