use vstd::prelude::*;

use crate::bytes::{be16, be32, fits, read_be_u16, read_be_u32};
use crate::constant_pool::{copy_bytes, pool_view, Constant, ConstantPoolInfo};
use crate::error::Error;
use crate::opcodes::{parse_code_infos, spec_code_infos, CodeInfo};
use crate::stack_map_table::{frames_view, spec_frames, StackMapTable};

verus! {

/// The text of the pool entry with the 1-based index `idx`, where that entry
/// exists and is text.
pub open spec fn pool_text(pool: Seq<Constant>, idx: int) -> Option<Seq<u8>> {
    if 1 <= idx <= pool.len() {
        match pool[idx - 1] {
            Constant::Utf8(t) => Some(t),
            _ => None,
        }
    } else {
        None
    }
}

/// The text of the entry at the 0-based position `index` of the pool.
pub fn get_str_const(pool: &Vec<ConstantPoolInfo>, index: usize) -> (r: Option<&Vec<u8>>)
    ensures
        match pool_text(pool_view(pool@), index + 1) {
            Some(t) => r is Some && r.unwrap()@ == t,
            None => r is None,
        },
{
    if index < pool.len() {
        pool[index].as_utf8()
    } else {
        None
    }
}

/// The text of the entry with the 1-based index `idx`.
pub fn resolve_utf8(pool: &Vec<ConstantPoolInfo>, idx: u16) -> (r: Option<&Vec<u8>>)
    ensures
        match pool_text(pool_view(pool@), idx as int) {
            Some(t) => r is Some && r.unwrap()@ == t,
            None => r is None,
        },
{
    if idx == 0 {
        None
    } else {
        get_str_const(pool, (idx - 1) as usize)
    }
}

/// Turns any failure into `Format`: inside an attribute, a payload that
/// does not decode does not match its declared length.
fn format_err<T>(r: Result<T, Error>) -> (o: Result<T, Error>)
    ensures
        r is Ok ==> o == r,
        r is Err ==> o == Err::<T, Error>(Error::Format),
{
    match r {
        Ok(v) => Ok(v),
        Err(_) => Err(Error::Format),
    }
}

/// The attribute payloads that the decoder knows by name.
#[derive(Debug, Clone, Copy, PartialEq, Eq, Structural)]
pub enum AttributeKind {
    Code,
    ConstantValue,
    StackMapTable,
    LineNumberTable,
    SourceFile,
    Deprecated,
    Unknown,
}

/// `Code` in ASCII.
pub open spec fn code_name() -> Seq<u8> {
    seq![67u8, 111, 100, 101]
}

/// `ConstantValue` in ASCII.
pub open spec fn constant_value_name() -> Seq<u8> {
    seq![67u8, 111, 110, 115, 116, 97, 110, 116, 86, 97, 108, 117, 101]
}

/// `StackMapTable` in ASCII.
pub open spec fn stack_map_table_name() -> Seq<u8> {
    seq![83u8, 116, 97, 99, 107, 77, 97, 112, 84, 97, 98, 108, 101]
}

/// `LineNumberTable` in ASCII.
pub open spec fn line_number_table_name() -> Seq<u8> {
    seq![76u8, 105, 110, 101, 78, 117, 109, 98, 101, 114, 84, 97, 98, 108, 101]
}

/// `SourceFile` in ASCII.
pub open spec fn source_file_attr_name() -> Seq<u8> {
    seq![83u8, 111, 117, 114, 99, 101, 70, 105, 108, 101]
}

/// `Deprecated` in ASCII.
pub open spec fn deprecated_name() -> Seq<u8> {
    seq![68u8, 101, 112, 114, 101, 99, 97, 116, 101, 100]
}

/// The payload kind that an attribute name selects, by exact match.
pub open spec fn kind_of_name(name: Seq<u8>) -> AttributeKind {
    if name == code_name() {
        AttributeKind::Code
    } else if name == constant_value_name() {
        AttributeKind::ConstantValue
    } else if name == stack_map_table_name() {
        AttributeKind::StackMapTable
    } else if name == line_number_table_name() {
        AttributeKind::LineNumberTable
    } else if name == source_file_attr_name() {
        AttributeKind::SourceFile
    } else if name == deprecated_name() {
        AttributeKind::Deprecated
    } else {
        AttributeKind::Unknown
    }
}

/// The payload kind of an attribute whose name has the 1-based pool index
/// `idx`; a name that does not resolve selects no known kind.
pub open spec fn kind_of_index(pool: Seq<Constant>, idx: int) -> AttributeKind {
    match pool_text(pool, idx) {
        Some(t) => kind_of_name(t),
        None => AttributeKind::Unknown,
    }
}

/// Compares two byte strings.
pub fn bytes_equal(a: &[u8], b: &[u8]) -> (r: bool)
    ensures
        r == (a@ == b@),
{
    if a.len() != b.len() {
        return false;
    }
    let mut i: usize = 0;
    while i < a.len()
        invariant
            a@.len() == b@.len(),
            i <= a@.len(),
            forall|j: int| 0 <= j < i ==> a@[j] == b@[j],
        decreases a@.len() - i,
    {
        if a[i] != b[i] {
            return false;
        }
        i = i + 1;
    }
    assert(a@ =~= b@);
    true
}

/// The payload kind that an attribute name selects.
pub fn kind_of(name: &[u8]) -> (r: AttributeKind)
    ensures
        r == kind_of_name(name@),
{
    let code: Vec<u8> = vec![67u8, 111, 100, 101];
    let constant_value: Vec<u8> = vec![67u8, 111, 110, 115, 116, 97, 110, 116, 86, 97, 108, 117, 101];
    let stack_map_table: Vec<u8> = vec![83u8, 116, 97, 99, 107, 77, 97, 112, 84, 97, 98, 108, 101];
    let line_number_table: Vec<u8> = vec![76u8, 105, 110, 101, 78, 117, 109, 98, 101, 114, 84, 97, 98, 108, 101];
    let source_file: Vec<u8> = vec![83u8, 111, 117, 114, 99, 101, 70, 105, 108, 101];
    let deprecated: Vec<u8> = vec![68u8, 101, 112, 114, 101, 99, 97, 116, 101, 100];
    assert(code@ =~= code_name());
    assert(constant_value@ =~= constant_value_name());
    assert(stack_map_table@ =~= stack_map_table_name());
    assert(line_number_table@ =~= line_number_table_name());
    assert(source_file@ =~= source_file_attr_name());
    assert(deprecated@ =~= deprecated_name());
    if bytes_equal(name, code.as_slice()) {
        AttributeKind::Code
    } else if bytes_equal(name, constant_value.as_slice()) {
        AttributeKind::ConstantValue
    } else if bytes_equal(name, stack_map_table.as_slice()) {
        AttributeKind::StackMapTable
    } else if bytes_equal(name, line_number_table.as_slice()) {
        AttributeKind::LineNumberTable
    } else if bytes_equal(name, source_file.as_slice()) {
        AttributeKind::SourceFile
    } else if bytes_equal(name, deprecated.as_slice()) {
        AttributeKind::Deprecated
    } else {
        AttributeKind::Unknown
    }
}

/// One entry of a Code attribute's exception table.
#[derive(Debug, Clone, Copy, PartialEq, Eq, Structural)]
pub struct ExceptionTable {
    pub start_pc: u16,
    pub end_pc: u16,
    pub handler_pc: u16,
    pub catch_type: u16,
}

/// The exception-table entry whose eight bytes start at `p`.
pub open spec fn exception_at(s: Seq<u8>, p: int) -> ExceptionTable {
    ExceptionTable {
        start_pc: be16(s, p) as u16,
        end_pc: be16(s, p + 2) as u16,
        handler_pc: be16(s, p + 4) as u16,
        catch_type: be16(s, p + 6) as u16,
    }
}

impl ExceptionTable {
    /// Decodes the entry at `p`.
    pub fn parse(b: &[u8], p: usize) -> (r: Result<ExceptionTable, Error>)
        ensures
            match r {
                Ok(t) => fits(b@, p as int, 8) && t == exception_at(b@, p as int),
                Err(e) => !fits(b@, p as int, 8) && e == Error::Truncated,
            },
    {
        let start_pc = read_be_u16(b, p)?;
        let end_pc = read_be_u16(b, p + 2)?;
        let handler_pc = read_be_u16(b, p + 4)?;
        let catch_type = read_be_u16(b, p + 6)?;
        Ok(ExceptionTable { start_pc, end_pc, handler_pc, catch_type })
    }
}

/// One (program counter, source line) pair.
#[derive(Debug, Clone, Copy, PartialEq, Eq, Structural)]
pub struct LineNumberTable {
    pub start_pc: u16,
    pub line_number: u16,
}

/// The pair whose four bytes start at `p`.
pub open spec fn line_at(s: Seq<u8>, p: int) -> LineNumberTable {
    LineNumberTable { start_pc: be16(s, p) as u16, line_number: be16(s, p + 2) as u16 }
}

impl LineNumberTable {
    /// Decodes the pair at `p`.
    pub fn parse(b: &[u8], p: usize) -> (r: Result<LineNumberTable, Error>)
        ensures
            match r {
                Ok(t) => fits(b@, p as int, 4) && t == line_at(b@, p as int),
                Err(e) => !fits(b@, p as int, 4) && e == Error::Truncated,
            },
    {
        let start_pc = read_be_u16(b, p)?;
        let line_number = read_be_u16(b, p + 2)?;
        Ok(LineNumberTable { start_pc, line_number })
    }
}

/// The payload of a `LineNumberTable` attribute.
#[derive(Debug)]
pub struct LineNumberTableAttribute {
    pub line_number_table_length: u16,
    pub line_number_table: Vec<LineNumberTable>,
}

impl LineNumberTableAttribute {
    /// Decodes a count and that many pairs at `p`.
    pub fn parse(b: &[u8], p: usize) -> (r: Result<(LineNumberTableAttribute, usize), Error>)
        ensures
            match r {
                Ok((t, q)) => fits(b@, p as int, 2) && t.line_number_table_length == be16(
                    b@,
                    p as int,
                ) && q == p + 2 + 4 * t.line_number_table_length && q <= b@.len()
                    && t.line_number_table@.len() == t.line_number_table_length && forall|i: int|
                    0 <= i < t.line_number_table@.len() ==> t.line_number_table@[i] == line_at(
                        b@,
                        p + 2 + 4 * i,
                    ),
                Err(e) => e == Error::Truncated && !(fits(b@, p as int, 2) && fits(
                    b@,
                    p + 2,
                    4 * be16(b@, p as int),
                )),
            },
    {
        let n = read_be_u16(b, p)?;
        let mut table: Vec<LineNumberTable> = Vec::new();
        let mut i: u16 = 0;
        while i < n
            invariant
                b@.len() <= usize::MAX,
                fits(b@, p as int, 2),
                n == be16(b@, p as int),
                i <= n,
                table@.len() == i,
                fits(b@, p + 2, 4 * i),
                forall|j: int| 0 <= j < i ==> table@[j] == line_at(b@, p + 2 + 4 * j),
            decreases n - i,
        {
            let t = match LineNumberTable::parse(b, p + 2 + 4 * (i as usize)) {
                Ok(t) => t,
                Err(e) => {
                    assert(!fits(b@, p + 2, 4 * n)) by (nonlinear_arith)
                        requires
                            !fits(b@, p + 2 + 4 * i, 4),
                            i < n;
                    return Err(e);
                },
            };
            table.push(t);
            i = i + 1;
        }
        Ok((LineNumberTableAttribute { line_number_table_length: n, line_number_table: table }, p
            + 2 + 4 * (n as usize)))
    }
}

/// The payload of a `ConstantValue` attribute.
#[derive(Debug, Clone, Copy, PartialEq, Eq, Structural)]
pub struct ConstantValue {
    pub constantvalue_index: u16,
}

/// The payload of a `SourceFile` attribute.
#[derive(Debug, Clone, Copy, PartialEq, Eq, Structural)]
pub struct SourceFile {
    pub sourcefile_index: u16,
}

impl SourceFile {
    /// The file name, resolved through the pool.
    pub fn get_sourcefile<'a>(&self, pool: &'a Vec<ConstantPoolInfo>) -> (r: Option<&'a Vec<u8>>)
        ensures
            match pool_text(pool_view(pool@), self.sourcefile_index as int) {
                Some(t) => r is Some && r.unwrap()@ == t,
                None => r is None,
            },
    {
        resolve_utf8(pool, self.sourcefile_index)
    }
}

/// The payload of a `Code` attribute.
#[derive(Debug)]
pub struct CodeAttribute {
    pub max_stack: u16,
    pub max_locals: u16,
    pub code_length: u32,
    pub code: Vec<CodeInfo>,
    pub exception_table: Vec<ExceptionTable>,
    pub attributes: Vec<AttributeInfo>,
}

/// What an attribute's payload decodes to.
#[derive(Debug)]
pub enum Attribute {
    Code(CodeAttribute),
    Constant(ConstantValue),
    StackMapTable(StackMapTable),
    LineNumberTable(LineNumberTableAttribute),
    SourceFile(SourceFile),
    Deprecated,
    /// A payload under a name that the decoder does not know, kept as it is.
    Opaque(Vec<u8>),
}

/// The payload kind that each variant stands for.
pub open spec fn kind_of_attribute(a: Attribute) -> AttributeKind {
    match a {
        Attribute::Code(_) => AttributeKind::Code,
        Attribute::Constant(_) => AttributeKind::ConstantValue,
        Attribute::StackMapTable(_) => AttributeKind::StackMapTable,
        Attribute::LineNumberTable(_) => AttributeKind::LineNumberTable,
        Attribute::SourceFile(_) => AttributeKind::SourceFile,
        Attribute::Deprecated => AttributeKind::Deprecated,
        Attribute::Opaque(_) => AttributeKind::Unknown,
    }
}

/// One attribute: its name index, its declared length and its payload.
#[derive(Debug)]
pub struct AttributeInfo {
    pub attribute_name_index: u16,
    pub attribute_length: u32,
    pub attribute_info: Attribute,
}

/// The `Code` payload `c` is decoded into `ca`: header, instructions,
/// exception table, and nested attributes, each with its header and, unless
/// it is itself a `Code` attribute, its payload.
pub open spec fn code_decoded(pool: Seq<Constant>, c: Seq<u8>, ca: CodeAttribute) -> bool {
    let cl = ca.code_length as int;
    let x = 8 + cl;
    let n = be16(c, x);
    &&& fits(c, 0, 8)
    &&& ca.max_stack == be16(c, 0)
    &&& ca.max_locals == be16(c, 2)
    &&& ca.code_length == be32(c, 4)
    &&& fits(c, 8, cl)
    &&& spec_code_infos(c.subrange(8, x), 0) == Some(ca.code@)
    &&& fits(c, x, 2)
    &&& fits(c, x + 2, 8 * n)
    &&& ca.exception_table@.len() == n
    &&& forall|i: int|
        0 <= i < n ==> ca.exception_table@[i] == exception_at(c, x + 2 + 8 * i)
    &&& fits(c, x + 2 + 8 * n, 2)
    &&& ca.attributes@.len() == be16(c, x + 2 + 8 * n)
    &&& forall|i: int|
        0 <= i < ca.attributes@.len() ==> #[trigger] nested_ok(
            pool,
            c,
            x + 4 + 8 * n,
            ca.attributes@,
            i,
        )
}

/// Attribute `i` of the list that starts at `p` is held at `v[i]`, with its
/// payload decoded unless it is a `Code` attribute.
pub open spec fn nested_ok(pool: Seq<Constant>, s: Seq<u8>, p: int, v: Seq<AttributeInfo>, i: int) -> bool {
    let at = attr_pos(s, p, i as nat);
    let a = v[i];
    &&& fits(s, at, 6)
    &&& a.attribute_name_index == be16(s, at)
    &&& a.attribute_length == be32(s, at + 2)
    &&& fits(s, at + 6, a.attribute_length as int)
    &&& leaf_decoded(
        pool,
        a.attribute_name_index as int,
        s.subrange(at + 6, at + 6 + a.attribute_length),
        a.attribute_info,
    )
}

/// The payload bytes `c` of an attribute whose name has pool index `idx`
/// decode, by the kind that the name selects and using all of `c`, to `a`;
/// of a `Code` payload only the kind is stated here.
pub open spec fn leaf_decoded(pool: Seq<Constant>, idx: int, c: Seq<u8>, a: Attribute) -> bool {
    &&& kind_of_attribute(a) == kind_of_index(pool, idx)
    &&& match a {
        Attribute::Code(_) => true,
        Attribute::Constant(v) => c.len() == 2 && v.constantvalue_index == be16(c, 0),
        Attribute::StackMapTable(t) => fits(c, 0, 2) && t.number_of_entries == be16(c, 0)
            && spec_frames(c, 2, t.number_of_entries as nat) == Some(
            (frames_view(t.entries@), c.len() as int),
        ),
        Attribute::LineNumberTable(t) => fits(c, 0, 2) && t.line_number_table_length == be16(c, 0)
            && c.len() == 2 + 4 * t.line_number_table_length && t.line_number_table@.len()
            == t.line_number_table_length && forall|i: int|
            0 <= i < t.line_number_table@.len() ==> t.line_number_table@[i] == line_at(
                c,
                2 + 4 * i,
            ),
        Attribute::SourceFile(f) => c.len() == 2 && f.sourcefile_index == be16(c, 0),
        Attribute::Deprecated => c.len() == 0,
        Attribute::Opaque(v) => v@ == c,
    }
}

/// The payload bytes `c` of an attribute whose name has pool index `idx`
/// decode, by the kind that the name selects and using all of `c`, to `a`.
pub open spec fn payload_decoded(pool: Seq<Constant>, idx: int, c: Seq<u8>, a: Attribute) -> bool {
    &&& leaf_decoded(pool, idx, c, a)
    &&& match a {
        Attribute::Code(ca) => code_decoded(pool, c, ca),
        _ => true,
    }
}

/// `a` is the attribute encoded at `at`: its header, and its payload decoded
/// by the kind that its name selects.
pub open spec fn attribute_at(pool: Seq<Constant>, s: Seq<u8>, at: int, a: AttributeInfo) -> bool {
    &&& fits(s, at, 6)
    &&& a.attribute_name_index == be16(s, at)
    &&& a.attribute_length == be32(s, at + 2)
    &&& fits(s, at + 6, a.attribute_length as int)
    &&& payload_decoded(
        pool,
        a.attribute_name_index as int,
        s.subrange(at + 6, at + 6 + a.attribute_length),
        a.attribute_info,
    )
}

/// Where attribute `i` of a list whose first attribute is at `p` begins:
/// each attribute takes six header bytes and its declared length.
pub open spec fn attr_pos(s: Seq<u8>, p: int, i: nat) -> int
    decreases i,
{
    if i == 0 {
        p
    } else {
        let q = attr_pos(s, p, (i - 1) as nat);
        q + 6 + be32(s, q + 2)
    }
}

/// Attribute `i` of the list that starts at `p` is held at `v[i]`.
pub open spec fn attr_ok(pool: Seq<Constant>, s: Seq<u8>, p: int, v: Seq<AttributeInfo>, i: int) -> bool {
    attribute_at(pool, s, attr_pos(s, p, i as nat), v[i])
}

/// The payload bytes `c` of an attribute whose name has pool index `idx`
/// decode, by the kind that the name selects, using all of `c`.
pub open spec fn payload_ok(pool: Seq<Constant>, idx: int, c: Seq<u8>) -> bool
    decreases c.len(), 3int, 0int,
{
    match kind_of_index(pool, idx) {
        AttributeKind::Code => code_ok(pool, c),
        AttributeKind::ConstantValue => c.len() == 2,
        AttributeKind::StackMapTable => fits(c, 0, 2) && spec_frames(c, 2, be16(c, 0) as nat) is Some
            && spec_frames(c, 2, be16(c, 0) as nat).unwrap().1 == c.len(),
        AttributeKind::LineNumberTable => fits(c, 0, 2) && c.len() == 2 + 4 * be16(c, 0),
        AttributeKind::SourceFile => c.len() == 2,
        AttributeKind::Deprecated => c.len() == 0,
        AttributeKind::Unknown => true,
    }
}

/// The bytes `c` form a whole `Code` payload: header, instructions that
/// decode, an exception table, and an attribute list that ends where `c` ends.
pub open spec fn code_ok(pool: Seq<Constant>, c: Seq<u8>) -> bool
    decreases c.len(), 2int, 0int,
{
    let cl = be32(c, 4);
    let x = 8 + cl;
    let y = x + 2 + 8 * be16(c, x);
    &&& fits(c, 0, 8)
    &&& fits(c, 8, cl)
    &&& spec_code_infos(c.subrange(8, x), 0) is Some
    &&& fits(c, x, 2)
    &&& fits(c, x + 2, 8 * be16(c, x))
    &&& y < c.len()
    &&& fits(c, y, 2)
    &&& attrs_ok_from(pool, c, y + 2, be16(c, y) as nat)
    &&& attr_pos(c, y + 2, be16(c, y) as nat) == c.len()
}

/// `k` attributes, the first at `p`, each decode.
pub open spec fn attrs_ok_from(pool: Seq<Constant>, s: Seq<u8>, p: int, k: nat) -> bool
    decreases s.len(), 1int, k,
{
    if k == 0 {
        true
    } else {
        attribute_ok_at(pool, s, p) && attrs_ok_from(pool, s, p + 6 + be32(s, p + 2), (k - 1) as nat)
    }
}

/// The attribute at `at` has its header and payload in `s`, and its payload decodes.
pub open spec fn attribute_ok_at(pool: Seq<Constant>, s: Seq<u8>, at: int) -> bool
    decreases s.len(), 0int, 0int,
{
    fits(s, at, 6) && fits(s, at + 6, be32(s, at + 2)) && payload_ok(
        pool,
        be16(s, at),
        s.subrange(at + 6, at + 6 + be32(s, at + 2)),
    )
}

impl CodeAttribute {
    /// Decodes a `Code` payload that fills all of `c`.
    pub fn parse(pool: &Vec<ConstantPoolInfo>, c: &[u8]) -> (r: Result<CodeAttribute, Error>)
        ensures
            match r {
                Ok(ca) => code_decoded(pool_view(pool@), c@, ca),
                Err(e) => e == Error::Format,
            },
            r is Ok <==> code_ok(pool_view(pool@), c@),
        decreases c@.len(), 2int,
    {
        let max_stack = format_err(read_be_u16(c, 0))?;
        let max_locals = format_err(read_be_u16(c, 2))?;
        let code_length = format_err(read_be_u32(c, 4))?;
        if c.len() - 8 < code_length as usize {
            return Err(Error::Format);
        }
        let cl = code_length as usize;
        let raw = copy_bytes(c, 8, cl);
        let code = format_err(parse_code_infos(raw.as_slice()))?;
        let x = 8 + cl;
        let n = format_err(read_be_u16(c, x))?;
        let mut exception_table: Vec<ExceptionTable> = Vec::new();
        let mut i: u16 = 0;
        while i < n
            invariant
                c@.len() <= usize::MAX,
                x == 8 + be32(c@, 4),
                fits(c@, 0, 8),
                fits(c@, x as int, 2),
                n == be16(c@, x as int),
                i <= n,
                exception_table@.len() == i,
                fits(c@, x + 2, 8 * i),
                forall|j: int| 0 <= j < i ==> exception_table@[j] == exception_at(c@, x + 2 + 8 * j),
            decreases n - i,
        {
            let t = match ExceptionTable::parse(c, x + 2 + 8 * (i as usize)) {
                Ok(t) => t,
                Err(_) => {
                    assert(!fits(c@, x + 2, 8 * n)) by (nonlinear_arith)
                        requires
                            !fits(c@, x + 2 + 8 * i, 8),
                            i < n;
                    return Err(Error::Format);
                },
            };
            exception_table.push(t);
            i = i + 1;
        }
        let y = x + 2 + 8 * (n as usize);
        if y >= c.len() {
            return Err(Error::Format);
        }
        let (attributes, end) = format_err(parse_attributes(pool, c, y))?;
        if end != c.len() {
            return Err(Error::Format);
        }
        let ghost sx = 8 + code_length as int;
        assert(y + 2 == sx + 4 + 8 * be16(c@, sx));
        assert forall|i: int| 0 <= i < attributes@.len() implies #[trigger] nested_ok(
            pool_view(pool@),
            c@,
            sx + 4 + 8 * be16(c@, sx),
            attributes@,
            i,
        ) by {
            assert(attr_ok(pool_view(pool@), c@, y + 2, attributes@, i));
        }
        Ok(CodeAttribute { max_stack, max_locals, code_length, code, exception_table, attributes })
    }
}

impl AttributeInfo {
    /// Decodes an attribute's payload `c` by the kind that its name selects;
    /// the payload must be used up exactly.
    pub fn parse_attribute(pool: &Vec<ConstantPoolInfo>, idx: u16, c: &[u8]) -> (r: Result<
        Attribute,
        Error,
    >)
        ensures
            match r {
                Ok(a) => payload_decoded(pool_view(pool@), idx as int, c@, a),
                Err(e) => e == Error::Format,
            },
            r is Ok <==> payload_ok(pool_view(pool@), idx as int, c@),
        decreases c@.len(), 3int,
    {
        let kind = match resolve_utf8(pool, idx) {
            Some(name) => kind_of(name.as_slice()),
            None => AttributeKind::Unknown,
        };
        match kind {
            AttributeKind::Code => {
                let ca = CodeAttribute::parse(pool, c)?;
                Ok(Attribute::Code(ca))
            },
            AttributeKind::ConstantValue => {
                if c.len() != 2 {
                    return Err(Error::Format);
                }
                let v = format_err(read_be_u16(c, 0))?;
                Ok(Attribute::Constant(ConstantValue { constantvalue_index: v }))
            },
            AttributeKind::StackMapTable => {
                let (t, q) = format_err(StackMapTable::parse(c, 0))?;
                if q != c.len() {
                    return Err(Error::Format);
                }
                Ok(Attribute::StackMapTable(t))
            },
            AttributeKind::LineNumberTable => {
                let (t, q) = format_err(LineNumberTableAttribute::parse(c, 0))?;
                if q != c.len() {
                    return Err(Error::Format);
                }
                Ok(Attribute::LineNumberTable(t))
            },
            AttributeKind::SourceFile => {
                if c.len() != 2 {
                    return Err(Error::Format);
                }
                let v = format_err(read_be_u16(c, 0))?;
                Ok(Attribute::SourceFile(SourceFile { sourcefile_index: v }))
            },
            AttributeKind::Deprecated => {
                if c.len() != 0 {
                    return Err(Error::Format);
                }
                Ok(Attribute::Deprecated)
            },
            AttributeKind::Unknown => {
                let n = c.len();
                let raw = copy_bytes(c, 0, n);
                assert(raw@ =~= c@);
                Ok(Attribute::Opaque(raw))
            },
        }
    }

    /// Decodes the attribute at `p`: a name index, a 32-bit length and that
    /// many payload bytes. Returns it and the position after it.
    pub fn parse(pool: &Vec<ConstantPoolInfo>, b: &[u8], p: usize) -> (r: Result<
        (AttributeInfo, usize),
        Error,
    >)
        ensures
            match r {
                Ok((a, q)) => attribute_at(pool_view(pool@), b@, p as int, a) && q == p + 6
                    + a.attribute_length,
                Err(e) => (e == Error::Truncated <==> !(fits(b@, p as int, 6) && fits(
                    b@,
                    p + 6,
                    be32(b@, p + 2),
                ))) && (e == Error::Truncated || e == Error::Format),
            },
            r is Ok <==> attribute_ok_at(pool_view(pool@), b@, p as int),
        decreases b@.len(), 0int,
    {
        let idx = read_be_u16(b, p)?;
        let len = read_be_u32(b, p + 2)?;
        if b.len() - (p + 6) < len as usize {
            return Err(Error::Truncated);
        }
        let payload = copy_bytes(b, p + 6, len as usize);
        let attr = Self::parse_attribute(pool, idx, payload.as_slice())?;
        Ok((AttributeInfo { attribute_name_index: idx, attribute_length: len, attribute_info: attr }, p
            + 6 + len as usize))
    }

    /// The payload is the kind that the name `name` selects.
    pub fn type_filter(&self, name: &[u8]) -> (r: bool)
        ensures
            r == (kind_of_name(name@) != AttributeKind::Unknown && kind_of_attribute(
                self.attribute_info,
            ) == kind_of_name(name@)),
    {
        let k = kind_of(name);
        if k == AttributeKind::Unknown {
            return false;
        }
        match &self.attribute_info {
            Attribute::Code(_) => k == AttributeKind::Code,
            Attribute::Constant(_) => k == AttributeKind::ConstantValue,
            Attribute::StackMapTable(_) => k == AttributeKind::StackMapTable,
            Attribute::LineNumberTable(_) => k == AttributeKind::LineNumberTable,
            Attribute::SourceFile(_) => k == AttributeKind::SourceFile,
            Attribute::Deprecated => k == AttributeKind::Deprecated,
            Attribute::Opaque(_) => false,
        }
    }

    /// The file name of a `SourceFile` attribute.
    pub fn get_sourcefile<'a>(&self, pool: &'a Vec<ConstantPoolInfo>) -> (r: Option<&'a Vec<u8>>)
        ensures
            match self.attribute_info {
                Attribute::SourceFile(f) => match pool_text(
                    pool_view(pool@),
                    f.sourcefile_index as int,
                ) {
                    Some(t) => r is Some && r.unwrap()@ == t,
                    None => r is None,
                },
                _ => r is None,
            },
    {
        match &self.attribute_info {
            Attribute::SourceFile(source_file) => source_file.get_sourcefile(pool),
            _ => None,
        }
    }

    /// The attribute's name, resolved through the pool.
    pub fn name<'a>(&self, pool: &'a Vec<ConstantPoolInfo>) -> (r: Option<&'a Vec<u8>>)
        ensures
            match pool_text(pool_view(pool@), self.attribute_name_index as int) {
                Some(t) => r is Some && r.unwrap()@ == t,
                None => r is None,
            },
    {
        resolve_utf8(pool, self.attribute_name_index)
    }
}

/// Decodes an attribute count at `p` and that many attributes. Returns them
/// and the position after them.
pub fn parse_attributes(pool: &Vec<ConstantPoolInfo>, b: &[u8], p: usize) -> (r: Result<
    (Vec<AttributeInfo>, usize),
    Error,
>)
    ensures
        match r {
            Ok((v, q)) => fits(b@, p as int, 2) && v@.len() == be16(b@, p as int) && p + 2 <= q
                <= b@.len() && q == attr_pos(b@, p + 2, v@.len()) && forall|i: int|
                0 <= i < v@.len() ==> #[trigger] attr_ok(pool_view(pool@), b@, p + 2, v@, i),
            Err(e) => (e == Error::Truncated || e == Error::Format) && (!fits(b@, p as int, 2) ==> e
                == Error::Truncated),
        },
        r is Ok <==> fits(b@, p as int, 2) && attrs_ok_from(
            pool_view(pool@),
            b@,
            p + 2,
            be16(b@, p as int) as nat,
        ),
    decreases b@.len(), 1int,
{
    let n = read_be_u16(b, p)?;
    let mut out: Vec<AttributeInfo> = Vec::new();
    let mut pos = p + 2;
    let mut i: u16 = 0;
    while i < n
        invariant
            fits(b@, p as int, 2),
            n == be16(b@, p as int),
            i <= n,
            out@.len() == i,
            p + 2 <= pos <= b@.len(),
            pos == attr_pos(b@, p + 2, i as nat),
            forall|j: int| 0 <= j < i ==> #[trigger] attr_ok(pool_view(pool@), b@, p + 2, out@, j),
            attrs_ok_from(pool_view(pool@), b@, p + 2, n as nat) == attrs_ok_from(
                pool_view(pool@),
                b@,
                pos as int,
                (n - i) as nat,
            ),
        decreases n - i,
    {
        let (a, q) = AttributeInfo::parse(pool, b, pos)?;
        let ghost before = out@;
        out.push(a);
        assert forall|j: int| 0 <= j < i + 1 implies #[trigger] attr_ok(
            pool_view(pool@),
            b@,
            p + 2,
            out@,
            j,
        ) by {
            if j < i {
                assert(attr_ok(pool_view(pool@), b@, p + 2, before, j));
            }
        }
        pos = q;
        i = i + 1;
    }
    Ok((out, pos))
}

/// Two attributes hold the same header and payload (a Code payload down to
/// the number of its nested attributes).
pub open spec fn same_attribute(a: AttributeInfo, b: AttributeInfo) -> bool {
    &&& a.attribute_name_index == b.attribute_name_index
    &&& a.attribute_length == b.attribute_length
    &&& match (a.attribute_info, b.attribute_info) {
        (Attribute::Code(x), Attribute::Code(y)) => x.max_stack == y.max_stack && x.max_locals
            == y.max_locals && x.code_length == y.code_length && x.code@ == y.code@
            && x.exception_table@ == y.exception_table@ && x.attributes@.len() == y.attributes@.len(),
        (Attribute::Constant(x), Attribute::Constant(y)) => x == y,
        (Attribute::StackMapTable(x), Attribute::StackMapTable(y)) => x.number_of_entries
            == y.number_of_entries && frames_view(x.entries@) == frames_view(y.entries@),
        (Attribute::LineNumberTable(x), Attribute::LineNumberTable(y)) => x.line_number_table_length
            == y.line_number_table_length && x.line_number_table@ == y.line_number_table@,
        (Attribute::SourceFile(x), Attribute::SourceFile(y)) => x == y,
        (Attribute::Deprecated, Attribute::Deprecated) => true,
        (Attribute::Opaque(x), Attribute::Opaque(y)) => x@ == y@,
        _ => false,
    }
}

/// An attribute is a function of the bytes it is read from and of the pool.
pub proof fn lemma_attribute_unique(pool: Seq<Constant>, s: Seq<u8>, at: int, a: AttributeInfo, b: AttributeInfo)
    requires
        attribute_at(pool, s, at, a),
        attribute_at(pool, s, at, b),
    ensures
        same_attribute(a, b),
{
    let c = s.subrange(at + 6, at + 6 + a.attribute_length);
    match (a.attribute_info, b.attribute_info) {
        (Attribute::Code(x), Attribute::Code(y)) => {
            assert forall|i: int| 0 <= i < x.exception_table@.len() implies x.exception_table@[i]
                == y.exception_table@[i] by {}
            assert(x.exception_table@ =~= y.exception_table@);
        },
        (Attribute::LineNumberTable(x), Attribute::LineNumberTable(y)) => {
            assert forall|i: int| 0 <= i < x.line_number_table@.len() implies x.line_number_table@[i]
                == y.line_number_table@[i] by {}
            assert(x.line_number_table@ =~= y.line_number_table@);
        },
        _ => {},
    }
}

/// Two attribute lists hold the same attributes.
pub open spec fn same_attributes(a: Seq<AttributeInfo>, b: Seq<AttributeInfo>) -> bool {
    a.len() == b.len() && forall|i: int| 0 <= i < a.len() ==> same_attribute(#[trigger] a[i], b[i])
}

/// An attribute list is a function of the bytes it is read from and of the pool.
pub proof fn lemma_attributes_unique(pool: Seq<Constant>, s: Seq<u8>, p: int, a: Seq<AttributeInfo>, b: Seq<AttributeInfo>)
    requires
        a.len() == b.len(),
        forall|i: int| 0 <= i < a.len() ==> #[trigger] attr_ok(pool, s, p, a, i),
        forall|i: int| 0 <= i < b.len() ==> #[trigger] attr_ok(pool, s, p, b, i),
    ensures
        same_attributes(a, b),
{
    assert forall|i: int| 0 <= i < a.len() implies same_attribute(#[trigger] a[i], b[i]) by {
        assert(attr_ok(pool, s, p, a, i));
        assert(attr_ok(pool, s, p, b, i));
        lemma_attribute_unique(pool, s, attr_pos(s, p, i as nat), a[i], b[i]);
    }
}

} // verus!
