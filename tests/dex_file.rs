use bytecode_parser::access_flag::AccessFlag;
use bytecode_parser::class_def::{ClassDataItem, CodeItem};
use bytecode_parser::error::Error;
use bytecode_parser::map_list::MapList;
use bytecode_parser::raw_dex::{
    get_field_id, get_method_id, get_str_const, get_type_id, parse, DexFile, DexHeader,
    FieldIdItem, MethodIdItem, ProtoIdItem, TypeIdItem,
};

fn put32(b: &mut [u8], at: usize, v: u32) {
    b[at..at + 4].copy_from_slice(&v.to_le_bytes());
}

fn header(sizes: [u32; 6]) -> Vec<u8> {
    let mut b = vec![0u8; 0x70];
    b[..8].copy_from_slice(b"dex\n035\0");
    put32(&mut b, 36, 0x70);
    put32(&mut b, 40, 0x1234_5678);
    for (k, s) in sizes.iter().enumerate() {
        put32(&mut b, 56 + 8 * k, *s);
    }
    b
}

fn text(s: &str) -> Vec<u16> {
    s.encode_utf16().collect()
}

#[test]
fn empty_dex_decodes() {
    let mut b = header([0; 6]);
    put32(&mut b, 32, 0x70);
    let d = DexFile::parse(&b).unwrap();
    assert_eq!(d.dex_header.magic, 0x6465_780a);
    assert_eq!(d.dex_header.version_digits(), Some((0, 3, 5)));
    assert_eq!(d.dex_header.file_size, 0x70);
    assert_eq!(d.dex_header.header_size, 0x70);
    assert_eq!(d.dex_header.endian_tag, 0x1234_5678);
    assert!(d.string_ids.is_empty());
    assert!(d.type_ids.is_empty());
    assert!(d.proto_ids.is_empty());
    assert!(d.field_ids.is_empty());
    assert!(d.method_ids.is_empty());
    assert!(d.class_defs.is_empty());
    assert_eq!(get_str_const(&d, 0), None);
    assert_eq!(get_type_id(&d, 0), None);
}

#[test]
fn bad_dex_magic_is_format_error() {
    let mut b = header([0; 6]);
    b[0] = b'D';
    assert_eq!(DexFile::parse(&b).unwrap_err(), Error::Format);
    assert_eq!(DexHeader::parse(&b).unwrap_err(), Error::Format);
}

#[test]
fn short_dex_header_is_truncated() {
    let b = header([0; 6]);
    assert_eq!(parse(&b[..0x6f]).unwrap_err(), Error::Truncated);
    assert_eq!(parse(&b[..2]).unwrap_err(), Error::Truncated);
}

#[test]
fn dex_table_sizes_beyond_input_fail() {
    let b = header([1, 0, 0, 0, 0, 0]);
    assert_eq!(parse(&b).unwrap_err(), Error::Truncated);
}

/// A file with six strings, four types, one prototype, one field, one
/// method and one class whose data holds a static field and a direct method
/// with code.
fn sample_dex() -> Vec<u8> {
    let strings = ["LMain;", "I", "x", "V", "main", "LBase;"];
    let mut b = header([6, 4, 1, 1, 1, 1]);
    let tables = 6 * 4 + 4 * 4 + 12 + 8 + 8 + 32;
    let data_start = 0x70 + tables;
    b.resize(data_start, 0);
    let mut at = 0x70;
    let mut data: Vec<u8> = vec![];
    for s in strings {
        put32(&mut b, at, (data_start + data.len()) as u32);
        at += 4;
        data.push(s.len() as u8);
        data.extend_from_slice(s.as_bytes());
        data.push(0);
    }
    for t in [0u32, 1, 3, 5] {
        put32(&mut b, at, t);
        at += 4;
    }
    // prototype ()V: shorty "V", return type 2, no parameters
    put32(&mut b, at, 3);
    put32(&mut b, at + 4, 2);
    put32(&mut b, at + 8, 0);
    at += 12;
    // field Main.x:I
    b[at..at + 2].copy_from_slice(&0u16.to_le_bytes());
    b[at + 2..at + 4].copy_from_slice(&1u16.to_le_bytes());
    put32(&mut b, at + 4, 2);
    at += 8;
    // method Main.main()V
    b[at..at + 2].copy_from_slice(&0u16.to_le_bytes());
    b[at + 2..at + 4].copy_from_slice(&0u16.to_le_bytes());
    put32(&mut b, at + 4, 4);
    at += 8;
    let class_def = at;
    while (data_start + data.len()) % 4 != 0 {
        data.push(0);
    }
    let code_off = data_start + data.len();
    data.extend_from_slice(&[1, 0, 1, 0, 0, 0, 0, 0, 0, 0, 0, 0, 1, 0, 0, 0, 0x0e, 0x00]);
    let interfaces_off = data_start + data.len();
    data.extend_from_slice(&[1, 0, 0, 0, 3, 0]);
    let class_data_off = data_start + data.len();
    data.extend_from_slice(&[1, 0, 1, 0, 0, 8, 0, 9]);
    data.extend_from_slice(&[0x80 | (code_off as u8 & 0x7f), (code_off >> 7) as u8]);
    put32(&mut b, class_def, 0);
    put32(&mut b, class_def + 4, 1);
    put32(&mut b, class_def + 8, 3);
    put32(&mut b, class_def + 12, interfaces_off as u32);
    put32(&mut b, class_def + 16, 0xffff_ffff);
    put32(&mut b, class_def + 20, 0);
    put32(&mut b, class_def + 24, class_data_off as u32);
    put32(&mut b, class_def + 28, 0);
    b.extend_from_slice(&data);
    b
}

#[test]
fn sample_dex_resolves_names() {
    let d = parse(&sample_dex()).unwrap();
    assert_eq!(d.string_ids.len(), 6);
    assert_eq!(d.string_ids[0].string_utf16_size, 6);
    assert_eq!(get_str_const(&d, 4).unwrap(), &text("main"));
    assert_eq!(get_type_id(&d, 3), Some(TypeIdItem { descriptor_idx: 5 }));
    assert_eq!(get_type_id(&d, 0).unwrap().descriptor(&d).unwrap(), &text("LMain;"));
    let f = get_field_id(&d, 0).unwrap();
    assert_eq!(f.name(&d).unwrap(), &text("x"));
    assert_eq!(f.descriptor(&d).unwrap(), &text("I"));
    let m = get_method_id(&d, 0).unwrap();
    assert_eq!(m.name(&d).unwrap(), &text("main"));
    assert_eq!(m.param_type(&d).unwrap(), &text("V"));
    assert_eq!(m.return_type(&d).unwrap(), &text("V"));
    assert!(get_method_id(&d, 1).is_none());
    assert_eq!(d.proto_ids[0].shorty(&d).unwrap(), &text("V"));
}

#[test]
fn sample_dex_class_definition() {
    let d = parse(&sample_dex()).unwrap();
    assert_eq!(d.class_defs.len(), 1);
    let c = &d.class_defs[0];
    assert_eq!(c.class.descriptor(&d).unwrap(), &text("LMain;"));
    assert_eq!(c.access_flags.0, vec![AccessFlag::Public]);
    assert_eq!(c.superclass.unwrap().descriptor(&d).unwrap(), &text("LBase;"));
    assert_eq!(c.source_file_idx, None);
    let interfaces = c.interfaces.as_ref().unwrap();
    assert_eq!(interfaces.size, 1);
    assert_eq!(interfaces.list[0].descriptor(&d).unwrap(), &text("LBase;"));
    let data = c.class_data_item.as_ref().unwrap();
    assert_eq!(data.static_fields.len(), 1);
    assert_eq!(data.static_fields[0].field.name(&d).unwrap(), &text("x"));
    assert_eq!(data.static_fields[0].access_flags.0, vec![AccessFlag::Static]);
    assert!(data.instance_fields.is_empty());
    assert_eq!(data.direct_methods.len(), 1);
    let m = &data.direct_methods[0];
    assert_eq!(m.method.name(&d).unwrap(), &text("main"));
    assert_eq!(m.access_flags.0, vec![AccessFlag::Public, AccessFlag::Static]);
    let code = m.code_item.as_ref().unwrap();
    assert_eq!(code.registers_size, 1);
    assert_eq!(code.ins_size, 1);
    assert_eq!(code.outs_size, 0);
    assert_eq!(code.insns_size, 1);
    assert_eq!(code.insns, vec![0x000e]);
    assert!(data.virtual_methods.is_empty());
}

fn fields(n: u32) -> Vec<FieldIdItem> {
    (0..n)
        .map(|i| FieldIdItem {
            class_idx: 0,
            class: TypeIdItem { descriptor_idx: 0 },
            type_idx: 0,
            type_item: TypeIdItem { descriptor_idx: 0 },
            name_idx: 100 + i,
        })
        .collect()
}

#[test]
fn diff_encoded_field_indices_accumulate() {
    let bytes = [3, 0, 0, 0, 5, 1, 0, 2, 3, 8];
    let methods: Vec<MethodIdItem> = vec![];
    let d = ClassDataItem::parse_from_u8(&bytes, 0, &fields(9), &methods).unwrap();
    let idx: Vec<u32> = d.static_fields.iter().map(|f| f.field_idx).collect();
    assert_eq!(idx, vec![5, 5, 8]);
    let names: Vec<u32> = d.static_fields.iter().map(|f| f.field.name_idx).collect();
    assert_eq!(names, vec![105, 105, 108]);
    let diffs: Vec<u32> = d.static_fields.iter().map(|f| f.field_idx_diff).collect();
    assert_eq!(diffs, vec![5, 0, 3]);
}

#[test]
fn each_list_accumulates_on_its_own() {
    let bytes = [1, 2, 0, 0, 4, 0, 1, 0, 2, 0];
    let methods: Vec<MethodIdItem> = vec![];
    let d = ClassDataItem::parse_from_u8(&bytes, 0, &fields(9), &methods).unwrap();
    assert_eq!(d.static_fields[0].field_idx, 4);
    let idx: Vec<u32> = d.instance_fields.iter().map(|f| f.field_idx).collect();
    assert_eq!(idx, vec![1, 3]);
}

#[test]
fn field_index_past_table_is_out_of_range() {
    let bytes = [3, 0, 0, 0, 5, 1, 0, 2, 4, 8];
    let methods: Vec<MethodIdItem> = vec![];
    let r = ClassDataItem::parse_from_u8(&bytes, 0, &fields(9), &methods);
    assert_eq!(r.unwrap_err(), Error::IndexOutOfRange);
}

#[test]
fn code_item_with_padding() {
    let mut b = vec![2, 0, 1, 0, 1, 0, 1, 0, 0, 0, 0, 0, 1, 0, 0, 0, 0x0e, 0x00];
    assert!(CodeItem::parse(&b, 0).is_err());
    b.extend_from_slice(&[0, 0]);
    let c = CodeItem::parse(&b, 0).unwrap();
    assert_eq!(c.tries_size, 1);
    assert_eq!(c.insns, vec![0x000e]);
}

#[test]
fn map_list_entries() {
    let b = [1, 0, 0, 0, 0x01, 0x10, 0, 0, 3, 0, 0, 0, 0x70, 0, 0, 0];
    let m = MapList::parse(&b, 0).unwrap();
    assert_eq!(m.size, 1);
    assert_eq!(m.map_item[0].map_item_type, 0x1001);
    assert_eq!(m.map_item[0].size, 3);
    assert_eq!(m.map_item[0].offset, 0x70);
    assert_eq!(MapList::parse(&b[..10], 0).unwrap_err(), Error::Truncated);
}

#[test]
fn proto_duplicate_keeps_values() {
    let p = ProtoIdItem {
        shorty_idx: 1,
        return_type_idx: 2,
        return_type: TypeIdItem { descriptor_idx: 3 },
        parameters_off: 0,
        parameters_type_list: None,
    };
    let q = p.duplicate();
    assert_eq!(q.shorty_idx, 1);
    assert_eq!(q.return_type, TypeIdItem { descriptor_idx: 3 });
}

#[test]
fn field_naming_missing_type_is_out_of_range() {
    let mut b = header([0, 1, 0, 1, 0, 0]);
    b.extend_from_slice(&[0, 0, 0, 0]);
    b.extend_from_slice(&[0, 0, 5, 0, 0, 0, 0, 0]);
    assert_eq!(parse(&b).unwrap_err(), Error::IndexOutOfRange);
}

#[test]
fn superclass_absent_with_no_index() {
    let mut b = header([1, 1, 0, 0, 0, 1]);
    let data = 0x70 + 4 + 4 + 32;
    b.extend_from_slice(&(data as u32).to_le_bytes());
    b.extend_from_slice(&[0, 0, 0, 0]);
    for v in [0u32, 0x11, 0xffff_ffff, 0, 3, 0, 0, 0] {
        b.extend_from_slice(&v.to_le_bytes());
    }
    b.extend_from_slice(&[1, b'A', 0]);
    let d = parse(&b).unwrap();
    let c = &d.class_defs[0];
    assert!(c.superclass.is_none());
    assert_eq!(c.source_file_idx, Some(3));
    assert!(c.interfaces.is_none());
    assert!(c.class_data_item.is_none());
    assert_eq!(c.access_flags.0, vec![AccessFlag::Public, AccessFlag::Final]);
    assert_eq!(c.class.descriptor(&d).unwrap(), &text("A"));
}
