use bytecode_parser::attribute::{Attribute, AttributeInfo};
use bytecode_parser::constant_pool::{parse_constant_pool, ConstantType};
use bytecode_parser::error::Error;
use bytecode_parser::opcodes::{operand_count, opcode_name, parse_code_infos, CodeInfo};
use bytecode_parser::raw_class::{parse, ClassFile};
use bytecode_parser::stack_map_table::{StackMapFrame, VerificationTypeInfo};

fn u16be(v: u16) -> [u8; 2] {
    v.to_be_bytes()
}

fn utf8_entry(out: &mut Vec<u8>, s: &str) {
    out.push(1);
    out.extend_from_slice(&u16be(s.len() as u16));
    out.extend_from_slice(s.as_bytes());
}

/// A class file with the given pool entries (already encoded), pool count,
/// and the bytes that follow the pool.
fn class_bytes(pool_count: u16, pool: &[u8], rest: &[u8]) -> Vec<u8> {
    let mut b = vec![0xca, 0xfe, 0xba, 0xbe, 0x00, 0x00, 0x00, 0x34];
    b.extend_from_slice(&u16be(pool_count));
    b.extend_from_slice(pool);
    b.extend_from_slice(rest);
    b
}

fn minimal_class() -> Vec<u8> {
    let mut pool = vec![];
    utf8_entry(&mut pool, "Main");
    // flags, this, super, then empty interface, field, method and attribute lists
    let rest = [0x00, 0x21, 0x00, 0x01, 0x00, 0x01, 0, 0, 0, 0, 0, 0, 0, 0];
    class_bytes(2, &pool, &rest)
}

#[test]
fn minimal_class_file_decodes() {
    let c = ClassFile::parse_from_u8(&minimal_class()).unwrap();
    assert_eq!(c.magic, 0xCAFEBABE);
    assert_eq!(c.minor_version, 0);
    assert_eq!(c.major_version, 52);
    assert_eq!(c.constant_pool.len(), 1);
    assert_eq!(c.this_class_name().unwrap(), &b"Main".to_vec());
    assert_eq!(c.super_class_name().unwrap(), &b"Main".to_vec());
    assert!(c.interfaces.is_empty());
    assert!(c.fields.is_empty());
    assert!(c.methods.is_empty());
    assert!(c.attributes.is_empty());
    assert_eq!(c.access_flags.1, 0x0021);
    assert_eq!(c.source_file_name(), None);
}

#[test]
fn parse_is_deterministic_on_same_bytes() {
    let b = minimal_class();
    let c1 = parse(&b).unwrap();
    let c2 = parse(&b).unwrap();
    assert_eq!(format!("{:?}", c1), format!("{:?}", c2));
}

#[test]
fn class_names_resolve_through_class_entries() {
    let mut pool = vec![];
    utf8_entry(&mut pool, "Main");
    pool.extend_from_slice(&[7, 0, 1]);
    utf8_entry(&mut pool, "java/lang/Object");
    pool.extend_from_slice(&[7, 0, 3]);
    let rest = [0x00, 0x21, 0x00, 0x02, 0x00, 0x04, 0, 1, 0, 2, 0, 0, 0, 0, 0, 0];
    let c = ClassFile::parse_from_u8(&class_bytes(5, &pool, &rest)).unwrap();
    assert_eq!(c.this_class_name().unwrap(), &b"Main".to_vec());
    assert_eq!(c.super_class_name().unwrap(), &b"java/lang/Object".to_vec());
    assert_eq!(c.interfaces, vec![2]);
}

#[test]
fn bad_class_magic_is_format_error() {
    let mut b = minimal_class();
    b[0] = 0xcb;
    assert_eq!(ClassFile::parse_from_u8(&b).unwrap_err(), Error::Format);
}

#[test]
fn truncated_class_file_fails() {
    let b = minimal_class();
    assert_eq!(ClassFile::parse_from_u8(&b[..3]).unwrap_err(), Error::Truncated);
    assert_eq!(ClassFile::parse_from_u8(&b[..b.len() - 1]).unwrap_err(), Error::Truncated);
    assert_eq!(ClassFile::parse_from_u8(&[]).unwrap_err(), Error::Truncated);
}

#[test]
fn wide_constant_takes_two_slots() {
    let mut pool = vec![5, 0, 0, 0, 1, 0, 0, 0, 2];
    utf8_entry(&mut pool, "x");
    let (v, q) = parse_constant_pool(&pool, 0, 4).unwrap();
    assert_eq!(q, pool.len());
    assert_eq!(v.len(), 3);
    assert!(matches!(v[0].info, ConstantType::Long(0x1_0000_0002)));
    assert!(v[0].is_double_size());
    assert!(matches!(v[1].info, ConstantType::Empty));
    assert_eq!(v[1].tag, 0);
    assert_eq!(v[2].as_utf8().unwrap(), &b"x".to_vec());
    assert_eq!(v[2].tag, 1);
}

#[test]
fn double_constant_keeps_bits() {
    let pool = [6, 0x3f, 0xf0, 0, 0, 0, 0, 0, 0];
    let (v, _) = parse_constant_pool(&pool, 0, 3).unwrap();
    assert_eq!(v.len(), 2);
    assert!(matches!(v[0].info, ConstantType::Double(0x3ff0_0000_0000_0000)));
}

#[test]
fn unknown_constant_tag_becomes_empty_text() {
    let pool = [2, 3, 0, 0, 0, 7];
    let (v, q) = parse_constant_pool(&pool, 0, 3).unwrap();
    assert_eq!(q, 6);
    assert_eq!(v[0].as_utf8().unwrap(), &Vec::<u8>::new());
    assert!(matches!(v[1].info, ConstantType::Integer(7)));
}

#[test]
fn truncated_constant_pool_fails() {
    assert_eq!(parse_constant_pool(&[1, 0, 5, b'a'], 0, 2).unwrap_err(), Error::Truncated);
}

#[test]
fn frame_type_boundaries() {
    let (f, q) = StackMapFrame::parse(&[63], 0).unwrap();
    assert!(matches!(f, StackMapFrame::SameFrame(63)));
    assert_eq!(q, 1);
    let (f, _) = StackMapFrame::parse(&[64, 1], 0).unwrap();
    assert!(matches!(f, StackMapFrame::SameLocals1StackItemFrame(64, VerificationTypeInfo::Integer)));
    let (f, q) = StackMapFrame::parse(&[200], 0).unwrap();
    assert!(matches!(f, StackMapFrame::Invalid));
    assert_eq!(q, 1);
    let (f, _) = StackMapFrame::parse(&[247, 0, 5, 7, 0, 9], 0).unwrap();
    assert!(matches!(
        f,
        StackMapFrame::SameLocals1StackItemFrameExtended(247, 5, VerificationTypeInfo::Object(9))
    ));
    let (f, _) = StackMapFrame::parse(&[249, 0, 3], 0).unwrap();
    assert!(matches!(f, StackMapFrame::ChopFrame(249, 3)));
    let (f, _) = StackMapFrame::parse(&[251, 0, 3], 0).unwrap();
    assert!(matches!(f, StackMapFrame::SameFrameExtended(251, 3)));
    let (f, q) = StackMapFrame::parse(&[253, 0, 1, 1, 2], 0).unwrap();
    assert_eq!(q, 5);
    match f {
        StackMapFrame::AppendFrame(253, 1, locals) => {
            assert_eq!(locals, vec![VerificationTypeInfo::Integer, VerificationTypeInfo::Float])
        }
        _ => panic!("not an append frame"),
    }
    let (f, q) = StackMapFrame::parse(&[255, 0, 2, 0, 1, 8, 0, 4, 0, 1, 5], 0).unwrap();
    assert_eq!(q, 11);
    match f {
        StackMapFrame::FullFrame(255, 2, locals, stack) => {
            assert_eq!(locals, vec![VerificationTypeInfo::Uninitialized(4)]);
            assert_eq!(stack, vec![VerificationTypeInfo::Null]);
        }
        _ => panic!("not a full frame"),
    }
}

#[test]
fn truncated_frame_fails() {
    assert!(StackMapFrame::parse(&[64], 0).is_err());
    assert!(StackMapFrame::parse(&[253, 0, 1, 1], 0).is_err());
}

#[test]
fn instructions_use_operand_table() {
    let code = [0x2a, 0xb7, 0x00, 0x01, 0x10, 0x05, 0xfe, 0xb1];
    let v = parse_code_infos(&code).unwrap();
    assert_eq!(
        v,
        vec![
            CodeInfo { code: 0x2a, index_byte1: None, index_byte2: None },
            CodeInfo { code: 0xb7, index_byte1: Some(0), index_byte2: Some(1) },
            CodeInfo { code: 0x10, index_byte1: Some(5), index_byte2: None },
            CodeInfo { code: 0xfe, index_byte1: None, index_byte2: None },
            CodeInfo { code: 0xb1, index_byte1: None, index_byte2: None },
        ]
    );
    assert_eq!(operand_count(0x11), Some(2));
    assert_eq!(operand_count(0xfe), None);
    assert_eq!(opcode_name(0xb7), Some("invokespecial"));
    assert_eq!(opcode_name(0xfe), None);
}

#[test]
fn instruction_cut_short_fails() {
    assert_eq!(parse_code_infos(&[0x11, 0x01]).unwrap_err(), Error::Truncated);
}

/// A class with one method that carries a Code attribute (whose nested list
/// holds a LineNumberTable), a SourceFile attribute, a Deprecated attribute
/// and one of an unknown name.
fn class_with_method() -> Vec<u8> {
    let mut pool = vec![];
    utf8_entry(&mut pool, "Main"); // 1
    utf8_entry(&mut pool, "main"); // 2
    utf8_entry(&mut pool, "()V"); // 3
    utf8_entry(&mut pool, "Code"); // 4
    utf8_entry(&mut pool, "LineNumberTable"); // 5
    utf8_entry(&mut pool, "SourceFile"); // 6
    utf8_entry(&mut pool, "Main.java"); // 7
    utf8_entry(&mut pool, "Custom"); // 8
    utf8_entry(&mut pool, "Deprecated"); // 9
    let line_table = [0, 5, 0, 0, 0, 6, 0, 1, 0, 0, 0, 3];
    let mut code = vec![0, 1, 0, 1, 0, 0, 0, 2, 0x2a, 0xb1, 0, 0, 0, 1];
    code.extend_from_slice(&line_table);
    let mut rest = vec![0x00, 0x21, 0x00, 0x01, 0x00, 0x00, 0, 0, 0, 0];
    rest.extend_from_slice(&[0, 1, 0x00, 0x09, 0, 2, 0, 3, 0, 1, 0, 4]);
    rest.extend_from_slice(&(code.len() as u32).to_be_bytes());
    rest.extend_from_slice(&code);
    rest.extend_from_slice(&[0, 3, 0, 6, 0, 0, 0, 2, 0, 7]);
    rest.extend_from_slice(&[0, 8, 0, 0, 0, 3, 9, 8, 7]);
    rest.extend_from_slice(&[0, 9, 0, 0, 0, 0]);
    class_bytes(10, &pool, &rest)
}

#[test]
fn method_with_code_and_class_attributes() {
    let c = ClassFile::parse_from_u8(&class_with_method()).unwrap();
    assert_eq!(c.methods.len(), 1);
    let m = &c.methods[0];
    assert_eq!(m.name(&c.constant_pool).unwrap(), &b"main".to_vec());
    assert_eq!(m.descriptor(&c.constant_pool).unwrap(), &b"()V".to_vec());
    assert_eq!(m.access_flags.1, 0x0009);
    assert!(m.has_code());
    match &m.attributes[0].attribute_info {
        Attribute::Code(code) => {
            assert_eq!(code.max_stack, 1);
            assert_eq!(code.max_locals, 1);
            assert_eq!(code.code_length, 2);
            assert_eq!(code.code.len(), 2);
            assert!(code.exception_table.is_empty());
            assert_eq!(code.attributes.len(), 1);
            match &code.attributes[0].attribute_info {
                Attribute::LineNumberTable(t) => {
                    assert_eq!(t.line_number_table_length, 1);
                    assert_eq!(t.line_number_table[0].start_pc, 0);
                    assert_eq!(t.line_number_table[0].line_number, 3);
                }
                _ => panic!("expected a line number table"),
            }
        }
        _ => panic!("expected a Code attribute"),
    }
    assert_eq!(c.attributes.len(), 3);
    assert_eq!(c.source_file_name().unwrap(), &b"Main.java".to_vec());
    assert!(c.attributes[0].type_filter(b"SourceFile"));
    assert!(!c.attributes[0].type_filter(b"Code"));
    assert_eq!(c.attributes[1].name(&c.constant_pool).unwrap(), &b"Custom".to_vec());
    match &c.attributes[1].attribute_info {
        Attribute::Opaque(raw) => assert_eq!(raw, &vec![9, 8, 7]),
        _ => panic!("expected an opaque attribute"),
    }
    assert!(matches!(c.attributes[2].attribute_info, Attribute::Deprecated));
    assert!(c.attributes[2].type_filter(b"Deprecated"));
}

#[test]
fn attribute_with_wrong_length_is_format_error() {
    let mut pool = vec![];
    utf8_entry(&mut pool, "Deprecated");
    let rest = [0, 1, 0, 0, 0, 1, 0xaa];
    let c = pool_vec(&pool, 2);
    assert_eq!(AttributeInfo::parse(&c, &rest, 0).unwrap_err(), Error::Format);
    let rest = [0, 1, 0, 0, 0, 9, 0xaa];
    assert_eq!(AttributeInfo::parse(&c, &rest, 0).unwrap_err(), Error::Truncated);
}

#[test]
fn unresolvable_attribute_name_is_opaque() {
    let c = pool_vec(&[], 1);
    let rest = [0, 7, 0, 0, 0, 2, 1, 2];
    let (a, q) = AttributeInfo::parse(&c, &rest, 0).unwrap();
    assert_eq!(q, 8);
    assert!(matches!(a.attribute_info, Attribute::Opaque(ref v) if v == &vec![1, 2]));
}

fn pool_vec(pool: &[u8], count: u16) -> Vec<bytecode_parser::constant_pool::ConstantPoolInfo> {
    parse_constant_pool(pool, 0, count).unwrap().0
}
