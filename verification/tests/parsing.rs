use rust_jvm::bytes::ByteReader;
use rust_jvm::class::{
    AttributeInfo, AttributeKind, ClassAccessFlags, ConstantPool, ConstantPoolInfo, Exception,
    LineNumber, MethodAccessFlags, decode_class_access_flags, decode_method_access_flags,
    parse_class_file,
};
use rust_jvm::error::JvmError;

fn u16be(v: u16) -> Vec<u8> {
    v.to_be_bytes().to_vec()
}

fn u32be(v: u32) -> Vec<u8> {
    v.to_be_bytes().to_vec()
}

fn parse_entry(bytes: Vec<u8>) -> (Result<ConstantPoolInfo, JvmError>, usize) {
    let mut r = ByteReader::new(bytes);
    let res = ConstantPoolInfo::parse(&mut r);
    (res, r.pos)
}

#[test]
fn cp_entry_class_width() {
    let (res, pos) = parse_entry(vec![7, 0, 3, 0xFF]);
    assert_eq!(res.unwrap(), ConstantPoolInfo::Class { name_index: 3 });
    assert_eq!(pos, 3);
}

#[test]
fn cp_entry_fieldref_width() {
    let (res, pos) = parse_entry(vec![9, 0, 2, 0, 5, 0xFF]);
    assert_eq!(
        res.unwrap(),
        ConstantPoolInfo::Fieldref { class_index: 2, name_and_type_index: 5 }
    );
    assert_eq!(pos, 5);
}

#[test]
fn cp_entry_methodref_width() {
    let (res, pos) = parse_entry(vec![10, 0, 2, 0, 9]);
    assert_eq!(
        res.unwrap(),
        ConstantPoolInfo::Methodref { class_index: 2, name_and_type_index: 9 }
    );
    assert_eq!(pos, 5);
}

#[test]
fn cp_entry_interface_methodref_width() {
    let (res, pos) = parse_entry(vec![11, 0, 1, 0, 2]);
    assert_eq!(
        res.unwrap(),
        ConstantPoolInfo::InterfaceMethodref { class_index: 1, name_and_type_index: 2 }
    );
    assert_eq!(pos, 5);
}

#[test]
fn cp_entry_string_width() {
    let (res, pos) = parse_entry(vec![8, 0, 11]);
    assert_eq!(res.unwrap(), ConstantPoolInfo::String { string_index: 11 });
    assert_eq!(pos, 3);
}

#[test]
fn cp_entry_integer_value() {
    let (res, pos) = parse_entry(vec![3, 0xFF, 0xFF, 0xFF, 0xFE]);
    assert_eq!(res.unwrap(), ConstantPoolInfo::Integer { value: -2 });
    assert_eq!(pos, 5);
}

#[test]
fn cp_entry_float_bits() {
    let bits = 1.5f32.to_bits();
    let mut bytes = vec![4];
    bytes.extend_from_slice(&bits.to_be_bytes());
    let (res, pos) = parse_entry(bytes);
    assert_eq!(res.unwrap(), ConstantPoolInfo::Float { bits });
    assert_eq!(pos, 5);
}

#[test]
fn cp_entry_long_value() {
    let mut bytes = vec![5];
    bytes.extend_from_slice(&(-3i64).to_be_bytes());
    let (res, pos) = parse_entry(bytes);
    assert_eq!(res.unwrap(), ConstantPoolInfo::Long { value: -3 });
    assert_eq!(pos, 9);
}

#[test]
fn cp_entry_double_bits() {
    let bits = 2.75f64.to_bits();
    let mut bytes = vec![6];
    bytes.extend_from_slice(&bits.to_be_bytes());
    let (res, pos) = parse_entry(bytes);
    assert_eq!(res.unwrap(), ConstantPoolInfo::Double { bits });
    assert_eq!(pos, 9);
}

#[test]
fn cp_entry_name_and_type_width() {
    let (res, pos) = parse_entry(vec![12, 0, 3, 0, 4]);
    assert_eq!(
        res.unwrap(),
        ConstantPoolInfo::NameAndType { name_index: 3, descriptor_index: 4 }
    );
    assert_eq!(pos, 5);
}

#[test]
fn cp_entry_utf8_text() {
    let (res, pos) = parse_entry(vec![1, 0, 4, b'M', b'a', b'i', b'n', 0xAA]);
    assert_eq!(res.unwrap(), ConstantPoolInfo::Utf8 { value: "Main".to_string() });
    assert_eq!(pos, 7);
}

#[test]
fn cp_entry_utf8_multibyte_is_decoded() {
    // A two-byte UTF-8 sequence: the stored text must be the decoded
    // character, not the raw bytes.
    let (res, pos) = parse_entry(vec![1, 0, 2, 0xC3, 0xA9]);
    assert_eq!(res.unwrap(), ConstantPoolInfo::Utf8 { value: "\u{e9}".to_string() });
    assert_eq!(pos, 5);
}

#[test]
fn cp_entry_utf8_invalid_bytes_fail() {
    let (res, _) = parse_entry(vec![1, 0, 1, 0xFF]);
    assert_eq!(res.unwrap_err(), JvmError::IoError);
}

#[test]
fn cp_entry_method_handle_width() {
    let (res, pos) = parse_entry(vec![15, 6, 0, 10]);
    assert_eq!(
        res.unwrap(),
        ConstantPoolInfo::MethodHandle { reference_kind: 6, reference_index: 10 }
    );
    assert_eq!(pos, 4);
}

#[test]
fn cp_entry_method_type_width() {
    let (res, pos) = parse_entry(vec![16, 0, 8]);
    assert_eq!(res.unwrap(), ConstantPoolInfo::MethodType { descriptor_index: 8 });
    assert_eq!(pos, 3);
}

#[test]
fn cp_entry_invoke_dynamic_width() {
    let (res, pos) = parse_entry(vec![18, 0, 1, 0, 9]);
    assert_eq!(
        res.unwrap(),
        ConstantPoolInfo::InvokeDynamic { bootstrap_method_attr_index: 1, name_and_type_index: 9 }
    );
    assert_eq!(pos, 5);
}

#[test]
fn cp_entry_unknown_tag_fails_after_tag_byte() {
    // Tag 2 is unassigned: the parse must fail as malformed, consuming the
    // tag byte and nothing more.
    let (res, pos) = parse_entry(vec![2, 0, 1, 0, 9]);
    assert_eq!(res.unwrap_err(), JvmError::MalformedConstantPoolTag);
    assert_eq!(pos, 1);
}

#[test]
fn cp_entry_short_read_fails() {
    let (res, _) = parse_entry(vec![9, 0, 2]);
    assert_eq!(res.unwrap_err(), JvmError::IoError);
}

fn sample_pool() -> Vec<ConstantPoolInfo> {
    vec![
        ConstantPoolInfo::Class { name_index: 2 },
        ConstantPoolInfo::Utf8 { value: "Main".to_string() },
        ConstantPoolInfo::Integer { value: 7 },
        ConstantPoolInfo::Class { name_index: 3 },
    ]
}

#[test]
fn pool_position_one_is_index_one() {
    let pool = sample_pool();
    assert_eq!(pool.get_value(1).unwrap(), &ConstantPoolInfo::Class { name_index: 2 });
}

#[test]
fn pool_index_zero_always_fails() {
    let pool = sample_pool();
    assert_eq!(pool.get_value(0).unwrap_err(), JvmError::ConstantPoolIndexOutOfRange);
    assert_eq!(
        pool.get_utf8_from_index(0).unwrap_err(),
        JvmError::ConstantPoolIndexOutOfRange
    );
    assert_eq!(
        pool.get_class_name_from_index(0).unwrap_err(),
        JvmError::ConstantPoolIndexOutOfRange
    );
    let empty: Vec<ConstantPoolInfo> = Vec::new();
    assert_eq!(empty.get_value(0).unwrap_err(), JvmError::ConstantPoolIndexOutOfRange);
}

#[test]
fn pool_index_past_end_fails() {
    let pool = sample_pool();
    assert_eq!(pool.get_value(5).unwrap_err(), JvmError::ConstantPoolIndexOutOfRange);
    assert_eq!(
        pool.get_utf8_from_index(5).unwrap_err(),
        JvmError::ConstantPoolIndexOutOfRange
    );
    assert_eq!(
        pool.get_class_name_from_index(5).unwrap_err(),
        JvmError::ConstantPoolIndexOutOfRange
    );
}

#[test]
fn pool_wrong_variant_is_type_mismatch() {
    let pool = sample_pool();
    // Entry 1 is a Class, not Utf8.
    assert_eq!(
        pool.get_utf8_from_index(1).unwrap_err(),
        JvmError::ConstantPoolTypeMismatch
    );
    // Entry 2 is a Utf8, not a Class.
    assert_eq!(
        pool.get_class_name_from_index(2).unwrap_err(),
        JvmError::ConstantPoolTypeMismatch
    );
    // Entry 4 is a Class whose name index leads to an Integer.
    assert_eq!(
        pool.get_class_name_from_index(4).unwrap_err(),
        JvmError::ConstantPoolTypeMismatch
    );
}

#[test]
fn pool_resolution_succeeds() {
    let pool = sample_pool();
    assert_eq!(pool.get_utf8_from_index(2).unwrap(), "Main");
    assert_eq!(pool.get_class_name_from_index(1).unwrap(), "Main");
}

#[test]
fn pool_name_and_type_resolution() {
    let pool = vec![
        ConstantPoolInfo::NameAndType { name_index: 2, descriptor_index: 3 },
        ConstantPoolInfo::Utf8 { value: "println".to_string() },
        ConstantPoolInfo::Utf8 { value: "(Ljava/lang/String;)V".to_string() },
    ];
    let (name, descriptor) = pool.get_name_and_type(1).unwrap();
    assert_eq!(name, "println");
    assert_eq!(descriptor, "(Ljava/lang/String;)V");
    assert_eq!(
        pool.get_name_and_type(2).unwrap_err(),
        JvmError::ConstantPoolTypeMismatch
    );
}

/// A pool for attribute tests: 1 -> "Code", 2 -> "LineNumberTable",
/// 3 -> "SourceFile", 4 -> "Main.java", 5 -> "Whatever".
fn attribute_pool() -> Vec<ConstantPoolInfo> {
    vec![
        ConstantPoolInfo::Utf8 { value: "Code".to_string() },
        ConstantPoolInfo::Utf8 { value: "LineNumberTable".to_string() },
        ConstantPoolInfo::Utf8 { value: "SourceFile".to_string() },
        ConstantPoolInfo::Utf8 { value: "Main.java".to_string() },
        ConstantPoolInfo::Utf8 { value: "Whatever".to_string() },
    ]
}

fn code_attribute_bytes(
    max_stack: u16,
    max_locals: u16,
    code: &[u8],
    exceptions: &[(u16, u16, u16, u16)],
    nested: &[Vec<u8>],
) -> Vec<u8> {
    let mut payload = Vec::new();
    payload.extend(u16be(max_stack));
    payload.extend(u16be(max_locals));
    payload.extend(u32be(code.len() as u32));
    payload.extend_from_slice(code);
    payload.extend(u16be(exceptions.len() as u16));
    for (start_pc, end_pc, handler_pc, catch_type) in exceptions {
        payload.extend(u16be(*start_pc));
        payload.extend(u16be(*end_pc));
        payload.extend(u16be(*handler_pc));
        payload.extend(u16be(*catch_type));
    }
    payload.extend(u16be(nested.len() as u16));
    for attribute in nested {
        payload.extend_from_slice(attribute);
    }
    let mut bytes = u16be(1);
    bytes.extend(u32be(payload.len() as u32));
    bytes.extend(payload);
    bytes
}

#[test]
fn code_attribute_round_trip() {
    let instruction_bytes = [0xb2, 0x00, 0x06, 0x12, 0x0b, 0xb1];
    let rows = [(0, 6, 6, 0), (2, 4, 5, 9)];
    // Nested: a LineNumberTable with two rows, then an unrecognized name
    // kept verbatim.
    let mut line_table = u16be(2);
    line_table.extend(u32be(10));
    line_table.extend(u16be(2));
    line_table.extend(u16be(0));
    line_table.extend(u16be(31));
    line_table.extend(u16be(3));
    line_table.extend(u16be(32));
    let mut unknown = u16be(5);
    unknown.extend(u32be(3));
    unknown.extend_from_slice(&[9, 8, 7]);
    let bytes = code_attribute_bytes(17, 4, &instruction_bytes, &rows, &[line_table, unknown]);
    let pool = attribute_pool();
    let mut r = ByteReader::new(bytes.clone());
    let parsed = AttributeInfo::parse(&pool, &mut r).unwrap();
    assert_eq!(r.pos, bytes.len());
    assert_eq!(parsed.attribute_name_index, 1);
    assert_eq!(parsed.attribute_name, "Code");
    match parsed.attribute {
        AttributeKind::Code { max_stack, max_locals, code, exception_table, attributes } => {
            assert_eq!(max_stack, 17);
            assert_eq!(max_locals, 4);
            assert_eq!(code, instruction_bytes.to_vec());
            assert_eq!(
                exception_table,
                vec![
                    Exception { start_pc: 0, end_pc: 6, handler_pc: 6, catch_type: 0 },
                    Exception { start_pc: 2, end_pc: 4, handler_pc: 5, catch_type: 9 },
                ]
            );
            assert_eq!(attributes.len(), 2);
            assert_eq!(attributes[0].attribute_name, "LineNumberTable");
            match &attributes[0].attribute {
                AttributeKind::LineNumberTable { line_number_table } => {
                    assert_eq!(
                        line_number_table,
                        &vec![
                            LineNumber { start_pc: 0, line_number: 31 },
                            LineNumber { start_pc: 3, line_number: 32 },
                        ]
                    );
                }
                other => panic!("expected a line number table, got {:?}", other),
            }
            assert_eq!(attributes[1].attribute_name, "Whatever");
            match &attributes[1].attribute {
                AttributeKind::Other { bytes } => assert_eq!(bytes, &vec![9, 8, 7]),
                other => panic!("expected an opaque payload, got {:?}", other),
            }
        }
        other => panic!("expected a code attribute, got {:?}", other),
    }
}

#[test]
fn source_file_attribute_resolves_text() {
    let pool = attribute_pool();
    let mut bytes = u16be(3);
    bytes.extend(u32be(2));
    bytes.extend(u16be(4));
    let mut r = ByteReader::new(bytes);
    let parsed = AttributeInfo::parse(&pool, &mut r).unwrap();
    match parsed.attribute {
        AttributeKind::SourceFile { source_file_index, source_file_value } => {
            assert_eq!(source_file_index, 4);
            assert_eq!(source_file_value, "Main.java");
        }
        other => panic!("expected a source file attribute, got {:?}", other),
    }
}

#[test]
fn attribute_name_out_of_range_fails() {
    let pool = attribute_pool();
    let mut bytes = u16be(99);
    bytes.extend(u32be(0));
    let mut r = ByteReader::new(bytes);
    assert_eq!(
        AttributeInfo::parse(&pool, &mut r).unwrap_err(),
        JvmError::ConstantPoolIndexOutOfRange
    );
}

#[test]
fn attribute_name_of_wrong_variant_fails() {
    let pool = vec![ConstantPoolInfo::Class { name_index: 1 }];
    let mut bytes = u16be(1);
    bytes.extend(u32be(0));
    let mut r = ByteReader::new(bytes);
    assert_eq!(
        AttributeInfo::parse(&pool, &mut r).unwrap_err(),
        JvmError::ConstantPoolTypeMismatch
    );
}

#[test]
fn flag_decoding_follows_enumeration_order() {
    assert_eq!(
        decode_class_access_flags(0x0021),
        vec![ClassAccessFlags::Public, ClassAccessFlags::Super]
    );
    assert_eq!(decode_class_access_flags(0), vec![]);
    assert_eq!(
        decode_class_access_flags(0x4401),
        vec![ClassAccessFlags::Public, ClassAccessFlags::Abstract, ClassAccessFlags::Enum]
    );
    assert_eq!(
        decode_method_access_flags(0x0009),
        vec![MethodAccessFlags::Public, MethodAccessFlags::Static]
    );
}

pub fn minimal_class_bytes(interfaces: u16, fields: u16) -> Vec<u8> {
    let mut bytes = vec![0xCA, 0xFE, 0xBA, 0xBE];
    bytes.extend(u16be(0)); // minor
    bytes.extend(u16be(52)); // major
    bytes.extend(u16be(3)); // two entries follow
    bytes.extend([1, 0, 4]);
    bytes.extend(b"Main");
    bytes.extend([7, 0, 1]);
    bytes.extend(u16be(0x0021)); // access flags
    bytes.extend(u16be(2)); // this_class
    bytes.extend(u16be(2)); // super_class
    bytes.extend(u16be(interfaces));
    bytes.extend(u16be(fields));
    bytes.extend(u16be(0)); // methods
    bytes.extend(u16be(0)); // attributes
    bytes
}

#[test]
fn minimal_class_parses() {
    let class = parse_class_file(minimal_class_bytes(0, 0)).unwrap();
    assert_eq!(class.magic, [0xCA, 0xFE, 0xBA, 0xBE]);
    assert_eq!(class.minor_version, 0);
    assert_eq!(class.major_version, 52);
    assert_eq!(class.constant_pool.len(), 2);
    assert_eq!(
        class.access_flags,
        vec![ClassAccessFlags::Public, ClassAccessFlags::Super]
    );
    assert_eq!(class.this_class, 2);
    assert_eq!(class.get_this_class_name().unwrap(), "Main");
    assert_eq!(class.get_super_class_name().unwrap(), "Main");
}

#[test]
fn nonzero_interface_count_is_unsupported() {
    assert_eq!(
        parse_class_file(minimal_class_bytes(1, 0)).unwrap_err(),
        JvmError::UnsupportedFeature
    );
}

#[test]
fn nonzero_field_count_is_unsupported() {
    assert_eq!(
        parse_class_file(minimal_class_bytes(0, 3)).unwrap_err(),
        JvmError::UnsupportedFeature
    );
}

#[test]
fn truncated_class_file_fails() {
    assert_eq!(
        parse_class_file(vec![0xCA, 0xFE, 0xBA]).unwrap_err(),
        JvmError::IoError
    );
}

#[test]
fn unknown_pool_tag_aborts_class_parse() {
    let mut bytes = vec![0xCA, 0xFE, 0xBA, 0xBE];
    bytes.extend(u16be(0));
    bytes.extend(u16be(52));
    bytes.extend(u16be(2)); // one entry follows
    bytes.extend([2, 0, 0]); // tag 2 is unassigned
    assert_eq!(
        parse_class_file(bytes).unwrap_err(),
        JvmError::MalformedConstantPoolTag
    );
}

#[test]
fn trailing_bytes_are_ignored() {
    let mut bytes = minimal_class_bytes(0, 0);
    bytes.extend([1, 2, 3, 4]);
    assert!(parse_class_file(bytes).is_ok());
}

#[test]
fn reader_big_endian_values() {
    let mut r = ByteReader::new(vec![0x12, 0x34, 0x56, 0x78, 0x9A, 0xBC, 0xDE, 0xF0, 0x01, 0x02,
        0x03, 0x04, 0x05, 0x06, 0x07, 0x08]);
    assert_eq!(r.parse_u1().unwrap(), 0x12);
    r.pos = 0;
    assert_eq!(r.parse_u2().unwrap(), 0x1234);
    r.pos = 0;
    assert_eq!(r.parse_u4().unwrap(), 0x12345678);
    r.pos = 0;
    assert_eq!(r.parse_u8().unwrap(), 0x123456789ABCDEF0);
    assert_eq!(r.pos, 8);
}

#[test]
fn reader_signed_values() {
    let mut r = ByteReader::new(0x80000000u32.to_be_bytes().to_vec());
    assert_eq!(r.parse_u4_as_i32().unwrap(), i32::MIN);
    let mut r = ByteReader::new(0xFFFFFFFFFFFFFFFFu64.to_be_bytes().to_vec());
    assert_eq!(r.parse_u8_as_i64().unwrap(), -1);
}

#[test]
fn reader_short_reads_are_atomic() {
    let mut r = ByteReader::new(vec![1, 2, 3]);
    assert_eq!(r.parse_u4().unwrap_err(), JvmError::IoError);
    assert_eq!(r.pos, 0);
    assert_eq!(r.parse_n_bytes(4).unwrap_err(), JvmError::IoError);
    assert_eq!(r.pos, 0);
    assert_eq!(r.parse_n_bytes(3).unwrap(), vec![1, 2, 3]);
    assert_eq!(r.pos, 3);
}

#[test]
fn reader_magic_bytes() {
    let mut r = ByteReader::new(vec![0xCA, 0xFE, 0xBA, 0xBE, 0x00]);
    assert_eq!(r.parse_u4_as_bytes().unwrap(), [0xCA, 0xFE, 0xBA, 0xBE]);
    assert_eq!(r.pos, 4);
}

#[test]
fn reader_utf8_is_length_prefixed() {
    let mut r = ByteReader::new(vec![b'h', b'i', b'!', 9, 9]);
    assert_eq!(r.parse_utf8(3).unwrap(), "hi!");
    assert_eq!(r.pos, 3);
    let mut r = ByteReader::new(vec![b'h', b'i']);
    assert_eq!(r.parse_utf8(3).unwrap_err(), JvmError::IoError);
}
