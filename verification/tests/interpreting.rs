use rust_jvm::class::parse_class_file;
use rust_jvm::error::JvmError;
use rust_jvm::interpreter::run_main;

fn u16be(v: u16) -> Vec<u8> {
    v.to_be_bytes().to_vec()
}

fn u32be(v: u32) -> Vec<u8> {
    v.to_be_bytes().to_vec()
}

fn utf8_entry(text: &str) -> Vec<u8> {
    let mut bytes = vec![1];
    bytes.extend(u16be(text.len() as u16));
    bytes.extend(text.as_bytes());
    bytes
}

/// A class equivalent to a compiled hello-world: a constant pool carrying
/// the `System.out` field reference, the `println` method reference and a
/// string constant, and one `main` method whose code is handed in.
///
/// Pool layout, 1-based:
///  1 "java/io/PrintStream"   2 Class(1)
///  3 "out"                   4 "Ljava/io/PrintStream;"
///  5 NameAndType(3, 4)       6 Fieldref(2, 5)
///  7 "println"               8 "(Ljava/lang/String;)V"
///  9 NameAndType(7, 8)      10 Methodref(2, 9)
/// 11 "Hello, World!"        12 String(11)
/// 13 "main"                 14 "([Ljava/lang/String;)V"
/// 15 "Code"                 16 "Main"
/// 17 Class(16)              18 "java/lang/Object"
/// 19 Class(18)
fn hello_class_bytes(method_name: &str, code: &[u8]) -> Vec<u8> {
    let mut bytes = vec![0xCA, 0xFE, 0xBA, 0xBE];
    bytes.extend(u16be(0));
    bytes.extend(u16be(52));
    bytes.extend(u16be(20));
    bytes.extend(utf8_entry("java/io/PrintStream"));
    bytes.extend([7, 0, 1]);
    bytes.extend(utf8_entry("out"));
    bytes.extend(utf8_entry("Ljava/io/PrintStream;"));
    bytes.extend([12, 0, 3, 0, 4]);
    bytes.extend([9, 0, 2, 0, 5]);
    bytes.extend(utf8_entry("println"));
    bytes.extend(utf8_entry("(Ljava/lang/String;)V"));
    bytes.extend([12, 0, 7, 0, 8]);
    bytes.extend([10, 0, 2, 0, 9]);
    bytes.extend(utf8_entry("Hello, World!"));
    bytes.extend([8, 0, 11]);
    bytes.extend(utf8_entry(method_name));
    bytes.extend(utf8_entry("([Ljava/lang/String;)V"));
    bytes.extend(utf8_entry("Code"));
    bytes.extend(utf8_entry("Main"));
    bytes.extend([7, 0, 16]);
    bytes.extend(utf8_entry("java/lang/Object"));
    bytes.extend([7, 0, 18]);
    bytes.extend(u16be(0x0021)); // public super
    bytes.extend(u16be(17)); // this_class
    bytes.extend(u16be(19)); // super_class
    bytes.extend(u16be(0)); // interfaces
    bytes.extend(u16be(0)); // fields
    bytes.extend(u16be(1)); // one method
    bytes.extend(u16be(0x0009)); // public static
    bytes.extend(u16be(13)); // name: main
    bytes.extend(u16be(14)); // descriptor
    bytes.extend(u16be(1)); // one attribute
    bytes.extend(u16be(15)); // "Code"
    let mut payload = Vec::new();
    payload.extend(u16be(2)); // max_stack
    payload.extend(u16be(1)); // max_locals
    payload.extend(u32be(code.len() as u32));
    payload.extend_from_slice(code);
    payload.extend(u16be(0)); // exception table
    payload.extend(u16be(0)); // nested attributes
    bytes.extend(u32be(payload.len() as u32));
    bytes.extend(payload);
    bytes.extend(u16be(0)); // class attributes
    bytes
}

const HELLO_CODE: [u8; 9] = [0xb2, 0x00, 0x06, 0x12, 0x0c, 0xb6, 0x00, 0x0a, 0xb1];

#[test]
fn hello_world_prints_one_line() {
    let class = parse_class_file(hello_class_bytes("main", &HELLO_CODE)).unwrap();
    assert_eq!(class.get_this_class_name().unwrap(), "Main");
    assert_eq!(class.get_super_class_name().unwrap(), "java/lang/Object");
    let mut out: Vec<String> = Vec::new();
    run_main(&class, &mut out).unwrap();
    assert_eq!(out, vec!["Hello, World!".to_string()]);
}

#[test]
fn unknown_opcode_fails_at_its_position() {
    // The same program, but an unassigned opcode follows the println call:
    // the line printed before it must already be collected.
    let code = [0xb2, 0x00, 0x06, 0x12, 0x0c, 0xb6, 0x00, 0x0a, 0x03, 0xb1];
    let class = parse_class_file(hello_class_bytes("main", &code)).unwrap();
    let mut out: Vec<String> = Vec::new();
    assert_eq!(run_main(&class, &mut out).unwrap_err(), JvmError::UnimplementedOpcode);
    assert_eq!(out, vec!["Hello, World!".to_string()]);
}

#[test]
fn unknown_opcode_before_output_leaves_none() {
    let code = [0x03, 0xb2, 0x00, 0x06, 0x12, 0x0c, 0xb6, 0x00, 0x0a, 0xb1];
    let class = parse_class_file(hello_class_bytes("main", &code)).unwrap();
    let mut out: Vec<String> = Vec::new();
    assert_eq!(run_main(&class, &mut out).unwrap_err(), JvmError::UnimplementedOpcode);
    assert!(out.is_empty());
}

#[test]
fn class_without_main_is_unsupported() {
    let class = parse_class_file(hello_class_bytes("other", &HELLO_CODE)).unwrap();
    let mut out: Vec<String> = Vec::new();
    assert_eq!(run_main(&class, &mut out).unwrap_err(), JvmError::UnsupportedFeature);
    assert!(out.is_empty());
}

#[test]
fn ldc_of_non_string_constant_is_unsupported() {
    // ldc pointing at the Fieldref entry (index 6) instead of a String.
    let code = [0xb2, 0x00, 0x06, 0x12, 0x06, 0xb6, 0x00, 0x0a, 0xb1];
    let class = parse_class_file(hello_class_bytes("main", &code)).unwrap();
    let mut out: Vec<String> = Vec::new();
    assert_eq!(run_main(&class, &mut out).unwrap_err(), JvmError::UnsupportedFeature);
    assert!(out.is_empty());
}

#[test]
fn invokevirtual_of_other_method_is_unsupported() {
    // invokevirtual pointing at the Fieldref entry: a type mismatch.
    let code = [0xb2, 0x00, 0x06, 0x12, 0x0c, 0xb6, 0x00, 0x06, 0xb1];
    let class = parse_class_file(hello_class_bytes("main", &code)).unwrap();
    let mut out: Vec<String> = Vec::new();
    assert_eq!(
        run_main(&class, &mut out).unwrap_err(),
        JvmError::ConstantPoolTypeMismatch
    );
    assert!(out.is_empty());
}

#[test]
fn getstatic_with_bad_index_fails() {
    let code = [0xb2, 0x00, 0x63, 0x12, 0x0c, 0xb6, 0x00, 0x0a, 0xb1];
    let class = parse_class_file(hello_class_bytes("main", &code)).unwrap();
    let mut out: Vec<String> = Vec::new();
    assert_eq!(
        run_main(&class, &mut out).unwrap_err(),
        JvmError::ConstantPoolIndexOutOfRange
    );
}

#[test]
fn truncated_operand_fails_with_io_error() {
    // getstatic cut short after one operand byte: the stream ends before
    // the 16-bit operand is complete.
    let code = [0xb2, 0x00];
    let class = parse_class_file(hello_class_bytes("main", &code)).unwrap();
    let mut out: Vec<String> = Vec::new();
    assert_eq!(run_main(&class, &mut out).unwrap_err(), JvmError::IoError);
}

#[test]
fn operand_swallows_final_byte() {
    // getstatic followed by a single trailing byte: the operand read
    // consumes that byte too, and the resulting index is out of range.
    let code = [0xb2, 0x00, 0xb1];
    let class = parse_class_file(hello_class_bytes("main", &code)).unwrap();
    let mut out: Vec<String> = Vec::new();
    assert_eq!(
        run_main(&class, &mut out).unwrap_err(),
        JvmError::ConstantPoolIndexOutOfRange
    );
}

#[test]
fn final_byte_is_never_executed() {
    // A stream holding only one byte: the cursor already stands before the
    // final byte, so nothing runs and the method ends normally.
    let code = [0x03];
    let class = parse_class_file(hello_class_bytes("main", &code)).unwrap();
    let mut out: Vec<String> = Vec::new();
    run_main(&class, &mut out).unwrap();
    assert!(out.is_empty());
}

#[test]
fn two_println_calls_keep_order() {
    // getstatic, ldc, invokevirtual, twice over.
    let code = [
        0xb2, 0x00, 0x06, 0x12, 0x0c, 0xb6, 0x00, 0x0a, 0xb2, 0x00, 0x06, 0x12, 0x0c, 0xb6,
        0x00, 0x0a, 0xb1,
    ];
    let class = parse_class_file(hello_class_bytes("main", &code)).unwrap();
    let mut out: Vec<String> = Vec::new();
    run_main(&class, &mut out).unwrap();
    assert_eq!(
        out,
        vec!["Hello, World!".to_string(), "Hello, World!".to_string()]
    );
}
