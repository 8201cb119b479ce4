use vstd::prelude::*;

use crate::bytes::{be16, be32, be64, signed32, signed64};
use crate::class::{Exception, LineNumber, spec_class_flags, spec_method_flags};
use crate::error::JvmError;
use crate::model::{
    AttributeKindModel, AttributeModel, ClassFileModel, CpEntryModel, MethodModel, spec_get_utf8,
};

verus! {

// Tag bytes selecting the constant pool entry variants.
pub const TAG_UTF8: u8 = 1;

pub const TAG_INTEGER: u8 = 3;

pub const TAG_FLOAT: u8 = 4;

pub const TAG_LONG: u8 = 5;

pub const TAG_DOUBLE: u8 = 6;

pub const TAG_CLASS: u8 = 7;

pub const TAG_STRING: u8 = 8;

pub const TAG_FIELDREF: u8 = 9;

pub const TAG_METHODREF: u8 = 10;

pub const TAG_INTERFACE_METHODREF: u8 = 11;

pub const TAG_NAME_AND_TYPE: u8 = 12;

pub const TAG_METHOD_HANDLE: u8 = 15;

pub const TAG_METHOD_TYPE: u8 = 16;

pub const TAG_INVOKE_DYNAMIC: u8 = 18;

/// The big-endian 16-bit value at `pos`.
pub open spec fn u16_at(s: Seq<u8>, pos: int) -> int {
    be16(s[pos], s[pos + 1])
}

/// The big-endian 32-bit value at `pos`.
pub open spec fn u32_at(s: Seq<u8>, pos: int) -> int {
    be32(s[pos], s[pos + 1], s[pos + 2], s[pos + 3])
}

/// The big-endian 64-bit value at `pos`.
pub open spec fn u64_at(s: Seq<u8>, pos: int) -> int {
    be64(
        s[pos],
        s[pos + 1],
        s[pos + 2],
        s[pos + 3],
        s[pos + 4],
        s[pos + 5],
        s[pos + 6],
        s[pos + 7],
    )
}

/// A two-index payload at `pos`: reads two 16-bit fields and builds the
/// variant `make` chooses from them.
pub open spec fn spec_cp_two_u16(s: Seq<u8>, pos: int, make: spec_fn(u16, u16) -> CpEntryModel) -> Result<(CpEntryModel, int), JvmError> {
    if pos + 4 <= s.len() {
        Ok((make(u16_at(s, pos) as u16, u16_at(s, pos + 2) as u16), pos + 4))
    } else {
        Err(JvmError::IoError)
    }
}

/// A one-index payload at `pos`: reads one 16-bit field and builds the
/// variant `make` chooses from it.
pub open spec fn spec_cp_one_u16(s: Seq<u8>, pos: int, make: spec_fn(u16) -> CpEntryModel) -> Result<(CpEntryModel, int), JvmError> {
    if pos + 2 <= s.len() {
        Ok((make(u16_at(s, pos) as u16), pos + 2))
    } else {
        Err(JvmError::IoError)
    }
}

/// The `Integer` payload: a 32-bit two's-complement value.
pub open spec fn spec_cp_integer(s: Seq<u8>, pos: int) -> Result<(CpEntryModel, int), JvmError> {
    if pos + 4 <= s.len() {
        Ok((CpEntryModel::Integer { value: signed32(u32_at(s, pos) as u32) as i32 }, pos + 4))
    } else {
        Err(JvmError::IoError)
    }
}

/// The `Float` payload: a 32-bit pattern kept as bits.
pub open spec fn spec_cp_float(s: Seq<u8>, pos: int) -> Result<(CpEntryModel, int), JvmError> {
    if pos + 4 <= s.len() {
        Ok((CpEntryModel::Float { bits: u32_at(s, pos) as u32 }, pos + 4))
    } else {
        Err(JvmError::IoError)
    }
}

/// The `Long` payload: a 64-bit two's-complement value.
pub open spec fn spec_cp_long(s: Seq<u8>, pos: int) -> Result<(CpEntryModel, int), JvmError> {
    if pos + 8 <= s.len() {
        Ok((CpEntryModel::Long { value: signed64(u64_at(s, pos) as u64) as i64 }, pos + 8))
    } else {
        Err(JvmError::IoError)
    }
}

/// The `Double` payload: a 64-bit pattern kept as bits.
pub open spec fn spec_cp_double(s: Seq<u8>, pos: int) -> Result<(CpEntryModel, int), JvmError> {
    if pos + 8 <= s.len() {
        Ok((CpEntryModel::Double { bits: u64_at(s, pos) as u64 }, pos + 8))
    } else {
        Err(JvmError::IoError)
    }
}

/// The `Utf8` payload: a 16-bit byte length, then that many bytes of
/// well-formed UTF-8 text.
pub open spec fn spec_cp_utf8(s: Seq<u8>, pos: int) -> Result<(CpEntryModel, int), JvmError> {
    if pos + 2 <= s.len() {
        let n = u16_at(s, pos);
        if pos + 2 + n <= s.len() {
            let payload = s.subrange(pos + 2, pos + 2 + n);
            if vstd::utf8::valid_utf8(payload) {
                Ok((CpEntryModel::Utf8 { text: vstd::utf8::decode_utf8(payload) }, pos + 2 + n))
            } else {
                Err(JvmError::IoError)
            }
        } else {
            Err(JvmError::IoError)
        }
    } else {
        Err(JvmError::IoError)
    }
}

/// The `MethodHandle` payload: an 8-bit reference kind and a 16-bit index.
pub open spec fn spec_cp_method_handle(s: Seq<u8>, pos: int) -> Result<(CpEntryModel, int), JvmError> {
    if pos + 3 <= s.len() {
        Ok(
            (
                CpEntryModel::MethodHandle {
                    reference_kind: s[pos],
                    reference_index: u16_at(s, pos + 1) as u16,
                },
                pos + 3,
            ),
        )
    } else {
        Err(JvmError::IoError)
    }
}

/// One constant pool entry read at `pos`: the tag byte selects the variant
/// and its exact payload width. A tag outside the known set is malformed; a
/// source too short for the selected payload is a short read.
pub open spec fn spec_parse_cp_entry(s: Seq<u8>, pos: int) -> Result<
    (CpEntryModel, int),
    JvmError,
> {
    if pos + 1 > s.len() {
        Err(JvmError::IoError)
    } else {
        let tag = s[pos];
        let p = pos + 1;
        if tag == TAG_CLASS {
            spec_cp_one_u16(s, p, |name_index: u16| CpEntryModel::Class { name_index })
        } else if tag == TAG_FIELDREF {
            spec_cp_two_u16(
                s,
                p,
                |class_index: u16, name_and_type_index: u16|
                    CpEntryModel::Fieldref { class_index, name_and_type_index },
            )
        } else if tag == TAG_METHODREF {
            spec_cp_two_u16(
                s,
                p,
                |class_index: u16, name_and_type_index: u16|
                    CpEntryModel::Methodref { class_index, name_and_type_index },
            )
        } else if tag == TAG_INTERFACE_METHODREF {
            spec_cp_two_u16(
                s,
                p,
                |class_index: u16, name_and_type_index: u16|
                    CpEntryModel::InterfaceMethodref { class_index, name_and_type_index },
            )
        } else if tag == TAG_STRING {
            spec_cp_one_u16(s, p, |string_index: u16| CpEntryModel::String { string_index })
        } else if tag == TAG_INTEGER {
            spec_cp_integer(s, p)
        } else if tag == TAG_FLOAT {
            spec_cp_float(s, p)
        } else if tag == TAG_LONG {
            spec_cp_long(s, p)
        } else if tag == TAG_DOUBLE {
            spec_cp_double(s, p)
        } else if tag == TAG_NAME_AND_TYPE {
            spec_cp_two_u16(
                s,
                p,
                |name_index: u16, descriptor_index: u16|
                    CpEntryModel::NameAndType { name_index, descriptor_index },
            )
        } else if tag == TAG_UTF8 {
            spec_cp_utf8(s, p)
        } else if tag == TAG_METHOD_HANDLE {
            spec_cp_method_handle(s, p)
        } else if tag == TAG_METHOD_TYPE {
            spec_cp_one_u16(s, p, |descriptor_index: u16| CpEntryModel::MethodType { descriptor_index })
        } else if tag == TAG_INVOKE_DYNAMIC {
            spec_cp_two_u16(
                s,
                p,
                |bootstrap_method_attr_index: u16, name_and_type_index: u16|
                    CpEntryModel::InvokeDynamic { bootstrap_method_attr_index, name_and_type_index },
            )
        } else {
            Err(JvmError::MalformedConstantPoolTag)
        }
    }
}

/// Whether a byte is one of the known constant pool tags.
pub open spec fn is_valid_cp_tag(tag: u8) -> bool {
    ||| tag == TAG_CLASS
    ||| tag == TAG_FIELDREF
    ||| tag == TAG_METHODREF
    ||| tag == TAG_INTERFACE_METHODREF
    ||| tag == TAG_STRING
    ||| tag == TAG_INTEGER
    ||| tag == TAG_FLOAT
    ||| tag == TAG_LONG
    ||| tag == TAG_DOUBLE
    ||| tag == TAG_NAME_AND_TYPE
    ||| tag == TAG_UTF8
    ||| tag == TAG_METHOD_HANDLE
    ||| tag == TAG_METHOD_TYPE
    ||| tag == TAG_INVOKE_DYNAMIC
}

/// For every valid tag byte, reading a constant pool entry consumes exactly
/// the tag byte plus the fixed payload width of that tag (or, for `Utf8`,
/// the 16-bit length prefix plus that many text bytes) and yields the
/// variant the tag selects; for any other byte value it fails as malformed,
/// whatever follows the tag.
pub proof fn lemma_cp_entry_width(s: Seq<u8>, pos: int)
    requires
        0 <= pos,
        pos + 1 <= s.len(),
    ensures
        !is_valid_cp_tag(s[pos]) ==> spec_parse_cp_entry(s, pos) == Err::<
            (CpEntryModel, int),
            JvmError,
        >(JvmError::MalformedConstantPoolTag),
        (match spec_parse_cp_entry(s, pos) {
            Ok((m, p2)) => {
                &&& (s[pos] == TAG_CLASS ==> m is Class && p2 == pos + 3)
                &&& (s[pos] == TAG_FIELDREF ==> m is Fieldref && p2 == pos + 5)
                &&& (s[pos] == TAG_METHODREF ==> m is Methodref && p2 == pos + 5)
                &&& (s[pos] == TAG_INTERFACE_METHODREF ==> m is InterfaceMethodref && p2 == pos
                    + 5)
                &&& (s[pos] == TAG_STRING ==> m is String && p2 == pos + 3)
                &&& (s[pos] == TAG_INTEGER ==> m is Integer && p2 == pos + 5)
                &&& (s[pos] == TAG_FLOAT ==> m is Float && p2 == pos + 5)
                &&& (s[pos] == TAG_LONG ==> m is Long && p2 == pos + 9)
                &&& (s[pos] == TAG_DOUBLE ==> m is Double && p2 == pos + 9)
                &&& (s[pos] == TAG_NAME_AND_TYPE ==> m is NameAndType && p2 == pos + 5)
                &&& (s[pos] == TAG_UTF8 ==> m is Utf8 && p2 == pos + 3 + u16_at(s, pos + 1))
                &&& (s[pos] == TAG_METHOD_HANDLE ==> m is MethodHandle && p2 == pos + 4)
                &&& (s[pos] == TAG_METHOD_TYPE ==> m is MethodType && p2 == pos + 3)
                &&& (s[pos] == TAG_INVOKE_DYNAMIC ==> m is InvokeDynamic && p2 == pos + 5)
            },
            Err(_) => true,
        }),
{
}

/// `n` constant pool entries read in sequence from `pos`.
pub open spec fn spec_parse_cp_entries(s: Seq<u8>, pos: int, n: int) -> Result<
    (Seq<CpEntryModel>, int),
    JvmError,
>
    decreases n,
{
    if n <= 0 {
        Ok((Seq::empty(), pos))
    } else {
        match spec_parse_cp_entry(s, pos) {
            Ok((e, p2)) => match spec_parse_cp_entries(s, p2, n - 1) {
                Ok((rest, p3)) => Ok((seq![e] + rest, p3)),
                Err(err) => Err(err),
            },
            Err(err) => Err(err),
        }
    }
}

/// `n` exception table rows, four 16-bit fields each, read from `pos`.
pub open spec fn spec_parse_exceptions(s: Seq<u8>, pos: int, n: int) -> Result<
    (Seq<Exception>, int),
    JvmError,
>
    decreases n,
{
    if n <= 0 {
        Ok((Seq::empty(), pos))
    } else if pos + 8 <= s.len() {
        let e = Exception {
            start_pc: u16_at(s, pos) as u16,
            end_pc: u16_at(s, pos + 2) as u16,
            handler_pc: u16_at(s, pos + 4) as u16,
            catch_type: u16_at(s, pos + 6) as u16,
        };
        match spec_parse_exceptions(s, pos + 8, n - 1) {
            Ok((rest, p)) => Ok((seq![e] + rest, p)),
            Err(err) => Err(err),
        }
    } else {
        Err(JvmError::IoError)
    }
}

/// `n` line number table rows, two 16-bit fields each, read from `pos`.
pub open spec fn spec_parse_line_numbers(s: Seq<u8>, pos: int, n: int) -> Result<
    (Seq<LineNumber>, int),
    JvmError,
>
    decreases n,
{
    if n <= 0 {
        Ok((Seq::empty(), pos))
    } else if pos + 4 <= s.len() {
        let e = LineNumber { start_pc: u16_at(s, pos) as u16, line_number: u16_at(s, pos + 2) as u16 };
        match spec_parse_line_numbers(s, pos + 4, n - 1) {
            Ok((rest, p)) => Ok((seq![e] + rest, p)),
            Err(err) => Err(err),
        }
    } else {
        Err(JvmError::IoError)
    }
}

/// One attribute read at `pos`: a name index resolved through the pool, a
/// 32-bit payload length, and the payload decoded according to the name.
pub open spec fn spec_parse_attribute(pool: Seq<CpEntryModel>, s: Seq<u8>, pos: int) -> Result<
    (AttributeModel, int),
    JvmError,
>
    decreases s.len() - pos, 0int, 0int,
{
    if pos < 0 || pos + 2 > s.len() {
        Err(JvmError::IoError)
    } else {
        let name_index = u16_at(s, pos) as u16;
        match spec_get_utf8(pool, name_index) {
            Err(e) => Err(e),
            Ok(name) => {
                if pos + 6 > s.len() {
                    Err(JvmError::IoError)
                } else {
                    let n = u32_at(s, pos + 2);
                    if pos + 6 + n > s.len() {
                        Err(JvmError::IoError)
                    } else {
                        let payload = s.subrange(pos + 6, pos + 6 + n);
                        match spec_parse_attribute_kind(pool, name, payload) {
                            Ok(kind) => Ok(
                                (
                                    AttributeModel {
                                        attribute_name_index: name_index,
                                        attribute_name: name,
                                        attribute: kind,
                                    },
                                    pos + 6 + n,
                                ),
                            ),
                            Err(e) => Err(e),
                        }
                    }
                }
            },
        }
    }
}

/// An attribute payload decoded according to the attribute's resolved name.
/// A name outside the known set keeps the payload verbatim.
pub open spec fn spec_parse_attribute_kind(
    pool: Seq<CpEntryModel>,
    name: Seq<char>,
    payload: Seq<u8>,
) -> Result<AttributeKindModel, JvmError>
    decreases payload.len(), 1int, 0int,
{
    if name == "ConstantValue"@ {
        if payload.len() >= 2 {
            Ok(AttributeKindModel::ConstantValue { constant_value_index: u16_at(payload, 0) as u16 })
        } else {
            Err(JvmError::IoError)
        }
    } else if name == "Code"@ {
        if payload.len() >= 8 {
            let max_stack = u16_at(payload, 0) as u16;
            let max_locals = u16_at(payload, 2) as u16;
            let code_length = u32_at(payload, 4);
            if 8 + code_length <= payload.len() {
                let code = payload.subrange(8, 8 + code_length);
                let p1 = 8 + code_length;
                if p1 + 2 <= payload.len() {
                    let exc_n = u16_at(payload, p1);
                    match spec_parse_exceptions(payload, p1 + 2, exc_n) {
                        Ok((exception_table, p2)) => {
                            if p1 + 2 <= p2 && p2 + 2 <= payload.len() {
                                let attr_n = u16_at(payload, p2);
                                match spec_parse_attributes(pool, payload, p2 + 2, attr_n) {
                                    Ok((attributes, _p3)) => Ok(
                                        AttributeKindModel::Code {
                                            max_stack,
                                            max_locals,
                                            code,
                                            exception_table,
                                            attributes,
                                        },
                                    ),
                                    Err(e) => Err(e),
                                }
                            } else {
                                Err(JvmError::IoError)
                            }
                        },
                        Err(e) => Err(e),
                    }
                } else {
                    Err(JvmError::IoError)
                }
            } else {
                Err(JvmError::IoError)
            }
        } else {
            Err(JvmError::IoError)
        }
    } else if name == "SourceFile"@ {
        if payload.len() >= 2 {
            let source_file_index = u16_at(payload, 0) as u16;
            match spec_get_utf8(pool, source_file_index) {
                Ok(text) => Ok(
                    AttributeKindModel::SourceFile { source_file_index, source_file_value: text },
                ),
                Err(e) => Err(e),
            }
        } else {
            Err(JvmError::IoError)
        }
    } else if name == "LineNumberTable"@ {
        if payload.len() >= 2 {
            let n = u16_at(payload, 0);
            match spec_parse_line_numbers(payload, 2, n) {
                Ok((line_number_table, _p)) => Ok(
                    AttributeKindModel::LineNumberTable { line_number_table },
                ),
                Err(e) => Err(e),
            }
        } else {
            Err(JvmError::IoError)
        }
    } else {
        Ok(AttributeKindModel::Other { bytes: payload })
    }
}

/// `n` attributes read in sequence from `pos`.
pub open spec fn spec_parse_attributes(
    pool: Seq<CpEntryModel>,
    s: Seq<u8>,
    pos: int,
    n: int,
) -> Result<(Seq<AttributeModel>, int), JvmError>
    decreases s.len() - pos, 2int, n,
{
    if n <= 0 {
        Ok((Seq::empty(), pos))
    } else {
        match spec_parse_attribute(pool, s, pos) {
            Ok((a, p2)) => {
                if pos <= p2 && p2 <= s.len() {
                    match spec_parse_attributes(pool, s, p2, n - 1) {
                        Ok((rest, p3)) => Ok((seq![a] + rest, p3)),
                        Err(err) => Err(err),
                    }
                } else {
                    Err(JvmError::IoError)
                }
            },
            Err(err) => Err(err),
        }
    }
}

/// One method read at `pos`: an access mask, name and descriptor indices
/// resolved through the pool, and the method's attributes.
pub open spec fn spec_parse_method(pool: Seq<CpEntryModel>, s: Seq<u8>, pos: int) -> Result<
    (MethodModel, int),
    JvmError,
> {
    if pos + 4 > s.len() {
        Err(JvmError::IoError)
    } else {
        let mask = u16_at(s, pos) as u16;
        let name_index = u16_at(s, pos + 2) as u16;
        match spec_get_utf8(pool, name_index) {
            Err(e) => Err(e),
            Ok(name) => {
                if pos + 6 > s.len() {
                    Err(JvmError::IoError)
                } else {
                    let descriptor_index = u16_at(s, pos + 4) as u16;
                    match spec_get_utf8(pool, descriptor_index) {
                        Err(e) => Err(e),
                        Ok(descriptor) => {
                            if pos + 8 > s.len() {
                                Err(JvmError::IoError)
                            } else {
                                let attr_n = u16_at(s, pos + 6);
                                match spec_parse_attributes(pool, s, pos + 8, attr_n) {
                                    Ok((attributes, p2)) => Ok(
                                        (
                                            MethodModel {
                                                access_flags: spec_method_flags(mask),
                                                name_index,
                                                name,
                                                descriptor_index,
                                                descriptor,
                                                attributes,
                                            },
                                            p2,
                                        ),
                                    ),
                                    Err(e) => Err(e),
                                }
                            }
                        },
                    }
                }
            },
        }
    }
}

/// `n` methods read in sequence from `pos`.
pub open spec fn spec_parse_methods(pool: Seq<CpEntryModel>, s: Seq<u8>, pos: int, n: int) -> Result<
    (Seq<MethodModel>, int),
    JvmError,
>
    decreases n,
{
    if n <= 0 {
        Ok((Seq::empty(), pos))
    } else {
        match spec_parse_method(pool, s, pos) {
            Ok((m, p2)) => match spec_parse_methods(pool, s, p2, n - 1) {
                Ok((rest, p3)) => Ok((seq![m] + rest, p3)),
                Err(err) => Err(err),
            },
            Err(err) => Err(err),
        }
    }
}

/// A whole class file read from the start of `s`. The constant pool count is
/// one more than the number of entries; a nonzero interface or field count is
/// an unsupported feature and fails before any of their bytes are read.
/// Bytes past the final attribute are ignored.
pub open spec fn spec_parse_class_file(s: Seq<u8>) -> Result<ClassFileModel, JvmError> {
    if s.len() < 10 {
        Err(JvmError::IoError)
    } else {
        let magic = s.subrange(0, 4);
        let minor_version = u16_at(s, 4) as u16;
        let major_version = u16_at(s, 6) as u16;
        let cp_count = u16_at(s, 8);
        match spec_parse_cp_entries(s, 10, cp_count - 1) {
            Err(e) => Err(e),
            Ok((constant_pool, p1)) => {
                if p1 + 8 > s.len() {
                    Err(JvmError::IoError)
                } else {
                    let mask = u16_at(s, p1) as u16;
                    let this_class = u16_at(s, p1 + 2) as u16;
                    let super_class = u16_at(s, p1 + 4) as u16;
                    let interfaces_count = u16_at(s, p1 + 6);
                    if interfaces_count != 0 {
                        Err(JvmError::UnsupportedFeature)
                    } else if p1 + 10 > s.len() {
                        Err(JvmError::IoError)
                    } else {
                        let fields_count = u16_at(s, p1 + 8);
                        if fields_count != 0 {
                            Err(JvmError::UnsupportedFeature)
                        } else if p1 + 12 > s.len() {
                            Err(JvmError::IoError)
                        } else {
                            let methods_count = u16_at(s, p1 + 10);
                            match spec_parse_methods(constant_pool, s, p1 + 12, methods_count) {
                                Err(e) => Err(e),
                                Ok((methods, p2)) => {
                                    if p2 + 2 > s.len() {
                                        Err(JvmError::IoError)
                                    } else {
                                        let attributes_count = u16_at(s, p2);
                                        match spec_parse_attributes(
                                            constant_pool,
                                            s,
                                            p2 + 2,
                                            attributes_count,
                                        ) {
                                            Err(e) => Err(e),
                                            Ok((attributes, _p3)) => Ok(
                                                ClassFileModel {
                                                    magic,
                                                    minor_version,
                                                    major_version,
                                                    constant_pool,
                                                    access_flags: spec_class_flags(mask),
                                                    this_class,
                                                    super_class,
                                                    methods,
                                                    attributes,
                                                },
                                            ),
                                        }
                                    }
                                },
                            }
                        }
                    }
                }
            },
        }
    }
}

/// The two big-endian bytes of a 16-bit value.
pub open spec fn encode_u16(v: u16) -> Seq<u8> {
    seq![(v / 0x100) as u8, (v % 0x100) as u8]
}

/// The four big-endian bytes of a 32-bit value.
pub open spec fn encode_u32(v: u32) -> Seq<u8> {
    seq![
        (v / 0x1000000) as u8,
        ((v / 0x10000) % 0x100) as u8,
        ((v / 0x100) % 0x100) as u8,
        (v % 0x100) as u8,
    ]
}

/// The eight bytes of one exception table row.
pub open spec fn encode_exception(e: Exception) -> Seq<u8> {
    encode_u16(e.start_pc) + encode_u16(e.end_pc) + encode_u16(e.handler_pc) + encode_u16(
        e.catch_type,
    )
}

/// Exception table rows laid out in order.
pub open spec fn encode_exceptions(rows: Seq<Exception>) -> Seq<u8>
    decreases rows.len(),
{
    if rows.len() == 0 {
        Seq::empty()
    } else {
        encode_exception(rows[0]) + encode_exceptions(rows.drop_first())
    }
}

/// The four bytes of one line number table row.
pub open spec fn encode_line_number(e: LineNumber) -> Seq<u8> {
    encode_u16(e.start_pc) + encode_u16(e.line_number)
}

/// Line number table rows laid out in order.
pub open spec fn encode_line_numbers(rows: Seq<LineNumber>) -> Seq<u8>
    decreases rows.len(),
{
    if rows.len() == 0 {
        Seq::empty()
    } else {
        encode_line_number(rows[0]) + encode_line_numbers(rows.drop_first())
    }
}

/// An attribute payload laid out as its resolved name dictates.
pub open spec fn encode_attribute_kind(k: AttributeKindModel) -> Seq<u8>
    decreases k,
{
    match k {
        AttributeKindModel::ConstantValue { constant_value_index } => encode_u16(
            constant_value_index,
        ),
        AttributeKindModel::Code { max_stack, max_locals, code, exception_table, attributes } => {
            encode_u16(max_stack) + encode_u16(max_locals) + encode_u32(code.len() as u32) + code
                + encode_u16(exception_table.len() as u16) + encode_exceptions(exception_table)
                + encode_u16(attributes.len() as u16) + encode_attributes(attributes)
        },
        AttributeKindModel::SourceFile { source_file_index, .. } => encode_u16(source_file_index),
        AttributeKindModel::LineNumberTable { line_number_table } => encode_u16(
            line_number_table.len() as u16,
        ) + encode_line_numbers(line_number_table),
        AttributeKindModel::Other { bytes } => bytes,
    }
}

/// A whole attribute: name index, payload length, payload.
pub open spec fn encode_attribute(a: AttributeModel) -> Seq<u8>
    decreases a,
{
    encode_u16(a.attribute_name_index) + encode_u32(encode_attribute_kind(a.attribute).len() as u32)
        + encode_attribute_kind(a.attribute)
}

/// Attributes laid out in order.
pub open spec fn encode_attributes(s: Seq<AttributeModel>) -> Seq<u8>
    decreases s,
{
    if s.len() == 0 {
        Seq::empty()
    } else {
        encode_attribute(s[0]) + encode_attributes(s.drop_first())
    }
}

/// An attribute payload that the parser can reproduce: its kind agrees with
/// the attribute's resolved name, its counts fit their 16-bit fields, an
/// eagerly resolved index resolves to the value held, and nested attributes
/// are themselves reproducible.
pub open spec fn attr_kind_wf(pool: Seq<CpEntryModel>, name: Seq<char>, k: AttributeKindModel) -> bool
    decreases k,
{
    match k {
        AttributeKindModel::ConstantValue { .. } => name == "ConstantValue"@,
        AttributeKindModel::Code { max_stack, max_locals, code, exception_table, attributes } => {
            &&& name == "Code"@
            &&& code.len() <= u32::MAX
            &&& exception_table.len() <= u16::MAX
            &&& attributes.len() <= u16::MAX
            &&& attrs_wf(pool, attributes)
        },
        AttributeKindModel::SourceFile { source_file_index, source_file_value } => {
            &&& name == "SourceFile"@
            &&& spec_get_utf8(pool, source_file_index) == Ok::<Seq<char>, JvmError>(
                source_file_value,
            )
        },
        AttributeKindModel::LineNumberTable { line_number_table } => {
            &&& name == "LineNumberTable"@
            &&& line_number_table.len() <= u16::MAX
        },
        AttributeKindModel::Other { .. } => {
            &&& name != "ConstantValue"@
            &&& name != "Code"@
            &&& name != "SourceFile"@
            &&& name != "LineNumberTable"@
        },
    }
}

/// An attribute that the parser can reproduce: its name index resolves to
/// its name, its payload fits the 32-bit length field, and the payload is
/// itself reproducible.
pub open spec fn attr_wf(pool: Seq<CpEntryModel>, a: AttributeModel) -> bool
    decreases a,
{
    &&& spec_get_utf8(pool, a.attribute_name_index) == Ok::<Seq<char>, JvmError>(a.attribute_name)
    &&& attr_kind_wf(pool, a.attribute_name, a.attribute)
    &&& encode_attribute_kind(a.attribute).len() <= u32::MAX
}

/// Every attribute of the list is reproducible.
pub open spec fn attrs_wf(pool: Seq<CpEntryModel>, s: Seq<AttributeModel>) -> bool
    decreases s,
{
    if s.len() == 0 {
        true
    } else {
        attr_wf(pool, s[0]) && attrs_wf(pool, s.drop_first())
    }
}

/// Where a laid-down block sits inside `s`, each of its bytes sits at its
/// offset.
proof fn lemma_bytes_at(s: Seq<u8>, pos: int, t: Seq<u8>)
    requires
        0 <= pos,
        pos + t.len() <= s.len(),
        s.subrange(pos, pos + t.len()) == t,
    ensures
        forall|j: int| pos <= j < pos + t.len() ==> #[trigger] s[j] == t[j - pos],
{
    assert forall|j: int| pos <= j < pos + t.len() implies #[trigger] s[j] == t[j - pos] by {
        assert(s.subrange(pos, pos + t.len())[j - pos] == s[j]);
    }
}

/// Reading two bytes where a 16-bit value was laid down gives it back.
proof fn lemma_u16_at_encode(s: Seq<u8>, pos: int, v: u16)
    requires
        0 <= pos,
        pos + 2 <= s.len(),
        s.subrange(pos, pos + 2) == encode_u16(v),
    ensures
        u16_at(s, pos) == v,
{
    assert(s[pos] == encode_u16(v)[0]);
    assert(s[pos + 1] == encode_u16(v)[1]);
    assert(be16((v / 0x100) as u8, (v % 0x100) as u8) == v);
}

/// Reading four bytes where a 32-bit value was laid down gives it back.
proof fn lemma_u32_at_encode(s: Seq<u8>, pos: int, v: u32)
    requires
        0 <= pos,
        pos + 4 <= s.len(),
        s.subrange(pos, pos + 4) == encode_u32(v),
    ensures
        u32_at(s, pos) == v,
{
    assert(s[pos] == encode_u32(v)[0]);
    assert(s[pos + 1] == encode_u32(v)[1]);
    assert(s[pos + 2] == encode_u32(v)[2]);
    assert(s[pos + 3] == encode_u32(v)[3]);
    assert(be32(
        (v / 0x1000000) as u8,
        ((v / 0x10000) % 0x100) as u8,
        ((v / 0x100) % 0x100) as u8,
        (v % 0x100) as u8,
    ) == v);
}

/// Encoded exception tables take eight bytes a row.
proof fn lemma_encode_exceptions_len(rows: Seq<Exception>)
    ensures
        encode_exceptions(rows).len() == 8 * rows.len(),
    decreases rows.len(),
{
    if rows.len() > 0 {
        lemma_encode_exceptions_len(rows.drop_first());
    }
}

/// Encoded line number tables take four bytes a row.
proof fn lemma_encode_line_numbers_len(rows: Seq<LineNumber>)
    ensures
        encode_line_numbers(rows).len() == 4 * rows.len(),
    decreases rows.len(),
{
    if rows.len() > 0 {
        lemma_encode_line_numbers_len(rows.drop_first());
    }
}

/// Parsing where an exception table was laid down gives back its rows.
proof fn lemma_parse_encode_exceptions(s: Seq<u8>, pos: int, rows: Seq<Exception>)
    requires
        0 <= pos,
        pos + encode_exceptions(rows).len() <= s.len(),
        s.subrange(pos, pos + encode_exceptions(rows).len()) == encode_exceptions(rows),
    ensures
        spec_parse_exceptions(s, pos, rows.len() as int) == Ok::<(Seq<Exception>, int), JvmError>(
            (rows, pos + encode_exceptions(rows).len()),
        ),
    decreases rows.len(),
{
    lemma_encode_exceptions_len(rows);
    if rows.len() == 0 {
        assert(rows =~= Seq::<Exception>::empty());
    } else {
        let head = rows[0];
        let rest = rows.drop_first();
        lemma_encode_exceptions_len(rest);
        lemma_bytes_at(s, pos, encode_exceptions(rows));
        assert(encode_exception(head).len() == 8);
        assert(s.subrange(pos, pos + 2) =~= encode_u16(head.start_pc));
        assert(s.subrange(pos + 2, pos + 4) =~= encode_u16(head.end_pc));
        assert(s.subrange(pos + 4, pos + 6) =~= encode_u16(head.handler_pc));
        assert(s.subrange(pos + 6, pos + 8) =~= encode_u16(head.catch_type));
        lemma_u16_at_encode(s, pos, head.start_pc);
        lemma_u16_at_encode(s, pos + 2, head.end_pc);
        lemma_u16_at_encode(s, pos + 4, head.handler_pc);
        lemma_u16_at_encode(s, pos + 6, head.catch_type);
        assert(s.subrange(pos + 8, pos + 8 + encode_exceptions(rest).len())
            =~= encode_exceptions(rest));
        lemma_parse_encode_exceptions(s, pos + 8, rest);
        assert((Exception {
            start_pc: u16_at(s, pos) as u16,
            end_pc: u16_at(s, pos + 2) as u16,
            handler_pc: u16_at(s, pos + 4) as u16,
            catch_type: u16_at(s, pos + 6) as u16,
        }) == head);
        assert(seq![head] + rest =~= rows);
    }
}

/// Parsing where a line number table was laid down gives back its rows.
proof fn lemma_parse_encode_line_numbers(s: Seq<u8>, pos: int, rows: Seq<LineNumber>)
    requires
        0 <= pos,
        pos + encode_line_numbers(rows).len() <= s.len(),
        s.subrange(pos, pos + encode_line_numbers(rows).len()) == encode_line_numbers(rows),
    ensures
        spec_parse_line_numbers(s, pos, rows.len() as int) == Ok::<
            (Seq<LineNumber>, int),
            JvmError,
        >((rows, pos + encode_line_numbers(rows).len())),
    decreases rows.len(),
{
    lemma_encode_line_numbers_len(rows);
    if rows.len() == 0 {
        assert(rows =~= Seq::<LineNumber>::empty());
    } else {
        let head = rows[0];
        let rest = rows.drop_first();
        lemma_encode_line_numbers_len(rest);
        lemma_bytes_at(s, pos, encode_line_numbers(rows));
        assert(encode_line_number(head).len() == 4);
        assert(s.subrange(pos, pos + 2) =~= encode_u16(head.start_pc));
        assert(s.subrange(pos + 2, pos + 4) =~= encode_u16(head.line_number));
        lemma_u16_at_encode(s, pos, head.start_pc);
        lemma_u16_at_encode(s, pos + 2, head.line_number);
        assert(s.subrange(pos + 4, pos + 4 + encode_line_numbers(rest).len())
            =~= encode_line_numbers(rest));
        lemma_parse_encode_line_numbers(s, pos + 4, rest);
        assert((LineNumber {
            start_pc: u16_at(s, pos) as u16,
            line_number: u16_at(s, pos + 2) as u16,
        }) == head);
        assert(seq![head] + rest =~= rows);
    }
}

/// Parsing where an attribute was laid down gives back that attribute and
/// lands right behind it.
proof fn lemma_parse_encode_attribute(
    pool: Seq<CpEntryModel>,
    s: Seq<u8>,
    pos: int,
    a: AttributeModel,
)
    requires
        attr_wf(pool, a),
        0 <= pos,
        pos + encode_attribute(a).len() <= s.len(),
        s.subrange(pos, pos + encode_attribute(a).len()) == encode_attribute(a),
    ensures
        spec_parse_attribute(pool, s, pos) == Ok::<(AttributeModel, int), JvmError>(
            (a, pos + encode_attribute(a).len()),
        ),
    decreases encode_attribute(a).len(), 0int,
{
    let payload = encode_attribute_kind(a.attribute);
    let enc = encode_attribute(a);
    assert(enc.len() == 6 + payload.len());
    lemma_bytes_at(s, pos, enc);
    assert(s.subrange(pos, pos + 2) =~= encode_u16(a.attribute_name_index));
    lemma_u16_at_encode(s, pos, a.attribute_name_index);
    assert(s.subrange(pos + 2, pos + 6) =~= encode_u32(payload.len() as u32));
    lemma_u32_at_encode(s, pos + 2, payload.len() as u32);
    assert(s.subrange(pos + 6, pos + 6 + payload.len()) =~= payload);
    lemma_parse_encode_attribute_kind(pool, a.attribute_name, a.attribute);
    assert((AttributeModel {
        attribute_name_index: a.attribute_name_index,
        attribute_name: a.attribute_name,
        attribute: a.attribute,
    }) =~= a);
}

/// Parsing a payload laid down for a well-formed attribute kind gives back
/// that kind.
#[verifier::rlimit(100)]
#[verifier::spinoff_prover]
proof fn lemma_parse_encode_attribute_kind(
    pool: Seq<CpEntryModel>,
    name: Seq<char>,
    k: AttributeKindModel,
)
    requires
        attr_kind_wf(pool, name, k),
    ensures
        spec_parse_attribute_kind(pool, name, encode_attribute_kind(k)) == Ok::<
            AttributeKindModel,
            JvmError,
        >(k),
    decreases encode_attribute_kind(k).len(), 1int,
{
    let payload = encode_attribute_kind(k);
    reveal_strlit("ConstantValue");
    reveal_strlit("Code");
    reveal_strlit("SourceFile");
    reveal_strlit("LineNumberTable");
    assert("ConstantValue"@.len() == 13);
    assert("Code"@.len() == 4);
    assert("SourceFile"@.len() == 10);
    assert("LineNumberTable"@.len() == 15);
    match k {
        AttributeKindModel::ConstantValue { constant_value_index } => {
            assert(payload.subrange(0, 2) =~= encode_u16(constant_value_index));
            lemma_u16_at_encode(payload, 0, constant_value_index);
        },
        AttributeKindModel::Code { max_stack, max_locals, code, exception_table, attributes } => {
            lemma_parse_encode_code_kind(
                pool,
                max_stack,
                max_locals,
                code,
                exception_table,
                attributes,
            );
        },
        AttributeKindModel::SourceFile { source_file_index, source_file_value } => {
            assert(payload.subrange(0, 2) =~= encode_u16(source_file_index));
            lemma_u16_at_encode(payload, 0, source_file_index);
        },
        AttributeKindModel::LineNumberTable { line_number_table } => {
            lemma_encode_line_numbers_len(line_number_table);
            assert(payload.subrange(0, 2) =~= encode_u16(line_number_table.len() as u16));
            lemma_u16_at_encode(payload, 0, line_number_table.len() as u16);
            assert(payload.subrange(2, 2 + encode_line_numbers(line_number_table).len() as int)
                =~= encode_line_numbers(line_number_table));
            lemma_parse_encode_line_numbers(payload, 2, line_number_table);
        },
        AttributeKindModel::Other { .. } => {},
    }
}

/// Parsing a payload laid down for a well-formed `Code` kind gives it back.
#[verifier::rlimit(100)]
#[verifier::spinoff_prover]
proof fn lemma_parse_encode_code_kind(
    pool: Seq<CpEntryModel>,
    max_stack: u16,
    max_locals: u16,
    code: Seq<u8>,
    exception_table: Seq<Exception>,
    attributes: Seq<AttributeModel>,
)
    requires
        code.len() <= u32::MAX,
        exception_table.len() <= u16::MAX,
        attributes.len() <= u16::MAX,
        attrs_wf(pool, attributes),
    ensures
        ({
            let k = AttributeKindModel::Code {
                max_stack,
                max_locals,
                code,
                exception_table,
                attributes,
            };
            spec_parse_attribute_kind(pool, "Code"@, encode_attribute_kind(k)) == Ok::<
                AttributeKindModel,
                JvmError,
            >(k)
        }),
    decreases encode_attribute_kind(
        AttributeKindModel::Code { max_stack, max_locals, code, exception_table, attributes },
    ).len(), 0int,
{
    let k = AttributeKindModel::Code { max_stack, max_locals, code, exception_table, attributes };
    let payload = encode_attribute_kind(k);
    reveal_strlit("ConstantValue");
    reveal_strlit("Code");
    assert("ConstantValue"@.len() == 13);
    assert("Code"@.len() == 4);
    let enc_exc = encode_exceptions(exception_table);
    let enc_atts = encode_attributes(attributes);
    lemma_encode_exceptions_len(exception_table);
    let p1 = 8 + code.len() as int;
    let p2 = p1 + 2 + enc_exc.len();
    assert(payload.len() == p2 + 2 + enc_atts.len());
    assert(payload.subrange(0, 2) =~= encode_u16(max_stack));
    lemma_u16_at_encode(payload, 0, max_stack);
    assert(payload.subrange(2, 4) =~= encode_u16(max_locals));
    lemma_u16_at_encode(payload, 2, max_locals);
    assert(payload.subrange(4, 8) =~= encode_u32(code.len() as u32));
    lemma_u32_at_encode(payload, 4, code.len() as u32);
    assert(payload.subrange(8, p1) =~= code);
    assert(payload.subrange(p1, p1 + 2) =~= encode_u16(exception_table.len() as u16));
    lemma_u16_at_encode(payload, p1, exception_table.len() as u16);
    assert(payload.subrange(p1 + 2, p2) =~= enc_exc);
    lemma_parse_encode_exceptions(payload, p1 + 2, exception_table);
    assert(payload.subrange(p2, p2 + 2) =~= encode_u16(attributes.len() as u16));
    lemma_u16_at_encode(payload, p2, attributes.len() as u16);
    assert(payload.subrange(p2 + 2, p2 + 2 + enc_atts.len()) =~= enc_atts);
    lemma_parse_encode_attributes(pool, payload, p2 + 2, attributes);
}

/// Parsing where a list of attributes was laid down gives back the list in
/// order and lands right behind it.
proof fn lemma_parse_encode_attributes(
    pool: Seq<CpEntryModel>,
    s: Seq<u8>,
    pos: int,
    attrs: Seq<AttributeModel>,
)
    requires
        attrs_wf(pool, attrs),
        0 <= pos,
        pos + encode_attributes(attrs).len() <= s.len(),
        s.subrange(pos, pos + encode_attributes(attrs).len()) == encode_attributes(attrs),
    ensures
        spec_parse_attributes(pool, s, pos, attrs.len() as int) == Ok::<
            (Seq<AttributeModel>, int),
            JvmError,
        >((attrs, pos + encode_attributes(attrs).len())),
    decreases encode_attributes(attrs).len(), attrs.len() as int,
{
    if attrs.len() == 0 {
        assert(attrs =~= Seq::<AttributeModel>::empty());
    } else {
        let head = attrs[0];
        let rest = attrs.drop_first();
        let enc_head = encode_attribute(head);
        let enc_rest = encode_attributes(rest);
        lemma_bytes_at(s, pos, encode_attributes(attrs));
        assert(s.subrange(pos, pos + enc_head.len()) =~= enc_head);
        lemma_parse_encode_attribute(pool, s, pos, head);
        assert(s.subrange(pos + enc_head.len(), pos + enc_head.len() + enc_rest.len())
            =~= enc_rest);
        lemma_parse_encode_attributes(pool, s, pos + enc_head.len(), rest);
        assert(seq![head] + rest =~= attrs);
    }
}

/// Round trip of a `Code` attribute: one laid down in the binary attribute
/// layout with given stack and local bounds, instruction bytes, exception
/// rows and nested attributes parses back to exactly those components, the
/// rows and the nested attributes in their original order, and consumes
/// exactly the bytes laid down.
pub proof fn lemma_code_attribute_round_trip(
    pool: Seq<CpEntryModel>,
    name_index: u16,
    max_stack: u16,
    max_locals: u16,
    code: Seq<u8>,
    exception_table: Seq<Exception>,
    attributes: Seq<AttributeModel>,
)
    requires
        spec_get_utf8(pool, name_index) == Ok::<Seq<char>, JvmError>("Code"@),
        code.len() <= u32::MAX,
        exception_table.len() <= u16::MAX,
        attributes.len() <= u16::MAX,
        attrs_wf(pool, attributes),
        encode_attribute_kind(
            AttributeKindModel::Code { max_stack, max_locals, code, exception_table, attributes },
        ).len() <= u32::MAX,
    ensures
        ({
            let a = AttributeModel {
                attribute_name_index: name_index,
                attribute_name: "Code"@,
                attribute: AttributeKindModel::Code {
                    max_stack,
                    max_locals,
                    code,
                    exception_table,
                    attributes,
                },
            };
            spec_parse_attribute(pool, encode_attribute(a), 0) == Ok::<
                (AttributeModel, int),
                JvmError,
            >((a, encode_attribute(a).len() as int))
        }),
{
    let a = AttributeModel {
        attribute_name_index: name_index,
        attribute_name: "Code"@,
        attribute: AttributeKindModel::Code {
            max_stack,
            max_locals,
            code,
            exception_table,
            attributes,
        },
    };
    let s = encode_attribute(a);
    assert(s.subrange(0, s.len() as int) =~= s);
    lemma_parse_encode_attribute(pool, s, 0, a);
}

} // verus!
