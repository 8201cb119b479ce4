use vstd::prelude::*;

use crate::class::{
    AttributeInfo, AttributeKind, ClassAccessFlags, ClassFile, ConstantPoolInfo, Exception,
    LineNumber, MethodAccessFlags, MethodInfo,
};
use crate::error::JvmError;

verus! {

/// Ghost image of one constant pool entry. Text is carried as its decoded
/// characters; the 32- and 64-bit floating constants are carried as their raw
/// big-endian bit patterns.
#[verifier::ext_equal]
pub enum CpEntryModel {
    Class { name_index: u16 },
    Fieldref { class_index: u16, name_and_type_index: u16 },
    Methodref { class_index: u16, name_and_type_index: u16 },
    InterfaceMethodref { class_index: u16, name_and_type_index: u16 },
    String { string_index: u16 },
    Integer { value: i32 },
    Float { bits: u32 },
    Long { value: i64 },
    Double { bits: u64 },
    NameAndType { name_index: u16, descriptor_index: u16 },
    Utf8 { text: Seq<char> },
    MethodHandle { reference_kind: u8, reference_index: u16 },
    MethodType { descriptor_index: u16 },
    InvokeDynamic { bootstrap_method_attr_index: u16, name_and_type_index: u16 },
}

/// Ghost image of a named attribute record.
#[verifier::ext_equal]
pub struct AttributeModel {
    pub attribute_name_index: u16,
    pub attribute_name: Seq<char>,
    pub attribute: AttributeKindModel,
}

/// Ghost image of an attribute payload, keyed by the attribute's resolved name.
#[verifier::ext_equal]
pub enum AttributeKindModel {
    ConstantValue { constant_value_index: u16 },
    Code {
        max_stack: u16,
        max_locals: u16,
        code: Seq<u8>,
        exception_table: Seq<Exception>,
        attributes: Seq<AttributeModel>,
    },
    SourceFile { source_file_index: u16, source_file_value: Seq<char> },
    LineNumberTable { line_number_table: Seq<LineNumber> },
    Other { bytes: Seq<u8> },
}

/// Ghost image of one method.
#[verifier::ext_equal]
pub struct MethodModel {
    pub access_flags: Seq<MethodAccessFlags>,
    pub name_index: u16,
    pub name: Seq<char>,
    pub descriptor_index: u16,
    pub descriptor: Seq<char>,
    pub attributes: Seq<AttributeModel>,
}

/// Ghost image of a whole class file.
#[verifier::ext_equal]
pub struct ClassFileModel {
    pub magic: Seq<u8>,
    pub minor_version: u16,
    pub major_version: u16,
    pub constant_pool: Seq<CpEntryModel>,
    pub access_flags: Seq<ClassAccessFlags>,
    pub this_class: u16,
    pub super_class: u16,
    pub methods: Seq<MethodModel>,
    pub attributes: Seq<AttributeModel>,
}

/// Ghost image of one operand stack slot.
#[verifier::ext_equal]
pub enum OperandModel {
    ClassInstance { class_name: Seq<char> },
    Int { value: i32 },
    Float { bits: u32 },
    String { text: Seq<char> },
}

/// The ghost image of one parsed constant pool entry.
pub open spec fn cp_entry_model(e: ConstantPoolInfo) -> CpEntryModel {
    match e {
        ConstantPoolInfo::Class { name_index } => CpEntryModel::Class { name_index },
        ConstantPoolInfo::Fieldref { class_index, name_and_type_index } => CpEntryModel::Fieldref {
            class_index,
            name_and_type_index,
        },
        ConstantPoolInfo::Methodref { class_index, name_and_type_index } => {
            CpEntryModel::Methodref { class_index, name_and_type_index }
        },
        ConstantPoolInfo::InterfaceMethodref { class_index, name_and_type_index } => {
            CpEntryModel::InterfaceMethodref { class_index, name_and_type_index }
        },
        ConstantPoolInfo::String { string_index } => CpEntryModel::String { string_index },
        ConstantPoolInfo::Integer { value } => CpEntryModel::Integer { value },
        ConstantPoolInfo::Float { bits } => CpEntryModel::Float { bits },
        ConstantPoolInfo::Long { value } => CpEntryModel::Long { value },
        ConstantPoolInfo::Double { bits } => CpEntryModel::Double { bits },
        ConstantPoolInfo::NameAndType { name_index, descriptor_index } => {
            CpEntryModel::NameAndType { name_index, descriptor_index }
        },
        ConstantPoolInfo::Utf8 { value } => CpEntryModel::Utf8 { text: value@ },
        ConstantPoolInfo::MethodHandle { reference_kind, reference_index } => {
            CpEntryModel::MethodHandle { reference_kind, reference_index }
        },
        ConstantPoolInfo::MethodType { descriptor_index } => CpEntryModel::MethodType {
            descriptor_index,
        },
        ConstantPoolInfo::InvokeDynamic { bootstrap_method_attr_index, name_and_type_index } => {
            CpEntryModel::InvokeDynamic { bootstrap_method_attr_index, name_and_type_index }
        },
    }
}

/// The ghost image of a parsed constant pool, entry by entry.
pub open spec fn pool_model(s: Seq<ConstantPoolInfo>) -> Seq<CpEntryModel> {
    s.map_values(|e: ConstantPoolInfo| cp_entry_model(e))
}

/// The ghost image of one parsed attribute.
pub open spec fn attr_model(a: AttributeInfo) -> AttributeModel
    decreases a,
{
    AttributeModel {
        attribute_name_index: a.attribute_name_index,
        attribute_name: a.attribute_name@,
        attribute: attr_kind_model(a.attribute),
    }
}

/// The ghost image of one parsed attribute payload.
pub open spec fn attr_kind_model(k: AttributeKind) -> AttributeKindModel
    decreases k,
{
    match k {
        AttributeKind::ConstantValue { constant_value_index } => AttributeKindModel::ConstantValue {
            constant_value_index,
        },
        AttributeKind::Code { max_stack, max_locals, code, exception_table, attributes } => {
            AttributeKindModel::Code {
                max_stack,
                max_locals,
                code: code@,
                exception_table: exception_table@,
                attributes: attrs_model(attributes@),
            }
        },
        AttributeKind::SourceFile { source_file_index, source_file_value } => {
            AttributeKindModel::SourceFile {
                source_file_index,
                source_file_value: source_file_value@,
            }
        },
        AttributeKind::LineNumberTable { line_number_table } => {
            AttributeKindModel::LineNumberTable { line_number_table: line_number_table@ }
        },
        AttributeKind::Other { bytes } => AttributeKindModel::Other { bytes: bytes@ },
    }
}

/// The ghost image of a parsed attribute list, in order.
pub open spec fn attrs_model(s: Seq<AttributeInfo>) -> Seq<AttributeModel>
    decreases s,
{
    if s.len() == 0 {
        Seq::empty()
    } else {
        attrs_model(s.subrange(0, s.len() - 1)).push(attr_model(s[s.len() - 1]))
    }
}

/// Appending one attribute appends its image.
pub proof fn lemma_attrs_model_push(s: Seq<AttributeInfo>, a: AttributeInfo)
    ensures
        attrs_model(s.push(a)) == attrs_model(s).push(attr_model(a)),
{
    assert(s.push(a).subrange(0, s.push(a).len() - 1) =~= s);
    assert(s.push(a)[s.push(a).len() - 1] == a);
}

/// An attribute list and its image have the same length.
pub proof fn lemma_attrs_model_len(s: Seq<AttributeInfo>)
    ensures
        attrs_model(s).len() == s.len(),
    decreases s.len(),
{
    if s.len() > 0 {
        lemma_attrs_model_len(s.subrange(0, s.len() - 1));
    }
}

/// The image of an attribute list is the image of each attribute, in place.
pub proof fn lemma_attrs_model_index(s: Seq<AttributeInfo>, i: int)
    requires
        0 <= i < s.len(),
    ensures
        attrs_model(s)[i] == attr_model(s[i]),
    decreases s.len(),
{
    lemma_attrs_model_len(s.subrange(0, s.len() - 1));
    if i < s.len() - 1 {
        lemma_attrs_model_index(s.subrange(0, s.len() - 1), i);
        assert(s.subrange(0, s.len() - 1)[i] == s[i]);
    }
}

/// The ghost image of one parsed method.
pub open spec fn method_model(m: MethodInfo) -> MethodModel {
    MethodModel {
        access_flags: m.access_flags@,
        name_index: m.name_index,
        name: m.name@,
        descriptor_index: m.descriptor_index,
        descriptor: m.descriptor@,
        attributes: attrs_model(m.attributes@),
    }
}

/// The ghost image of a parsed method list, in order.
pub open spec fn methods_model(s: Seq<MethodInfo>) -> Seq<MethodModel> {
    s.map_values(|m: MethodInfo| method_model(m))
}

/// The ghost image of a whole parsed class file.
pub open spec fn class_file_model(c: ClassFile) -> ClassFileModel {
    ClassFileModel {
        magic: c.magic@,
        minor_version: c.minor_version,
        major_version: c.major_version,
        constant_pool: pool_model(c.constant_pool@),
        access_flags: c.access_flags@,
        this_class: c.this_class,
        super_class: c.super_class,
        methods: methods_model(c.methods@),
        attributes: attrs_model(c.attributes@),
    }
}

/// The entry at a 1-based position of the pool, or the out-of-range error for
/// index zero or an index past the end.
pub open spec fn spec_get(pool: Seq<CpEntryModel>, index: u16) -> Result<CpEntryModel, JvmError> {
    if 1 <= index && index <= pool.len() {
        Ok(pool[index - 1])
    } else {
        Err(JvmError::ConstantPoolIndexOutOfRange)
    }
}

/// The text of the `Utf8` entry at a 1-based position, or a type-mismatch
/// error when the entry is of another variant.
pub open spec fn spec_get_utf8(pool: Seq<CpEntryModel>, index: u16) -> Result<Seq<char>, JvmError> {
    match spec_get(pool, index) {
        Ok(CpEntryModel::Utf8 { text }) => Ok(text),
        Ok(_) => Err(JvmError::ConstantPoolTypeMismatch),
        Err(e) => Err(e),
    }
}

/// The name of the `Class` entry at a 1-based position, resolved through its
/// `name_index` to a `Utf8` entry.
pub open spec fn spec_get_class_name(pool: Seq<CpEntryModel>, index: u16) -> Result<
    Seq<char>,
    JvmError,
> {
    match spec_get(pool, index) {
        Ok(CpEntryModel::Class { name_index }) => spec_get_utf8(pool, name_index),
        Ok(_) => Err(JvmError::ConstantPoolTypeMismatch),
        Err(e) => Err(e),
    }
}

/// The (name, descriptor) texts of the `NameAndType` entry at a 1-based
/// position, each resolved through its own index to a `Utf8` entry.
pub open spec fn spec_get_name_and_type(pool: Seq<CpEntryModel>, index: u16) -> Result<
    (Seq<char>, Seq<char>),
    JvmError,
> {
    match spec_get(pool, index) {
        Ok(CpEntryModel::NameAndType { name_index, descriptor_index }) => match (
            spec_get_utf8(pool, name_index),
            spec_get_utf8(pool, descriptor_index),
        ) {
            (Ok(name), Ok(descriptor)) => Ok((name, descriptor)),
            (Err(e), _) => Err(e),
            (_, Err(e)) => Err(e),
        },
        Ok(_) => Err(JvmError::ConstantPoolTypeMismatch),
        Err(e) => Err(e),
    }
}

/// Index convention of the pool: position 1 is retrievable via index 1, and
/// index 0 always fails as out of range, whatever the pool holds.
pub proof fn lemma_pool_index_convention(pool: Seq<CpEntryModel>)
    ensures
        pool.len() >= 1 ==> spec_get(pool, 1) == Ok::<CpEntryModel, JvmError>(pool[0]),
        spec_get(pool, 0) == Err::<CpEntryModel, JvmError>(JvmError::ConstantPoolIndexOutOfRange),
{
}

/// Error classification of the typed accessors, for every pool and index:
/// an index that is zero or past the end fails as out of range, and an index
/// whose entry is of another variant than the accessor expects fails as a
/// type mismatch.
pub proof fn lemma_resolution_errors(pool: Seq<CpEntryModel>, index: u16)
    ensures
        index == 0 || index > pool.len() ==> spec_get_utf8(pool, index) == Err::<
            Seq<char>,
            JvmError,
        >(JvmError::ConstantPoolIndexOutOfRange),
        index == 0 || index > pool.len() ==> spec_get_class_name(pool, index) == Err::<
            Seq<char>,
            JvmError,
        >(JvmError::ConstantPoolIndexOutOfRange),
        1 <= index <= pool.len() && !(pool[index - 1] is Utf8) ==> spec_get_utf8(pool, index)
            == Err::<Seq<char>, JvmError>(JvmError::ConstantPoolTypeMismatch),
        1 <= index <= pool.len() && !(pool[index - 1] is Class) ==> spec_get_class_name(
            pool,
            index,
        ) == Err::<Seq<char>, JvmError>(JvmError::ConstantPoolTypeMismatch),
{
}

} // verus!
