use vstd::prelude::*;

use crate::bytes::{ByteReader, signed32, signed64};
use crate::error::JvmError;
use crate::format::{
    TAG_CLASS, TAG_DOUBLE, TAG_FIELDREF, TAG_FLOAT, TAG_INTEGER, TAG_INTERFACE_METHODREF,
    TAG_INVOKE_DYNAMIC, TAG_LONG, TAG_METHODREF, TAG_METHOD_HANDLE, TAG_METHOD_TYPE,
    TAG_NAME_AND_TYPE, TAG_STRING, TAG_UTF8, spec_parse_attribute, spec_parse_attribute_kind,
    spec_parse_attributes, spec_parse_class_file, spec_parse_cp_entries, spec_parse_cp_entry,
    spec_parse_exceptions, spec_parse_line_numbers, spec_parse_method, spec_parse_methods, u16_at,
    u32_at, u64_at,
};
use crate::model::{
    AttributeModel, CpEntryModel, MethodModel, attr_kind_model, attr_model,
    attrs_model, class_file_model, cp_entry_model, lemma_attrs_model_push, method_model,
    methods_model, pool_model, spec_get, spec_get_class_name, spec_get_name_and_type,
    spec_get_utf8,
};
use vstd::string::StringExecFns;

verus! {

/// A fully parsed class file.
#[derive(Debug)]
pub struct ClassFile {
    pub magic: [u8; 4],
    pub minor_version: u16,
    pub major_version: u16,
    pub constant_pool: Vec<ConstantPoolInfo>,
    pub access_flags: Vec<ClassAccessFlags>,
    pub this_class: u16,
    pub super_class: u16,
    pub methods: Vec<MethodInfo>,
    pub attributes: Vec<AttributeInfo>,
}

/// One constant pool entry: a tagged variant whose indices are 1-based
/// positions of other pool entries. The 32- and 64-bit floating constants
/// keep their raw big-endian bit patterns.
#[derive(Debug, PartialEq)]
pub enum ConstantPoolInfo {
    Class { name_index: u16 },
    Fieldref { class_index: u16, name_and_type_index: u16 },
    Methodref { class_index: u16, name_and_type_index: u16 },
    InterfaceMethodref { class_index: u16, name_and_type_index: u16 },
    String { string_index: u16 },
    Integer { value: i32 },
    Float { bits: u32 },
    Long { value: i64 },
    Double { bits: u64 },
    NameAndType { name_index: u16, descriptor_index: u16 },
    Utf8 { value: String },
    MethodHandle { reference_kind: u8, reference_index: u16 },
    MethodType { descriptor_index: u16 },
    InvokeDynamic { bootstrap_method_attr_index: u16, name_and_type_index: u16 },
}

/// Modifiers of a class, decoded from its 16-bit access mask.
#[derive(Debug, Clone, Copy, PartialEq, Eq, Structural)]
pub enum ClassAccessFlags {
    Public,
    Final,
    Super,
    Interface,
    Abstract,
    Synthetic,
    Annotation,
    Enum,
}

/// Modifiers of a method, decoded from its 16-bit access mask.
#[derive(Debug, Clone, Copy, PartialEq, Eq, Structural)]
pub enum MethodAccessFlags {
    Public,
    Private,
    Protected,
    Static,
    Final,
    Synchronized,
    Bridge,
    VarArgs,
    Native,
    Abstract,
    Strict,
    Synthetic,
}

/// One method: decoded flags, its name and descriptor (both the pool indices
/// and the resolved texts), and its attributes.
#[derive(Debug)]
pub struct MethodInfo {
    pub access_flags: Vec<MethodAccessFlags>,
    pub name_index: u16,
    pub name: String,
    pub descriptor_index: u16,
    pub descriptor: String,
    pub attributes: Vec<AttributeInfo>,
}

/// A named, length-prefixed attribute record.
#[derive(Debug)]
pub struct AttributeInfo {
    pub attribute_name_index: u16,
    pub attribute_name: String,
    pub attribute: AttributeKind,
}

/// An attribute payload, decoded according to the attribute's resolved name.
/// A name outside the known set keeps its payload verbatim in `Other`.
#[derive(Debug)]
pub enum AttributeKind {
    ConstantValue {
        constant_value_index: u16,
    },
    Code {
        max_stack: u16,
        max_locals: u16,
        code: Vec<u8>,
        exception_table: Vec<Exception>,
        attributes: Vec<AttributeInfo>,
    },
    SourceFile {
        source_file_index: u16,
        source_file_value: String,
    },
    LineNumberTable {
        line_number_table: Vec<LineNumber>,
    },
    Other {
        bytes: Vec<u8>,
    },
}

/// One row of a `Code` attribute's exception table.
#[derive(Debug, Clone, Copy, PartialEq, Eq, Structural)]
pub struct Exception {
    pub start_pc: u16,
    pub end_pc: u16,
    pub handler_pc: u16,
    pub catch_type: u16,
}

/// One row of a `LineNumberTable` attribute.
#[derive(Debug, Clone, Copy, PartialEq, Eq, Structural)]
pub struct LineNumber {
    pub start_pc: u16,
    pub line_number: u16,
}

/// The set of class modifiers whose bit values intersect `mask`, in the
/// canonical enumeration order of `ClassAccessFlags`.
pub open spec fn spec_class_flags(mask: u16) -> Seq<ClassAccessFlags> {
    let s = Seq::<ClassAccessFlags>::empty();
    let s = if mask & 0x0001 != 0 {
        s.push(ClassAccessFlags::Public)
    } else {
        s
    };
    let s = if mask & 0x0010 != 0 {
        s.push(ClassAccessFlags::Final)
    } else {
        s
    };
    let s = if mask & 0x0020 != 0 {
        s.push(ClassAccessFlags::Super)
    } else {
        s
    };
    let s = if mask & 0x0200 != 0 {
        s.push(ClassAccessFlags::Interface)
    } else {
        s
    };
    let s = if mask & 0x0400 != 0 {
        s.push(ClassAccessFlags::Abstract)
    } else {
        s
    };
    let s = if mask & 0x1000 != 0 {
        s.push(ClassAccessFlags::Synthetic)
    } else {
        s
    };
    let s = if mask & 0x2000 != 0 {
        s.push(ClassAccessFlags::Annotation)
    } else {
        s
    };
    let s = if mask & 0x4000 != 0 {
        s.push(ClassAccessFlags::Enum)
    } else {
        s
    };
    s
}

/// The set of method modifiers whose bit values intersect `mask`, in the
/// canonical enumeration order of `MethodAccessFlags`.
pub open spec fn spec_method_flags(mask: u16) -> Seq<MethodAccessFlags> {
    let s = Seq::<MethodAccessFlags>::empty();
    let s = if mask & 0x0001 != 0 {
        s.push(MethodAccessFlags::Public)
    } else {
        s
    };
    let s = if mask & 0x0002 != 0 {
        s.push(MethodAccessFlags::Private)
    } else {
        s
    };
    let s = if mask & 0x0004 != 0 {
        s.push(MethodAccessFlags::Protected)
    } else {
        s
    };
    let s = if mask & 0x0008 != 0 {
        s.push(MethodAccessFlags::Static)
    } else {
        s
    };
    let s = if mask & 0x0010 != 0 {
        s.push(MethodAccessFlags::Final)
    } else {
        s
    };
    let s = if mask & 0x0020 != 0 {
        s.push(MethodAccessFlags::Synchronized)
    } else {
        s
    };
    let s = if mask & 0x0040 != 0 {
        s.push(MethodAccessFlags::Bridge)
    } else {
        s
    };
    let s = if mask & 0x0080 != 0 {
        s.push(MethodAccessFlags::VarArgs)
    } else {
        s
    };
    let s = if mask & 0x0100 != 0 {
        s.push(MethodAccessFlags::Native)
    } else {
        s
    };
    let s = if mask & 0x0400 != 0 {
        s.push(MethodAccessFlags::Abstract)
    } else {
        s
    };
    let s = if mask & 0x0800 != 0 {
        s.push(MethodAccessFlags::Strict)
    } else {
        s
    };
    let s = if mask & 0x1000 != 0 {
        s.push(MethodAccessFlags::Synthetic)
    } else {
        s
    };
    s
}

/// Decode a class access mask into its set of named flags.
pub fn decode_class_access_flags(mask: u16) -> (r: Vec<ClassAccessFlags>)
    ensures
        r@ == spec_class_flags(mask),
{
    let mut v: Vec<ClassAccessFlags> = Vec::new();
    if mask & 0x0001 != 0 {
        v.push(ClassAccessFlags::Public);
    }
    if mask & 0x0010 != 0 {
        v.push(ClassAccessFlags::Final);
    }
    if mask & 0x0020 != 0 {
        v.push(ClassAccessFlags::Super);
    }
    if mask & 0x0200 != 0 {
        v.push(ClassAccessFlags::Interface);
    }
    if mask & 0x0400 != 0 {
        v.push(ClassAccessFlags::Abstract);
    }
    if mask & 0x1000 != 0 {
        v.push(ClassAccessFlags::Synthetic);
    }
    if mask & 0x2000 != 0 {
        v.push(ClassAccessFlags::Annotation);
    }
    if mask & 0x4000 != 0 {
        v.push(ClassAccessFlags::Enum);
    }
    proof {
        assert(v@ =~= spec_class_flags(mask));
    }
    v
}

/// Decode a method access mask into its set of named flags.
pub fn decode_method_access_flags(mask: u16) -> (r: Vec<MethodAccessFlags>)
    ensures
        r@ == spec_method_flags(mask),
{
    let mut v: Vec<MethodAccessFlags> = Vec::new();
    if mask & 0x0001 != 0 {
        v.push(MethodAccessFlags::Public);
    }
    if mask & 0x0002 != 0 {
        v.push(MethodAccessFlags::Private);
    }
    if mask & 0x0004 != 0 {
        v.push(MethodAccessFlags::Protected);
    }
    if mask & 0x0008 != 0 {
        v.push(MethodAccessFlags::Static);
    }
    if mask & 0x0010 != 0 {
        v.push(MethodAccessFlags::Final);
    }
    if mask & 0x0020 != 0 {
        v.push(MethodAccessFlags::Synchronized);
    }
    if mask & 0x0040 != 0 {
        v.push(MethodAccessFlags::Bridge);
    }
    if mask & 0x0080 != 0 {
        v.push(MethodAccessFlags::VarArgs);
    }
    if mask & 0x0100 != 0 {
        v.push(MethodAccessFlags::Native);
    }
    if mask & 0x0400 != 0 {
        v.push(MethodAccessFlags::Abstract);
    }
    if mask & 0x0800 != 0 {
        v.push(MethodAccessFlags::Strict);
    }
    if mask & 0x1000 != 0 {
        v.push(MethodAccessFlags::Synthetic);
    }
    proof {
        assert(v@ =~= spec_method_flags(mask));
    }
    v
}

/// Typed, 1-indexed access to a constant pool. Position 1 is the first entry;
/// index 0 and indices past the pool size are out of range.
pub trait ConstantPool {
    /// The ghost image of the pool's entries, in order.
    spec fn entries(&self) -> Seq<CpEntryModel>;

    /// The entry at a 1-based position.
    fn get_value(&self, index: u16) -> (r: Result<&ConstantPoolInfo, JvmError>)
        ensures
            r is Ok <==> spec_get(self.entries(), index) is Ok,
            r is Ok ==> cp_entry_model(*r->Ok_0) == spec_get(self.entries(), index)->Ok_0,
            r is Err ==> r->Err_0 == spec_get(self.entries(), index)->Err_0,
    ;

    /// The name of the `Class` entry at a 1-based position, resolved through
    /// its `name_index` to a `Utf8` entry.
    fn get_class_name_from_index(&self, index: u16) -> (r: Result<&String, JvmError>)
        ensures
            r is Ok <==> spec_get_class_name(self.entries(), index) is Ok,
            r is Ok ==> r->Ok_0@ == spec_get_class_name(self.entries(), index)->Ok_0,
            r is Err ==> r->Err_0 == spec_get_class_name(self.entries(), index)->Err_0,
    ;

    /// The text of the `Utf8` entry at a 1-based position.
    fn get_utf8_from_index(&self, index: u16) -> (r: Result<&String, JvmError>)
        ensures
            r is Ok <==> spec_get_utf8(self.entries(), index) is Ok,
            r is Ok ==> r->Ok_0@ == spec_get_utf8(self.entries(), index)->Ok_0,
            r is Err ==> r->Err_0 == spec_get_utf8(self.entries(), index)->Err_0,
    ;

    /// The (name, descriptor) texts of the `NameAndType` entry at a 1-based
    /// position.
    fn get_name_and_type(&self, index: u16) -> (r: Result<(&String, &String), JvmError>)
        ensures
            r is Ok <==> spec_get_name_and_type(self.entries(), index) is Ok,
            r is Ok ==> (r->Ok_0.0@, r->Ok_0.1@) == spec_get_name_and_type(
                self.entries(),
                index,
            )->Ok_0,
            r is Err ==> r->Err_0 == spec_get_name_and_type(self.entries(), index)->Err_0,
    ;
}

/// The constant pool as parsed: entries stored 0-indexed, addressed 1-indexed
/// at this accessor boundary to keep the format's historical convention.
impl ConstantPool for Vec<ConstantPoolInfo> {
    open spec fn entries(&self) -> Seq<CpEntryModel> {
        pool_model(self@)
    }

    fn get_value(&self, index: u16) -> (r: Result<&ConstantPoolInfo, JvmError>) {
        if index >= 1 && (index as usize) <= self.len() {
            Ok(&self[(index - 1) as usize])
        } else {
            Err(JvmError::ConstantPoolIndexOutOfRange)
        }
    }

    fn get_class_name_from_index(&self, index: u16) -> (r: Result<&String, JvmError>) {
        let class = match self.get_value(index) {
            Ok(c) => c,
            Err(e) => {
                return Err(e);
            },
        };
        let name_index = match class {
            ConstantPoolInfo::Class { name_index } => *name_index,
            _ => {
                return Err(JvmError::ConstantPoolTypeMismatch);
            },
        };
        self.get_utf8_from_index(name_index)
    }

    fn get_utf8_from_index(&self, index: u16) -> (r: Result<&String, JvmError>) {
        let entry = match self.get_value(index) {
            Ok(e) => e,
            Err(e) => {
                return Err(e);
            },
        };
        match entry {
            ConstantPoolInfo::Utf8 { value } => Ok(value),
            _ => Err(JvmError::ConstantPoolTypeMismatch),
        }
    }

    fn get_name_and_type(&self, index: u16) -> (r: Result<(&String, &String), JvmError>) {
        let entry = match self.get_value(index) {
            Ok(e) => e,
            Err(e) => {
                return Err(e);
            },
        };
        let (name_index, descriptor_index) = match entry {
            ConstantPoolInfo::NameAndType { name_index, descriptor_index } => (
                *name_index,
                *descriptor_index,
            ),
            _ => {
                return Err(JvmError::ConstantPoolTypeMismatch);
            },
        };
        let name = match self.get_utf8_from_index(name_index) {
            Ok(n) => n,
            Err(e) => {
                return Err(e);
            },
        };
        let descriptor = match self.get_utf8_from_index(descriptor_index) {
            Ok(d) => d,
            Err(e) => {
                return Err(e);
            },
        };
        Ok((name, descriptor))
    }
}

impl Exception {
    /// Read one exception table row: four 16-bit fields.
    pub fn parse(r: &mut ByteReader) -> (res: Result<Exception, JvmError>)
        requires
            old(r).wf(),
        ensures
            final(r).wf(),
            final(r).data == old(r).data,
            final(r).pos >= old(r).pos,
            res is Ok <==> old(r).remaining() >= 8,
            res is Ok ==> final(r).pos == old(r).pos + 8 && res->Ok_0 == (Exception {
                start_pc: u16_at(old(r).data@, old(r).pos as int) as u16,
                end_pc: u16_at(old(r).data@, old(r).pos + 2) as u16,
                handler_pc: u16_at(old(r).data@, old(r).pos + 4) as u16,
                catch_type: u16_at(old(r).data@, old(r).pos + 6) as u16,
            }),
            res is Err ==> res->Err_0 == JvmError::IoError,
    {
        let start_pc = match r.parse_u2() {
            Ok(v) => v,
            Err(e) => {
                return Err(e);
            },
        };
        let end_pc = match r.parse_u2() {
            Ok(v) => v,
            Err(e) => {
                return Err(e);
            },
        };
        let handler_pc = match r.parse_u2() {
            Ok(v) => v,
            Err(e) => {
                return Err(e);
            },
        };
        let catch_type = match r.parse_u2() {
            Ok(v) => v,
            Err(e) => {
                return Err(e);
            },
        };
        Ok(Exception { start_pc, end_pc, handler_pc, catch_type })
    }
}

impl LineNumber {
    /// Read one line number table row: two 16-bit fields.
    pub fn parse(r: &mut ByteReader) -> (res: Result<LineNumber, JvmError>)
        requires
            old(r).wf(),
        ensures
            final(r).wf(),
            final(r).data == old(r).data,
            final(r).pos >= old(r).pos,
            res is Ok <==> old(r).remaining() >= 4,
            res is Ok ==> final(r).pos == old(r).pos + 4 && res->Ok_0 == (LineNumber {
                start_pc: u16_at(old(r).data@, old(r).pos as int) as u16,
                line_number: u16_at(old(r).data@, old(r).pos + 2) as u16,
            }),
            res is Err ==> res->Err_0 == JvmError::IoError,
    {
        let start_pc = match r.parse_u2() {
            Ok(v) => v,
            Err(e) => {
                return Err(e);
            },
        };
        let line_number = match r.parse_u2() {
            Ok(v) => v,
            Err(e) => {
                return Err(e);
            },
        };
        Ok(LineNumber { start_pc, line_number })
    }
}

impl ConstantPoolInfo {
    /// Read the `Class` payload: one 16-bit name index.
    fn parse_class(r: &mut ByteReader) -> (res: Result<ConstantPoolInfo, JvmError>)
        requires
            old(r).wf(),
        ensures
            final(r).wf(),
            final(r).data == old(r).data,
            final(r).pos >= old(r).pos,
            res is Ok <==> old(r).remaining() >= 2,
            res is Ok ==> final(r).pos == old(r).pos + 2 && res->Ok_0 == (ConstantPoolInfo::Class {
                name_index: u16_at(old(r).data@, old(r).pos as int) as u16,
            }),
            res is Err ==> res->Err_0 == JvmError::IoError,
    {
        match r.parse_u2() {
            Ok(name_index) => Ok(ConstantPoolInfo::Class { name_index }),
            Err(e) => Err(e),
        }
    }

    /// Read the `Fieldref` payload: class and name-and-type indices.
    fn parse_fieldref(r: &mut ByteReader) -> (res: Result<ConstantPoolInfo, JvmError>)
        requires
            old(r).wf(),
        ensures
            final(r).wf(),
            final(r).data == old(r).data,
            final(r).pos >= old(r).pos,
            res is Ok <==> old(r).remaining() >= 4,
            res is Ok ==> final(r).pos == old(r).pos + 4 && res->Ok_0 == (ConstantPoolInfo::Fieldref {
                class_index: u16_at(old(r).data@, old(r).pos as int) as u16,
                name_and_type_index: u16_at(old(r).data@, old(r).pos + 2) as u16,
            }),
            res is Err ==> res->Err_0 == JvmError::IoError,
    {
        let class_index = match r.parse_u2() {
            Ok(v) => v,
            Err(e) => {
                return Err(e);
            },
        };
        match r.parse_u2() {
            Ok(name_and_type_index) => Ok(
                ConstantPoolInfo::Fieldref { class_index, name_and_type_index },
            ),
            Err(e) => Err(e),
        }
    }

    /// Read the `Methodref` payload: class and name-and-type indices.
    fn parse_methodref(r: &mut ByteReader) -> (res: Result<ConstantPoolInfo, JvmError>)
        requires
            old(r).wf(),
        ensures
            final(r).wf(),
            final(r).data == old(r).data,
            final(r).pos >= old(r).pos,
            res is Ok <==> old(r).remaining() >= 4,
            res is Ok ==> final(r).pos == old(r).pos + 4 && res->Ok_0 == (ConstantPoolInfo::Methodref {
                class_index: u16_at(old(r).data@, old(r).pos as int) as u16,
                name_and_type_index: u16_at(old(r).data@, old(r).pos + 2) as u16,
            }),
            res is Err ==> res->Err_0 == JvmError::IoError,
    {
        let class_index = match r.parse_u2() {
            Ok(v) => v,
            Err(e) => {
                return Err(e);
            },
        };
        match r.parse_u2() {
            Ok(name_and_type_index) => Ok(
                ConstantPoolInfo::Methodref { class_index, name_and_type_index },
            ),
            Err(e) => Err(e),
        }
    }

    /// Read the `InterfaceMethodref` payload: class and name-and-type indices.
    fn parse_interface_methodref(r: &mut ByteReader) -> (res: Result<ConstantPoolInfo, JvmError>)
        requires
            old(r).wf(),
        ensures
            final(r).wf(),
            final(r).data == old(r).data,
            final(r).pos >= old(r).pos,
            res is Ok <==> old(r).remaining() >= 4,
            res is Ok ==> final(r).pos == old(r).pos + 4 && res->Ok_0 == (
            ConstantPoolInfo::InterfaceMethodref {
                class_index: u16_at(old(r).data@, old(r).pos as int) as u16,
                name_and_type_index: u16_at(old(r).data@, old(r).pos + 2) as u16,
            }),
            res is Err ==> res->Err_0 == JvmError::IoError,
    {
        let class_index = match r.parse_u2() {
            Ok(v) => v,
            Err(e) => {
                return Err(e);
            },
        };
        match r.parse_u2() {
            Ok(name_and_type_index) => Ok(
                ConstantPoolInfo::InterfaceMethodref { class_index, name_and_type_index },
            ),
            Err(e) => Err(e),
        }
    }

    /// Read the `String` payload: one 16-bit index of a `Utf8` entry.
    fn parse_string_entry(r: &mut ByteReader) -> (res: Result<ConstantPoolInfo, JvmError>)
        requires
            old(r).wf(),
        ensures
            final(r).wf(),
            final(r).data == old(r).data,
            final(r).pos >= old(r).pos,
            res is Ok <==> old(r).remaining() >= 2,
            res is Ok ==> final(r).pos == old(r).pos + 2 && res->Ok_0 == (ConstantPoolInfo::String {
                string_index: u16_at(old(r).data@, old(r).pos as int) as u16,
            }),
            res is Err ==> res->Err_0 == JvmError::IoError,
    {
        match r.parse_u2() {
            Ok(string_index) => Ok(ConstantPoolInfo::String { string_index }),
            Err(e) => Err(e),
        }
    }

    /// Read the `Integer` payload: a 32-bit two's-complement value.
    fn parse_integer(r: &mut ByteReader) -> (res: Result<ConstantPoolInfo, JvmError>)
        requires
            old(r).wf(),
        ensures
            final(r).wf(),
            final(r).data == old(r).data,
            final(r).pos >= old(r).pos,
            res is Ok <==> old(r).remaining() >= 4,
            res is Ok ==> final(r).pos == old(r).pos + 4 && res->Ok_0 == (ConstantPoolInfo::Integer {
                value: signed32(u32_at(old(r).data@, old(r).pos as int) as u32) as i32,
            }),
            res is Err ==> res->Err_0 == JvmError::IoError,
    {
        match r.parse_u4_as_i32() {
            Ok(value) => Ok(ConstantPoolInfo::Integer { value }),
            Err(e) => Err(e),
        }
    }

    /// Read the `Float` payload, kept as its 32-bit pattern.
    fn parse_float(r: &mut ByteReader) -> (res: Result<ConstantPoolInfo, JvmError>)
        requires
            old(r).wf(),
        ensures
            final(r).wf(),
            final(r).data == old(r).data,
            final(r).pos >= old(r).pos,
            res is Ok <==> old(r).remaining() >= 4,
            res is Ok ==> final(r).pos == old(r).pos + 4 && res->Ok_0 == (ConstantPoolInfo::Float {
                bits: u32_at(old(r).data@, old(r).pos as int) as u32,
            }),
            res is Err ==> res->Err_0 == JvmError::IoError,
    {
        match r.parse_u4() {
            Ok(bits) => Ok(ConstantPoolInfo::Float { bits }),
            Err(e) => Err(e),
        }
    }

    /// Read the `Long` payload: a 64-bit two's-complement value.
    fn parse_long(r: &mut ByteReader) -> (res: Result<ConstantPoolInfo, JvmError>)
        requires
            old(r).wf(),
        ensures
            final(r).wf(),
            final(r).data == old(r).data,
            final(r).pos >= old(r).pos,
            res is Ok <==> old(r).remaining() >= 8,
            res is Ok ==> final(r).pos == old(r).pos + 8 && res->Ok_0 == (ConstantPoolInfo::Long {
                value: signed64(u64_at(old(r).data@, old(r).pos as int) as u64) as i64,
            }),
            res is Err ==> res->Err_0 == JvmError::IoError,
    {
        match r.parse_u8_as_i64() {
            Ok(value) => Ok(ConstantPoolInfo::Long { value }),
            Err(e) => Err(e),
        }
    }

    /// Read the `Double` payload, kept as its 64-bit pattern.
    fn parse_double(r: &mut ByteReader) -> (res: Result<ConstantPoolInfo, JvmError>)
        requires
            old(r).wf(),
        ensures
            final(r).wf(),
            final(r).data == old(r).data,
            final(r).pos >= old(r).pos,
            res is Ok <==> old(r).remaining() >= 8,
            res is Ok ==> final(r).pos == old(r).pos + 8 && res->Ok_0 == (ConstantPoolInfo::Double {
                bits: u64_at(old(r).data@, old(r).pos as int) as u64,
            }),
            res is Err ==> res->Err_0 == JvmError::IoError,
    {
        match r.parse_u8() {
            Ok(bits) => Ok(ConstantPoolInfo::Double { bits }),
            Err(e) => Err(e),
        }
    }

    /// Read the `NameAndType` payload: name and descriptor indices.
    fn parse_name_and_type_entry(r: &mut ByteReader) -> (res: Result<ConstantPoolInfo, JvmError>)
        requires
            old(r).wf(),
        ensures
            final(r).wf(),
            final(r).data == old(r).data,
            final(r).pos >= old(r).pos,
            res is Ok <==> old(r).remaining() >= 4,
            res is Ok ==> final(r).pos == old(r).pos + 4 && res->Ok_0 == (
            ConstantPoolInfo::NameAndType {
                name_index: u16_at(old(r).data@, old(r).pos as int) as u16,
                descriptor_index: u16_at(old(r).data@, old(r).pos + 2) as u16,
            }),
            res is Err ==> res->Err_0 == JvmError::IoError,
    {
        let name_index = match r.parse_u2() {
            Ok(v) => v,
            Err(e) => {
                return Err(e);
            },
        };
        match r.parse_u2() {
            Ok(descriptor_index) => Ok(
                ConstantPoolInfo::NameAndType { name_index, descriptor_index },
            ),
            Err(e) => Err(e),
        }
    }

    /// Read the `Utf8` payload: a 16-bit byte length and that much text.
    fn parse_utf8_entry(r: &mut ByteReader) -> (res: Result<ConstantPoolInfo, JvmError>)
        requires
            old(r).wf(),
        ensures
            final(r).wf(),
            final(r).data == old(r).data,
            final(r).pos >= old(r).pos,
            res is Ok <==> old(r).remaining() >= 2 && 2 + u16_at(old(r).data@, old(r).pos as int)
                <= old(r).remaining() && vstd::utf8::valid_utf8(
                old(r).data@.subrange(
                    old(r).pos + 2,
                    old(r).pos + 2 + u16_at(old(r).data@, old(r).pos as int),
                ),
            ),
            res is Ok ==> (res->Ok_0 matches ConstantPoolInfo::Utf8 { value } && final(r).pos
                == old(r).pos + 2 + u16_at(old(r).data@, old(r).pos as int) && value@
                == vstd::utf8::decode_utf8(
                old(r).data@.subrange(
                    old(r).pos + 2,
                    old(r).pos + 2 + u16_at(old(r).data@, old(r).pos as int),
                ),
            )),
            res is Err ==> res->Err_0 == JvmError::IoError,
    {
        let length = match r.parse_u2() {
            Ok(v) => v,
            Err(e) => {
                return Err(e);
            },
        };
        match r.parse_utf8(length) {
            Ok(value) => Ok(ConstantPoolInfo::Utf8 { value }),
            Err(e) => Err(e),
        }
    }

    /// Read the `MethodHandle` payload: a kind byte and a 16-bit index.
    fn parse_method_handle(r: &mut ByteReader) -> (res: Result<ConstantPoolInfo, JvmError>)
        requires
            old(r).wf(),
        ensures
            final(r).wf(),
            final(r).data == old(r).data,
            final(r).pos >= old(r).pos,
            res is Ok <==> old(r).remaining() >= 3,
            res is Ok ==> final(r).pos == old(r).pos + 3 && res->Ok_0 == (
            ConstantPoolInfo::MethodHandle {
                reference_kind: old(r).data@[old(r).pos as int],
                reference_index: u16_at(old(r).data@, old(r).pos + 1) as u16,
            }),
            res is Err ==> res->Err_0 == JvmError::IoError,
    {
        let reference_kind = match r.parse_u1() {
            Ok(v) => v,
            Err(e) => {
                return Err(e);
            },
        };
        match r.parse_u2() {
            Ok(reference_index) => Ok(
                ConstantPoolInfo::MethodHandle { reference_kind, reference_index },
            ),
            Err(e) => Err(e),
        }
    }

    /// Read the `MethodType` payload: one 16-bit descriptor index.
    fn parse_method_type(r: &mut ByteReader) -> (res: Result<ConstantPoolInfo, JvmError>)
        requires
            old(r).wf(),
        ensures
            final(r).wf(),
            final(r).data == old(r).data,
            final(r).pos >= old(r).pos,
            res is Ok <==> old(r).remaining() >= 2,
            res is Ok ==> final(r).pos == old(r).pos + 2 && res->Ok_0 == (
            ConstantPoolInfo::MethodType {
                descriptor_index: u16_at(old(r).data@, old(r).pos as int) as u16,
            }),
            res is Err ==> res->Err_0 == JvmError::IoError,
    {
        match r.parse_u2() {
            Ok(descriptor_index) => Ok(ConstantPoolInfo::MethodType { descriptor_index }),
            Err(e) => Err(e),
        }
    }

    /// Read the `InvokeDynamic` payload: bootstrap and name-and-type indices.
    fn parse_invoke_dynamic(r: &mut ByteReader) -> (res: Result<ConstantPoolInfo, JvmError>)
        requires
            old(r).wf(),
        ensures
            final(r).wf(),
            final(r).data == old(r).data,
            final(r).pos >= old(r).pos,
            res is Ok <==> old(r).remaining() >= 4,
            res is Ok ==> final(r).pos == old(r).pos + 4 && res->Ok_0 == (
            ConstantPoolInfo::InvokeDynamic {
                bootstrap_method_attr_index: u16_at(old(r).data@, old(r).pos as int) as u16,
                name_and_type_index: u16_at(old(r).data@, old(r).pos + 2) as u16,
            }),
            res is Err ==> res->Err_0 == JvmError::IoError,
    {
        let bootstrap_method_attr_index = match r.parse_u2() {
            Ok(v) => v,
            Err(e) => {
                return Err(e);
            },
        };
        match r.parse_u2() {
            Ok(name_and_type_index) => Ok(
                ConstantPoolInfo::InvokeDynamic { bootstrap_method_attr_index, name_and_type_index },
            ),
            Err(e) => Err(e),
        }
    }

    /// Read one constant pool entry: a tag byte, then the payload the tag
    /// selects. A tag outside the known set fails with
    /// `MalformedConstantPoolTag`, consuming the tag byte and nothing more.
    #[verifier::rlimit(100)]
    #[verifier::spinoff_prover]
    pub fn parse(r: &mut ByteReader) -> (res: Result<ConstantPoolInfo, JvmError>)
        requires
            old(r).wf(),
        ensures
            final(r).wf(),
            final(r).data == old(r).data,
            final(r).pos >= old(r).pos,
            (match spec_parse_cp_entry(old(r).data@, old(r).pos as int) {
                Ok((m, p2)) => res is Ok && cp_entry_model(res->Ok_0) == m && final(r).pos == p2,
                Err(e) => res is Err && res->Err_0 == e && (e
                    == JvmError::MalformedConstantPoolTag ==> final(r).pos == old(r).pos + 1),
            }),
    {
        let tag = match r.parse_u1() {
            Ok(v) => v,
            Err(e) => {
                return Err(e);
            },
        };
        if tag == TAG_CLASS {
            Self::parse_class(r)
        } else if tag == TAG_FIELDREF {
            Self::parse_fieldref(r)
        } else if tag == TAG_METHODREF {
            Self::parse_methodref(r)
        } else if tag == TAG_INTERFACE_METHODREF {
            Self::parse_interface_methodref(r)
        } else if tag == TAG_STRING {
            Self::parse_string_entry(r)
        } else if tag == TAG_INTEGER {
            Self::parse_integer(r)
        } else if tag == TAG_FLOAT {
            Self::parse_float(r)
        } else if tag == TAG_LONG {
            Self::parse_long(r)
        } else if tag == TAG_DOUBLE {
            Self::parse_double(r)
        } else if tag == TAG_NAME_AND_TYPE {
            Self::parse_name_and_type_entry(r)
        } else if tag == TAG_UTF8 {
            Self::parse_utf8_entry(r)
        } else if tag == TAG_METHOD_HANDLE {
            Self::parse_method_handle(r)
        } else if tag == TAG_METHOD_TYPE {
            Self::parse_method_type(r)
        } else if tag == TAG_INVOKE_DYNAMIC {
            Self::parse_invoke_dynamic(r)
        } else {
            Err(JvmError::MalformedConstantPoolTag)
        }
    }
}

/// Read `count - 1` constant pool entries, the historical convention for a
/// pool whose 16-bit count is one more than the number of entries.
pub fn parse_constant_pool(r: &mut ByteReader, count: u16) -> (res: Result<
    Vec<ConstantPoolInfo>,
    JvmError,
>)
    requires
        old(r).wf(),
    ensures
        final(r).wf(),
        final(r).data == old(r).data,
        final(r).pos >= old(r).pos,
        (match spec_parse_cp_entries(old(r).data@, old(r).pos as int, count - 1) {
            Ok((ms, p2)) => res is Ok && pool_model(res->Ok_0@) == ms && final(r).pos == p2,
            Err(e) => res is Err && res->Err_0 == e,
        }),
{
    let ghost d = old(r).data@;
    let ghost p0 = old(r).pos as int;
    let mut pool: Vec<ConstantPoolInfo> = Vec::new();
    let mut i: u16 = 1;
    proof {
        assert(pool_model(pool@) =~= Seq::<CpEntryModel>::empty());
    }
    while i < count
        invariant
            r.wf(),
            r.data == old(r).data,
            d == old(r).data@,
            p0 == old(r).pos,
            r.pos >= old(r).pos,
            1 <= i,
            i <= count || i == 1,
            (match spec_parse_cp_entries(d, p0, count - 1) {
                Ok((ms, p2)) => spec_parse_cp_entries(d, r.pos as int, count - i) matches Ok((ms2, q2))
                    && ms == pool_model(pool@) + ms2 && p2 == q2,
                Err(e) => spec_parse_cp_entries(d, r.pos as int, count - i) matches Err(e2) && e
                    == e2,
            }),
        decreases count - i,
    {
        let ghost pos_before = r.pos as int;
        let entry = match ConstantPoolInfo::parse(r) {
            Ok(v) => v,
            Err(e) => {
                return Err(e);
            },
        };
        proof {
            assert(pool_model(pool@.push(entry)) =~= pool_model(pool@).push(cp_entry_model(entry)));
            if let Ok((ms2, q2)) = spec_parse_cp_entries(d, pos_before, count - i) {
                assert(pool_model(pool@) + ms2 =~= pool_model(pool@.push(entry)) + ms2.drop_first());
            }
        }
        pool.push(entry);
        i = i + 1;
    }
    proof {
        assert(pool_model(pool@) + Seq::<CpEntryModel>::empty() =~= pool_model(pool@));
    }
    Ok(pool)
}

/// Read `n` exception table rows.
fn parse_exception_table(r: &mut ByteReader, n: u16) -> (res: Result<Vec<Exception>, JvmError>)
    requires
        old(r).wf(),
    ensures
        final(r).wf(),
        final(r).data == old(r).data,
        final(r).pos >= old(r).pos,
        (match spec_parse_exceptions(old(r).data@, old(r).pos as int, n as int) {
            Ok((ms, p2)) => res is Ok && res->Ok_0@ == ms && final(r).pos == p2,
            Err(e) => res is Err && res->Err_0 == e,
        }),
{
    let ghost d = old(r).data@;
    let ghost p0 = old(r).pos as int;
    let mut rows: Vec<Exception> = Vec::new();
    let mut i: u16 = 0;
    while i < n
        invariant
            r.wf(),
            r.data == old(r).data,
            d == old(r).data@,
            p0 == old(r).pos,
            r.pos >= old(r).pos,
            i <= n,
            (match spec_parse_exceptions(d, p0, n as int) {
                Ok((ms, p2)) => spec_parse_exceptions(d, r.pos as int, n - i) matches Ok((ms2, q2))
                    && ms == rows@ + ms2 && p2 == q2,
                Err(e) => spec_parse_exceptions(d, r.pos as int, n - i) matches Err(e2) && e == e2,
            }),
        decreases n - i,
    {
        let ghost pos_before = r.pos as int;
        let row = match Exception::parse(r) {
            Ok(v) => v,
            Err(e) => {
                return Err(e);
            },
        };
        proof {
            if let Ok((ms2, q2)) = spec_parse_exceptions(d, pos_before, n - i) {
                assert(rows@ + ms2 =~= rows@.push(row) + ms2.drop_first());
            }
        }
        rows.push(row);
        i = i + 1;
    }
    proof {
        assert(rows@ + Seq::<Exception>::empty() =~= rows@);
    }
    Ok(rows)
}

/// Read `n` line number table rows.
fn parse_line_number_table(r: &mut ByteReader, n: u16) -> (res: Result<Vec<LineNumber>, JvmError>)
    requires
        old(r).wf(),
    ensures
        final(r).wf(),
        final(r).data == old(r).data,
        final(r).pos >= old(r).pos,
        (match spec_parse_line_numbers(old(r).data@, old(r).pos as int, n as int) {
            Ok((ms, p2)) => res is Ok && res->Ok_0@ == ms && final(r).pos == p2,
            Err(e) => res is Err && res->Err_0 == e,
        }),
{
    let ghost d = old(r).data@;
    let ghost p0 = old(r).pos as int;
    let mut rows: Vec<LineNumber> = Vec::new();
    let mut i: u16 = 0;
    while i < n
        invariant
            r.wf(),
            r.data == old(r).data,
            d == old(r).data@,
            p0 == old(r).pos,
            r.pos >= old(r).pos,
            i <= n,
            (match spec_parse_line_numbers(d, p0, n as int) {
                Ok((ms, p2)) => spec_parse_line_numbers(d, r.pos as int, n - i) matches Ok(
                    (ms2, q2),
                ) && ms == rows@ + ms2 && p2 == q2,
                Err(e) => spec_parse_line_numbers(d, r.pos as int, n - i) matches Err(e2) && e
                    == e2,
            }),
        decreases n - i,
    {
        let ghost pos_before = r.pos as int;
        let row = match LineNumber::parse(r) {
            Ok(v) => v,
            Err(e) => {
                return Err(e);
            },
        };
        proof {
            if let Ok((ms2, q2)) = spec_parse_line_numbers(d, pos_before, n - i) {
                assert(rows@ + ms2 =~= rows@.push(row) + ms2.drop_first());
            }
        }
        rows.push(row);
        i = i + 1;
    }
    proof {
        assert(rows@ + Seq::<LineNumber>::empty() =~= rows@);
    }
    Ok(rows)
}

impl AttributeInfo {
    /// Read one attribute: a name index resolved through the pool, a 32-bit
    /// payload length, and the payload decoded according to the name. An
    /// unrecognized name keeps its payload verbatim and does not fail.
    #[verifier::rlimit(100)]
    pub fn parse(constant_pool: &Vec<ConstantPoolInfo>, r: &mut ByteReader) -> (res: Result<
        AttributeInfo,
        JvmError,
    >)
        requires
            old(r).wf(),
        ensures
            final(r).wf(),
            final(r).data == old(r).data,
            final(r).pos >= old(r).pos,
            (match spec_parse_attribute(
                pool_model(constant_pool@),
                old(r).data@,
                old(r).pos as int,
            ) {
                Ok((m, p2)) => res is Ok && attr_model(res->Ok_0) == m && final(r).pos == p2,
                Err(e) => res is Err && res->Err_0 == e,
            }),
        decreases r.data@.len() - r.pos, 2int,
    {
        let attribute_name_index = match r.parse_u2() {
            Ok(v) => v,
            Err(e) => {
                return Err(e);
            },
        };
        let attribute_name = match constant_pool.get_utf8_from_index(attribute_name_index) {
            Ok(s) => s.clone(),
            Err(e) => {
                return Err(e);
            },
        };
        let attribute_length = match r.parse_u4() {
            Ok(v) => v,
            Err(e) => {
                return Err(e);
            },
        };
        let bytes = match r.parse_n_bytes(attribute_length as usize) {
            Ok(v) => v,
            Err(e) => {
                return Err(e);
            },
        };
        let attribute: AttributeKind = if attribute_name == String::from_str("ConstantValue") {
            let mut attribute_bytes = ByteReader::new(bytes);
            let constant_value_index = match attribute_bytes.parse_u2() {
                Ok(v) => v,
                Err(e) => {
                    return Err(e);
                },
            };
            AttributeKind::ConstantValue { constant_value_index }
        } else if attribute_name == String::from_str("Code") {
            let mut attribute_bytes = ByteReader::new(bytes);
            match Self::parse_code_attribute(constant_pool, &mut attribute_bytes) {
                Ok(kind) => kind,
                Err(e) => {
                    return Err(e);
                },
            }
        } else if attribute_name == String::from_str("SourceFile") {
            let mut attribute_bytes = ByteReader::new(bytes);
            let source_file_index = match attribute_bytes.parse_u2() {
                Ok(v) => v,
                Err(e) => {
                    return Err(e);
                },
            };
            let source_file_value = match constant_pool.get_utf8_from_index(source_file_index) {
                Ok(s) => s.clone(),
                Err(e) => {
                    return Err(e);
                },
            };
            AttributeKind::SourceFile { source_file_index, source_file_value }
        } else if attribute_name == String::from_str("LineNumberTable") {
            let mut attribute_bytes = ByteReader::new(bytes);
            let line_number_table_length = match attribute_bytes.parse_u2() {
                Ok(v) => v,
                Err(e) => {
                    return Err(e);
                },
            };
            let line_number_table = match parse_line_number_table(
                &mut attribute_bytes,
                line_number_table_length,
            ) {
                Ok(v) => v,
                Err(e) => {
                    return Err(e);
                },
            };
            AttributeKind::LineNumberTable { line_number_table }
        } else {
            AttributeKind::Other { bytes }
        };
        Ok(AttributeInfo { attribute_name_index, attribute_name, attribute })
    }

    /// Read a `Code` payload from its own isolated cursor: stack and local
    /// bounds, the raw instruction bytes, the exception table, and the nested
    /// attributes.
    #[verifier::rlimit(100)]
    fn parse_code_attribute(constant_pool: &Vec<ConstantPoolInfo>, ab: &mut ByteReader) -> (res:
        Result<AttributeKind, JvmError>)
        requires
            old(ab).wf(),
            old(ab).pos == 0,
        ensures
            final(ab).wf(),
            final(ab).data == old(ab).data,
            final(ab).pos >= old(ab).pos,
            (match spec_parse_attribute_kind(
                pool_model(constant_pool@),
                "Code"@,
                old(ab).data@,
            ) {
                Ok(kind) => res is Ok && attr_kind_model(res->Ok_0) == kind,
                Err(e) => res is Err && res->Err_0 == e,
            }),
        decreases ab.data@.len() - ab.pos, 1int,
    {
        proof {
            reveal_strlit("Code");
            reveal_strlit("ConstantValue");
            assert("Code"@.len() == 4);
            assert("ConstantValue"@.len() == 13);
        }
        let max_stack = match ab.parse_u2() {
            Ok(v) => v,
            Err(e) => {
                return Err(e);
            },
        };
        let max_locals = match ab.parse_u2() {
            Ok(v) => v,
            Err(e) => {
                return Err(e);
            },
        };
        let code_length = match ab.parse_u4() {
            Ok(v) => v,
            Err(e) => {
                return Err(e);
            },
        };
        let code = match ab.parse_n_bytes(code_length as usize) {
            Ok(v) => v,
            Err(e) => {
                return Err(e);
            },
        };
        let exception_table_length = match ab.parse_u2() {
            Ok(v) => v,
            Err(e) => {
                return Err(e);
            },
        };
        let exception_table = match parse_exception_table(ab, exception_table_length) {
            Ok(v) => v,
            Err(e) => {
                return Err(e);
            },
        };
        let attributes_count = match ab.parse_u2() {
            Ok(v) => v,
            Err(e) => {
                return Err(e);
            },
        };
        let attributes = match parse_attributes(constant_pool, ab, attributes_count) {
            Ok(v) => v,
            Err(e) => {
                return Err(e);
            },
        };
        Ok(AttributeKind::Code { max_stack, max_locals, code, exception_table, attributes })
    }
}

/// Read `n` attributes in sequence.
pub fn parse_attributes(constant_pool: &Vec<ConstantPoolInfo>, r: &mut ByteReader, n: u16) -> (res:
    Result<Vec<AttributeInfo>, JvmError>)
    requires
        old(r).wf(),
    ensures
        final(r).wf(),
        final(r).data == old(r).data,
        final(r).pos >= old(r).pos,
        (match spec_parse_attributes(
            pool_model(constant_pool@),
            old(r).data@,
            old(r).pos as int,
            n as int,
        ) {
            Ok((ms, p2)) => res is Ok && attrs_model(res->Ok_0@) == ms && final(r).pos == p2,
            Err(e) => res is Err && res->Err_0 == e,
        }),
    decreases r.data@.len() - r.pos, 3int,
{
    let ghost pool = pool_model(constant_pool@);
    let ghost d = old(r).data@;
    let ghost p0 = old(r).pos as int;
    let mut attrs: Vec<AttributeInfo> = Vec::new();
    let mut i: u16 = 0;
    proof {
        assert(attrs_model(attrs@) =~= Seq::<AttributeModel>::empty());
    }
    while i < n
        invariant
            r.wf(),
            r.data == old(r).data,
            d == old(r).data@,
            p0 == old(r).pos,
            pool == pool_model(constant_pool@),
            r.pos >= old(r).pos,
            i <= n,
            (match spec_parse_attributes(pool, d, p0, n as int) {
                Ok((ms, p2)) => spec_parse_attributes(pool, d, r.pos as int, n - i) matches Ok(
                    (ms2, q2),
                ) && ms == attrs_model(attrs@) + ms2 && p2 == q2,
                Err(e) => spec_parse_attributes(pool, d, r.pos as int, n - i) matches Err(e2) && e
                    == e2,
            }),
        decreases n - i,
    {
        let ghost pos_before = r.pos as int;
        let a = match AttributeInfo::parse(constant_pool, r) {
            Ok(v) => v,
            Err(e) => {
                return Err(e);
            },
        };
        proof {
            lemma_attrs_model_push(attrs@, a);
            if let Ok((ms2, q2)) = spec_parse_attributes(pool, d, pos_before, n - i) {
                assert(attrs_model(attrs@) + ms2 =~= attrs_model(attrs@.push(a))
                    + ms2.drop_first());
            }
        }
        attrs.push(a);
        i = i + 1;
    }
    proof {
        assert(attrs_model(attrs@) + Seq::<AttributeModel>::empty() =~= attrs_model(attrs@));
    }
    Ok(attrs)
}

impl MethodInfo {
    /// Read one method: an access mask decoded to flags, name and descriptor
    /// indices each resolved through the pool, and the method's attributes.
    #[verifier::rlimit(100)]
    pub fn parse(constant_pool: &Vec<ConstantPoolInfo>, r: &mut ByteReader) -> (res: Result<
        MethodInfo,
        JvmError,
    >)
        requires
            old(r).wf(),
        ensures
            final(r).wf(),
            final(r).data == old(r).data,
            final(r).pos >= old(r).pos,
            (match spec_parse_method(pool_model(constant_pool@), old(r).data@, old(r).pos as int) {
                Ok((m, p2)) => res is Ok && method_model(res->Ok_0) == m && final(r).pos == p2,
                Err(e) => res is Err && res->Err_0 == e,
            }),
    {
        let access_flags_mask = match r.parse_u2() {
            Ok(v) => v,
            Err(e) => {
                return Err(e);
            },
        };
        let access_flags = decode_method_access_flags(access_flags_mask);
        let name_index = match r.parse_u2() {
            Ok(v) => v,
            Err(e) => {
                return Err(e);
            },
        };
        let name = match constant_pool.get_utf8_from_index(name_index) {
            Ok(s) => s.clone(),
            Err(e) => {
                return Err(e);
            },
        };
        let descriptor_index = match r.parse_u2() {
            Ok(v) => v,
            Err(e) => {
                return Err(e);
            },
        };
        let descriptor = match constant_pool.get_utf8_from_index(descriptor_index) {
            Ok(s) => s.clone(),
            Err(e) => {
                return Err(e);
            },
        };
        let attributes_count = match r.parse_u2() {
            Ok(v) => v,
            Err(e) => {
                return Err(e);
            },
        };
        let attributes = match parse_attributes(constant_pool, r, attributes_count) {
            Ok(v) => v,
            Err(e) => {
                return Err(e);
            },
        };
        Ok(
            MethodInfo {
                access_flags,
                name_index,
                name,
                descriptor_index,
                descriptor,
                attributes,
            },
        )
    }
}

/// Read `n` methods in sequence.
pub fn parse_methods(constant_pool: &Vec<ConstantPoolInfo>, r: &mut ByteReader, n: u16) -> (res:
    Result<Vec<MethodInfo>, JvmError>)
    requires
        old(r).wf(),
    ensures
        final(r).wf(),
        final(r).data == old(r).data,
        final(r).pos >= old(r).pos,
        (match spec_parse_methods(
            pool_model(constant_pool@),
            old(r).data@,
            old(r).pos as int,
            n as int,
        ) {
            Ok((ms, p2)) => res is Ok && methods_model(res->Ok_0@) == ms && final(r).pos == p2,
            Err(e) => res is Err && res->Err_0 == e,
        }),
{
    let ghost pool = pool_model(constant_pool@);
    let ghost d = old(r).data@;
    let ghost p0 = old(r).pos as int;
    let mut methods: Vec<MethodInfo> = Vec::new();
    let mut i: u16 = 0;
    proof {
        assert(methods_model(methods@) =~= Seq::<MethodModel>::empty());
    }
    while i < n
        invariant
            r.wf(),
            r.data == old(r).data,
            d == old(r).data@,
            p0 == old(r).pos,
            pool == pool_model(constant_pool@),
            r.pos >= old(r).pos,
            i <= n,
            (match spec_parse_methods(pool, d, p0, n as int) {
                Ok((ms, p2)) => spec_parse_methods(pool, d, r.pos as int, n - i) matches Ok(
                    (ms2, q2),
                ) && ms == methods_model(methods@) + ms2 && p2 == q2,
                Err(e) => spec_parse_methods(pool, d, r.pos as int, n - i) matches Err(e2) && e
                    == e2,
            }),
        decreases n - i,
    {
        let ghost pos_before = r.pos as int;
        let m = match MethodInfo::parse(constant_pool, r) {
            Ok(v) => v,
            Err(e) => {
                return Err(e);
            },
        };
        proof {
            assert(methods_model(methods@.push(m)) =~= methods_model(methods@).push(
                method_model(m),
            ));
            if let Ok((ms2, q2)) = spec_parse_methods(pool, d, pos_before, n - i) {
                assert(methods_model(methods@) + ms2 =~= methods_model(methods@.push(m))
                    + ms2.drop_first());
            }
        }
        methods.push(m);
        i = i + 1;
    }
    proof {
        assert(methods_model(methods@) + Seq::<MethodModel>::empty() =~= methods_model(methods@));
    }
    Ok(methods)
}

impl ClassFile {
    /// Read a whole class file from the start of the source: magic and
    /// versions, the constant pool, the access flags, the class indices, the
    /// methods and the top-level attributes. A nonzero interface or field
    /// count fails with `UnsupportedFeature` before any of their bytes are
    /// read. Bytes past the final attribute are ignored.
    #[verifier::rlimit(100)]
    pub fn parse(r: &mut ByteReader) -> (res: Result<ClassFile, JvmError>)
        requires
            old(r).wf(),
            old(r).pos == 0,
        ensures
            final(r).wf(),
            final(r).data == old(r).data,
            (match spec_parse_class_file(old(r).data@) {
                Ok(m) => res is Ok && class_file_model(res->Ok_0) == m,
                Err(e) => res is Err && res->Err_0 == e,
            }),
    {
        let magic = match r.parse_u4_as_bytes() {
            Ok(v) => v,
            Err(e) => {
                return Err(e);
            },
        };
        let minor_version = match r.parse_u2() {
            Ok(v) => v,
            Err(e) => {
                return Err(e);
            },
        };
        let major_version = match r.parse_u2() {
            Ok(v) => v,
            Err(e) => {
                return Err(e);
            },
        };
        let constant_pool_count = match r.parse_u2() {
            Ok(v) => v,
            Err(e) => {
                return Err(e);
            },
        };
        let constant_pool = match parse_constant_pool(r, constant_pool_count) {
            Ok(v) => v,
            Err(e) => {
                return Err(e);
            },
        };
        let access_flags_mask = match r.parse_u2() {
            Ok(v) => v,
            Err(e) => {
                return Err(e);
            },
        };
        let access_flags = decode_class_access_flags(access_flags_mask);
        let this_class = match r.parse_u2() {
            Ok(v) => v,
            Err(e) => {
                return Err(e);
            },
        };
        let super_class = match r.parse_u2() {
            Ok(v) => v,
            Err(e) => {
                return Err(e);
            },
        };
        let interfaces_count = match r.parse_u2() {
            Ok(v) => v,
            Err(e) => {
                return Err(e);
            },
        };
        if interfaces_count != 0 {
            return Err(JvmError::UnsupportedFeature);
        }
        let fields_count = match r.parse_u2() {
            Ok(v) => v,
            Err(e) => {
                return Err(e);
            },
        };
        if fields_count != 0 {
            return Err(JvmError::UnsupportedFeature);
        }
        let methods_count = match r.parse_u2() {
            Ok(v) => v,
            Err(e) => {
                return Err(e);
            },
        };
        let methods = match parse_methods(&constant_pool, r, methods_count) {
            Ok(v) => v,
            Err(e) => {
                return Err(e);
            },
        };
        let attributes_count = match r.parse_u2() {
            Ok(v) => v,
            Err(e) => {
                return Err(e);
            },
        };
        let attributes = match parse_attributes(&constant_pool, r, attributes_count) {
            Ok(v) => v,
            Err(e) => {
                return Err(e);
            },
        };
        let class_file = ClassFile {
            magic,
            minor_version,
            major_version,
            constant_pool,
            access_flags,
            this_class,
            super_class,
            methods,
            attributes,
        };
        proof {
            if let Ok(m) = spec_parse_class_file(old(r).data@) {
                assert(class_file_model(class_file) =~= m);
            }
        }
        Ok(class_file)
    }

    /// The name of this class's superclass, resolved through the pool.
    pub fn get_super_class_name(&self) -> (res: Result<&String, JvmError>)
        ensures
            res is Ok <==> spec_get_class_name(pool_model(self.constant_pool@), self.super_class)
                is Ok,
            res is Ok ==> res->Ok_0@ == spec_get_class_name(
                pool_model(self.constant_pool@),
                self.super_class,
            )->Ok_0,
            res is Err ==> res->Err_0 == spec_get_class_name(
                pool_model(self.constant_pool@),
                self.super_class,
            )->Err_0,
    {
        self.constant_pool.get_class_name_from_index(self.super_class)
    }

    /// The name of this class, resolved through the pool.
    pub fn get_this_class_name(&self) -> (res: Result<&String, JvmError>)
        ensures
            res is Ok <==> spec_get_class_name(pool_model(self.constant_pool@), self.this_class)
                is Ok,
            res is Ok ==> res->Ok_0@ == spec_get_class_name(
                pool_model(self.constant_pool@),
                self.this_class,
            )->Ok_0,
            res is Err ==> res->Err_0 == spec_get_class_name(
                pool_model(self.constant_pool@),
                self.this_class,
            )->Err_0,
    {
        self.constant_pool.get_class_name_from_index(self.this_class)
    }
}

/// Parse a class file out of its bytes.
pub fn parse_class_file(bytes: Vec<u8>) -> (res: Result<ClassFile, JvmError>)
    ensures
        (match spec_parse_class_file(bytes@) {
            Ok(m) => res is Ok && class_file_model(res->Ok_0) == m,
            Err(e) => res is Err && res->Err_0 == e,
        }),
{
    let mut r = ByteReader::new(bytes);
    ClassFile::parse(&mut r)
}

} // verus!
