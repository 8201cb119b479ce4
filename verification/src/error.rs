use vstd::prelude::*;

verus! {

/// How loading or running a class can fail. Parsing and resolution failures
/// abort the whole run; an unrecognized attribute name is not an error (its
/// payload is kept verbatim, see `AttributeKind::Other`).
#[derive(Clone, Copy, Debug, PartialEq, Eq)]
pub enum JvmError {
    /// The byte source ran out before a read was complete, or length-prefixed
    /// text was not well-formed UTF-8.
    IoError,
    /// A constant pool entry began with a tag byte outside the known set.
    MalformedConstantPoolTag,
    /// A constant pool index was zero or past the end of the pool.
    ConstantPoolIndexOutOfRange,
    /// A constant pool accessor expected one entry variant and found another.
    ConstantPoolTypeMismatch,
    /// The class file or the instruction operands use a feature outside the
    /// supported subset (interfaces, fields, a constant kind `ldc` cannot
    /// push, a method binding other than the built-in `println`, or a class
    /// without a runnable entry point).
    UnsupportedFeature,
    /// The instruction stream reached an opcode outside the supported set.
    UnimplementedOpcode,
}

} // verus!
