use vstd::prelude::*;

use crate::class::{
    AttributeInfo, AttributeKind, ClassFile, ConstantPool, ConstantPoolInfo, MethodInfo,
};
use crate::error::JvmError;
use crate::format::u16_at;
use crate::model::{
    AttributeKindModel, AttributeModel, ClassFileModel, CpEntryModel, MethodModel, OperandModel,
    attr_model, attrs_model, class_file_model, lemma_attrs_model_index, lemma_attrs_model_len,
    method_model, methods_model, pool_model, spec_get, spec_get_class_name,
    spec_get_name_and_type, spec_get_utf8,
};
use vstd::string::StringExecFns;

verus! {

// Opcode bytes of the supported instructions.
pub const OPCODE_GETSTATIC: u8 = 0xb2;

pub const OPCODE_INVOKEVIRTUAL: u8 = 0xb6;

pub const OPCODE_LDC: u8 = 0x12;

/// A synthetic class-instance marker, tagged with a type name. It stands in
/// for a loaded static field value without an actual heap.
pub struct Instance {
    class_name: String,
}

/// One slot of the interpreter's operand stack.
pub enum OperandStackEntry {
    ClassInstance(Instance),
    Int(i32),
    Float { bits: u32 },
    String(String),
}

/// The ghost image of one operand stack slot.
pub closed spec fn operand_model(e: OperandStackEntry) -> OperandModel {
    match e {
        OperandStackEntry::ClassInstance(instance) => OperandModel::ClassInstance {
            class_name: instance.class_name@,
        },
        OperandStackEntry::Int(value) => OperandModel::Int { value },
        OperandStackEntry::Float { bits } => OperandModel::Float { bits },
        OperandStackEntry::String(s) => OperandModel::String { text: s@ },
    }
}

/// The ghost image of the operand stack, bottom first.
pub open spec fn stack_model(s: Seq<OperandStackEntry>) -> Seq<OperandModel> {
    s.map_values(|e: OperandStackEntry| operand_model(e))
}

/// The ghost image of collected output lines.
pub open spec fn lines_model(s: Seq<String>) -> Seq<Seq<char>> {
    s.map_values(|line: String| line@)
}

/// What `getstatic` resolves: the index must lead to a `Fieldref` whose
/// owning class name resolves (validation only) and whose name-and-type
/// resolves; the field's declared type name (the descriptor) is the result.
pub open spec fn spec_resolve_getstatic(pool: Seq<CpEntryModel>, index: u16) -> Result<
    Seq<char>,
    JvmError,
> {
    match spec_get(pool, index) {
        Ok(CpEntryModel::Fieldref { class_index, name_and_type_index }) => {
            match spec_get_class_name(pool, class_index) {
                Ok(_) => match spec_get_name_and_type(pool, name_and_type_index) {
                    Ok((_name, descriptor)) => Ok(descriptor),
                    Err(e) => Err(e),
                },
                Err(e) => Err(e),
            }
        },
        Ok(_) => Err(JvmError::ConstantPoolTypeMismatch),
        Err(e) => Err(e),
    }
}

/// What `ldc` resolves: the index must lead to a `String` entry whose text
/// resolves; any other constant kind is unsupported at this site.
pub open spec fn spec_resolve_ldc(pool: Seq<CpEntryModel>, index: u16) -> Result<
    Seq<char>,
    JvmError,
> {
    match spec_get(pool, index) {
        Ok(CpEntryModel::String { string_index }) => match spec_get_utf8(pool, string_index) {
            Ok(text) => Ok(text),
            Err(e) => Err(e),
        },
        Ok(_) => Err(JvmError::UnsupportedFeature),
        Err(e) => Err(e),
    }
}

/// What `invokevirtual` resolves: the index must lead to a `Methodref`; the
/// result is the owning class name and the method's (name, descriptor) pair.
pub open spec fn spec_resolve_invokevirtual(pool: Seq<CpEntryModel>, index: u16) -> Result<
    (Seq<char>, Seq<char>, Seq<char>),
    JvmError,
> {
    match spec_get(pool, index) {
        Ok(CpEntryModel::Methodref { class_index, name_and_type_index }) => {
            match spec_get_class_name(pool, class_index) {
                Ok(class_name) => match spec_get_name_and_type(pool, name_and_type_index) {
                    Ok((name, descriptor)) => Ok((class_name, name, descriptor)),
                    Err(e) => Err(e),
                },
                Err(e) => Err(e),
            }
        },
        Ok(_) => Err(JvmError::ConstantPoolTypeMismatch),
        Err(e) => Err(e),
    }
}

/// Run the instruction stream from `pos`: the lines it prints, and how it
/// ends. Execution stops, successfully, once the final byte of the stream is
/// the only one left unconsumed. On a failing step the printed lines are
/// those of the steps before it.
pub open spec fn spec_run(
    pool: Seq<CpEntryModel>,
    code: Seq<u8>,
    pos: int,
    stack: Seq<OperandModel>,
) -> (Seq<Seq<char>>, Result<(), JvmError>)
    decreases code.len() - pos,
{
    if pos + 1 >= code.len() {
        (Seq::empty(), Ok(()))
    } else {
        let op = code[pos];
        if op == OPCODE_GETSTATIC {
            if pos + 3 <= code.len() {
                match spec_resolve_getstatic(pool, u16_at(code, pos + 1) as u16) {
                    Ok(descriptor) => spec_run(
                        pool,
                        code,
                        pos + 3,
                        stack.push(OperandModel::ClassInstance { class_name: descriptor }),
                    ),
                    Err(e) => (Seq::empty(), Err(e)),
                }
            } else {
                (Seq::empty(), Err(JvmError::IoError))
            }
        } else if op == OPCODE_LDC {
            if pos + 2 <= code.len() {
                match spec_resolve_ldc(pool, code[pos + 1] as u16) {
                    Ok(text) => spec_run(
                        pool,
                        code,
                        pos + 2,
                        stack.push(OperandModel::String { text }),
                    ),
                    Err(e) => (Seq::empty(), Err(e)),
                }
            } else {
                (Seq::empty(), Err(JvmError::IoError))
            }
        } else if op == OPCODE_INVOKEVIRTUAL {
            if pos + 3 <= code.len() {
                match spec_resolve_invokevirtual(pool, u16_at(code, pos + 1) as u16) {
                    Ok((class_name, name, descriptor)) => {
                        if class_name == "java/io/PrintStream"@ && name == "println"@ && descriptor
                            == "(Ljava/lang/String;)V"@ {
                            if stack.len() > 0 {
                                match stack.last() {
                                    OperandModel::String { text } => {
                                        let popped = stack.subrange(0, stack.len() - 1);
                                        let rest = if popped.len() > 0 {
                                            popped.subrange(0, popped.len() - 1)
                                        } else {
                                            popped
                                        };
                                        let (out, outcome) = spec_run(pool, code, pos + 3, rest);
                                        (seq![text] + out, outcome)
                                    },
                                    _ => (Seq::empty(), Err(JvmError::UnsupportedFeature)),
                                }
                            } else {
                                (Seq::empty(), Err(JvmError::UnsupportedFeature))
                            }
                        } else {
                            (Seq::empty(), Err(JvmError::UnsupportedFeature))
                        }
                    },
                    Err(e) => (Seq::empty(), Err(e)),
                }
            } else {
                (Seq::empty(), Err(JvmError::IoError))
            }
        } else {
            (Seq::empty(), Err(JvmError::UnimplementedOpcode))
        }
    }
}

/// The first method named `main`, if any.
pub open spec fn spec_find_main(methods: Seq<MethodModel>) -> Option<MethodModel>
    decreases methods.len(),
{
    if methods.len() == 0 {
        None
    } else if methods[0].name == "main"@ {
        Some(methods[0])
    } else {
        spec_find_main(methods.drop_first())
    }
}

/// The first attribute carrying a `Code` payload, if any.
pub open spec fn spec_find_code(attrs: Seq<AttributeModel>) -> Option<AttributeModel>
    decreases attrs.len(),
{
    if attrs.len() == 0 {
        None
    } else if attrs[0].attribute is Code {
        Some(attrs[0])
    } else {
        spec_find_code(attrs.drop_first())
    }
}

/// Run the class's `main` method: the lines it prints and how it ends. A
/// class without a `main` method, or a `main` without a `Code` attribute, is
/// unsupported.
pub open spec fn spec_run_main(c: ClassFileModel) -> (Seq<Seq<char>>, Result<(), JvmError>) {
    match spec_find_main(c.methods) {
        None => (Seq::empty(), Err(JvmError::UnsupportedFeature)),
        Some(m) => match spec_find_code(m.attributes) {
            None => (Seq::empty(), Err(JvmError::UnsupportedFeature)),
            Some(a) => match a.attribute {
                AttributeKindModel::Code { code, .. } => spec_run(
                    c.constant_pool,
                    code,
                    0,
                    Seq::empty(),
                ),
                _ => (Seq::empty(), Err(JvmError::UnsupportedFeature)),
            },
        },
    }
}

impl ClassFile {
    /// The first method named `main`, if any.
    pub fn get_main_method(&self) -> (res: Option<&MethodInfo>)
        ensures
            (match spec_find_main(methods_model(self.methods@)) {
                Some(m) => res is Some && method_model(*res->0) == m,
                None => res is None,
            }),
    {
        let ghost ms = methods_model(self.methods@);
        let needle = String::from_str("main");
        let mut i: usize = 0;
        proof {
            assert(ms.skip(0) =~= ms);
        }
        while i < self.methods.len()
            invariant
                i <= self.methods@.len(),
                ms == methods_model(self.methods@),
                needle@ == "main"@,
                spec_find_main(ms) == spec_find_main(ms.skip(i as int)),
            decreases self.methods@.len() - i,
        {
            if self.methods[i].name == needle {
                proof {
                    assert(ms.skip(i as int)[0] == method_model(self.methods@[i as int]));
                }
                return Some(&self.methods[i]);
            }
            proof {
                assert(ms.skip(i as int).drop_first() =~= ms.skip(i + 1));
            }
            i = i + 1;
        }
        proof {
            assert(ms.skip(i as int).len() == 0);
        }
        None
    }
}

impl MethodInfo {
    /// The first of this method's attributes that carries a `Code` payload.
    pub fn get_code(&self) -> (res: Option<&AttributeInfo>)
        ensures
            (match spec_find_code(attrs_model(self.attributes@)) {
                Some(m) => res is Some && attr_model(*res->0) == m,
                None => res is None,
            }),
    {
        let ghost ats = attrs_model(self.attributes@);
        proof {
            lemma_attrs_model_len(self.attributes@);
        }
        let mut i: usize = 0;
        proof {
            assert(ats.skip(0) =~= ats);
        }
        while i < self.attributes.len()
            invariant
                i <= self.attributes@.len(),
                ats == attrs_model(self.attributes@),
                ats.len() == self.attributes@.len(),
                spec_find_code(ats) == spec_find_code(ats.skip(i as int)),
            decreases self.attributes@.len() - i,
        {
            proof {
                lemma_attrs_model_index(self.attributes@, i as int);
                assert(ats.skip(i as int)[0] == attr_model(self.attributes@[i as int]));
            }
            match &self.attributes[i].attribute {
                AttributeKind::Code { .. } => {
                    return Some(&self.attributes[i]);
                },
                _ => {},
            }
            proof {
                assert(ats.skip(i as int).drop_first() =~= ats.skip(i + 1));
            }
            i = i + 1;
        }
        proof {
            assert(ats.skip(i as int).len() == 0);
        }
        None
    }
}

/// Resolve a `getstatic` operand through the pool.
fn resolve_getstatic(pool: &Vec<ConstantPoolInfo>, index: u16) -> (res: Result<String, JvmError>)
    ensures
        (match spec_resolve_getstatic(pool_model(pool@), index) {
            Ok(descriptor) => res is Ok && res->Ok_0@ == descriptor,
            Err(e) => res is Err && res->Err_0 == e,
        }),
{
    let field_ref = match pool.get_value(index) {
        Ok(v) => v,
        Err(e) => {
            return Err(e);
        },
    };
    let (class_index, name_and_type_index) = match field_ref {
        ConstantPoolInfo::Fieldref { class_index, name_and_type_index } => (
            *class_index,
            *name_and_type_index,
        ),
        _ => {
            return Err(JvmError::ConstantPoolTypeMismatch);
        },
    };
    match pool.get_class_name_from_index(class_index) {
        Ok(_) => {},
        Err(e) => {
            return Err(e);
        },
    }
    let name_and_type = match pool.get_name_and_type(name_and_type_index) {
        Ok(v) => v,
        Err(e) => {
            return Err(e);
        },
    };
    Ok(name_and_type.1.clone())
}

/// Resolve an `ldc` operand through the pool.
fn resolve_ldc(pool: &Vec<ConstantPoolInfo>, index: u16) -> (res: Result<String, JvmError>)
    ensures
        (match spec_resolve_ldc(pool_model(pool@), index) {
            Ok(text) => res is Ok && res->Ok_0@ == text,
            Err(e) => res is Err && res->Err_0 == e,
        }),
{
    let entry = match pool.get_value(index) {
        Ok(v) => v,
        Err(e) => {
            return Err(e);
        },
    };
    let string_index = match entry {
        ConstantPoolInfo::String { string_index } => *string_index,
        _ => {
            return Err(JvmError::UnsupportedFeature);
        },
    };
    match pool.get_utf8_from_index(string_index) {
        Ok(s) => Ok(s.clone()),
        Err(e) => Err(e),
    }
}

/// Resolve an `invokevirtual` operand through the pool.
fn resolve_invokevirtual(pool: &Vec<ConstantPoolInfo>, index: u16) -> (res: Result<
    (String, String, String),
    JvmError,
>)
    ensures
        (match spec_resolve_invokevirtual(pool_model(pool@), index) {
            Ok((class_name, name, descriptor)) => res is Ok && res->Ok_0.0@ == class_name
                && res->Ok_0.1@ == name && res->Ok_0.2@ == descriptor,
            Err(e) => res is Err && res->Err_0 == e,
        }),
{
    let method_ref = match pool.get_value(index) {
        Ok(v) => v,
        Err(e) => {
            return Err(e);
        },
    };
    let (class_index, name_and_type_index) = match method_ref {
        ConstantPoolInfo::Methodref { class_index, name_and_type_index } => (
            *class_index,
            *name_and_type_index,
        ),
        _ => {
            return Err(JvmError::ConstantPoolTypeMismatch);
        },
    };
    let class_name = match pool.get_class_name_from_index(class_index) {
        Ok(v) => v.clone(),
        Err(e) => {
            return Err(e);
        },
    };
    let name_and_type = match pool.get_name_and_type(name_and_type_index) {
        Ok(v) => v,
        Err(e) => {
            return Err(e);
        },
    };
    Ok((class_name, name_and_type.0.clone(), name_and_type.1.clone()))
}

/// Run the class's `main` method, appending each printed line to `out`. On
/// an error, `out` holds exactly the lines of the steps that preceded it.
#[verifier::rlimit(100)]
pub fn run_main(class: &ClassFile, out: &mut Vec<String>) -> (res: Result<(), JvmError>)
    ensures
        lines_model(final(out)@) == lines_model(old(out)@) + spec_run_main(
            class_file_model(*class),
        ).0,
        res == spec_run_main(class_file_model(*class)).1,
{
    proof {
        assert(lines_model(old(out)@) + Seq::<Seq<char>>::empty() =~= lines_model(old(out)@));
    }
    let main = match class.get_main_method() {
        Some(m) => m,
        None => {
            return Err(JvmError::UnsupportedFeature);
        },
    };
    let code_attribute = match main.get_code() {
        Some(a) => a,
        None => {
            return Err(JvmError::UnsupportedFeature);
        },
    };
    let code: &Vec<u8> = match &code_attribute.attribute {
        AttributeKind::Code { code, .. } => code,
        _ => {
            return Err(JvmError::UnsupportedFeature);
        },
    };
    let ghost pool = pool_model(class.constant_pool@);
    let len = code.len();
    let mut operand_stack: Vec<OperandStackEntry> = Vec::new();
    let mut pos: usize = 0;
    let ghost mut emitted: Seq<Seq<char>> = Seq::empty();
    proof {
        assert(stack_model(operand_stack@) =~= Seq::<OperandModel>::empty());
        assert(lines_model(out@) =~= lines_model(old(out)@) + emitted);
    }
    while len - pos > 1
        invariant
            pos <= len,
            len == code@.len(),
            pool == pool_model(class.constant_pool@),
            lines_model(out@) == lines_model(old(out)@) + emitted,
            spec_run_main(class_file_model(*class)) == ({
                let (o2, r2) = spec_run(pool, code@, pos as int, stack_model(operand_stack@));
                (emitted + o2, r2)
            }),
        decreases len - pos,
    {
        let instruction = code[pos];
        let ghost stack0 = stack_model(operand_stack@);
        if instruction == OPCODE_GETSTATIC {
            if len - pos < 3 {
                return Err(JvmError::IoError);
            }
            let field_ref_index = (code[pos + 1] as u16) * 0x100 + (code[pos + 2] as u16);
            let descriptor = match resolve_getstatic(&class.constant_pool, field_ref_index) {
                Ok(v) => v,
                Err(e) => {
                    return Err(e);
                },
            };
            let entry = OperandStackEntry::ClassInstance(
                Instance { class_name: descriptor },
            );
            proof {
                assert(stack_model(operand_stack@.push(entry)) =~= stack0.push(
                    operand_model(entry),
                ));
                assert(emitted + Seq::<Seq<char>>::empty() =~= emitted);
            }
            operand_stack.push(entry);
            pos = pos + 3;
        } else if instruction == OPCODE_LDC {
            if len - pos < 2 {
                return Err(JvmError::IoError);
            }
            let constant_index = code[pos + 1];
            let text = match resolve_ldc(&class.constant_pool, constant_index as u16) {
                Ok(v) => v,
                Err(e) => {
                    return Err(e);
                },
            };
            let entry = OperandStackEntry::String(text);
            proof {
                assert(stack_model(operand_stack@.push(entry)) =~= stack0.push(
                    operand_model(entry),
                ));
                assert(emitted + Seq::<Seq<char>>::empty() =~= emitted);
            }
            operand_stack.push(entry);
            pos = pos + 2;
        } else if instruction == OPCODE_INVOKEVIRTUAL {
            if len - pos < 3 {
                return Err(JvmError::IoError);
            }
            let method_index = (code[pos + 1] as u16) * 0x100 + (code[pos + 2] as u16);
            let resolved = match resolve_invokevirtual(&class.constant_pool, method_index) {
                Ok(v) => v,
                Err(e) => {
                    return Err(e);
                },
            };
            let (field_class, method_name, method_descriptor) = resolved;
            if field_class == String::from_str("java/io/PrintStream") && method_name
                == String::from_str("println") && method_descriptor == String::from_str(
                "(Ljava/lang/String;)V",
            ) {
                if operand_stack.len() == 0 {
                    proof {
                        assert(emitted + Seq::<Seq<char>>::empty() =~= emitted);
                    }
                    return Err(JvmError::UnsupportedFeature);
                }
                let top = operand_stack.pop().unwrap();
                let string = match top {
                    OperandStackEntry::String(s) => s,
                    _ => {
                        proof {
                            assert(emitted + Seq::<Seq<char>>::empty() =~= emitted);
                        }
                        return Err(JvmError::UnsupportedFeature);
                    },
                };
                if operand_stack.len() > 0 {
                    let _instance = operand_stack.pop();
                }
                proof {
                    assert(stack_model(operand_stack@) =~= ({
                        let popped = stack0.subrange(0, stack0.len() - 1);
                        if popped.len() > 0 {
                            popped.subrange(0, popped.len() - 1)
                        } else {
                            popped
                        }
                    }));
                    assert(lines_model(out@.push(string)) =~= lines_model(out@).push(string@));
                    assert(lines_model(old(out)@) + emitted.push(string@) =~= (lines_model(
                        old(out)@,
                    ) + emitted).push(string@));
                }
                out.push(string);
                proof {
                    emitted = emitted.push(string@);
                }
                pos = pos + 3;
            } else {
                proof {
                    assert(emitted + Seq::<Seq<char>>::empty() =~= emitted);
                }
                return Err(JvmError::UnsupportedFeature);
            }
        } else {
            proof {
                assert(emitted + Seq::<Seq<char>>::empty() =~= emitted);
            }
            return Err(JvmError::UnimplementedOpcode);
        }
    }
    proof {
        assert(emitted + Seq::<Seq<char>>::empty() =~= emitted);
    }
    Ok(())
}

} // verus!
