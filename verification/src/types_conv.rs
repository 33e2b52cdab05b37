//! Conversion of types into construction operations.

use vstd::prelude::*;
use crate::context::ToLLVMContext;
use crate::ir::{FPType, NamedStructDef, Type, Types};
use crate::plan::{extends, ConvertError, Op};

verus! {

/// The named struct definitions, as a sequence.
pub type Defs = Seq<(String, NamedStructDef)>;

/// The operation that makes a floating-point type.
pub open spec fn fp_op(fp: FPType) -> Op {
    match fp {
        FPType::Half => Op::HalfType,
        FPType::BFloat => Op::BFloatType,
        FPType::Single => Op::FloatType,
        FPType::Double => Op::DoubleType,
        FPType::FP128 => Op::FP128Type,
        FPType::X86_FP80 => Op::X86FP80Type,
        FPType::PPC_FP128 => Op::PPCFP128Type,
    }
}

/// The operation that makes a vector type of `n` elements of the type on
/// top of the stack, scalable or not.
pub open spec fn vector_op(n: u32, scalable: bool) -> Op {
    if scalable {
        Op::ScalableVectorType(n)
    } else {
        Op::VectorType(n)
    }
}

/// The position of the first definition of a named struct at or after `i`,
/// or -1 if there is none.
pub open spec fn first_def(defs: Defs, name: Seq<char>, i: int) -> int
    decreases defs.len() - i,
{
    if i < 0 || i >= defs.len() {
        -1
    } else if defs[i].0@ == name {
        i
    } else {
        first_def(defs, name, i + 1)
    }
}

/// The position of the first operation of `acc`, at or after `i`, that
/// makes the named struct `name`, or -1 if there is none.
pub open spec fn struct_made(acc: Seq<Op>, name: Seq<char>, i: int) -> int
    decreases acc.len() - i,
{
    if i < 0 || i >= acc.len() {
        -1
    } else if acc[i] is NamedStruct && acc[i]->NamedStruct_0@ == name {
        i
    } else {
        struct_made(acc, name, i + 1)
    }
}

/// The handle of the operation of `acc` that makes the named struct
/// `name`, if there is one.
pub open spec fn struct_handle(acc: Seq<Op>, name: Seq<char>) -> Option<usize> {
    let m = struct_made(acc, name, 0);
    if 0 <= m <= usize::MAX {
        Some(m as usize)
    } else {
        None
    }
}

/// What `struct_made` finds is an operation that makes a named struct.
pub proof fn lemma_struct_made(acc: Seq<Op>, name: Seq<char>, i: int)
    requires
        0 <= i,
    ensures
        struct_made(acc, name, i) == -1 || (i <= struct_made(acc, name, i) < acc.len()
            && acc[struct_made(acc, name, i)] is NamedStruct
            && acc[struct_made(acc, name, i)]->NamedStruct_0@ == name),
    decreases acc.len() - i,
{
    if i < acc.len() && !(acc[i] is NamedStruct && acc[i]->NamedStruct_0@ == name) {
        lemma_struct_made(acc, name, i + 1);
    }
}

/// The operations that make type `t`, appended to `acc`. `stack` holds the
/// positions of the named struct definitions being expanded. A named struct
/// is made once, where it is first used, with its body when it has a
/// definition; every later use refers to that struct.
pub open spec fn type_code(defs: Defs, stack: Seq<usize>, acc: Seq<Op>, t: Type) -> Result<Seq<Op>, ConvertError>
    decreases defs.len() - stack.len(), t, 0int,
{
    match t {
        Type::VoidType => Ok(acc.push(Op::VoidType)),
        Type::IntegerType { bits } => Ok(acc.push(Op::IntType(bits))),
        Type::PointerType { addr_space } => Ok(acc.push(Op::PointerType(addr_space))),
        Type::FPType(fp) => Ok(acc.push(fp_op(fp))),
        Type::FuncType { result_type, param_types, is_var_arg } => {
            match type_code(defs, stack, acc, *result_type) {
                Ok(a1) => match types_code(defs, stack, a1, param_types@, 0) {
                    Ok(a2) => Ok(
                        a2.push(Op::FunctionType { param_count: param_types.len(), is_var_arg }),
                    ),
                    Err(e) => Err(e),
                },
                Err(e) => Err(e),
            }
        },
        Type::VectorType { element_type, num_elements, scalable } => {
            match type_code(defs, stack, acc, *element_type) {
                Ok(a1) => Ok(a1.push(vector_op(num_elements as u32, scalable))),
                Err(e) => Err(e),
            }
        },
        Type::ArrayType { element_type, num_elements } => {
            match type_code(defs, stack, acc, *element_type) {
                Ok(a1) => Ok(a1.push(Op::ArrayType(num_elements as u32))),
                Err(e) => Err(e),
            }
        },
        Type::StructType { element_types, is_packed } => {
            match types_code(defs, stack, acc, element_types@, 0) {
                Ok(a1) => Ok(
                    a1.push(Op::StructType { element_count: element_types.len(), is_packed }),
                ),
                Err(e) => Err(e),
            }
        },
        Type::NamedStructType { name } => {
            let i = first_def(defs, name@, 0);
            let a0 = acc.push(Op::NamedStruct(name));
            if let Some(h) = struct_handle(acc, name@) {
                Ok(acc.push(Op::Value(h)))
            } else if 0 <= i < defs.len() {
                match defs[i].1 {
                    NamedStructDef::Defined(Type::StructType { element_types, is_packed }) => {
                        if stack.contains(i as usize) || stack.len() >= defs.len() {
                            Err(ConvertError::NamedStructCycle(name))
                        } else {
                            match types_code(defs, stack.push(i as usize), a0, element_types@, 0) {
                                Ok(a1) => Ok(
                                    a1.push(
                                        Op::SetStructBody {
                                            element_count: element_types.len(),
                                            is_packed,
                                        },
                                    ),
                                ),
                                Err(e) => Err(e),
                            }
                        }
                    },
                    _ => Ok(a0),
                }
            } else {
                Ok(a0)
            }
        },
        Type::X86_MMXType => Ok(acc.push(Op::X86MMXType)),
        Type::X86_AMXType => Ok(acc.push(Op::X86AMXType)),
        Type::MetadataType => Ok(acc.push(Op::MetadataType)),
        Type::LabelType => Ok(acc.push(Op::LabelType)),
        Type::TokenType => Ok(acc.push(Op::TokenType)),
        Type::TargetExtType => Err(ConvertError::TargetExtTypeUnsupported),
    }
}

/// The operations that make the types `ts[i..]`, in order, appended to
/// `acc`; the first refusal ends the sequence.
pub open spec fn types_code(defs: Defs, stack: Seq<usize>, acc: Seq<Op>, ts: Seq<Type>, i: int) -> Result<Seq<Op>, ConvertError>
    decreases defs.len() - stack.len(), ts, ts.len() - i,
{
    if 0 <= i < ts.len() {
        match type_code(defs, stack, acc, ts[i]) {
            Ok(a1) => types_code(defs, stack, a1, ts, i + 1),
            Err(e) => Err(e),
        }
    } else {
        Ok(acc)
    }
}

/// The operations that make the function type with the given result and
/// parameter types.
pub open spec fn fn_type_code(defs: Defs, acc: Seq<Op>, result: Type, params: Seq<Type>, is_var_arg: bool) -> Result<Seq<Op>, ConvertError> {
    match type_code(defs, Seq::empty(), acc, result) {
        Ok(a1) => match types_code(defs, Seq::empty(), a1, params, 0) {
            Ok(a2) => Ok(a2.push(Op::FunctionType { param_count: params.len() as usize, is_var_arg })),
            Err(e) => Err(e),
        },
        Err(e) => Err(e),
    }
}

/// The position of the first definition of a named struct.
fn find_def(defs: &Vec<(String, NamedStructDef)>, name: &String) -> (r: Option<usize>)
    ensures
        match r {
            Some(i) => i < defs@.len() && first_def(defs@, name@, 0) == i,
            None => first_def(defs@, name@, 0) == -1,
        },
{
    let mut i: usize = 0;
    while i < defs.len()
        invariant
            i <= defs@.len(),
            first_def(defs@, name@, 0) == first_def(defs@, name@, i as int),
        decreases defs@.len() - i,
    {
        if defs[i].0 == *name {
            return Some(i);
        }
        i = i + 1;
    }
    None
}

/// The position of the first operation of `out` that makes the named
/// struct `name`.
fn find_struct(out: &Vec<Op>, name: &String) -> (r: Option<usize>)
    ensures
        match r {
            Some(h) => h < out@.len() && struct_made(out@, name@, 0) == h,
            None => struct_made(out@, name@, 0) == -1,
        },
{
    let mut i: usize = 0;
    while i < out.len()
        invariant
            i <= out@.len(),
            struct_made(out@, name@, 0) == struct_made(out@, name@, i as int),
        decreases out@.len() - i,
    {
        let same = match &out[i] {
            Op::NamedStruct(n) => *n == *name,
            _ => false,
        };
        if same {
            return Some(i);
        }
        i = i + 1;
    }
    None
}

fn stack_has(stack: &Vec<usize>, i: usize) -> (r: bool)
    ensures
        r == stack@.contains(i),
{
    let mut j: usize = 0;
    while j < stack.len()
        invariant
            j <= stack@.len(),
            forall|k: int| 0 <= k < j ==> stack@[k] != i,
        decreases stack@.len() - j,
    {
        if stack[j] == i {
            assert(stack@[j as int] == i);
            return true;
        }
        j = j + 1;
    }
    false
}

/// Appends the operations that make `t`.
pub fn emit_type(defs: &Vec<(String, NamedStructDef)>, stack: &mut Vec<usize>, out: &mut Vec<Op>, t: &Type) -> (r: Result<(), ConvertError>)
    ensures
        extends(final(out)@, old(out)@),
        final(stack)@ == old(stack)@,
        match r {
            Ok(_) => type_code(defs@, old(stack)@, old(out)@, *t) == Ok::<Seq<Op>, ConvertError>(final(out)@),
            Err(e) => type_code(defs@, old(stack)@, old(out)@, *t) == Err::<Seq<Op>, ConvertError>(e),
        },
    decreases defs@.len() - old(stack)@.len(), *t, 0int,
{
    match t {
        Type::VoidType => { out.push(Op::VoidType); Ok(()) },
        Type::IntegerType { bits } => { out.push(Op::IntType(*bits)); Ok(()) },
        Type::PointerType { addr_space } => { out.push(Op::PointerType(*addr_space)); Ok(()) },
        Type::FPType(fp) => {
            let op = match fp {
                FPType::Half => Op::HalfType,
                FPType::BFloat => Op::BFloatType,
                FPType::Single => Op::FloatType,
                FPType::Double => Op::DoubleType,
                FPType::FP128 => Op::FP128Type,
                FPType::X86_FP80 => Op::X86FP80Type,
                FPType::PPC_FP128 => Op::PPCFP128Type,
            };
            out.push(op);
            Ok(())
        },
        Type::FuncType { result_type, param_types, is_var_arg } => {
            emit_type(defs, stack, out, result_type)?;
            emit_types(defs, stack, out, param_types)?;
            out.push(Op::FunctionType { param_count: param_types.len(), is_var_arg: *is_var_arg });
            Ok(())
        },
        Type::VectorType { element_type, num_elements, scalable } => {
            emit_type(defs, stack, out, element_type)?;
            if *scalable {
                out.push(Op::ScalableVectorType(*num_elements as u32));
            } else {
                out.push(Op::VectorType(*num_elements as u32));
            }
            Ok(())
        },
        Type::ArrayType { element_type, num_elements } => {
            emit_type(defs, stack, out, element_type)?;
            out.push(Op::ArrayType(*num_elements as u32));
            Ok(())
        },
        Type::StructType { element_types, is_packed } => {
            emit_types(defs, stack, out, element_types)?;
            out.push(Op::StructType { element_count: element_types.len(), is_packed: *is_packed });
            Ok(())
        },
        Type::NamedStructType { name } => {
            match find_struct(out, name) {
                Some(h) => {
                    out.push(Op::Value(h));
                    return Ok(());
                },
                None => {},
            }
            let found = find_def(defs, name);
            out.push(Op::NamedStruct(name.clone()));
            match found {
                Some(i) => match &defs[i].1 {
                    NamedStructDef::Defined(Type::StructType { element_types, is_packed }) => {
                        if stack_has(stack, i) || stack.len() >= defs.len() {
                            return Err(ConvertError::NamedStructCycle(name.clone()));
                        }
                        stack.push(i);
                        let r = emit_types(defs, stack, out, element_types);
                        stack.pop();
                        assert(stack@ =~= old(stack)@);
                        r?;
                        out.push(Op::SetStructBody { element_count: element_types.len(), is_packed: *is_packed });
                        Ok(())
                    },
                    _ => Ok(()),
                },
                None => Ok(()),
            }
        },
        Type::X86_MMXType => { out.push(Op::X86MMXType); Ok(()) },
        Type::X86_AMXType => { out.push(Op::X86AMXType); Ok(()) },
        Type::MetadataType => { out.push(Op::MetadataType); Ok(()) },
        Type::LabelType => { out.push(Op::LabelType); Ok(()) },
        Type::TokenType => { out.push(Op::TokenType); Ok(()) },
        Type::TargetExtType => Err(ConvertError::TargetExtTypeUnsupported),
    }
}

/// Appends the operations that make the types `ts`, in order.
pub fn emit_types(defs: &Vec<(String, NamedStructDef)>, stack: &mut Vec<usize>, out: &mut Vec<Op>, ts: &Vec<Type>) -> (r: Result<(), ConvertError>)
    ensures
        extends(final(out)@, old(out)@),
        final(stack)@ == old(stack)@,
        match r {
            Ok(_) => types_code(defs@, old(stack)@, old(out)@, ts@, 0) == Ok::<Seq<Op>, ConvertError>(final(out)@),
            Err(e) => types_code(defs@, old(stack)@, old(out)@, ts@, 0) == Err::<Seq<Op>, ConvertError>(e),
        },
    decreases defs@.len() - old(stack)@.len(), ts@, ts@.len() + 1,
{
    let ghost st0 = stack@;
    let ghost out0 = out@;
    let mut i: usize = 0;
    while i < ts.len()
        invariant
            extends(out@, old(out)@),
            i <= ts@.len(),
            stack@ == st0,
            st0 == old(stack)@,
            out0 == old(out)@,
            types_code(defs@, st0, out0, ts@, 0) == types_code(defs@, st0, out@, ts@, i as int),
        decreases ts@.len() - i,
    {
        emit_type(defs, stack, out, &ts[i])?;
        i = i + 1;
    }
    Ok(())
}

/// Appends the operations that make `t`, with no named struct being expanded.
pub fn emit_type_top(defs: &Vec<(String, NamedStructDef)>, out: &mut Vec<Op>, t: &Type) -> (r: Result<(), ConvertError>)
    ensures
        extends(final(out)@, old(out)@),
        match r {
            Ok(_) => type_code(defs@, Seq::empty(), old(out)@, *t) == Ok::<Seq<Op>, ConvertError>(final(out)@),
            Err(e) => type_code(defs@, Seq::empty(), old(out)@, *t) == Err::<Seq<Op>, ConvertError>(e),
        },
{
    let mut stack: Vec<usize> = Vec::new();
    assert(stack@ =~= Seq::<usize>::empty());
    emit_type(defs, &mut stack, out, t)
}

impl Type {
    /// Appends to the context's program the operations that make this type.
    /// A failed conversion leaves the context as it was.
    pub fn to_llvm_type(&self, ctx: &mut ToLLVMContext, types: &Types) -> (r: Result<(), ConvertError>)
        requires
            old(ctx).wf(),
        ensures
            extends(final(ctx).ops@, old(ctx).ops@),
            final(ctx).wf(),
            final(ctx).module_name == old(ctx).module_name,
            final(ctx).value_map == old(ctx).value_map,
            final(ctx).bb_map == old(ctx).bb_map,
            r is Err ==> final(ctx).ops@ == old(ctx).ops@,
            match r {
                Ok(_) => type_code(types.named_structs@, Seq::empty(), old(ctx).ops@, *self) == Ok::<Seq<Op>, ConvertError>(final(ctx).ops@),
                Err(e) => type_code(types.named_structs@, Seq::empty(), old(ctx).ops@, *self) == Err::<Seq<Op>, ConvertError>(e),
            },
    {
        let n = ctx.ops.len();
        let r = emit_type_top(&types.named_structs, &mut ctx.ops, self);
        if r.is_err() {
            ctx.discard_from(n);
            assert(ctx.ops@ =~= old(ctx).ops@);
        }
        r
    }
}

} // verus!
