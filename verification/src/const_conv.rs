//! Conversion of constants and operands into construction operations, and
//! the types of constants.

use vstd::prelude::*;
use crate::context::ToLLVMContext;
use crate::ir::{float_format, Constant, Float, Name, NameKey, Operand, Type, Types};
use crate::llvm_codes::{int_predicate_code, real_predicate_code};
use crate::name_map::NameMap;
use crate::plan::{extends, ConvertError, Op};
use crate::types_conv::{emit_type_top, fp_op, type_code, Defs};

verus! {

/// The position of the first operation of `acc`, at or after `i`, that
/// makes a basic block named `b` of the function made at `f`, or -1 if
/// there is none.
pub open spec fn block_made(acc: Seq<Op>, f: usize, b: Name, i: int) -> int
    decreases acc.len() - i,
{
    if i < 0 || i >= acc.len() {
        -1
    } else if acc[i] is AppendBasicBlock && acc[i]->AppendBasicBlock_function == f
        && acc[i]->AppendBasicBlock_name.key() == b.key() {
        i
    } else {
        block_made(acc, f, b, i + 1)
    }
}

/// The handle of the basic block named `b` of the function made at `f`,
/// if `acc` has made it.
pub open spec fn block_handle(acc: Seq<Op>, f: usize, b: Name) -> Option<usize> {
    let m = block_made(acc, f, b, 0);
    if 0 <= m <= usize::MAX {
        Some(m as usize)
    } else {
        None
    }
}

/// What `block_made` finds is an operation that makes a basic block.
pub proof fn lemma_block_made(acc: Seq<Op>, f: usize, b: Name, i: int)
    requires
        0 <= i,
    ensures
        block_made(acc, f, b, i) == -1 || (i <= block_made(acc, f, b, i) < acc.len()
            && acc[block_made(acc, f, b, i)] is AppendBasicBlock),
    decreases acc.len() - i,
{
    if i < acc.len() && !(acc[i] is AppendBasicBlock && acc[i]->AppendBasicBlock_function == f
        && acc[i]->AppendBasicBlock_name.key() == b.key()) {
        lemma_block_made(acc, f, b, i + 1);
    }
}

/// The position of the first operation of `out` that makes the basic block
/// named `b` of the function made at `f`.
fn find_block(out: &Vec<Op>, f: usize, b: &Name) -> (r: Option<usize>)
    ensures
        r == block_handle(out@, f, *b),
{
    let mut i: usize = 0;
    while i < out.len()
        invariant
            i <= out@.len(),
            block_made(out@, f, *b, 0) == block_made(out@, f, *b, i as int),
        decreases out@.len() - i,
    {
        let same = match &out[i] {
            Op::AppendBasicBlock { function, name } => *function == f && name.same_as(b),
            _ => false,
        };
        if same {
            return Some(i);
        }
        i = i + 1;
    }
    None
}

/// The operations that make constant `c`, appended to `acc`; `values` gives
/// the handles of the values made so far, by name.
pub open spec fn const_code(defs: Defs, values: Map<NameKey, usize>, acc: Seq<Op>, c: Constant) -> Result<Seq<Op>, ConvertError>
    decreases c, 0int,
{
    match c {
        Constant::Int { bits, value } => Ok(acc.push(Op::IntType(bits)).push(Op::ConstInt(value))),
        Constant::Float(f) => match f {
            Float::Single(b) => Ok(acc.push(Op::FloatType).push(Op::ConstSingle(b))),
            Float::Double(b) => Ok(acc.push(Op::DoubleType).push(Op::ConstDouble(b))),
            _ => Ok(acc.push(fp_op(float_format(f))).push(Op::ConstNull)),
        },
        Constant::Null(t) => match type_code(defs, Seq::empty(), acc, t) {
            Ok(a1) => Ok(a1.push(Op::ConstNull)),
            Err(e) => Err(e),
        },
        Constant::AggregateZero(t) => match type_code(defs, Seq::empty(), acc, t) {
            Ok(a1) => Ok(a1.push(Op::ConstNull)),
            Err(e) => Err(e),
        },
        Constant::Struct { name, values: fields, is_packed } => match name {
            Some(n) => match type_code(defs, Seq::empty(), acc, Type::NamedStructType { name: n }) {
                Ok(a1) => match consts_code(defs, values, a1, fields@, 0) {
                    Ok(a2) => Ok(a2.push(Op::ConstNamedStruct { element_count: fields.len() })),
                    Err(e) => Err(e),
                },
                Err(e) => Err(e),
            },
            None => match consts_code(defs, values, acc, fields@, 0) {
                Ok(a1) => Ok(a1.push(Op::ConstStruct { element_count: fields.len(), is_packed })),
                Err(e) => Err(e),
            },
        },
        Constant::Array { element_type, elements } => {
            match type_code(defs, Seq::empty(), acc, element_type) {
                Ok(a1) => match consts_code(defs, values, a1, elements@, 0) {
                    Ok(a2) => Ok(a2.push(Op::ConstArray { element_count: elements.len() })),
                    Err(e) => Err(e),
                },
                Err(e) => Err(e),
            }
        },
        Constant::Vector(elements) => match consts_code(defs, values, acc, elements@, 0) {
            Ok(a1) => Ok(a1.push(Op::ConstVector { element_count: elements.len() })),
            Err(e) => Err(e),
        },
        Constant::Undef(t) => match type_code(defs, Seq::empty(), acc, t) {
            Ok(a1) => Ok(a1.push(Op::GetUndef)),
            Err(e) => Err(e),
        },
        Constant::GlobalReference { name, ty: _ } => {
            if values.contains_key(name.key()) {
                Ok(acc.push(Op::Value(values[name.key()])))
            } else {
                Err(ConvertError::GlobalReferenceNotFound(name))
            }
        },
        Constant::Poison(t) => match type_code(defs, Seq::empty(), acc, t) {
            Ok(a1) => Ok(a1.push(Op::GetPoison)),
            Err(e) => Err(e),
        },
        Constant::TokenNone => Ok(acc.push(Op::TokenType).push(Op::ConstNull)),
        Constant::BlockAddress { function, block } => {
            if values.contains_key(function.key()) {
                let f = values[function.key()];
                match block_handle(acc, f, block) {
                    Some(b) => Ok(acc.push(Op::Value(f)).push(Op::Value(b)).push(Op::ConstBlockAddress)),
                    None => Err(ConvertError::TargetBlockNotFound(block)),
                }
            } else {
                Err(ConvertError::GlobalReferenceNotFound(function))
            }
        },
        Constant::Binary { opcode, operand0, operand1 } => match const_code(defs, values, acc, *operand0) {
            Ok(a1) => match const_code(defs, values, a1, *operand1) {
                Ok(a2) => Ok(a2.push(Op::ConstBinary(opcode))),
                Err(e) => Err(e),
            },
            Err(e) => Err(e),
        },
        Constant::Cast { opcode, operand, to_type } => match const_code(defs, values, acc, *operand) {
            Ok(a1) => match type_code(defs, Seq::empty(), a1, to_type) {
                Ok(a2) => Ok(a2.push(Op::ConstCast(opcode))),
                Err(e) => Err(e),
            },
            Err(e) => Err(e),
        },
        Constant::ICmp { predicate, operand0, operand1 } => match const_code(defs, values, acc, *operand0) {
            Ok(a1) => match const_code(defs, values, a1, *operand1) {
                Ok(a2) => Ok(a2.push(Op::ConstICmp(int_predicate_code(predicate)))),
                Err(e) => Err(e),
            },
            Err(e) => Err(e),
        },
        Constant::FCmp { predicate, operand0, operand1 } => match const_code(defs, values, acc, *operand0) {
            Ok(a1) => match const_code(defs, values, a1, *operand1) {
                Ok(a2) => Ok(a2.push(Op::ConstFCmp(real_predicate_code(predicate)))),
                Err(e) => Err(e),
            },
            Err(e) => Err(e),
        },
        Constant::Select { condition, true_value, false_value } => match const_code(defs, values, acc, *condition) {
            Ok(a1) => match const_code(defs, values, a1, *true_value) {
                Ok(a2) => match const_code(defs, values, a2, *false_value) {
                    Ok(a3) => Ok(a3.push(Op::ConstSelect)),
                    Err(e) => Err(e),
                },
                Err(e) => Err(e),
            },
            Err(e) => Err(e),
        },
        Constant::GetElementPtr { address, indices, in_bounds, source_element_type } => {
            match const_code(defs, values, acc, *address) {
                Ok(a1) => match consts_code(defs, values, a1, indices@, 0) {
                    Ok(a2) => match type_code(defs, Seq::empty(), a2, source_element_type) {
                        Ok(a3) => Ok(a3.push(Op::ConstGEP { index_count: indices.len(), in_bounds })),
                        Err(e) => Err(e),
                    },
                    Err(e) => Err(e),
                },
                Err(e) => Err(e),
            }
        },
        Constant::ExtractElement { vector, index } => match const_code(defs, values, acc, *vector) {
            Ok(a1) => match const_code(defs, values, a1, *index) {
                Ok(a2) => Ok(a2.push(Op::ConstExtractElement)),
                Err(e) => Err(e),
            },
            Err(e) => Err(e),
        },
        Constant::InsertElement { vector, element, index } => match const_code(defs, values, acc, *vector) {
            Ok(a1) => match const_code(defs, values, a1, *element) {
                Ok(a2) => match const_code(defs, values, a2, *index) {
                    Ok(a3) => Ok(a3.push(Op::ConstInsertElement)),
                    Err(e) => Err(e),
                },
                Err(e) => Err(e),
            },
            Err(e) => Err(e),
        },
        Constant::ShuffleVector { operand0, operand1, mask } => match const_code(defs, values, acc, *operand0) {
            Ok(a1) => match const_code(defs, values, a1, *operand1) {
                Ok(a2) => match const_code(defs, values, a2, *mask) {
                    Ok(a3) => Ok(a3.push(Op::ConstShuffleVector)),
                    Err(e) => Err(e),
                },
                Err(e) => Err(e),
            },
            Err(e) => Err(e),
        },
        Constant::ExtractValue { aggregate, indices } => if indices@.len() == 0 {
            Err(ConvertError::AggregateIndicesEmpty)
        } else {
            match const_code(defs, values, acc, *aggregate) {
                Ok(a1) => Ok(extract_path(a1, indices@, 0, indices@.len() as int)),
                Err(e) => Err(e),
            }
        },
        Constant::InsertValue { aggregate, element, indices } => if indices@.len() == 0 {
            Err(ConvertError::AggregateIndicesEmpty)
        } else {
            match insert_loads(defs, values, acc, *aggregate, indices@, 0) {
                Ok(a1) => match const_code(defs, values, a1, *element) {
                    Ok(a2) => Ok(insert_stores(a2, indices@, indices@.len() as int)),
                    Err(e) => Err(e),
                },
                Err(e) => Err(e),
            }
        },
    }
}

/// Reading, one index at a time, the field at `idx[k..j]` of the aggregate
/// that `acc` leaves on top.
pub open spec fn extract_path(acc: Seq<Op>, idx: Seq<u32>, k: int, j: int) -> Seq<Op>
    decreases j - k,
{
    if k < j {
        extract_path(acc.push(Op::ConstExtractValue(idx[k])), idx, k + 1, j)
    } else {
        acc
    }
}

/// The aggregates that an insertion at the path `idx` works on, from the
/// `j`-th on: for each `j`, aggregate `agg` read down to its field at
/// `idx[..j]`.
pub open spec fn insert_loads(defs: Defs, values: Map<NameKey, usize>, acc: Seq<Op>, agg: Constant, idx: Seq<u32>, j: int) -> Result<Seq<Op>, ConvertError>
    decreases agg, idx.len() - j,
{
    if 0 <= j < idx.len() {
        match const_code(defs, values, acc, agg) {
            Ok(a1) => insert_loads(defs, values, extract_path(a1, idx, 0, j), agg, idx, j + 1),
            Err(e) => Err(e),
        }
    } else {
        Ok(acc)
    }
}

/// Inserting each value into the aggregate below it, at the indices
/// `idx[j - 1]`, ..., `idx[0]`, innermost first.
pub open spec fn insert_stores(acc: Seq<Op>, idx: Seq<u32>, j: int) -> Seq<Op>
    decreases j,
{
    if j > 0 {
        insert_stores(acc.push(Op::ConstInsertValue(idx[j - 1])), idx, j - 1)
    } else {
        acc
    }
}

/// The type of the field at the path `idx[k..]` of an aggregate whose type
/// `acc` leaves on top, one index at a time.
pub open spec fn field_type_path(acc: Seq<Op>, idx: Seq<u32>, k: int) -> Seq<Op>
    decreases idx.len() - k,
{
    if 0 <= k < idx.len() {
        field_type_path(acc.push(Op::FieldType(idx[k])), idx, k + 1)
    } else {
        acc
    }
}

/// The operations that make the constants `cs[i..]`, in order.
pub open spec fn consts_code(defs: Defs, values: Map<NameKey, usize>, acc: Seq<Op>, cs: Seq<Constant>, i: int) -> Result<Seq<Op>, ConvertError>
    decreases cs, cs.len() - i,
{
    if 0 <= i < cs.len() {
        match const_code(defs, values, acc, cs[i]) {
            Ok(a1) => consts_code(defs, values, a1, cs, i + 1),
            Err(e) => Err(e),
        }
    } else {
        Ok(acc)
    }
}

/// The operations that make the type of constant `c`. A vector constant's
/// type is that of its first element (an empty vector has none); an
/// arithmetic expression's, that of its first operand; a conversion's, its
/// target type; a comparison's, `i1` or a vector of `i1` as its operands
/// are scalars or vectors; a select's, that of its values; an address
/// computation's, that of its base address; an element's, the element type
/// of its vector; an insertion's, that of its vector; a shuffle's, a vector
/// as long as its mask of its first vector's element type; a block address
/// is a pointer.
pub open spec fn type_of_code(defs: Defs, acc: Seq<Op>, c: Constant) -> Result<Seq<Op>, ConvertError>
    decreases c, 0int,
{
    match c {
        Constant::Int { bits, value: _ } => Ok(acc.push(Op::IntType(bits))),
        Constant::Float(f) => Ok(acc.push(fp_op(float_format(f)))),
        Constant::Null(t) => type_code(defs, Seq::empty(), acc, t),
        Constant::AggregateZero(t) => type_code(defs, Seq::empty(), acc, t),
        Constant::Undef(t) => type_code(defs, Seq::empty(), acc, t),
        Constant::Poison(t) => type_code(defs, Seq::empty(), acc, t),
        Constant::Struct { name, values, is_packed } => match name {
            Some(n) => type_code(defs, Seq::empty(), acc, Type::NamedStructType { name: n }),
            None => match types_of_code(defs, acc, values@, 0) {
                Ok(a1) => Ok(a1.push(Op::StructType { element_count: values.len(), is_packed })),
                Err(e) => Err(e),
            },
        },
        Constant::Array { element_type, elements } => {
            match type_code(defs, Seq::empty(), acc, element_type) {
                Ok(a1) => Ok(a1.push(Op::ArrayType(elements.len() as u32))),
                Err(e) => Err(e),
            }
        },
        Constant::Vector(elements) => {
            if elements.len() == 0 {
                Err(ConvertError::EmptyVectorType)
            } else {
                match type_of_code(defs, acc, elements@[0]) {
                    Ok(a1) => Ok(a1.push(Op::VectorType(elements.len() as u32))),
                    Err(e) => Err(e),
                }
            }
        },
        Constant::BlockAddress { function: _, block: _ } => Ok(acc.push(Op::PointerType(0))),
        Constant::TokenNone => Ok(acc.push(Op::TokenType)),
        Constant::GlobalReference { name: _, ty: _ } => Ok(acc.push(Op::PointerType(0))),
        Constant::Binary { opcode: _, operand0, operand1: _ } => type_of_code(defs, acc, *operand0),
        Constant::Cast { opcode: _, operand: _, to_type } => type_code(defs, Seq::empty(), acc, to_type),
        Constant::ICmp { predicate: _, operand0, operand1: _ } => match type_of_code(defs, acc, *operand0) {
            Ok(a1) => Ok(a1.push(Op::ComparisonType)),
            Err(e) => Err(e),
        },
        Constant::FCmp { predicate: _, operand0, operand1: _ } => match type_of_code(defs, acc, *operand0) {
            Ok(a1) => Ok(a1.push(Op::ComparisonType)),
            Err(e) => Err(e),
        },
        Constant::Select { condition: _, true_value, false_value: _ } => type_of_code(defs, acc, *true_value),
        Constant::GetElementPtr { address, indices: _, in_bounds: _, source_element_type: _ } => type_of_code(defs, acc, *address),
        Constant::ExtractElement { vector, index: _ } => match type_of_code(defs, acc, *vector) {
            Ok(a1) => Ok(a1.push(Op::ElementType)),
            Err(e) => Err(e),
        },
        Constant::InsertElement { vector, element: _, index: _ } => type_of_code(defs, acc, *vector),
        Constant::ShuffleVector { operand0, operand1: _, mask } => match type_of_code(defs, acc, *operand0) {
            Ok(a1) => match type_of_code(defs, a1, *mask) {
                Ok(a2) => Ok(a2.push(Op::ShuffleType)),
                Err(e) => Err(e),
            },
            Err(e) => Err(e),
        },
        Constant::ExtractValue { aggregate, indices } => match type_of_code(defs, acc, *aggregate) {
            Ok(a1) => Ok(field_type_path(a1, indices@, 0)),
            Err(e) => Err(e),
        },
        Constant::InsertValue { aggregate, element: _, indices: _ } => type_of_code(defs, acc, *aggregate),
    }
}

/// The operations that make the types of the constants `cs[i..]`, in order.
pub open spec fn types_of_code(defs: Defs, acc: Seq<Op>, cs: Seq<Constant>, i: int) -> Result<Seq<Op>, ConvertError>
    decreases cs, cs.len() - i,
{
    if 0 <= i < cs.len() {
        match type_of_code(defs, acc, cs[i]) {
            Ok(a1) => types_of_code(defs, a1, cs, i + 1),
            Err(e) => Err(e),
        }
    } else {
        Ok(acc)
    }
}

/// The operations that make operand `op`.
pub open spec fn operand_code(defs: Defs, values: Map<NameKey, usize>, acc: Seq<Op>, op: Operand) -> Result<Seq<Op>, ConvertError> {
    match op {
        Operand::LocalOperand { name, ty: _ } => {
            if values.contains_key(name.key()) {
                Ok(acc.push(Op::Value(values[name.key()])))
            } else {
                Err(ConvertError::LocalOperandNotFound(name))
            }
        },
        Operand::ConstantOperand(c) => const_code(defs, values, acc, c),
        Operand::MetadataOperand => Err(ConvertError::MetadataOperandUnsupported),
    }
}

/// The operations that make the operands `ops[i..]`, in order.
pub open spec fn operands_code(defs: Defs, values: Map<NameKey, usize>, acc: Seq<Op>, ops: Seq<Operand>, i: int) -> Result<Seq<Op>, ConvertError>
    decreases ops.len() - i,
{
    if 0 <= i < ops.len() {
        match operand_code(defs, values, acc, ops[i]) {
            Ok(a1) => operands_code(defs, values, a1, ops, i + 1),
            Err(e) => Err(e),
        }
    } else {
        Ok(acc)
    }
}

/// Appends the operations that make `c`.
pub fn emit_const(defs: &Vec<(String, crate::ir::NamedStructDef)>, values: &NameMap, out: &mut Vec<Op>, c: &Constant) -> (r: Result<(), ConvertError>)
    requires
        values.wf(),
    ensures
        extends(final(out)@, old(out)@),
        match r {
            Ok(_) => const_code(defs@, values.view(), old(out)@, *c) == Ok::<Seq<Op>, ConvertError>(final(out)@),
            Err(e) => const_code(defs@, values.view(), old(out)@, *c) == Err::<Seq<Op>, ConvertError>(e),
        },
    decreases *c, 0int,
{
    match c {
        Constant::Int { bits, value } => {
            out.push(Op::IntType(*bits));
            out.push(Op::ConstInt(*value));
            Ok(())
        },
        Constant::Float(f) => {
            match f {
                Float::Single(b) => {
                    out.push(Op::FloatType);
                    out.push(Op::ConstSingle(*b));
                },
                Float::Double(b) => {
                    out.push(Op::DoubleType);
                    out.push(Op::ConstDouble(*b));
                },
                _ => {
                    emit_type_top(defs, out, &Type::FPType(f.format()))?;
                    out.push(Op::ConstNull);
                },
            }
            Ok(())
        },
        Constant::Null(t) => {
            emit_type_top(defs, out, t)?;
            out.push(Op::ConstNull);
            Ok(())
        },
        Constant::AggregateZero(t) => {
            emit_type_top(defs, out, t)?;
            out.push(Op::ConstNull);
            Ok(())
        },
        Constant::Struct { name, values: fields, is_packed } => {
            match name {
                Some(n) => {
                    emit_type_top(defs, out, &Type::NamedStructType { name: n.clone() })?;
                    emit_consts(defs, values, out, fields)?;
                    out.push(Op::ConstNamedStruct { element_count: fields.len() });
                },
                None => {
                    emit_consts(defs, values, out, fields)?;
                    out.push(Op::ConstStruct { element_count: fields.len(), is_packed: *is_packed });
                },
            }
            Ok(())
        },
        Constant::Array { element_type, elements } => {
            emit_type_top(defs, out, element_type)?;
            emit_consts(defs, values, out, elements)?;
            out.push(Op::ConstArray { element_count: elements.len() });
            Ok(())
        },
        Constant::Vector(elements) => {
            emit_consts(defs, values, out, elements)?;
            out.push(Op::ConstVector { element_count: elements.len() });
            Ok(())
        },
        Constant::Undef(t) => {
            emit_type_top(defs, out, t)?;
            out.push(Op::GetUndef);
            Ok(())
        },
        Constant::GlobalReference { name, ty: _ } => match values.get(name) {
            Some(h) => {
                out.push(Op::Value(h));
                Ok(())
            },
            None => Err(ConvertError::GlobalReferenceNotFound(name.clone_name())),
        },
        Constant::Poison(t) => {
            emit_type_top(defs, out, t)?;
            out.push(Op::GetPoison);
            Ok(())
        },
        Constant::TokenNone => {
            out.push(Op::TokenType);
            out.push(Op::ConstNull);
            Ok(())
        },
        Constant::BlockAddress { function, block } => match values.get(function) {
            Some(f) => match find_block(out, f, block) {
                Some(b) => {
                    out.push(Op::Value(f));
                    out.push(Op::Value(b));
                    out.push(Op::ConstBlockAddress);
                    Ok(())
                },
                None => Err(ConvertError::TargetBlockNotFound(block.clone_name())),
            },
            None => Err(ConvertError::GlobalReferenceNotFound(function.clone_name())),
        },
        Constant::Binary { opcode, operand0, operand1 } => {
            emit_const(defs, values, out, operand0)?;
            emit_const(defs, values, out, operand1)?;
            out.push(Op::ConstBinary(*opcode));
            Ok(())
        },
        Constant::Cast { opcode, operand, to_type } => {
            emit_const(defs, values, out, operand)?;
            emit_type_top(defs, out, to_type)?;
            out.push(Op::ConstCast(*opcode));
            Ok(())
        },
        Constant::ICmp { predicate, operand0, operand1 } => {
            emit_const(defs, values, out, operand0)?;
            emit_const(defs, values, out, operand1)?;
            out.push(Op::ConstICmp(predicate.to_llvm()));
            Ok(())
        },
        Constant::FCmp { predicate, operand0, operand1 } => {
            emit_const(defs, values, out, operand0)?;
            emit_const(defs, values, out, operand1)?;
            out.push(Op::ConstFCmp(predicate.to_llvm()));
            Ok(())
        },
        Constant::Select { condition, true_value, false_value } => {
            emit_const(defs, values, out, condition)?;
            emit_const(defs, values, out, true_value)?;
            emit_const(defs, values, out, false_value)?;
            out.push(Op::ConstSelect);
            Ok(())
        },
        Constant::GetElementPtr { address, indices, in_bounds, source_element_type } => {
            emit_const(defs, values, out, address)?;
            emit_consts(defs, values, out, indices)?;
            emit_type_top(defs, out, source_element_type)?;
            out.push(Op::ConstGEP { index_count: indices.len(), in_bounds: *in_bounds });
            Ok(())
        },
        Constant::ExtractElement { vector, index } => {
            emit_const(defs, values, out, vector)?;
            emit_const(defs, values, out, index)?;
            out.push(Op::ConstExtractElement);
            Ok(())
        },
        Constant::InsertElement { vector, element, index } => {
            emit_const(defs, values, out, vector)?;
            emit_const(defs, values, out, element)?;
            emit_const(defs, values, out, index)?;
            out.push(Op::ConstInsertElement);
            Ok(())
        },
        Constant::ShuffleVector { operand0, operand1, mask } => {
            emit_const(defs, values, out, operand0)?;
            emit_const(defs, values, out, operand1)?;
            emit_const(defs, values, out, mask)?;
            out.push(Op::ConstShuffleVector);
            Ok(())
        },
        Constant::ExtractValue { aggregate, indices } => {
            if indices.len() == 0 {
                return Err(ConvertError::AggregateIndicesEmpty);
            }
            emit_const(defs, values, out, aggregate)?;
            emit_extract_path(out, indices, indices.len());
            Ok(())
        },
        Constant::InsertValue { aggregate, element, indices } => {
            if indices.len() == 0 {
                return Err(ConvertError::AggregateIndicesEmpty);
            }
            emit_insert_loads(defs, values, out, aggregate, indices)?;
            emit_const(defs, values, out, element)?;
            emit_insert_stores(out, indices);
            Ok(())
        },
    }
}

/// Appends the reads of the field at `idx[..j]`, one index at a time.
fn emit_extract_path(out: &mut Vec<Op>, idx: &Vec<u32>, j: usize)
    requires
        j <= idx@.len(),
    ensures
        final(out)@ == extract_path(old(out)@, idx@, 0, j as int),
        extends(final(out)@, old(out)@),
{
    let mut k: usize = 0;
    while k < j
        invariant
            k <= j <= idx@.len(),
            extract_path(out@, idx@, k as int, j as int) == extract_path(old(out)@, idx@, 0, j as int),
            extends(out@, old(out)@),
        decreases j - k,
    {
        out.push(Op::ConstExtractValue(idx[k]));
        k = k + 1;
    }
}

/// Appends, for each prefix of the path `idx` (the shortest first), the
/// operations that make `agg` and read its field at that prefix.
fn emit_insert_loads(defs: &Vec<(String, crate::ir::NamedStructDef)>, values: &NameMap, out: &mut Vec<Op>, agg: &Constant, idx: &Vec<u32>) -> (r: Result<(), ConvertError>)
    requires
        values.wf(),
    ensures
        extends(final(out)@, old(out)@),
        match r {
            Ok(_) => insert_loads(defs@, values.view(), old(out)@, *agg, idx@, 0) == Ok::<Seq<Op>, ConvertError>(final(out)@),
            Err(e) => insert_loads(defs@, values.view(), old(out)@, *agg, idx@, 0) == Err::<Seq<Op>, ConvertError>(e),
        },
    decreases *agg, 1int,
{
    let ghost out0 = out@;
    let mut j: usize = 0;
    while j < idx.len()
        invariant
            extends(out@, old(out)@),
            j <= idx@.len(),
            values.wf(),
            out0 == old(out)@,
            insert_loads(defs@, values.view(), out0, *agg, idx@, 0) == insert_loads(defs@, values.view(), out@, *agg, idx@, j as int),
        decreases idx@.len() - j,
    {
        emit_const(defs, values, out, agg)?;
        emit_extract_path(out, idx, j);
        j = j + 1;
    }
    Ok(())
}

/// Appends the insertions at `idx[len - 1]`, ..., `idx[0]`.
fn emit_insert_stores(out: &mut Vec<Op>, idx: &Vec<u32>)
    ensures
        final(out)@ == insert_stores(old(out)@, idx@, idx@.len() as int),
        extends(final(out)@, old(out)@),
{
    let mut j: usize = idx.len();
    while j > 0
        invariant
            j <= idx@.len(),
            insert_stores(out@, idx@, j as int) == insert_stores(old(out)@, idx@, idx@.len() as int),
            extends(out@, old(out)@),
        decreases j,
    {
        out.push(Op::ConstInsertValue(idx[j - 1]));
        j = j - 1;
    }
}

/// Appends the reads of the field type at the path `idx`, one index at a time.
fn emit_field_type_path(out: &mut Vec<Op>, idx: &Vec<u32>)
    ensures
        final(out)@ == field_type_path(old(out)@, idx@, 0),
        extends(final(out)@, old(out)@),
{
    let mut k: usize = 0;
    while k < idx.len()
        invariant
            k <= idx@.len(),
            field_type_path(out@, idx@, k as int) == field_type_path(old(out)@, idx@, 0),
            extends(out@, old(out)@),
        decreases idx@.len() - k,
    {
        out.push(Op::FieldType(idx[k]));
        k = k + 1;
    }
}

/// Appends the operations that make the constants `cs`, in order.
pub fn emit_consts(defs: &Vec<(String, crate::ir::NamedStructDef)>, values: &NameMap, out: &mut Vec<Op>, cs: &Vec<Constant>) -> (r: Result<(), ConvertError>)
    requires
        values.wf(),
    ensures
        extends(final(out)@, old(out)@),
        match r {
            Ok(_) => consts_code(defs@, values.view(), old(out)@, cs@, 0) == Ok::<Seq<Op>, ConvertError>(final(out)@),
            Err(e) => consts_code(defs@, values.view(), old(out)@, cs@, 0) == Err::<Seq<Op>, ConvertError>(e),
        },
    decreases cs@, cs@.len() + 1,
{
    let ghost out0 = out@;
    let mut i: usize = 0;
    while i < cs.len()
        invariant
            extends(out@, old(out)@),
            i <= cs@.len(),
            values.wf(),
            out0 == old(out)@,
            consts_code(defs@, values.view(), out0, cs@, 0) == consts_code(defs@, values.view(), out@, cs@, i as int),
        decreases cs@.len() - i,
    {
        emit_const(defs, values, out, &cs[i])?;
        i = i + 1;
    }
    Ok(())
}

/// Appends the operations that make the type of `c`.
pub fn emit_type_of(defs: &Vec<(String, crate::ir::NamedStructDef)>, out: &mut Vec<Op>, c: &Constant) -> (r: Result<(), ConvertError>)
    ensures
        extends(final(out)@, old(out)@),
        match r {
            Ok(_) => type_of_code(defs@, old(out)@, *c) == Ok::<Seq<Op>, ConvertError>(final(out)@),
            Err(e) => type_of_code(defs@, old(out)@, *c) == Err::<Seq<Op>, ConvertError>(e),
        },
    decreases *c, 0int,
{
    match c {
        Constant::Int { bits, value: _ } => {
            out.push(Op::IntType(*bits));
            Ok(())
        },
        Constant::Float(f) => emit_type_top(defs, out, &Type::FPType(f.format())),
        Constant::Null(t) => emit_type_top(defs, out, t),
        Constant::AggregateZero(t) => emit_type_top(defs, out, t),
        Constant::Undef(t) => emit_type_top(defs, out, t),
        Constant::Poison(t) => emit_type_top(defs, out, t),
        Constant::Struct { name, values, is_packed } => match name {
            Some(n) => emit_type_top(defs, out, &Type::NamedStructType { name: n.clone() }),
            None => {
                emit_types_of(defs, out, values)?;
                out.push(Op::StructType { element_count: values.len(), is_packed: *is_packed });
                Ok(())
            },
        },
        Constant::Array { element_type, elements } => {
            emit_type_top(defs, out, element_type)?;
            out.push(Op::ArrayType(elements.len() as u32));
            Ok(())
        },
        Constant::Vector(elements) => {
            if elements.len() == 0 {
                return Err(ConvertError::EmptyVectorType);
            }
            emit_type_of(defs, out, &elements[0])?;
            out.push(Op::VectorType(elements.len() as u32));
            Ok(())
        },
        Constant::BlockAddress { function: _, block: _ } => {
            out.push(Op::PointerType(0));
            Ok(())
        },
        Constant::TokenNone => {
            out.push(Op::TokenType);
            Ok(())
        },
        Constant::GlobalReference { name: _, ty: _ } => {
            out.push(Op::PointerType(0));
            Ok(())
        },
        Constant::Binary { opcode: _, operand0, operand1: _ } => emit_type_of(defs, out, operand0),
        Constant::Cast { opcode: _, operand: _, to_type } => emit_type_top(defs, out, to_type),
        Constant::ICmp { predicate: _, operand0, operand1: _ } => {
            emit_type_of(defs, out, operand0)?;
            out.push(Op::ComparisonType);
            Ok(())
        },
        Constant::FCmp { predicate: _, operand0, operand1: _ } => {
            emit_type_of(defs, out, operand0)?;
            out.push(Op::ComparisonType);
            Ok(())
        },
        Constant::Select { condition: _, true_value, false_value: _ } => emit_type_of(defs, out, true_value),
        Constant::GetElementPtr { address, indices: _, in_bounds: _, source_element_type: _ } => emit_type_of(defs, out, address),
        Constant::ExtractElement { vector, index: _ } => {
            emit_type_of(defs, out, vector)?;
            out.push(Op::ElementType);
            Ok(())
        },
        Constant::InsertElement { vector, element: _, index: _ } => emit_type_of(defs, out, vector),
        Constant::ShuffleVector { operand0, operand1: _, mask } => {
            emit_type_of(defs, out, operand0)?;
            emit_type_of(defs, out, mask)?;
            out.push(Op::ShuffleType);
            Ok(())
        },
        Constant::ExtractValue { aggregate, indices } => {
            emit_type_of(defs, out, aggregate)?;
            emit_field_type_path(out, indices);
            Ok(())
        },
        Constant::InsertValue { aggregate, element: _, indices: _ } => emit_type_of(defs, out, aggregate),
    }
}

/// Appends the operations that make the types of the constants `cs`.
pub fn emit_types_of(defs: &Vec<(String, crate::ir::NamedStructDef)>, out: &mut Vec<Op>, cs: &Vec<Constant>) -> (r: Result<(), ConvertError>)
    ensures
        extends(final(out)@, old(out)@),
        match r {
            Ok(_) => types_of_code(defs@, old(out)@, cs@, 0) == Ok::<Seq<Op>, ConvertError>(final(out)@),
            Err(e) => types_of_code(defs@, old(out)@, cs@, 0) == Err::<Seq<Op>, ConvertError>(e),
        },
    decreases cs@, cs@.len() + 1,
{
    let ghost out0 = out@;
    let mut i: usize = 0;
    while i < cs.len()
        invariant
            extends(out@, old(out)@),
            i <= cs@.len(),
            out0 == old(out)@,
            types_of_code(defs@, out0, cs@, 0) == types_of_code(defs@, out@, cs@, i as int),
        decreases cs@.len() - i,
    {
        emit_type_of(defs, out, &cs[i])?;
        i = i + 1;
    }
    Ok(())
}

/// Appends the operations that make operand `op`.
pub fn emit_operand(defs: &Vec<(String, crate::ir::NamedStructDef)>, values: &NameMap, out: &mut Vec<Op>, op: &Operand) -> (r: Result<(), ConvertError>)
    requires
        values.wf(),
    ensures
        extends(final(out)@, old(out)@),
        match r {
            Ok(_) => operand_code(defs@, values.view(), old(out)@, *op) == Ok::<Seq<Op>, ConvertError>(final(out)@),
            Err(e) => operand_code(defs@, values.view(), old(out)@, *op) == Err::<Seq<Op>, ConvertError>(e),
        },
{
    match op {
        Operand::LocalOperand { name, ty: _ } => match values.get(name) {
            Some(h) => {
                out.push(Op::Value(h));
                Ok(())
            },
            None => Err(ConvertError::LocalOperandNotFound(name.clone_name())),
        },
        Operand::ConstantOperand(c) => emit_const(defs, values, out, c),
        Operand::MetadataOperand => Err(ConvertError::MetadataOperandUnsupported),
    }
}

/// Appends the operations that make the operands `ops`, in order.
pub fn emit_operands(defs: &Vec<(String, crate::ir::NamedStructDef)>, values: &NameMap, out: &mut Vec<Op>, ops: &Vec<Operand>) -> (r: Result<(), ConvertError>)
    requires
        values.wf(),
    ensures
        extends(final(out)@, old(out)@),
        match r {
            Ok(_) => operands_code(defs@, values.view(), old(out)@, ops@, 0) == Ok::<Seq<Op>, ConvertError>(final(out)@),
            Err(e) => operands_code(defs@, values.view(), old(out)@, ops@, 0) == Err::<Seq<Op>, ConvertError>(e),
        },
{
    let ghost out0 = out@;
    let mut i: usize = 0;
    while i < ops.len()
        invariant
            extends(out@, old(out)@),
            i <= ops@.len(),
            values.wf(),
            out0 == old(out)@,
            operands_code(defs@, values.view(), out0, ops@, 0) == operands_code(defs@, values.view(), out@, ops@, i as int),
        decreases ops@.len() - i,
    {
        emit_operand(defs, values, out, &ops[i])?;
        i = i + 1;
    }
    Ok(())
}

impl Constant {
    /// Appends to the context's program the operations that make this
    /// constant.
    /// A failed conversion leaves the context as it was.
    pub fn to_llvm(&self, ctx: &mut ToLLVMContext, types: &Types) -> (r: Result<(), ConvertError>)
        requires
            old(ctx).wf(),
        ensures
            extends(final(ctx).ops@, old(ctx).ops@),
            final(ctx).wf(),
            final(ctx).module_name == old(ctx).module_name,
            final(ctx).value_map == old(ctx).value_map,
            final(ctx).bb_map == old(ctx).bb_map,
            r is Err ==> final(ctx).ops@ == old(ctx).ops@,
            match r {
                Ok(_) => const_code(types.named_structs@, old(ctx).state().values, old(ctx).ops@, *self) == Ok::<Seq<Op>, ConvertError>(final(ctx).ops@),
                Err(e) => const_code(types.named_structs@, old(ctx).state().values, old(ctx).ops@, *self) == Err::<Seq<Op>, ConvertError>(e),
            },
    {
        let n = ctx.ops.len();
        let r = emit_const(&types.named_structs, &ctx.value_map, &mut ctx.ops, self);
        if r.is_err() {
            ctx.discard_from(n);
            assert(ctx.ops@ =~= old(ctx).ops@);
        }
        r
    }
}

impl Operand {
    /// Appends to the context's program the operations that make this
    /// operand's value.
    /// A failed conversion leaves the context as it was.
    pub fn to_llvm(&self, ctx: &mut ToLLVMContext, types: &Types) -> (r: Result<(), ConvertError>)
        requires
            old(ctx).wf(),
        ensures
            extends(final(ctx).ops@, old(ctx).ops@),
            final(ctx).wf(),
            final(ctx).module_name == old(ctx).module_name,
            final(ctx).value_map == old(ctx).value_map,
            final(ctx).bb_map == old(ctx).bb_map,
            r is Err ==> final(ctx).ops@ == old(ctx).ops@,
            match r {
                Ok(_) => operand_code(types.named_structs@, old(ctx).state().values, old(ctx).ops@, *self) == Ok::<Seq<Op>, ConvertError>(final(ctx).ops@),
                Err(e) => operand_code(types.named_structs@, old(ctx).state().values, old(ctx).ops@, *self) == Err::<Seq<Op>, ConvertError>(e),
            },
    {
        let n = ctx.ops.len();
        let r = emit_operand(&types.named_structs, &ctx.value_map, &mut ctx.ops, self);
        if r.is_err() {
            ctx.discard_from(n);
            assert(ctx.ops@ =~= old(ctx).ops@);
        }
        r
    }
}

} // verus!
