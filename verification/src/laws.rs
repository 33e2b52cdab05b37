//! What a construction program is made of, read back from the program: the
//! marks of its operations. The law of this module states that a module's
//! program declares exactly the module's contents, in the module's order.

use vstd::prelude::*;
use crate::const_conv::{
    const_code, consts_code, extract_path, field_type_path, insert_loads, insert_stores, operand_code, operands_code, type_of_code,
    types_of_code,
};
use crate::ir::{Constant, Name, NameKey, NamedStructDef, Operand, Type};
use crate::body_conv::{
    agg_code, bb_step, binary_step, call_step, cases_code, cast_step, dests_code, extract_prefix, extract_value_step,
    incoming_code, insert_code, insert_value_step, instr_step, instrs_step, invoke_step, operand2_code, operand3_code,
    phi_fill_step, phi_handle, instrs_phis_step, phi_step, single_thread, term_step, then_define, then_push, unary_step,
};
use crate::context::{empty_state, with_op};
use crate::ir::{
    Attribute, BasicBlock, BinaryOp, Call, Callee, Cast, ExtractValue, Function, FunctionDeclaration, GlobalAlias, GlobalVariable,
    ICmp, IndirectBr, InsertValue, Instruction, Invoke, Linkage, Module, Parameter, Phi, ShuffleVector, Switch,
    Terminator, UnaryOp, Visibility,
};
use crate::llvm_codes::{ordering_code, real_predicate_code, rmw_code};
use crate::module_conv::{
    alias_step, aliases_step, attrs, blocks_step, bodies_step, decl_step, decls_step, fn_body_step,
    attr_ops, fn_attr_ops, param_attr_ops, fn_bodies_step, fn_decl_step, fn_decls_step, fn_handle, fn_header, global_decl_step, global_decls_step,
    global_init_step, global_inits_step, metadata_ops, module_plan, param_types, params_step, phis_step,
};
use crate::plan::{AttrPlace, BinaryOpcode, CastOpcode, ConvertError, CtxState, Op};
use crate::types_conv::fn_type_code;
use crate::types_conv::{first_def, struct_handle, type_code, types_code, Defs};

verus! {

/// What an operation of a program declares or builds, where it declares or
/// builds something that the module it came from holds.
pub enum Mark {
    SourceFileName(String),
    DataLayout(String),
    Target(String),
    InlineAsm(String),
    Global(Name),
    Function(String),
    Alias(Name),
    Block(Name),
    Param,
    Body,
    Instr,
    Term,
}

/// The mark of an operation, if it has one (as a sequence of zero or one
/// marks).
pub open spec fn mark_of(op: Op) -> Seq<Mark> {
    match op {
        Op::SetSourceFileName(s) => seq![Mark::SourceFileName(s)],
        Op::SetDataLayout(s) => seq![Mark::DataLayout(s)],
        Op::SetTarget(s) => seq![Mark::Target(s)],
        Op::SetInlineAsm(s) => seq![Mark::InlineAsm(s)],
        Op::AddGlobal(n) => seq![Mark::Global(n)],
        Op::AddFunction(s) => seq![Mark::Function(s)],
        Op::AddAlias(n) => seq![Mark::Alias(n)],
        Op::AppendBasicBlock { function: _, name } => seq![Mark::Block(name)],
        Op::GetParam { function: _, index: _ } => seq![Mark::Param],
        Op::PositionAtEnd(_) => seq![Mark::Body],
        Op::BuildBinary { opcode: _, name: _ } => seq![Mark::Instr],
        Op::BuildCall { arg_count: _, name: _ } => seq![Mark::Instr],
        Op::BuildAlloca(_) => seq![Mark::Instr],
        Op::BuildLoad(_) => seq![Mark::Instr],
        Op::BuildStore => seq![Mark::Instr],
        Op::BuildGEP { index_count: _, name: _ } => seq![Mark::Instr],
        Op::BuildICmp { predicate: _, name: _ } => seq![Mark::Instr],
        Op::BuildPhi(_) => seq![Mark::Instr],
        Op::BuildFNeg(_) => seq![Mark::Instr],
        Op::BuildFreeze(_) => seq![Mark::Instr],
        Op::BuildCast { opcode: _, name: _ } => seq![Mark::Instr],
        Op::BuildFCmp { predicate: _, name: _ } => seq![Mark::Instr],
        Op::BuildSelect(_) => seq![Mark::Instr],
        Op::BuildExtractElement(_) => seq![Mark::Instr],
        Op::BuildInsertElement(_) => seq![Mark::Instr],
        Op::BuildShuffleVector(_) => seq![Mark::Instr],
        Op::BuildExtractValue { index: _, name } => name_marks(name),
        Op::BuildInsertValue { index: _, name } => name_marks(name),
        Op::BuildFence { ordering: _, single_thread: _ } => seq![Mark::Instr],
        Op::BuildCmpXchg { success: _, failure: _, single_thread: _, weak: _, volatile: _, name: _ } => seq![Mark::Instr],
        Op::BuildAtomicRMW { operation: _, ordering: _, single_thread: _, volatile: _, name: _ } => seq![Mark::Instr],
        Op::BuildIndirectBr { dest_count: _ } => seq![Mark::Term],
        Op::BuildInvoke { arg_count: _, then_block: _, catch_block: _, name: _ } => seq![Mark::Term],
        Op::BuildResume => seq![Mark::Term],
        Op::BuildRet => seq![Mark::Term],
        Op::BuildRetVoid => seq![Mark::Term],
        Op::BuildBr(_) => seq![Mark::Term],
        Op::BuildCondBr { then_block: _, else_block: _ } => seq![Mark::Term],
        Op::BuildSwitch { default_block: _, case_count: _ } => seq![Mark::Term],
        Op::BuildUnreachable => seq![Mark::Term],
        _ => Seq::empty(),
    }
}

/// An instruction mark for a step of an extractvalue or insertvalue that has
/// a name (the step that makes the instruction's result), none for the
/// others.
pub open spec fn name_marks(name: Option<Name>) -> Seq<Mark> {
    match name {
        Some(_) => seq![Mark::Instr],
        None => Seq::empty(),
    }
}

/// The marks of a program's operations, in order.
pub open spec fn marks(ops: Seq<Op>) -> Seq<Mark>
    decreases ops.len(),
{
    if ops.len() == 0 {
        Seq::empty()
    } else {
        marks(ops.drop_last()) + mark_of(ops.last())
    }
}

pub broadcast proof fn lemma_marks_push(ops: Seq<Op>, op: Op)
    ensures
        #[trigger] marks(ops.push(op)) == marks(ops) + mark_of(op),
{
    assert(ops.push(op).drop_last() =~= ops);
}

/// The marks added by a step that turned `acc` into `r` are `m`.
pub open spec fn adds(acc: Seq<Op>, r: Result<Seq<Op>, crate::plan::ConvertError>, m: Seq<Mark>) -> bool {
    match r {
        Ok(ops) => marks(ops) == marks(acc) + m,
        Err(_) => true,
    }
}

proof fn lemma_type_code_marks(defs: Defs, stack: Seq<usize>, acc: Seq<Op>, t: Type)
    ensures
        adds(acc, type_code(defs, stack, acc, t), Seq::empty()),
    decreases defs.len() - stack.len(), t, 0int,
{
    broadcast use lemma_marks_push;
    assert(marks(acc) + Seq::<Mark>::empty() =~= marks(acc));
    match t {
        Type::FuncType { result_type, param_types, is_var_arg: _ } => {
            lemma_type_code_marks(defs, stack, acc, *result_type);
            if let Ok(a1) = type_code(defs, stack, acc, *result_type) {
                lemma_types_code_marks(defs, stack, a1, param_types@, 0);
                assert(marks(a1) + Seq::<Mark>::empty() =~= marks(a1));
            }
        },
        Type::VectorType { element_type, num_elements: _, scalable: _ } => {
            lemma_type_code_marks(defs, stack, acc, *element_type);
        },
        Type::ArrayType { element_type, num_elements: _ } => {
            lemma_type_code_marks(defs, stack, acc, *element_type);
        },
        Type::StructType { element_types, is_packed: _ } => {
            lemma_types_code_marks(defs, stack, acc, element_types@, 0);
        },
        Type::NamedStructType { name } => {
            let i = first_def(defs, name@, 0);
            let a0 = acc.push(Op::NamedStruct(name));
            assert(marks(a0) + Seq::<Mark>::empty() =~= marks(a0));
            assert(marks(acc) + Seq::<Mark>::empty() =~= marks(acc));
            if let Some(h) = struct_handle(acc, name@) {
            } else if 0 <= i < defs.len() {
                match defs[i].1 {
                    NamedStructDef::Defined(Type::StructType { element_types, is_packed: _ }) => {
                        if !(stack.contains(i as usize) || stack.len() >= defs.len()) {
                            lemma_types_code_marks(defs, stack.push(i as usize), a0, element_types@, 0);
                        }
                    },
                    _ => {},
                }
            }
        },
        _ => {},
    }
}

proof fn lemma_types_code_marks(defs: Defs, stack: Seq<usize>, acc: Seq<Op>, ts: Seq<Type>, i: int)
    ensures
        adds(acc, types_code(defs, stack, acc, ts, i), Seq::empty()),
    decreases defs.len() - stack.len(), ts, ts.len() - i,
{
    assert(marks(acc) + Seq::<Mark>::empty() =~= marks(acc));
    if 0 <= i < ts.len() {
        lemma_type_code_marks(defs, stack, acc, ts[i]);
        if let Ok(a1) = type_code(defs, stack, acc, ts[i]) {
            lemma_types_code_marks(defs, stack, a1, ts, i + 1);
            assert(marks(a1) + Seq::<Mark>::empty() =~= marks(a1));
        }
    }
}


#[verifier::rlimit(40)]
proof fn lemma_const_code_marks(defs: Defs, values: Map<NameKey, usize>, acc: Seq<Op>, c: Constant)
    ensures
        adds(acc, const_code(defs, values, acc, c), Seq::empty()),
    decreases c, 0int,
{
    broadcast use lemma_marks_push;
    assert(marks(acc) + Seq::<Mark>::empty() =~= marks(acc));
    match c {
        Constant::Poison(t) => {
            lemma_type_code_marks(defs, Seq::empty(), acc, t);
        },
        Constant::Binary { opcode: _, operand0, operand1 } => {
            lemma_const_code_marks(defs, values, acc, *operand0);
            if let Ok(a1) = const_code(defs, values, acc, *operand0) {
                assert(marks(a1) + Seq::<Mark>::empty() =~= marks(a1));
                lemma_const_code_marks(defs, values, a1, *operand1);
            }
        },
        Constant::ICmp { predicate: _, operand0, operand1 } => {
            lemma_const_code_marks(defs, values, acc, *operand0);
            if let Ok(a1) = const_code(defs, values, acc, *operand0) {
                assert(marks(a1) + Seq::<Mark>::empty() =~= marks(a1));
                lemma_const_code_marks(defs, values, a1, *operand1);
            }
        },
        Constant::FCmp { predicate: _, operand0, operand1 } => {
            lemma_const_code_marks(defs, values, acc, *operand0);
            if let Ok(a1) = const_code(defs, values, acc, *operand0) {
                assert(marks(a1) + Seq::<Mark>::empty() =~= marks(a1));
                lemma_const_code_marks(defs, values, a1, *operand1);
            }
        },
        Constant::Cast { opcode: _, operand, to_type } => {
            lemma_const_code_marks(defs, values, acc, *operand);
            if let Ok(a1) = const_code(defs, values, acc, *operand) {
                assert(marks(a1) + Seq::<Mark>::empty() =~= marks(a1));
                lemma_type_code_marks(defs, Seq::empty(), a1, to_type);
            }
        },
        Constant::Select { condition, true_value, false_value } => {
            lemma_const_code_marks(defs, values, acc, *condition);
            if let Ok(a1) = const_code(defs, values, acc, *condition) {
                assert(marks(a1) + Seq::<Mark>::empty() =~= marks(a1));
                lemma_const_code_marks(defs, values, a1, *true_value);
                if let Ok(a2) = const_code(defs, values, a1, *true_value) {
                    assert(marks(a2) + Seq::<Mark>::empty() =~= marks(a2));
                    lemma_const_code_marks(defs, values, a2, *false_value);
                }
            }
        },
        Constant::GetElementPtr { address, indices, in_bounds: _, source_element_type } => {
            lemma_const_code_marks(defs, values, acc, *address);
            if let Ok(a1) = const_code(defs, values, acc, *address) {
                assert(marks(a1) + Seq::<Mark>::empty() =~= marks(a1));
                lemma_consts_code_marks(defs, values, a1, indices@, 0);
                if let Ok(a2) = consts_code(defs, values, a1, indices@, 0) {
                    assert(marks(a2) + Seq::<Mark>::empty() =~= marks(a2));
                    lemma_type_code_marks(defs, Seq::empty(), a2, source_element_type);
                }
            }
        },
        Constant::Null(t) => {
            lemma_type_code_marks(defs, Seq::empty(), acc, t);
        },
        Constant::AggregateZero(t) => {
            lemma_type_code_marks(defs, Seq::empty(), acc, t);
        },
        Constant::Undef(t) => {
            lemma_type_code_marks(defs, Seq::empty(), acc, t);
        },
        Constant::Struct { name, values: fields, is_packed: _ } => match name {
            Some(n) => {
                let t = Type::NamedStructType { name: n };
                lemma_type_code_marks(defs, Seq::empty(), acc, t);
                if let Ok(a1) = type_code(defs, Seq::empty(), acc, t) {
                    lemma_consts_code_marks(defs, values, a1, fields@, 0);
                    if let Ok(a2) = consts_code(defs, values, a1, fields@, 0) {
                        assert(marks(acc) + Seq::<Mark>::empty() =~= marks(acc));
                    }
                }
            },
            None => {
                lemma_consts_code_marks(defs, values, acc, fields@, 0);
            },
        },
        Constant::Array { element_type, elements } => {
            lemma_type_code_marks(defs, Seq::empty(), acc, element_type);
            if let Ok(a1) = type_code(defs, Seq::empty(), acc, element_type) {
                lemma_consts_code_marks(defs, values, a1, elements@, 0);
                assert(marks(a1) + Seq::<Mark>::empty() =~= marks(a1));
            }
        },
        Constant::Vector(elements) => {
            lemma_consts_code_marks(defs, values, acc, elements@, 0);
        },
        Constant::ExtractElement { vector, index } => {
            lemma_const_code_marks(defs, values, acc, *vector);
            if let Ok(a1) = const_code(defs, values, acc, *vector) {
                assert(marks(a1) + Seq::<Mark>::empty() =~= marks(a1));
                lemma_const_code_marks(defs, values, a1, *index);
            }
        },
        Constant::InsertElement { vector, element, index } => {
            lemma_const_code_marks(defs, values, acc, *vector);
            if let Ok(a1) = const_code(defs, values, acc, *vector) {
                assert(marks(a1) + Seq::<Mark>::empty() =~= marks(a1));
                lemma_const_code_marks(defs, values, a1, *element);
                if let Ok(a2) = const_code(defs, values, a1, *element) {
                    assert(marks(a2) + Seq::<Mark>::empty() =~= marks(a2));
                    lemma_const_code_marks(defs, values, a2, *index);
                }
            }
        },
        Constant::ShuffleVector { operand0, operand1, mask } => {
            lemma_const_code_marks(defs, values, acc, *operand0);
            if let Ok(a1) = const_code(defs, values, acc, *operand0) {
                assert(marks(a1) + Seq::<Mark>::empty() =~= marks(a1));
                lemma_const_code_marks(defs, values, a1, *operand1);
                if let Ok(a2) = const_code(defs, values, a1, *operand1) {
                    assert(marks(a2) + Seq::<Mark>::empty() =~= marks(a2));
                    lemma_const_code_marks(defs, values, a2, *mask);
                }
            }
        },
        Constant::ExtractValue { aggregate, indices } => {
            lemma_const_code_marks(defs, values, acc, *aggregate);
            if let Ok(a1) = const_code(defs, values, acc, *aggregate) {
                lemma_extract_path_marks(a1, indices@, 0, indices@.len() as int);
            }
        },
        Constant::InsertValue { aggregate, element, indices } => {
            lemma_insert_loads_marks(defs, values, acc, *aggregate, indices@, 0);
            if let Ok(a1) = insert_loads(defs, values, acc, *aggregate, indices@, 0) {
                assert(marks(a1) + Seq::<Mark>::empty() =~= marks(a1));
                lemma_const_code_marks(defs, values, a1, *element);
                if let Ok(a2) = const_code(defs, values, a1, *element) {
                    lemma_insert_stores_marks(a2, indices@, indices@.len() as int);
                }
            }
        },
        _ => {},
    }
}

proof fn lemma_extract_path_marks(acc: Seq<Op>, idx: Seq<u32>, k: int, j: int)
    ensures
        marks(extract_path(acc, idx, k, j)) == marks(acc),
    decreases j - k,
{
    broadcast use lemma_marks_push;
    if k < j {
        lemma_extract_path_marks(acc.push(Op::ConstExtractValue(idx[k])), idx, k + 1, j);
        assert(marks(acc) + Seq::<Mark>::empty() =~= marks(acc));
    }
}

proof fn lemma_field_type_path_marks(acc: Seq<Op>, idx: Seq<u32>, k: int)
    ensures
        marks(field_type_path(acc, idx, k)) == marks(acc),
    decreases idx.len() - k,
{
    broadcast use lemma_marks_push;
    if 0 <= k < idx.len() {
        lemma_field_type_path_marks(acc.push(Op::FieldType(idx[k])), idx, k + 1);
        assert(marks(acc) + Seq::<Mark>::empty() =~= marks(acc));
    }
}

proof fn lemma_insert_stores_marks(acc: Seq<Op>, idx: Seq<u32>, j: int)
    ensures
        marks(insert_stores(acc, idx, j)) == marks(acc),
    decreases j,
{
    broadcast use lemma_marks_push;
    if j > 0 {
        lemma_insert_stores_marks(acc.push(Op::ConstInsertValue(idx[j - 1])), idx, j - 1);
        assert(marks(acc) + Seq::<Mark>::empty() =~= marks(acc));
    }
}

proof fn lemma_insert_loads_marks(defs: Defs, values: Map<NameKey, usize>, acc: Seq<Op>, agg: Constant, idx: Seq<u32>, j: int)
    ensures
        adds(acc, insert_loads(defs, values, acc, agg, idx, j), Seq::empty()),
    decreases agg, idx.len() - j + 1,
{
    assert(marks(acc) + Seq::<Mark>::empty() =~= marks(acc));
    if 0 <= j < idx.len() {
        lemma_const_code_marks(defs, values, acc, agg);
        if let Ok(a1) = const_code(defs, values, acc, agg) {
            lemma_extract_path_marks(a1, idx, 0, j);
            let a1e = extract_path(a1, idx, 0, j);
            lemma_insert_loads_marks(defs, values, a1e, agg, idx, j + 1);
            assert(marks(a1e) + Seq::<Mark>::empty() =~= marks(a1e));
        }
    }
}

proof fn lemma_consts_code_marks(defs: Defs, values: Map<NameKey, usize>, acc: Seq<Op>, cs: Seq<Constant>, i: int)
    ensures
        adds(acc, consts_code(defs, values, acc, cs, i), Seq::empty()),
    decreases cs, cs.len() - i,
{
    assert(marks(acc) + Seq::<Mark>::empty() =~= marks(acc));
    if 0 <= i < cs.len() {
        lemma_const_code_marks(defs, values, acc, cs[i]);
        if let Ok(a1) = const_code(defs, values, acc, cs[i]) {
            lemma_consts_code_marks(defs, values, a1, cs, i + 1);
            assert(marks(a1) + Seq::<Mark>::empty() =~= marks(a1));
        }
    }
}

proof fn lemma_type_of_code_marks(defs: Defs, acc: Seq<Op>, c: Constant)
    ensures
        adds(acc, type_of_code(defs, acc, c), Seq::empty()),
    decreases c, 0int,
{
    broadcast use lemma_marks_push;
    assert(marks(acc) + Seq::<Mark>::empty() =~= marks(acc));
    match c {
        Constant::Binary { opcode: _, operand0, operand1: _ } => {
            lemma_type_of_code_marks(defs, acc, *operand0);
        },
        Constant::ICmp { predicate: _, operand0, operand1: _ } => {
            lemma_type_of_code_marks(defs, acc, *operand0);
        },
        Constant::FCmp { predicate: _, operand0, operand1: _ } => {
            lemma_type_of_code_marks(defs, acc, *operand0);
        },
        Constant::Cast { opcode: _, operand: _, to_type } => {
            lemma_type_code_marks(defs, Seq::empty(), acc, to_type);
        },
        Constant::Select { condition: _, true_value, false_value: _ } => {
            lemma_type_of_code_marks(defs, acc, *true_value);
        },
        Constant::GetElementPtr { address, indices: _, in_bounds: _, source_element_type: _ } => {
            lemma_type_of_code_marks(defs, acc, *address);
        },
        Constant::ExtractElement { vector, index: _ } => {
            lemma_type_of_code_marks(defs, acc, *vector);
        },
        Constant::InsertElement { vector, element: _, index: _ } => {
            lemma_type_of_code_marks(defs, acc, *vector);
        },
        Constant::ShuffleVector { operand0, operand1: _, mask } => {
            lemma_type_of_code_marks(defs, acc, *operand0);
            if let Ok(a1) = type_of_code(defs, acc, *operand0) {
                assert(marks(a1) + Seq::<Mark>::empty() =~= marks(a1));
                lemma_type_of_code_marks(defs, a1, *mask);
            }
        },
        Constant::ExtractValue { aggregate, indices } => {
            lemma_type_of_code_marks(defs, acc, *aggregate);
            if let Ok(a1) = type_of_code(defs, acc, *aggregate) {
                lemma_field_type_path_marks(a1, indices@, 0);
            }
        },
        Constant::InsertValue { aggregate, element: _, indices: _ } => {
            lemma_type_of_code_marks(defs, acc, *aggregate);
        },
        Constant::Null(t) => {
            lemma_type_code_marks(defs, Seq::empty(), acc, t);
        },
        Constant::AggregateZero(t) => {
            lemma_type_code_marks(defs, Seq::empty(), acc, t);
        },
        Constant::Undef(t) => {
            lemma_type_code_marks(defs, Seq::empty(), acc, t);
        },
        Constant::Poison(t) => {
            lemma_type_code_marks(defs, Seq::empty(), acc, t);
        },
        Constant::Struct { name, values, is_packed: _ } => match name {
            Some(n) => {
                lemma_type_code_marks(defs, Seq::empty(), acc, Type::NamedStructType { name: n });
            },
            None => {
                lemma_types_of_code_marks(defs, acc, values@, 0);
            },
        },
        Constant::Array { element_type, elements: _ } => {
            lemma_type_code_marks(defs, Seq::empty(), acc, element_type);
        },
        Constant::Vector(elements) => {
            if elements.len() > 0 {
                lemma_type_of_code_marks(defs, acc, elements@[0]);
            }
        },
        _ => {},
    }
}

proof fn lemma_types_of_code_marks(defs: Defs, acc: Seq<Op>, cs: Seq<Constant>, i: int)
    ensures
        adds(acc, types_of_code(defs, acc, cs, i), Seq::empty()),
    decreases cs, cs.len() - i,
{
    assert(marks(acc) + Seq::<Mark>::empty() =~= marks(acc));
    if 0 <= i < cs.len() {
        lemma_type_of_code_marks(defs, acc, cs[i]);
        if let Ok(a1) = type_of_code(defs, acc, cs[i]) {
            lemma_types_of_code_marks(defs, a1, cs, i + 1);
            assert(marks(a1) + Seq::<Mark>::empty() =~= marks(a1));
        }
    }
}

proof fn lemma_operand_code_marks(defs: Defs, values: Map<NameKey, usize>, acc: Seq<Op>, op: Operand)
    ensures
        adds(acc, operand_code(defs, values, acc, op), Seq::empty()),
{
    broadcast use lemma_marks_push;
    assert(marks(acc) + Seq::<Mark>::empty() =~= marks(acc));
    if let Operand::ConstantOperand(c) = op {
        lemma_const_code_marks(defs, values, acc, c);
    }
}

proof fn lemma_operands_code_marks(defs: Defs, values: Map<NameKey, usize>, acc: Seq<Op>, ops: Seq<Operand>, i: int)
    ensures
        adds(acc, operands_code(defs, values, acc, ops, i), Seq::empty()),
    decreases ops.len() - i,
{
    assert(marks(acc) + Seq::<Mark>::empty() =~= marks(acc));
    if 0 <= i < ops.len() {
        lemma_operand_code_marks(defs, values, acc, ops[i]);
        if let Ok(a1) = operand_code(defs, values, acc, ops[i]) {
            lemma_operands_code_marks(defs, values, a1, ops, i + 1);
            assert(marks(a1) + Seq::<Mark>::empty() =~= marks(a1));
        }
    }
}


/// The marks added by a step that turned state `st` into `r` are `m`.
pub open spec fn adds_st(st: CtxState, r: Result<CtxState, ConvertError>, m: Seq<Mark>) -> bool {
    match r {
        Ok(s) => marks(s.ops) == marks(st.ops) + m,
        Err(_) => true,
    }
}

/// `n` instruction marks.
pub open spec fn instr_marks(n: int) -> Seq<Mark> {
    Seq::new(if n > 0 { n as nat } else { 0 }, |_i: int| Mark::Instr)
}

/// `n` parameter marks.
pub open spec fn param_marks(n: int) -> Seq<Mark> {
    Seq::new(if n > 0 { n as nat } else { 0 }, |_i: int| Mark::Param)
}

/// The marks of filling a block: the builder is placed in it, then each of
/// its instructions and its terminator are built.
pub open spec fn bb_marks(b: BasicBlock) -> Seq<Mark> {
    seq![Mark::Body] + instr_marks(b.instrs.len() as int) + seq![Mark::Term]
}

/// The marks of filling the blocks `bbs[i..]`.
pub open spec fn bodies_marks(bbs: Seq<BasicBlock>, i: int) -> Seq<Mark>
    decreases bbs.len() - i,
{
    if 0 <= i < bbs.len() {
        bb_marks(bbs[i]) + bodies_marks(bbs, i + 1)
    } else {
        Seq::empty()
    }
}

/// The marks of making the blocks `bbs[i..]`: one per block, with its name.
pub open spec fn block_marks(bbs: Seq<BasicBlock>, i: int) -> Seq<Mark>
    decreases bbs.len() - i,
{
    if 0 <= i < bbs.len() {
        seq![Mark::Block(bbs[i].name)] + block_marks(bbs, i + 1)
    } else {
        Seq::empty()
    }
}

/// The marks of a function's body: if it has one, each of its blocks, each
/// of its parameters, and the contents of each block.
pub open spec fn fn_body_marks(f: Function) -> Seq<Mark> {
    if f.basic_blocks.len() > 0 {
        block_marks(f.basic_blocks@, 0) + param_marks(f.parameters.len() as int) + bodies_marks(f.basic_blocks@, 0)
    } else {
        Seq::empty()
    }
}

pub open spec fn globals_marks(gs: Seq<GlobalVariable>, i: int) -> Seq<Mark>
    decreases gs.len() - i,
{
    if 0 <= i < gs.len() {
        seq![Mark::Global(gs[i].name)] + globals_marks(gs, i + 1)
    } else {
        Seq::empty()
    }
}

pub open spec fn decls_marks(ds: Seq<FunctionDeclaration>, i: int) -> Seq<Mark>
    decreases ds.len() - i,
{
    if 0 <= i < ds.len() {
        seq![Mark::Function(ds[i].name)] + decls_marks(ds, i + 1)
    } else {
        Seq::empty()
    }
}

pub open spec fn fn_decls_marks(fs: Seq<Function>, i: int) -> Seq<Mark>
    decreases fs.len() - i,
{
    if 0 <= i < fs.len() {
        seq![Mark::Function(fs[i].name)] + fn_decls_marks(fs, i + 1)
    } else {
        Seq::empty()
    }
}

pub open spec fn fn_bodies_marks(fs: Seq<Function>, i: int) -> Seq<Mark>
    decreases fs.len() - i,
{
    if 0 <= i < fs.len() {
        fn_body_marks(fs[i]) + fn_bodies_marks(fs, i + 1)
    } else {
        Seq::empty()
    }
}

pub open spec fn aliases_marks(als: Seq<GlobalAlias>, i: int) -> Seq<Mark>
    decreases als.len() - i,
{
    if 0 <= i < als.len() {
        seq![Mark::Alias(als[i].name)] + aliases_marks(als, i + 1)
    } else {
        Seq::empty()
    }
}

/// The module-level settings of a module: its source file name (even an
/// empty one), then its data layout, target triple and inline assembly,
/// those it has.
pub open spec fn metadata_marks(m: Module) -> Seq<Mark> {
    seq![Mark::SourceFileName(m.source_file_name)]
        + (if m.data_layout.layout_str@.len() > 0 { seq![Mark::DataLayout(m.data_layout.layout_str)] } else { Seq::empty() })
        + (match m.target_triple { Some(t) => seq![Mark::Target(t)], None => Seq::empty() })
        + (if m.inline_assembly@.len() > 0 { seq![Mark::InlineAsm(m.inline_assembly)] } else { Seq::empty() })
}

/// Everything a module holds that its program must declare or build: its
/// settings, its global values (global variables, declared functions,
/// functions, aliases), then the bodies of its functions, each group in the
/// module's order.
pub open spec fn module_marks(m: Module) -> Seq<Mark> {
    metadata_marks(m) + globals_marks(m.global_vars@, 0) + decls_marks(m.func_declarations@, 0)
        + fn_decls_marks(m.functions@, 0) + aliases_marks(m.global_aliases@, 0) + fn_bodies_marks(m.functions@, 0)
}

proof fn lemma_incoming_marks(defs: Defs, values: Map<NameKey, usize>, bbs: Map<NameKey, usize>, acc: Seq<Op>, inc: Seq<(Operand, Name)>, i: int)
    ensures
        adds(acc, incoming_code(defs, values, bbs, acc, inc, i), Seq::empty()),
    decreases inc.len() - i,
{
    broadcast use lemma_marks_push;
    assert(marks(acc) + Seq::<Mark>::empty() =~= marks(acc));
    if 0 <= i < inc.len() {
        lemma_operand_code_marks(defs, values, acc, inc[i].0);
        if let Ok(a1) = operand_code(defs, values, acc, inc[i].0) {
            if bbs.contains_key(inc[i].1.key()) {
                let a2 = a1.push(Op::Value(bbs[inc[i].1.key()]));
                assert(marks(a2) == marks(a1) + Seq::<Mark>::empty());
                assert(marks(a1) + Seq::<Mark>::empty() =~= marks(a1));
                lemma_incoming_marks(defs, values, bbs, a2, inc, i + 1);
                assert(marks(a2) + Seq::<Mark>::empty() =~= marks(a2));
            }
        }
    }
}

proof fn lemma_cases_marks(defs: Defs, values: Map<NameKey, usize>, bbs: Map<NameKey, usize>, acc: Seq<Op>, cases: Seq<(Constant, Name)>, sw: usize, i: int)
    ensures
        adds(acc, cases_code(defs, values, bbs, acc, cases, sw, i), Seq::empty()),
    decreases cases.len() - i,
{
    broadcast use lemma_marks_push;
    assert(marks(acc) + Seq::<Mark>::empty() =~= marks(acc));
    if 0 <= i < cases.len() {
        lemma_const_code_marks(defs, values, acc, cases[i].0);
        if let Ok(a1) = const_code(defs, values, acc, cases[i].0) {
            if bbs.contains_key(cases[i].1.key()) {
                let a2 = a1.push(Op::AddCase { switch: sw, block: bbs[cases[i].1.key()] });
                assert(marks(a2) == marks(a1) + Seq::<Mark>::empty());
                assert(marks(a1) + Seq::<Mark>::empty() =~= marks(a1));
                lemma_cases_marks(defs, values, bbs, a2, cases, sw, i + 1);
                assert(marks(a2) + Seq::<Mark>::empty() =~= marks(a2));
            }
        }
    }
}

proof fn lemma_operand2_marks(defs: Defs, values: Map<NameKey, usize>, acc: Seq<Op>, a: Operand, b: Operand)
    ensures
        adds(acc, operand2_code(defs, values, acc, a, b), Seq::empty()),
{
    lemma_operand_code_marks(defs, values, acc, a);
    if let Ok(a1) = operand_code(defs, values, acc, a) {
        lemma_operand_code_marks(defs, values, a1, b);
        assert(marks(acc) + Seq::<Mark>::empty() =~= marks(acc));
        assert(marks(a1) + Seq::<Mark>::empty() =~= marks(a1));
    }
}

proof fn lemma_operand3_marks(defs: Defs, values: Map<NameKey, usize>, acc: Seq<Op>, a: Operand, b: Operand, c: Operand)
    ensures
        adds(acc, operand3_code(defs, values, acc, a, b, c), Seq::empty()),
{
    lemma_operand2_marks(defs, values, acc, a, b);
    if let Ok(a2) = operand2_code(defs, values, acc, a, b) {
        lemma_operand_code_marks(defs, values, a2, c);
        assert(marks(acc) + Seq::<Mark>::empty() =~= marks(acc));
        assert(marks(a2) + Seq::<Mark>::empty() =~= marks(a2));
    }
}

proof fn lemma_then_define_marks(st: CtxState, r: Result<Seq<Op>, ConvertError>, op: Op, dest: Name)
    requires
        adds(st.ops, r, Seq::empty()),
    ensures
        adds_st(st, then_define(st, r, op, dest), mark_of(op)),
{
    broadcast use lemma_marks_push;
    assert(marks(st.ops) + Seq::<Mark>::empty() =~= marks(st.ops));
}

proof fn lemma_then_push_marks(st: CtxState, r: Result<Seq<Op>, ConvertError>, op: Op)
    requires
        adds(st.ops, r, Seq::empty()),
    ensures
        adds_st(st, then_push(st, r, op), mark_of(op)),
{
    broadcast use lemma_marks_push;
    assert(marks(st.ops) + Seq::<Mark>::empty() =~= marks(st.ops));
}

proof fn lemma_extract_prefix_marks(acc: Seq<Op>, idx: Seq<u32>, j: int)
    ensures
        marks(extract_prefix(acc, idx, j)) == marks(acc),
    decreases idx.len() - j,
{
    broadcast use lemma_marks_push;
    if 0 <= j < idx.len() - 1 {
        let h = acc.len() as usize;
        let a1 = acc.push(Op::BuildExtractValue { index: idx[j], name: None }).push(Op::Value(h));
        lemma_extract_prefix_marks(a1, idx, j + 1);
        assert(marks(acc) + Seq::<Mark>::empty() =~= marks(acc));
        assert(marks(acc) + Seq::<Mark>::empty() + Seq::<Mark>::empty() =~= marks(acc));
    }
}

proof fn lemma_agg_marks(defs: Defs, values: Map<NameKey, usize>, acc: Seq<Op>, agg: Operand, src: Option<usize>)
    ensures
        adds(acc, agg_code(defs, values, acc, agg, src), Seq::empty()),
{
    broadcast use lemma_marks_push;
    assert(marks(acc) + Seq::<Mark>::empty() =~= marks(acc));
    if src is None {
        lemma_operand_code_marks(defs, values, acc, agg);
    }
}

proof fn lemma_insert_code_marks(
    defs: Defs,
    values: Map<NameKey, usize>,
    acc: Seq<Op>,
    agg: Operand,
    src: Option<usize>,
    elem: Operand,
    idx: Seq<u32>,
    j: int,
    name: Option<Name>,
)
    requires
        0 <= j < idx.len(),
    ensures
        adds(acc, insert_code(defs, values, acc, agg, src, elem, idx, j, name), name_marks(name)),
    decreases idx.len() - j,
{
    broadcast use lemma_marks_push;
    let e = Seq::<Mark>::empty();
    lemma_agg_marks(defs, values, acc, agg, src);
    if j < idx.len() - 1 {
        if let Ok(a1) = agg_code(defs, values, acc, agg, src) {
            lemma_agg_marks(defs, values, a1, agg, src);
            if let Ok(a2) = agg_code(defs, values, a1, agg, src) {
                let hx = a2.len() as usize;
                let a3 = a2.push(Op::BuildExtractValue { index: idx[j], name: None });
                lemma_insert_code_marks(defs, values, a3, agg, Some(hx), elem, idx, j + 1, None);
                assert(marks(acc) + e =~= marks(acc));
                assert(marks(a1) + e =~= marks(a1));
                assert(marks(a2) + e =~= marks(a2));
                if let Ok(a4) = insert_code(defs, values, a3, agg, Some(hx), elem, idx, j + 1, None) {
                    assert(marks(a4) == marks(a3));
                    assert(marks(a4.push(Op::Value((a4.len() - 1) as usize))) == marks(a4) + e);
                }
            }
        }
    } else {
        if let Ok(a1) = agg_code(defs, values, acc, agg, src) {
            lemma_operand_code_marks(defs, values, a1, elem);
            assert(marks(acc) + e =~= marks(acc));
            assert(marks(a1) + e =~= marks(a1));
        }
    }
}

proof fn lemma_unary_marks(defs: Defs, st: CtxState, u: UnaryOp, op: Op)
    ensures
        adds_st(st, unary_step(defs, st, u, op), mark_of(op)),
{
    lemma_operand_code_marks(defs, st.values, st.ops, u.operand);
    lemma_then_define_marks(st, operand_code(defs, st.values, st.ops, u.operand), op, u.dest);
}

proof fn lemma_cast_marks(defs: Defs, st: CtxState, opcode: CastOpcode, c: Cast)
    ensures
        adds_st(st, cast_step(defs, st, opcode, c), seq![Mark::Instr]),
{
    lemma_operand_code_marks(defs, st.values, st.ops, c.operand);
    let r = match operand_code(defs, st.values, st.ops, c.operand) {
        Ok(a1) => type_code(defs, Seq::empty(), a1, c.to_type),
        Err(e) => Err(e),
    };
    if let Ok(a1) = operand_code(defs, st.values, st.ops, c.operand) {
        lemma_type_code_marks(defs, Seq::empty(), a1, c.to_type);
        assert(marks(st.ops) + Seq::<Mark>::empty() =~= marks(st.ops));
        assert(marks(a1) + Seq::<Mark>::empty() =~= marks(a1));
    }
    lemma_then_define_marks(st, r, Op::BuildCast { opcode, name: c.dest }, c.dest);
}

proof fn lemma_extract_value_marks(defs: Defs, st: CtxState, x: ExtractValue)
    ensures
        adds_st(st, extract_value_step(defs, st, x), seq![Mark::Instr]),
{
    let idx = x.indices@;
    if idx.len() > 0 {
        lemma_operand_code_marks(defs, st.values, st.ops, x.aggregate);
        let r = match operand_code(defs, st.values, st.ops, x.aggregate) {
            Ok(a1) => Ok(extract_prefix(a1, idx, 0)),
            Err(e) => Err(e),
        };
        if let Ok(a1) = operand_code(defs, st.values, st.ops, x.aggregate) {
            lemma_extract_prefix_marks(a1, idx, 0);
        }
        lemma_then_define_marks(st, r, Op::BuildExtractValue { index: idx.last(), name: Some(x.dest) }, x.dest);
    }
}

proof fn lemma_insert_value_marks(defs: Defs, st: CtxState, x: InsertValue)
    ensures
        adds_st(st, insert_value_step(defs, st, x), seq![Mark::Instr]),
{
    if x.indices@.len() > 0 {
        lemma_insert_code_marks(defs, st.values, st.ops, x.aggregate, None, x.element, x.indices@, 0, Some(x.dest));
    }
}

proof fn lemma_shuffle_marks(defs: Defs, st: CtxState, x: ShuffleVector)
    ensures
        adds_st(st, instr_step(defs, st, Instruction::ShuffleVector(x)), seq![Mark::Instr]),
{
    lemma_operand2_marks(defs, st.values, st.ops, x.operand0, x.operand1);
    let r = match operand2_code(defs, st.values, st.ops, x.operand0, x.operand1) {
        Ok(a2) => const_code(defs, st.values, a2, x.mask),
        Err(e) => Err(e),
    };
    if let Ok(a2) = operand2_code(defs, st.values, st.ops, x.operand0, x.operand1) {
        lemma_const_code_marks(defs, st.values, a2, x.mask);
        assert(marks(st.ops) + Seq::<Mark>::empty() =~= marks(st.ops));
        assert(marks(a2) + Seq::<Mark>::empty() =~= marks(a2));
    }
    lemma_then_define_marks(st, r, Op::BuildShuffleVector(x.dest), x.dest);
}

proof fn lemma_call_marks(defs: Defs, st: CtxState, c: Call)
    ensures
        adds_st(st, call_step(defs, st, c), seq![Mark::Instr]),
{
    broadcast use lemma_marks_push;
    let e = Seq::<Mark>::empty();
    if let Callee::Operand(f) = c.function {
        lemma_operand_code_marks(defs, st.values, st.ops, f);
        if let Ok(a1) = operand_code(defs, st.values, st.ops, f) {
            lemma_type_code_marks(defs, Seq::empty(), a1, c.function_ty);
            if let Ok(a2) = type_code(defs, Seq::empty(), a1, c.function_ty) {
                lemma_operands_code_marks(defs, st.values, a2, c.arguments@, 0);
                assert(marks(st.ops) + e =~= marks(st.ops));
                assert(marks(a1) + e =~= marks(a1));
                assert(marks(a2) + e =~= marks(a2));
            }
        }
    }
}

proof fn lemma_memory_marks(defs: Defs, st: CtxState, instr: Instruction)
    requires
        instr is Alloca || instr is Load || instr is Store || instr is GetElementPtr,
    ensures
        adds_st(st, instr_step(defs, st, instr), seq![Mark::Instr]),
{
    broadcast use lemma_marks_push;
    let e = Seq::<Mark>::empty();
    match instr {
        Instruction::Alloca(a) => {
            lemma_type_code_marks(defs, Seq::empty(), st.ops, a.allocated_type);
            assert(marks(st.ops) + e =~= marks(st.ops));
        },
        Instruction::Load(l) => {
            lemma_operand_code_marks(defs, st.values, st.ops, l.address);
            if let Ok(a1) = operand_code(defs, st.values, st.ops, l.address) {
                lemma_type_code_marks(defs, Seq::empty(), a1, l.loaded_ty);
                assert(marks(st.ops) + e =~= marks(st.ops));
                assert(marks(a1) + e =~= marks(a1));
            }
        },
        Instruction::Store(s) => {
            lemma_operand_code_marks(defs, st.values, st.ops, s.value);
            if let Ok(a1) = operand_code(defs, st.values, st.ops, s.value) {
                lemma_operand_code_marks(defs, st.values, a1, s.address);
                assert(marks(st.ops) + e =~= marks(st.ops));
                assert(marks(a1) + e =~= marks(a1));
            }
        },
        Instruction::GetElementPtr(g) => {
            lemma_operand_code_marks(defs, st.values, st.ops, g.address);
            if let Ok(a1) = operand_code(defs, st.values, st.ops, g.address) {
                lemma_operands_code_marks(defs, st.values, a1, g.indices@, 0);
                if let Ok(a2) = operands_code(defs, st.values, a1, g.indices@, 0) {
                    lemma_type_code_marks(defs, Seq::empty(), a2, g.source_element_type);
                    assert(marks(st.ops) + e =~= marks(st.ops));
                    assert(marks(a1) + e =~= marks(a1));
                    assert(marks(a2) + e =~= marks(a2));
                }
            }
        },
        _ => {},
    }
}

proof fn lemma_phi_marks(defs: Defs, st: CtxState, p: Phi)
    ensures
        adds_st(st, phi_step(defs, st, p), seq![Mark::Instr]),
{
    broadcast use lemma_marks_push;
    let e = Seq::<Mark>::empty();
    lemma_type_code_marks(defs, Seq::empty(), st.ops, p.to_type);
    assert(marks(st.ops) + e =~= marks(st.ops));
}

proof fn lemma_phi_fill_marks(defs: Defs, st: CtxState, p: Phi)
    ensures
        adds_st(st, phi_fill_step(defs, st, p), Seq::empty()),
{
    broadcast use lemma_marks_push;
    let e = Seq::<Mark>::empty();
    lemma_incoming_marks(defs, st.values, st.bbs, st.ops, p.incoming_values@, 0);
    if let Ok(a) = incoming_code(defs, st.values, st.bbs, st.ops, p.incoming_values@, 0) {
        assert(marks(a) + e =~= marks(a));
    }
}

proof fn lemma_instrs_phis_marks(defs: Defs, st: CtxState, is: Seq<Instruction>, j: int)
    ensures
        adds_st(st, instrs_phis_step(defs, st, is, j), Seq::empty()),
    decreases is.len() - j,
{
    let e = Seq::<Mark>::empty();
    assert(marks(st.ops) + e =~= marks(st.ops));
    if 0 <= j < is.len() {
        match is[j] {
            Instruction::Phi(p) => {
                lemma_phi_fill_marks(defs, st, p);
                if let Ok(st1) = phi_fill_step(defs, st, p) {
                    lemma_instrs_phis_marks(defs, st1, is, j + 1);
                }
            },
            _ => lemma_instrs_phis_marks(defs, st, is, j + 1),
        }
    }
}

proof fn lemma_phis_marks(defs: Defs, st: CtxState, bbs: Seq<BasicBlock>, i: int)
    ensures
        adds_st(st, phis_step(defs, st, bbs, i), Seq::empty()),
    decreases bbs.len() - i,
{
    let e = Seq::<Mark>::empty();
    assert(marks(st.ops) + e =~= marks(st.ops));
    if 0 <= i < bbs.len() {
        lemma_instrs_phis_marks(defs, st, bbs[i].instrs@, 0);
        if let Ok(st1) = instrs_phis_step(defs, st, bbs[i].instrs@, 0) {
            lemma_phis_marks(defs, st1, bbs, i + 1);
        }
    }
}

/// Every instruction that converts is built by exactly one marked operation.
#[verifier::spinoff_prover]
proof fn lemma_instr_marks(defs: Defs, st: CtxState, instr: Instruction)
    ensures
        adds_st(st, instr_step(defs, st, instr), seq![Mark::Instr]),
{
    broadcast use lemma_marks_push;
    let v = st.values;
    let o = st.ops;
    match instr {
        Instruction::Add(b) => lemma_binary_marks(defs, st, BinaryOpcode::Add, b),
        Instruction::Sub(b) => lemma_binary_marks(defs, st, BinaryOpcode::Sub, b),
        Instruction::Mul(b) => lemma_binary_marks(defs, st, BinaryOpcode::Mul, b),
        Instruction::UDiv(b) => lemma_binary_marks(defs, st, BinaryOpcode::UDiv, b),
        Instruction::SDiv(b) => lemma_binary_marks(defs, st, BinaryOpcode::SDiv, b),
        Instruction::URem(b) => lemma_binary_marks(defs, st, BinaryOpcode::URem, b),
        Instruction::SRem(b) => lemma_binary_marks(defs, st, BinaryOpcode::SRem, b),
        Instruction::And(b) => lemma_binary_marks(defs, st, BinaryOpcode::And, b),
        Instruction::Or(b) => lemma_binary_marks(defs, st, BinaryOpcode::Or, b),
        Instruction::Xor(b) => lemma_binary_marks(defs, st, BinaryOpcode::Xor, b),
        Instruction::Shl(b) => lemma_binary_marks(defs, st, BinaryOpcode::Shl, b),
        Instruction::LShr(b) => lemma_binary_marks(defs, st, BinaryOpcode::LShr, b),
        Instruction::AShr(b) => lemma_binary_marks(defs, st, BinaryOpcode::AShr, b),
        Instruction::FAdd(b) => lemma_binary_marks(defs, st, BinaryOpcode::FAdd, b),
        Instruction::FSub(b) => lemma_binary_marks(defs, st, BinaryOpcode::FSub, b),
        Instruction::FMul(b) => lemma_binary_marks(defs, st, BinaryOpcode::FMul, b),
        Instruction::FDiv(b) => lemma_binary_marks(defs, st, BinaryOpcode::FDiv, b),
        Instruction::FRem(b) => lemma_binary_marks(defs, st, BinaryOpcode::FRem, b),
        Instruction::FNeg(u) => lemma_unary_marks(defs, st, u, Op::BuildFNeg(u.dest)),
        Instruction::Freeze(u) => lemma_unary_marks(defs, st, u, Op::BuildFreeze(u.dest)),
        Instruction::ExtractElement(x) => {
            lemma_operand2_marks(defs, v, o, x.vector, x.index);
            lemma_then_define_marks(st, operand2_code(defs, v, o, x.vector, x.index), Op::BuildExtractElement(x.dest), x.dest);
        },
        Instruction::InsertElement(x) => {
            lemma_operand3_marks(defs, v, o, x.vector, x.element, x.index);
            lemma_then_define_marks(st, operand3_code(defs, v, o, x.vector, x.element, x.index), Op::BuildInsertElement(x.dest), x.dest);
        },
        Instruction::ShuffleVector(x) => lemma_shuffle_marks(defs, st, x),
        Instruction::ExtractValue(x) => lemma_extract_value_marks(defs, st, x),
        Instruction::InsertValue(x) => lemma_insert_value_marks(defs, st, x),
        Instruction::Fence(_) => {},
        Instruction::CmpXchg(c) => {
            lemma_operand3_marks(defs, v, o, c.address, c.expected, c.replacement);
            lemma_then_define_marks(st, operand3_code(defs, v, o, c.address, c.expected, c.replacement), Op::BuildCmpXchg {
                success: ordering_code(c.atomicity.mem_ordering),
                failure: ordering_code(c.failure_memory_ordering),
                single_thread: single_thread(c.atomicity),
                weak: c.weak,
                volatile: c.volatile,
                name: c.dest,
            }, c.dest);
        },
        Instruction::AtomicRMW(a) => {
            lemma_operand2_marks(defs, v, o, a.address, a.value);
            lemma_then_define_marks(st, operand2_code(defs, v, o, a.address, a.value), Op::BuildAtomicRMW {
                operation: rmw_code(a.operation),
                ordering: ordering_code(a.atomicity.mem_ordering),
                single_thread: single_thread(a.atomicity),
                volatile: a.volatile,
                name: a.dest,
            }, a.dest);
        },
        Instruction::Trunc(c) => lemma_cast_marks(defs, st, CastOpcode::Trunc, c),
        Instruction::ZExt(c) => lemma_cast_marks(defs, st, CastOpcode::ZExt, c),
        Instruction::SExt(c) => lemma_cast_marks(defs, st, CastOpcode::SExt, c),
        Instruction::FPTrunc(c) => lemma_cast_marks(defs, st, CastOpcode::FPTrunc, c),
        Instruction::FPExt(c) => lemma_cast_marks(defs, st, CastOpcode::FPExt, c),
        Instruction::FPToUI(c) => lemma_cast_marks(defs, st, CastOpcode::FPToUI, c),
        Instruction::FPToSI(c) => lemma_cast_marks(defs, st, CastOpcode::FPToSI, c),
        Instruction::UIToFP(c) => lemma_cast_marks(defs, st, CastOpcode::UIToFP, c),
        Instruction::SIToFP(c) => lemma_cast_marks(defs, st, CastOpcode::SIToFP, c),
        Instruction::PtrToInt(c) => lemma_cast_marks(defs, st, CastOpcode::PtrToInt, c),
        Instruction::IntToPtr(c) => lemma_cast_marks(defs, st, CastOpcode::IntToPtr, c),
        Instruction::BitCast(c) => lemma_cast_marks(defs, st, CastOpcode::BitCast, c),
        Instruction::AddrSpaceCast(c) => lemma_cast_marks(defs, st, CastOpcode::AddrSpaceCast, c),
        Instruction::ICmp(c) => {
            lemma_binary_icmp_marks(defs, st, c);
        },
        Instruction::FCmp(c) => {
            lemma_operand2_marks(defs, v, o, c.operand0, c.operand1);
            lemma_then_define_marks(st, operand2_code(defs, v, o, c.operand0, c.operand1), Op::BuildFCmp {
                predicate: real_predicate_code(c.predicate),
                name: c.dest,
            }, c.dest);
        },
        Instruction::Select(x) => {
            lemma_operand3_marks(defs, v, o, x.condition, x.true_value, x.false_value);
            lemma_then_define_marks(st, operand3_code(defs, v, o, x.condition, x.true_value, x.false_value), Op::BuildSelect(x.dest), x.dest);
        },
        Instruction::Call(c) => lemma_call_marks(defs, st, c),
        Instruction::Alloca(_) => lemma_memory_marks(defs, st, instr),
        Instruction::Load(_) => lemma_memory_marks(defs, st, instr),
        Instruction::Store(_) => lemma_memory_marks(defs, st, instr),
        Instruction::GetElementPtr(_) => lemma_memory_marks(defs, st, instr),
        Instruction::Phi(p) => lemma_phi_marks(defs, st, p),
        _ => {},
    }
}

proof fn lemma_binary_icmp_marks(defs: Defs, st: CtxState, c: ICmp)
    ensures
        adds_st(st, instr_step(defs, st, Instruction::ICmp(c)), seq![Mark::Instr]),
{
    broadcast use lemma_marks_push;
    let e = Seq::<Mark>::empty();
    lemma_operand_code_marks(defs, st.values, st.ops, c.operand0);
    if let Ok(a1) = operand_code(defs, st.values, st.ops, c.operand0) {
        lemma_operand_code_marks(defs, st.values, a1, c.operand1);
        assert(marks(st.ops) + e =~= marks(st.ops));
        assert(marks(a1) + e =~= marks(a1));
    }
}

proof fn lemma_binary_marks(defs: Defs, st: CtxState, opcode: BinaryOpcode, b: BinaryOp)
    ensures
        adds_st(st, binary_step(defs, st, opcode, b), seq![Mark::Instr]),
{
    broadcast use lemma_marks_push;
    let e = Seq::<Mark>::empty();
    lemma_operand_code_marks(defs, st.values, st.ops, b.operand0);
    if let Ok(a1) = operand_code(defs, st.values, st.ops, b.operand0) {
        lemma_operand_code_marks(defs, st.values, a1, b.operand1);
        assert(marks(st.ops) + e =~= marks(st.ops));
        assert(marks(a1) + e =~= marks(a1));
    }
}

proof fn lemma_instrs_marks(defs: Defs, st: CtxState, is: Seq<Instruction>, i: int)
    requires
        0 <= i,
    ensures
        adds_st(st, instrs_step(defs, st, is, i), instr_marks(is.len() - i)),
    decreases is.len() - i,
{
    if 0 <= i < is.len() {
        lemma_instr_marks(defs, st, is[i]);
        if let Ok(st1) = instr_step(defs, st, is[i]) {
            lemma_instrs_marks(defs, st1, is, i + 1);
            assert(seq![Mark::Instr] + instr_marks(is.len() - (i + 1)) =~= instr_marks(is.len() - i));
            assert(marks(st.ops) + seq![Mark::Instr] + instr_marks(is.len() - (i + 1))
                =~= marks(st.ops) + instr_marks(is.len() - i));
        }
    } else {
        assert(instr_marks(is.len() - i) =~= Seq::<Mark>::empty());
        assert(marks(st.ops) + Seq::<Mark>::empty() =~= marks(st.ops));
    }
}

proof fn lemma_dests_marks(bbs: Map<NameKey, usize>, acc: Seq<Op>, dests: Seq<Name>, ib: usize, i: int)
    ensures
        adds(acc, dests_code(bbs, acc, dests, ib, i), Seq::empty()),
    decreases dests.len() - i,
{
    broadcast use lemma_marks_push;
    assert(marks(acc) + Seq::<Mark>::empty() =~= marks(acc));
    if 0 <= i < dests.len() && bbs.contains_key(dests[i].key()) {
        let a1 = acc.push(Op::AddDestination { indirect_br: ib, block: bbs[dests[i].key()] });
        lemma_dests_marks(bbs, a1, dests, ib, i + 1);
        assert(marks(a1) + Seq::<Mark>::empty() =~= marks(a1));
    }
}

proof fn lemma_invoke_marks(defs: Defs, st: CtxState, iv: Invoke)
    ensures
        adds_st(st, invoke_step(defs, st, iv), seq![Mark::Term]),
{
    broadcast use lemma_marks_push;
    let e = Seq::<Mark>::empty();
    if let Callee::Operand(f) = iv.function {
        lemma_operand_code_marks(defs, st.values, st.ops, f);
        if let Ok(a1) = operand_code(defs, st.values, st.ops, f) {
            lemma_type_code_marks(defs, Seq::empty(), a1, iv.function_ty);
            if let Ok(a2) = type_code(defs, Seq::empty(), a1, iv.function_ty) {
                lemma_operands_code_marks(defs, st.values, a2, iv.arguments@, 0);
                assert(marks(st.ops) + e =~= marks(st.ops));
                assert(marks(a1) + e =~= marks(a1));
                assert(marks(a2) + e =~= marks(a2));
            }
        }
    }
}

proof fn lemma_switch_marks(defs: Defs, st: CtxState, s: Switch)
    ensures
        adds_st(st, term_step(defs, st, Terminator::Switch(s)), seq![Mark::Term]),
{
    broadcast use lemma_marks_push;
    let e = Seq::<Mark>::empty();
    lemma_operand_code_marks(defs, st.values, st.ops, s.operand);
    if let Ok(a1) = operand_code(defs, st.values, st.ops, s.operand) {
        if st.bbs.contains_key(s.default_dest.key()) {
            let h = a1.len() as usize;
            let a2 = a1.push(Op::BuildSwitch {
                default_block: st.bbs[s.default_dest.key()],
                case_count: s.dests.len(),
            });
            lemma_cases_marks(defs, st.values, st.bbs, a2, s.dests@, h, 0);
            assert(marks(st.ops) + e =~= marks(st.ops));
            assert(marks(a2) + e =~= marks(a2));
        }
    }
}

proof fn lemma_indirect_br_marks(defs: Defs, st: CtxState, b: IndirectBr)
    ensures
        adds_st(st, term_step(defs, st, Terminator::IndirectBr(b)), seq![Mark::Term]),
{
    broadcast use lemma_marks_push;
    let e = Seq::<Mark>::empty();
    lemma_operand_code_marks(defs, st.values, st.ops, b.operand);
    if let Ok(a1) = operand_code(defs, st.values, st.ops, b.operand) {
        let h = a1.len() as usize;
        let a2 = a1.push(Op::BuildIndirectBr { dest_count: b.possible_dests.len() });
        lemma_dests_marks(st.bbs, a2, b.possible_dests@, h, 0);
        assert(marks(st.ops) + e =~= marks(st.ops));
        assert(marks(a2) + e =~= marks(a2));
    }
}

/// Every terminator that converts is built by exactly one marked operation.
proof fn lemma_term_marks(defs: Defs, st: CtxState, t: Terminator)
    ensures
        adds_st(st, term_step(defs, st, t), seq![Mark::Term]),
{
    broadcast use lemma_marks_push;
    let e = Seq::<Mark>::empty();
    match t {
        Terminator::Ret(r) => {
            if let Some(op) = r.return_operand {
                lemma_operand_code_marks(defs, st.values, st.ops, op);
                assert(marks(st.ops) + e =~= marks(st.ops));
            }
        },
        Terminator::CondBr(c) => {
            lemma_operand_code_marks(defs, st.values, st.ops, c.condition);
            assert(marks(st.ops) + e =~= marks(st.ops));
        },
        Terminator::Switch(s) => lemma_switch_marks(defs, st, s),
        Terminator::IndirectBr(b) => lemma_indirect_br_marks(defs, st, b),
        Terminator::Invoke(iv) => lemma_invoke_marks(defs, st, iv),
        Terminator::Resume(r) => {
            lemma_operand_code_marks(defs, st.values, st.ops, r.operand);
            lemma_then_push_marks(st, operand_code(defs, st.values, st.ops, r.operand), Op::BuildResume);
        },
        _ => {},
    }
}

proof fn lemma_bb_marks(defs: Defs, st: CtxState, bb: BasicBlock)
    ensures
        adds_st(st, bb_step(defs, st, bb), bb_marks(bb)),
{
    broadcast use lemma_marks_push;
    if st.bbs.contains_key(bb.name.key()) {
        let st1 = with_op(st, Op::PositionAtEnd(st.bbs[bb.name.key()]));
        lemma_instrs_marks(defs, st1, bb.instrs@, 0);
        if let Ok(st2) = instrs_step(defs, st1, bb.instrs@, 0) {
            lemma_term_marks(defs, st2, bb.term);
            assert(marks(st.ops) + seq![Mark::Body] + instr_marks(bb.instrs.len() as int) + seq![Mark::Term]
                =~= marks(st.ops) + bb_marks(bb));
        }
    }
}

proof fn lemma_bodies_marks(defs: Defs, st: CtxState, bbs: Seq<BasicBlock>, i: int)
    ensures
        adds_st(st, bodies_step(defs, st, bbs, i), bodies_marks(bbs, i)),
    decreases bbs.len() - i,
{
    if 0 <= i < bbs.len() {
        lemma_bb_marks(defs, st, bbs[i]);
        if let Ok(st1) = bb_step(defs, st, bbs[i]) {
            lemma_bodies_marks(defs, st1, bbs, i + 1);
            assert(marks(st.ops) + bb_marks(bbs[i]) + bodies_marks(bbs, i + 1)
                =~= marks(st.ops) + bodies_marks(bbs, i));
        }
    } else {
        assert(marks(st.ops) + Seq::<Mark>::empty() =~= marks(st.ops));
    }
}

proof fn lemma_blocks_marks(st: CtxState, f: usize, bbs: Seq<BasicBlock>, i: int)
    ensures
        marks(blocks_step(st, f, bbs, i).ops) == marks(st.ops) + block_marks(bbs, i),
    decreases bbs.len() - i,
{
    broadcast use lemma_marks_push;
    if 0 <= i < bbs.len() {
        let h = st.ops.len() as usize;
        let st1 = CtxState {
            ops: st.ops.push(Op::AppendBasicBlock { function: f, name: bbs[i].name }),
            values: st.values,
            bbs: st.bbs.insert(bbs[i].name.key(), h),
        };
        lemma_blocks_marks(st1, f, bbs, i + 1);
        assert(marks(st.ops) + seq![Mark::Block(bbs[i].name)] + block_marks(bbs, i + 1)
            =~= marks(st.ops) + block_marks(bbs, i));
    } else {
        assert(marks(st.ops) + Seq::<Mark>::empty() =~= marks(st.ops));
    }
}

proof fn lemma_params_marks(st: CtxState, f: usize, ps: Seq<Parameter>, i: int)
    requires
        0 <= i,
    ensures
        marks(params_step(st, f, ps, i).ops) == marks(st.ops) + param_marks(ps.len() - i),
    decreases ps.len() - i,
{
    broadcast use lemma_marks_push;
    if 0 <= i < ps.len() {
        let h = st.ops.len() as usize;
        let st1 = CtxState {
            ops: st.ops.push(Op::GetParam { function: f, index: i as u32 }),
            values: st.values.insert(ps[i].name.key(), h),
            bbs: st.bbs,
        };
        lemma_params_marks(st1, f, ps, i + 1);
        assert(seq![Mark::Param] + param_marks(ps.len() - (i + 1)) =~= param_marks(ps.len() - i));
        assert(marks(st.ops) + seq![Mark::Param] + param_marks(ps.len() - (i + 1))
            =~= marks(st.ops) + param_marks(ps.len() - i));
    } else {
        assert(param_marks(ps.len() - i) =~= Seq::<Mark>::empty());
        assert(marks(st.ops) + Seq::<Mark>::empty() =~= marks(st.ops));
    }
}

proof fn lemma_fn_type_marks(defs: Defs, acc: Seq<Op>, result: Type, params: Seq<Type>, va: bool)
    ensures
        adds(acc, fn_type_code(defs, acc, result, params, va), Seq::empty()),
{
    broadcast use lemma_marks_push;
    lemma_type_code_marks(defs, Seq::empty(), acc, result);
    if let Ok(a1) = type_code(defs, Seq::empty(), acc, result) {
        lemma_types_code_marks(defs, Seq::empty(), a1, params, 0);
        assert(marks(acc) + Seq::<Mark>::empty() =~= marks(acc));
        assert(marks(a1) + Seq::<Mark>::empty() =~= marks(a1));
    }
}

proof fn lemma_header_marks(st: CtxState, a1: Seq<Op>, h: usize, name: String, l: Linkage, v: Visibility, gc: Option<String>)
    ensures
        marks(fn_header(st, a1, h, name, l, v, gc).ops) == marks(a1) + seq![Mark::Function(name)],
{
    broadcast use lemma_marks_push;
    let a2 = attrs(a1.push(Op::AddFunction(name)), h, l, v);
    assert(marks(a2) == marks(a1) + seq![Mark::Function(name)]) by {
        assert(marks(a1) + seq![Mark::Function(name)] + Seq::<Mark>::empty() =~= marks(a1) + seq![Mark::Function(name)]);
    }
    assert(marks(a2) + Seq::<Mark>::empty() =~= marks(a2));
}

proof fn lemma_attr_ops_marks(acc: Seq<Op>, h: usize, place: AttrPlace, attrs: Seq<Attribute>, i: int)
    ensures
        marks(attr_ops(acc, h, place, attrs, i)) == marks(acc),
    decreases attrs.len() - i,
{
    broadcast use lemma_marks_push;
    if 0 <= i < attrs.len() {
        let op = Op::AddAttribute { target: h, place, attribute: attrs[i] };
        assert(marks(acc) + Seq::<Mark>::empty() =~= marks(acc));
        lemma_attr_ops_marks(acc.push(op), h, place, attrs, i + 1);
    }
}

proof fn lemma_param_attr_marks(acc: Seq<Op>, h: usize, ps: Seq<Parameter>, j: int)
    ensures
        marks(param_attr_ops(acc, h, ps, j)) == marks(acc),
    decreases ps.len() - j,
{
    if 0 <= j < ps.len() {
        lemma_attr_ops_marks(acc, h, AttrPlace::Param(j as u32), ps[j].attributes@, 0);
        lemma_param_attr_marks(attr_ops(acc, h, AttrPlace::Param(j as u32), ps[j].attributes@, 0), h, ps, j + 1);
    }
}

proof fn lemma_fn_attr_marks(acc: Seq<Op>, h: usize, fa: Seq<Attribute>, ra: Seq<Attribute>, ps: Seq<Parameter>)
    ensures
        marks(fn_attr_ops(acc, h, fa, ra, ps)) == marks(acc),
{
    lemma_attr_ops_marks(acc, h, AttrPlace::Function, fa, 0);
    let a1 = attr_ops(acc, h, AttrPlace::Function, fa, 0);
    lemma_attr_ops_marks(a1, h, AttrPlace::Return, ra, 0);
    lemma_param_attr_marks(attr_ops(a1, h, AttrPlace::Return, ra, 0), h, ps, 0);
}

proof fn lemma_decl_marks(defs: Defs, st: CtxState, d: FunctionDeclaration)
    ensures
        adds_st(st, decl_step(defs, st, d), seq![Mark::Function(d.name)]),
{
    reveal(decl_step);
    lemma_fn_type_marks(defs, st.ops, d.return_type, param_types(d.parameters@), d.is_var_arg);
    if let Ok(a1) = fn_type_code(defs, st.ops, d.return_type, param_types(d.parameters@), d.is_var_arg) {
        lemma_header_marks(st, a1, a1.len() as usize, d.name, d.linkage, d.visibility, d.garbage_collector_name);
        let st1 = fn_header(st, a1, a1.len() as usize, d.name, d.linkage, d.visibility, d.garbage_collector_name);
        lemma_fn_attr_marks(st1.ops, a1.len() as usize, d.function_attributes@, d.return_attributes@, d.parameters@);
        assert(marks(st.ops) + Seq::<Mark>::empty() =~= marks(st.ops));
    }
}

proof fn lemma_fn_decl_marks(defs: Defs, st: CtxState, f: Function)
    ensures
        adds_st(st, fn_decl_step(defs, st, f), seq![Mark::Function(f.name)]),
{
    lemma_fn_type_marks(defs, st.ops, f.return_type, param_types(f.parameters@), f.is_var_arg);
    if let Ok(a1) = fn_type_code(defs, st.ops, f.return_type, param_types(f.parameters@), f.is_var_arg) {
        lemma_header_marks(st, a1, a1.len() as usize, f.name, f.linkage, f.visibility, f.garbage_collector_name);
        let st1 = fn_header(st, a1, a1.len() as usize, f.name, f.linkage, f.visibility, f.garbage_collector_name);
        lemma_fn_attr_marks(st1.ops, a1.len() as usize, f.function_attributes@, f.return_attributes@, f.parameters@);
        assert(marks(st.ops) + Seq::<Mark>::empty() =~= marks(st.ops));
    }
}

proof fn lemma_fn_body_marks(defs: Defs, st: CtxState, f: Function)
    ensures
        adds_st(st, fn_body_step(defs, st, f), fn_body_marks(f)),
{
    reveal(fn_body_step);
    assert(marks(st.ops) + Seq::<Mark>::empty() =~= marks(st.ops));
    if f.basic_blocks.len() > 0 {
        if let Some(h) = fn_handle(st, f.name) {
            let st2 = blocks_step(st, h, f.basic_blocks@, 0);
            let st3 = params_step(st2, h, f.parameters@, 0);
            lemma_blocks_marks(st, h, f.basic_blocks@, 0);
            lemma_params_marks(st2, h, f.parameters@, 0);
            lemma_bodies_marks(defs, st3, f.basic_blocks@, 0);
            if let Ok(st4) = bodies_step(defs, st3, f.basic_blocks@, 0) {
                lemma_phis_marks(defs, st4, f.basic_blocks@, 0);
                assert(marks(st.ops) + block_marks(f.basic_blocks@, 0)
                    + param_marks(f.parameters@.len() - 0) + bodies_marks(f.basic_blocks@, 0)
                    =~= marks(st.ops) + fn_body_marks(f));
                assert(marks(st4.ops) + Seq::<Mark>::empty() =~= marks(st4.ops));
            }
        }
    }
}

proof fn lemma_global_marks(defs: Defs, st: CtxState, g: GlobalVariable)
    ensures
        adds_st(st, global_decl_step(defs, st, g), seq![Mark::Global(g.name)]),
{
    broadcast use lemma_marks_push;
    reveal(global_decl_step);
    let e = Seq::<Mark>::empty();
    let ty = match g.initializer {
        Some(init) => type_of_code(defs, st.ops, init),
        None => Ok(st.ops.push(Op::IntType(8))),
    };
    match g.initializer {
        Some(init) => lemma_type_of_code_marks(defs, st.ops, init),
        None => {},
    }
    if let Ok(a1) = ty {
        assert(marks(a1) == marks(st.ops)) by {
            assert(marks(st.ops) + e =~= marks(st.ops));
        }
        let m = marks(st.ops) + seq![Mark::Global(g.name)];
        assert(m + e =~= m);
    }
}

proof fn lemma_global_init_marks(defs: Defs, st: CtxState, g: GlobalVariable)
    ensures
        adds_st(st, global_init_step(defs, st, g), Seq::empty()),
{
    broadcast use lemma_marks_push;
    reveal(global_init_step);
    let e = Seq::<Mark>::empty();
    assert(marks(st.ops) + e =~= marks(st.ops));
    match g.initializer {
        Some(init) => {
            lemma_const_code_marks(defs, st.values, st.ops, init);
        },
        None => {},
    }
}

proof fn lemma_alias_marks(defs: Defs, st: CtxState, a: GlobalAlias)
    ensures
        adds_st(st, alias_step(defs, st, a), seq![Mark::Alias(a.name)]),
{
    broadcast use lemma_marks_push;
    reveal(alias_step);
    let e = Seq::<Mark>::empty();
    lemma_type_code_marks(defs, Seq::empty(), st.ops, a.ty);
    if let Ok(a1) = type_code(defs, Seq::empty(), st.ops, a.ty) {
        lemma_const_code_marks(defs, st.values, a1, a.aliasee);
        assert(marks(st.ops) + e =~= marks(st.ops));
        assert(marks(a1) + e =~= marks(a1));
        let m = marks(st.ops) + seq![Mark::Alias(a.name)];
        assert(m + e =~= m);
    }
}

proof fn lemma_globals_marks(defs: Defs, st: CtxState, gs: Seq<GlobalVariable>, i: int)
    ensures
        adds_st(st, global_decls_step(defs, st, gs, i), globals_marks(gs, i)),
    decreases gs.len() - i,
{
    if 0 <= i < gs.len() {
        lemma_global_marks(defs, st, gs[i]);
        if let Ok(st1) = global_decl_step(defs, st, gs[i]) {
            lemma_globals_marks(defs, st1, gs, i + 1);
            assert(marks(st.ops) + seq![Mark::Global(gs[i].name)] + globals_marks(gs, i + 1)
                =~= marks(st.ops) + globals_marks(gs, i));
        }
    } else {
        assert(marks(st.ops) + Seq::<Mark>::empty() =~= marks(st.ops));
    }
}

proof fn lemma_decls_marks(defs: Defs, st: CtxState, ds: Seq<FunctionDeclaration>, i: int)
    ensures
        adds_st(st, decls_step(defs, st, ds, i), decls_marks(ds, i)),
    decreases ds.len() - i,
{
    if 0 <= i < ds.len() {
        lemma_decl_marks(defs, st, ds[i]);
        if let Ok(st1) = decl_step(defs, st, ds[i]) {
            lemma_decls_marks(defs, st1, ds, i + 1);
            assert(marks(st.ops) + seq![Mark::Function(ds[i].name)] + decls_marks(ds, i + 1)
                =~= marks(st.ops) + decls_marks(ds, i));
        }
    } else {
        assert(marks(st.ops) + Seq::<Mark>::empty() =~= marks(st.ops));
    }
}

proof fn lemma_fn_decls_marks(defs: Defs, st: CtxState, fs: Seq<Function>, i: int)
    ensures
        adds_st(st, fn_decls_step(defs, st, fs, i), fn_decls_marks(fs, i)),
    decreases fs.len() - i,
{
    if 0 <= i < fs.len() {
        lemma_fn_decl_marks(defs, st, fs[i]);
        if let Ok(st1) = fn_decl_step(defs, st, fs[i]) {
            lemma_fn_decls_marks(defs, st1, fs, i + 1);
            assert(marks(st.ops) + seq![Mark::Function(fs[i].name)] + fn_decls_marks(fs, i + 1)
                =~= marks(st.ops) + fn_decls_marks(fs, i));
        }
    } else {
        assert(marks(st.ops) + Seq::<Mark>::empty() =~= marks(st.ops));
    }
}

proof fn lemma_fn_bodies_marks(defs: Defs, st: CtxState, fs: Seq<Function>, i: int)
    ensures
        adds_st(st, fn_bodies_step(defs, st, fs, i), fn_bodies_marks(fs, i)),
    decreases fs.len() - i,
{
    if 0 <= i < fs.len() {
        lemma_fn_body_marks(defs, st, fs[i]);
        if let Ok(st1) = fn_body_step(defs, st, fs[i]) {
            lemma_fn_bodies_marks(defs, st1, fs, i + 1);
            assert(marks(st.ops) + fn_body_marks(fs[i]) + fn_bodies_marks(fs, i + 1)
                =~= marks(st.ops) + fn_bodies_marks(fs, i));
        }
    } else {
        assert(marks(st.ops) + Seq::<Mark>::empty() =~= marks(st.ops));
    }
}

proof fn lemma_global_inits_marks(defs: Defs, st: CtxState, gs: Seq<GlobalVariable>, i: int)
    ensures
        adds_st(st, global_inits_step(defs, st, gs, i), Seq::empty()),
    decreases gs.len() - i,
{
    assert(marks(st.ops) + Seq::<Mark>::empty() =~= marks(st.ops));
    if 0 <= i < gs.len() {
        lemma_global_init_marks(defs, st, gs[i]);
        if let Ok(st1) = global_init_step(defs, st, gs[i]) {
            lemma_global_inits_marks(defs, st1, gs, i + 1);
        }
    }
}

proof fn lemma_aliases_marks(defs: Defs, st: CtxState, als: Seq<GlobalAlias>, i: int)
    ensures
        adds_st(st, aliases_step(defs, st, als, i), aliases_marks(als, i)),
    decreases als.len() - i,
{
    if 0 <= i < als.len() {
        lemma_alias_marks(defs, st, als[i]);
        if let Ok(st1) = alias_step(defs, st, als[i]) {
            lemma_aliases_marks(defs, st1, als, i + 1);
            assert(marks(st.ops) + seq![Mark::Alias(als[i].name)] + aliases_marks(als, i + 1)
                =~= marks(st.ops) + aliases_marks(als, i));
        }
    } else {
        assert(marks(st.ops) + Seq::<Mark>::empty() =~= marks(st.ops));
    }
}

proof fn lemma_metadata_marks(m: Module)
    ensures
        marks(metadata_ops(m)) == metadata_marks(m),
{
    broadcast use lemma_marks_push;
    let e = Seq::<Mark>::empty();
    assert(marks(Seq::<Op>::empty()) == e);
    let a1 = Seq::empty().push(Op::SetSourceFileName(m.source_file_name));
    let m1 = seq![Mark::SourceFileName(m.source_file_name)];
    assert(marks(a1) == m1) by {
        assert(e + seq![Mark::SourceFileName(m.source_file_name)] =~= seq![Mark::SourceFileName(m.source_file_name)]);
    }
    let a2 = if m.data_layout.layout_str@.len() > 0 {
        a1.push(Op::SetDataLayout(m.data_layout.layout_str))
    } else {
        a1
    };
    let m2 = m1 + if m.data_layout.layout_str@.len() > 0 { seq![Mark::DataLayout(m.data_layout.layout_str)] } else { e };
    assert(marks(a2) == m2) by {
        assert(m1 + e =~= m1);
    }
    let a3 = match m.target_triple {
        Some(t) => a2.push(Op::SetTarget(t)),
        None => a2,
    };
    let m3 = m2 + match m.target_triple { Some(t) => seq![Mark::Target(t)], None => e };
    assert(marks(a3) == m3) by {
        assert(m2 + e =~= m2);
    }
    assert(marks(metadata_ops(m)) == metadata_marks(m)) by {
        assert(m3 + e =~= m3);
    }
}

/// A converted module's construction program declares exactly what the
/// module holds, each once and in the module's order: it sets the module's
/// source file name (even an empty one), then its data layout, target triple
/// and inline assembly (those it has); adds its global variables, its
/// declared functions, its functions and its aliases, before any
/// initializer or body; then, for each function with a body in turn, makes
/// one block per basic block and takes one parameter per parameter, and, for
/// each block in turn, places the builder in it and builds one operation per
/// instruction and one per terminator. In particular the numbers of global
/// variables, declarations, functions, aliases, blocks and instructions of
/// each block, and the names of the global values and blocks, are those of
/// the module.
pub proof fn plan_declares_module(m: Module)
    ensures
        match module_plan(m) {
            Ok(ops) => marks(ops) == module_marks(m),
            Err(_) => true,
        },
{
    let defs = m.types.named_structs@;
    let st0 = CtxState { ops: metadata_ops(m), ..empty_state() };
    lemma_metadata_marks(m);
    lemma_globals_marks(defs, st0, m.global_vars@, 0);
    if let Ok(st1) = global_decls_step(defs, st0, m.global_vars@, 0) {
        lemma_decls_marks(defs, st1, m.func_declarations@, 0);
        if let Ok(st2) = decls_step(defs, st1, m.func_declarations@, 0) {
            lemma_fn_decls_marks(defs, st2, m.functions@, 0);
            if let Ok(st3) = fn_decls_step(defs, st2, m.functions@, 0) {
                lemma_aliases_marks(defs, st3, m.global_aliases@, 0);
                if let Ok(st4) = aliases_step(defs, st3, m.global_aliases@, 0) {
                    lemma_global_inits_marks(defs, st4, m.global_vars@, 0);
                    if let Ok(st5) = global_inits_step(defs, st4, m.global_vars@, 0) {
                        lemma_fn_bodies_marks(defs, st5, m.functions@, 0);
                        assert(marks(st5.ops) == marks(st4.ops)) by {
                            assert(marks(st4.ops) + Seq::<Mark>::empty() =~= marks(st4.ops));
                        }
                    }
                }
            }
        }
    }
}

} // verus!
