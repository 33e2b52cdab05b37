//! Handles in a construction program. The law of this module states that
//! every operation of a module's program refers only to operations before
//! it: a replay in order has always made what an operation uses.

use vstd::prelude::*;
use crate::body_conv::{
    agg_code, bb_step, binary_step, call_step, cases_code, cast_step, define, dests_code, extract_prefix,
    extract_value_step, incoming_code, insert_code, insert_value_step, instr_step, instrs_step, invoke_step,
    operand2_code, operand3_code, phi_fill_step, phi_handle, instrs_phis_step, phi_step, single_thread, term_step, then_define, then_push, unary_step,
};
use crate::const_conv::{
    block_handle, lemma_block_made, const_code, consts_code, extract_path, field_type_path, insert_loads, insert_stores, operand_code,
    operands_code, type_of_code, types_of_code,
};
use crate::context::{empty_state, with_op};
use crate::ir::{
    Attribute, BasicBlock, BinaryOp, Call, Callee, Cast, Constant, ExtractValue, Function, FunctionDeclaration, GlobalAlias,
    GlobalVariable, IndirectBr, InsertValue, Instruction, Invoke, Linkage, Module, Name, NameKey, NamedStructDef,
    Operand, Parameter, Phi, ShuffleVector, Switch, Terminator, Type, UnaryOp, Visibility,
};
use crate::llvm_codes::{ordering_code, real_predicate_code, rmw_code};
use crate::module_conv::{
    alias_step, aliases_step, attrs, blocks_step, bodies_step, decl_step, decls_step, attr_ops, fn_body_step, fn_bodies_step, param_attr_ops, with_fn_attrs,
    fn_decl_step, fn_decls_step, fn_handle, fn_header, global_decl_step, global_decls_step, global_handle,
    global_init_step, global_inits_step, metadata_ops, module_plan, param_types, params_step, phis_step,
};
use crate::plan::{AttrPlace, BinaryOpcode, CastOpcode, ConvertError, CtxState, Op};
use crate::types_conv::{first_def, fn_type_code, lemma_struct_made, struct_handle, type_code, types_code, Defs};

verus! {

/// Every handle that operation `op` refers to is below `n`.
pub open spec fn refs_below(op: Op, n: int) -> bool {
    match op {
        Op::Value(h) => h < n,
        Op::SetLinkage { target, linkage: _ } => target < n,
        Op::SetVisibility { target, visibility: _ } => target < n,
        Op::SetGlobalConstant { target, is_constant: _ } => target < n,
        Op::SetInitializer { target } => target < n,
        Op::SetAlignment { target, alignment: _ } => target < n,
        Op::SetSection { target, section: _ } => target < n,
        Op::SetGC { target, name: _ } => target < n,
        Op::AddAttribute { target, place: _, attribute: _ } => target < n,
        Op::AppendBasicBlock { function, name: _ } => function < n,
        Op::GetParam { function, index: _ } => function < n,
        Op::PositionAtEnd(b) => b < n,
        Op::AddIncoming { phi, count: _ } => phi < n,
        Op::BuildBr(b) => b < n,
        Op::BuildCondBr { then_block, else_block } => then_block < n && else_block < n,
        Op::BuildSwitch { default_block, case_count: _ } => default_block < n,
        Op::AddCase { switch, block } => switch < n && block < n,
        Op::AddDestination { indirect_br, block } => indirect_br < n && block < n,
        Op::BuildInvoke { arg_count: _, then_block, catch_block, name: _ } => then_block < n && catch_block < n,
        _ => true,
    }
}

/// Every operation of `ops` refers only to operations before it.
pub open spec fn refers_backward(ops: Seq<Op>) -> bool {
    forall|i: int| 0 <= i < ops.len() ==> refs_below(#[trigger] ops[i], i)
}

/// Every handle bound in `m` is below `n`.
pub open spec fn bound_below(m: Map<NameKey, usize>, n: int) -> bool {
    forall|k: NameKey| #[trigger] m.contains_key(k) ==> m[k] < n
}

/// A conversion state whose program refers backward and whose names are
/// bound to operations of that program.
pub open spec fn sound(st: CtxState) -> bool {
    &&& refers_backward(st.ops)
    &&& bound_below(st.values, st.ops.len() as int)
    &&& bound_below(st.bbs, st.ops.len() as int)
}

/// The program `r`, if there is one, refers backward and is no shorter
/// than `acc`.
pub open spec fn grows(acc: Seq<Op>, r: Result<Seq<Op>, ConvertError>) -> bool {
    match r {
        Ok(a) => refers_backward(a) && acc.len() <= a.len(),
        Err(_) => true,
    }
}

/// The state `r`, if there is one, is sound.
pub open spec fn stays_sound(r: Result<CtxState, ConvertError>) -> bool {
    match r {
        Ok(s) => sound(s),
        Err(_) => true,
    }
}

pub broadcast proof fn lemma_push_backward(ops: Seq<Op>, op: Op)
    requires
        refers_backward(ops),
        refs_below(op, ops.len() as int),
    ensures
        #[trigger] refers_backward(ops.push(op)),
{
    assert forall|i: int| 0 <= i < ops.push(op).len() implies refs_below(#[trigger] ops.push(op)[i], i) by {
        if i < ops.len() {
            assert(ops.push(op)[i] == ops[i]);
        }
    }
}

proof fn lemma_refs_below_mono(op: Op, n: int, m: int)
    requires
        refs_below(op, n),
        n <= m,
    ensures
        refs_below(op, m),
{
}

proof fn lemma_bound_insert(m: Map<NameKey, usize>, k: NameKey, h: usize, n: int)
    requires
        bound_below(m, n),
        h < n,
    ensures
        bound_below(m.insert(k, h), n),
{
    assert forall|k2: NameKey| #[trigger] m.insert(k, h).contains_key(k2) implies m.insert(k, h)[k2] < n by {
        if k2 != k {
            assert(m.contains_key(k2));
        }
    }
}

proof fn lemma_type_code_backward(defs: Defs, stack: Seq<usize>, acc: Seq<Op>, t: Type)
    requires
        refers_backward(acc),
    ensures
        grows(acc, type_code(defs, stack, acc, t)),
    decreases defs.len() - stack.len(), t, 0int,
{
    broadcast use lemma_push_backward;
    match t {
        Type::FuncType { result_type, param_types, is_var_arg: _ } => {
            lemma_type_code_backward(defs, stack, acc, *result_type);
            if let Ok(a1) = type_code(defs, stack, acc, *result_type) {
                lemma_types_code_backward(defs, stack, a1, param_types@, 0);
            }
        },
        Type::VectorType { element_type, num_elements: _, scalable: _ } => {
            lemma_type_code_backward(defs, stack, acc, *element_type);
        },
        Type::ArrayType { element_type, num_elements: _ } => {
            lemma_type_code_backward(defs, stack, acc, *element_type);
        },
        Type::StructType { element_types, is_packed: _ } => {
            lemma_types_code_backward(defs, stack, acc, element_types@, 0);
        },
        Type::NamedStructType { name } => {
            let i = first_def(defs, name@, 0);
            let a0 = acc.push(Op::NamedStruct(name));
            lemma_struct_made(acc, name@, 0);
            if let Some(h) = struct_handle(acc, name@) {
                assert(refs_below(Op::Value(h), acc.len() as int));
            } else if 0 <= i < defs.len() {
                match defs[i].1 {
                    NamedStructDef::Defined(Type::StructType { element_types, is_packed: _ }) => {
                        if !(stack.contains(i as usize) || stack.len() >= defs.len()) {
                            lemma_types_code_backward(defs, stack.push(i as usize), a0, element_types@, 0);
                        }
                    },
                    _ => {},
                }
            }
        },
        _ => {},
    }
}

proof fn lemma_types_code_backward(defs: Defs, stack: Seq<usize>, acc: Seq<Op>, ts: Seq<Type>, i: int)
    requires
        refers_backward(acc),
    ensures
        grows(acc, types_code(defs, stack, acc, ts, i)),
    decreases defs.len() - stack.len(), ts, ts.len() - i,
{
    if 0 <= i < ts.len() {
        lemma_type_code_backward(defs, stack, acc, ts[i]);
        if let Ok(a1) = type_code(defs, stack, acc, ts[i]) {
            lemma_types_code_backward(defs, stack, a1, ts, i + 1);
        }
    }
}

proof fn lemma_fn_type_backward(defs: Defs, acc: Seq<Op>, result: Type, params: Seq<Type>, is_var_arg: bool)
    requires
        refers_backward(acc),
    ensures
        grows(acc, fn_type_code(defs, acc, result, params, is_var_arg)),
{
    broadcast use lemma_push_backward;
    lemma_type_code_backward(defs, Seq::empty(), acc, result);
    if let Ok(a1) = type_code(defs, Seq::empty(), acc, result) {
        lemma_types_code_backward(defs, Seq::empty(), a1, params, 0);
    }
}

proof fn lemma_const_code_backward(defs: Defs, values: Map<NameKey, usize>, acc: Seq<Op>, c: Constant)
    requires
        refers_backward(acc),
        bound_below(values, acc.len() as int),
    ensures
        grows(acc, const_code(defs, values, acc, c)),
    decreases c, 0int,
{
    broadcast use lemma_push_backward;
    match c {
        Constant::Poison(t) => lemma_type_code_backward(defs, Seq::empty(), acc, t),
        Constant::BlockAddress { function, block } => {
            if values.contains_key(function.key()) {
                let f = values[function.key()];
                lemma_block_made(acc, f, block, 0);
                if let Some(b) = block_handle(acc, f, block) {
                    assert(refs_below(Op::Value(f), acc.len() as int));
                    assert(refs_below(Op::Value(b), acc.len() + 1 as int));
                }
            }
        },
        Constant::Binary { opcode: _, operand0, operand1 } => {
            lemma_const_code_backward(defs, values, acc, *operand0);
            if let Ok(a1) = const_code(defs, values, acc, *operand0) {
                lemma_const_code_backward(defs, values, a1, *operand1);
            }
        },
        Constant::ICmp { predicate: _, operand0, operand1 } => {
            lemma_const_code_backward(defs, values, acc, *operand0);
            if let Ok(a1) = const_code(defs, values, acc, *operand0) {
                lemma_const_code_backward(defs, values, a1, *operand1);
            }
        },
        Constant::FCmp { predicate: _, operand0, operand1 } => {
            lemma_const_code_backward(defs, values, acc, *operand0);
            if let Ok(a1) = const_code(defs, values, acc, *operand0) {
                lemma_const_code_backward(defs, values, a1, *operand1);
            }
        },
        Constant::Cast { opcode: _, operand, to_type } => {
            lemma_const_code_backward(defs, values, acc, *operand);
            if let Ok(a1) = const_code(defs, values, acc, *operand) {
                lemma_type_code_backward(defs, Seq::empty(), a1, to_type);
            }
        },
        Constant::Select { condition, true_value, false_value } => {
            lemma_const_code_backward(defs, values, acc, *condition);
            if let Ok(a1) = const_code(defs, values, acc, *condition) {
                lemma_const_code_backward(defs, values, a1, *true_value);
                if let Ok(a2) = const_code(defs, values, a1, *true_value) {
                    lemma_const_code_backward(defs, values, a2, *false_value);
                }
            }
        },
        Constant::GetElementPtr { address, indices, in_bounds: _, source_element_type } => {
            lemma_const_code_backward(defs, values, acc, *address);
            if let Ok(a1) = const_code(defs, values, acc, *address) {
                lemma_consts_code_backward(defs, values, a1, indices@, 0);
                if let Ok(a2) = consts_code(defs, values, a1, indices@, 0) {
                    lemma_type_code_backward(defs, Seq::empty(), a2, source_element_type);
                }
            }
        },
        Constant::Null(t) => lemma_type_code_backward(defs, Seq::empty(), acc, t),
        Constant::AggregateZero(t) => lemma_type_code_backward(defs, Seq::empty(), acc, t),
        Constant::Undef(t) => lemma_type_code_backward(defs, Seq::empty(), acc, t),
        Constant::Struct { name, values: fields, is_packed: _ } => match name {
            Some(n) => {
                let t = Type::NamedStructType { name: n };
                lemma_type_code_backward(defs, Seq::empty(), acc, t);
                if let Ok(a1) = type_code(defs, Seq::empty(), acc, t) {
                    lemma_consts_code_backward(defs, values, a1, fields@, 0);
                }
            },
            None => {
                lemma_consts_code_backward(defs, values, acc, fields@, 0);
            },
        },
        Constant::Array { element_type, elements } => {
            lemma_type_code_backward(defs, Seq::empty(), acc, element_type);
            if let Ok(a1) = type_code(defs, Seq::empty(), acc, element_type) {
                lemma_consts_code_backward(defs, values, a1, elements@, 0);
            }
        },
        Constant::Vector(elements) => {
            lemma_consts_code_backward(defs, values, acc, elements@, 0);
        },
        Constant::ExtractElement { vector, index } => {
            lemma_const_code_backward(defs, values, acc, *vector);
            if let Ok(a1) = const_code(defs, values, acc, *vector) {
                lemma_const_code_backward(defs, values, a1, *index);
            }
        },
        Constant::InsertElement { vector, element, index } => {
            lemma_const_code_backward(defs, values, acc, *vector);
            if let Ok(a1) = const_code(defs, values, acc, *vector) {
                lemma_const_code_backward(defs, values, a1, *element);
                if let Ok(a2) = const_code(defs, values, a1, *element) {
                    lemma_const_code_backward(defs, values, a2, *index);
                }
            }
        },
        Constant::ShuffleVector { operand0, operand1, mask } => {
            lemma_const_code_backward(defs, values, acc, *operand0);
            if let Ok(a1) = const_code(defs, values, acc, *operand0) {
                lemma_const_code_backward(defs, values, a1, *operand1);
                if let Ok(a2) = const_code(defs, values, a1, *operand1) {
                    lemma_const_code_backward(defs, values, a2, *mask);
                }
            }
        },
        Constant::ExtractValue { aggregate, indices } => {
            lemma_const_code_backward(defs, values, acc, *aggregate);
            if let Ok(a1) = const_code(defs, values, acc, *aggregate) {
                lemma_extract_path_backward(a1, indices@, 0, indices@.len() as int);
            }
        },
        Constant::InsertValue { aggregate, element, indices } => {
            lemma_insert_loads_backward(defs, values, acc, *aggregate, indices@, 0);
            if let Ok(a1) = insert_loads(defs, values, acc, *aggregate, indices@, 0) {
                lemma_bound_below_grows(values, acc.len() as int, a1.len() as int);
                lemma_const_code_backward(defs, values, a1, *element);
                if let Ok(a2) = const_code(defs, values, a1, *element) {
                    lemma_insert_stores_backward(a2, indices@, indices@.len() as int);
                }
            }
        },
        _ => {},
    }
}

proof fn lemma_bound_below_grows(m: Map<NameKey, usize>, n: int, n2: int)
    requires
        bound_below(m, n),
        n <= n2,
    ensures
        bound_below(m, n2),
{
}

proof fn lemma_extract_path_backward(acc: Seq<Op>, idx: Seq<u32>, k: int, j: int)
    requires
        refers_backward(acc),
    ensures
        refers_backward(extract_path(acc, idx, k, j)),
        acc.len() <= extract_path(acc, idx, k, j).len(),
    decreases j - k,
{
    broadcast use lemma_push_backward;
    if k < j {
        lemma_extract_path_backward(acc.push(Op::ConstExtractValue(idx[k])), idx, k + 1, j);
    }
}

proof fn lemma_field_type_path_backward(acc: Seq<Op>, idx: Seq<u32>, k: int)
    requires
        refers_backward(acc),
    ensures
        refers_backward(field_type_path(acc, idx, k)),
        acc.len() <= field_type_path(acc, idx, k).len(),
    decreases idx.len() - k,
{
    broadcast use lemma_push_backward;
    if 0 <= k < idx.len() {
        lemma_field_type_path_backward(acc.push(Op::FieldType(idx[k])), idx, k + 1);
    }
}

proof fn lemma_insert_stores_backward(acc: Seq<Op>, idx: Seq<u32>, j: int)
    requires
        refers_backward(acc),
    ensures
        refers_backward(insert_stores(acc, idx, j)),
        acc.len() <= insert_stores(acc, idx, j).len(),
    decreases j,
{
    broadcast use lemma_push_backward;
    if j > 0 {
        lemma_insert_stores_backward(acc.push(Op::ConstInsertValue(idx[j - 1])), idx, j - 1);
    }
}

proof fn lemma_insert_loads_backward(defs: Defs, values: Map<NameKey, usize>, acc: Seq<Op>, agg: Constant, idx: Seq<u32>, j: int)
    requires
        refers_backward(acc),
        bound_below(values, acc.len() as int),
    ensures
        grows(acc, insert_loads(defs, values, acc, agg, idx, j)),
    decreases agg, idx.len() - j + 1,
{
    if 0 <= j < idx.len() {
        lemma_const_code_backward(defs, values, acc, agg);
        if let Ok(a1) = const_code(defs, values, acc, agg) {
            lemma_extract_path_backward(a1, idx, 0, j);
            let a1e = extract_path(a1, idx, 0, j);
            lemma_bound_below_grows(values, acc.len() as int, a1e.len() as int);
            lemma_insert_loads_backward(defs, values, a1e, agg, idx, j + 1);
        }
    }
}

proof fn lemma_consts_code_backward(defs: Defs, values: Map<NameKey, usize>, acc: Seq<Op>, cs: Seq<Constant>, i: int)
    requires
        refers_backward(acc),
        bound_below(values, acc.len() as int),
    ensures
        grows(acc, consts_code(defs, values, acc, cs, i)),
    decreases cs, cs.len() - i,
{
    if 0 <= i < cs.len() {
        lemma_const_code_backward(defs, values, acc, cs[i]);
        if let Ok(a1) = const_code(defs, values, acc, cs[i]) {
            lemma_consts_code_backward(defs, values, a1, cs, i + 1);
        }
    }
}

proof fn lemma_type_of_code_backward(defs: Defs, acc: Seq<Op>, c: Constant)
    requires
        refers_backward(acc),
    ensures
        grows(acc, type_of_code(defs, acc, c)),
    decreases c, 0int,
{
    broadcast use lemma_push_backward;
    match c {
        Constant::Binary { opcode: _, operand0, operand1: _ } => lemma_type_of_code_backward(defs, acc, *operand0),
        Constant::ICmp { predicate: _, operand0, operand1: _ } => lemma_type_of_code_backward(defs, acc, *operand0),
        Constant::FCmp { predicate: _, operand0, operand1: _ } => lemma_type_of_code_backward(defs, acc, *operand0),
        Constant::Cast { opcode: _, operand: _, to_type } => lemma_type_code_backward(defs, Seq::empty(), acc, to_type),
        Constant::Select { condition: _, true_value, false_value: _ } => lemma_type_of_code_backward(defs, acc, *true_value),
        Constant::GetElementPtr { address, indices: _, in_bounds: _, source_element_type: _ } => lemma_type_of_code_backward(defs, acc, *address),
        Constant::ExtractElement { vector, index: _ } => lemma_type_of_code_backward(defs, acc, *vector),
        Constant::InsertElement { vector, element: _, index: _ } => lemma_type_of_code_backward(defs, acc, *vector),
        Constant::ShuffleVector { operand0, operand1: _, mask } => {
            lemma_type_of_code_backward(defs, acc, *operand0);
            if let Ok(a1) = type_of_code(defs, acc, *operand0) {
                lemma_type_of_code_backward(defs, a1, *mask);
            }
        },
        Constant::ExtractValue { aggregate, indices } => {
            lemma_type_of_code_backward(defs, acc, *aggregate);
            if let Ok(a1) = type_of_code(defs, acc, *aggregate) {
                lemma_field_type_path_backward(a1, indices@, 0);
            }
        },
        Constant::InsertValue { aggregate, element: _, indices: _ } => lemma_type_of_code_backward(defs, acc, *aggregate),
        Constant::Null(t) => lemma_type_code_backward(defs, Seq::empty(), acc, t),
        Constant::AggregateZero(t) => lemma_type_code_backward(defs, Seq::empty(), acc, t),
        Constant::Undef(t) => lemma_type_code_backward(defs, Seq::empty(), acc, t),
        Constant::Poison(t) => lemma_type_code_backward(defs, Seq::empty(), acc, t),
        Constant::Struct { name, values, is_packed: _ } => match name {
            Some(n) => lemma_type_code_backward(defs, Seq::empty(), acc, Type::NamedStructType { name: n }),
            None => lemma_types_of_code_backward(defs, acc, values@, 0),
        },
        Constant::Array { element_type, elements: _ } => {
            lemma_type_code_backward(defs, Seq::empty(), acc, element_type);
        },
        Constant::Vector(elements) => {
            if elements.len() > 0 {
                lemma_type_of_code_backward(defs, acc, elements@[0]);
            }
        },
        _ => {},
    }
}

proof fn lemma_types_of_code_backward(defs: Defs, acc: Seq<Op>, cs: Seq<Constant>, i: int)
    requires
        refers_backward(acc),
    ensures
        grows(acc, types_of_code(defs, acc, cs, i)),
    decreases cs, cs.len() - i,
{
    if 0 <= i < cs.len() {
        lemma_type_of_code_backward(defs, acc, cs[i]);
        if let Ok(a1) = type_of_code(defs, acc, cs[i]) {
            lemma_types_of_code_backward(defs, a1, cs, i + 1);
        }
    }
}

proof fn lemma_operand_backward(defs: Defs, values: Map<NameKey, usize>, acc: Seq<Op>, op: Operand)
    requires
        refers_backward(acc),
        bound_below(values, acc.len() as int),
    ensures
        grows(acc, operand_code(defs, values, acc, op)),
{
    broadcast use lemma_push_backward;
    if let Operand::ConstantOperand(c) = op {
        lemma_const_code_backward(defs, values, acc, c);
    }
}

proof fn lemma_operands_backward(defs: Defs, values: Map<NameKey, usize>, acc: Seq<Op>, ops: Seq<Operand>, i: int)
    requires
        refers_backward(acc),
        bound_below(values, acc.len() as int),
    ensures
        grows(acc, operands_code(defs, values, acc, ops, i)),
    decreases ops.len() - i,
{
    if 0 <= i < ops.len() {
        lemma_operand_backward(defs, values, acc, ops[i]);
        if let Ok(a1) = operand_code(defs, values, acc, ops[i]) {
            lemma_operands_backward(defs, values, a1, ops, i + 1);
        }
    }
}

proof fn lemma_operand2_backward(defs: Defs, values: Map<NameKey, usize>, acc: Seq<Op>, a: Operand, b: Operand)
    requires
        refers_backward(acc),
        bound_below(values, acc.len() as int),
    ensures
        grows(acc, operand2_code(defs, values, acc, a, b)),
{
    lemma_operand_backward(defs, values, acc, a);
    if let Ok(a1) = operand_code(defs, values, acc, a) {
        lemma_operand_backward(defs, values, a1, b);
    }
}

proof fn lemma_operand3_backward(defs: Defs, values: Map<NameKey, usize>, acc: Seq<Op>, a: Operand, b: Operand, c: Operand)
    requires
        refers_backward(acc),
        bound_below(values, acc.len() as int),
    ensures
        grows(acc, operand3_code(defs, values, acc, a, b, c)),
{
    lemma_operand2_backward(defs, values, acc, a, b);
    if let Ok(a2) = operand2_code(defs, values, acc, a, b) {
        lemma_operand_backward(defs, values, a2, c);
    }
}

/// Appending, after operations that grew soundly from a sound state, an
/// operation that makes the value of `dest` keeps the state sound.
proof fn lemma_define_sound(st: CtxState, a: Seq<Op>, op: Op, dest: Name)
    requires
        sound(st),
        refers_backward(a),
        st.ops.len() <= a.len(),
        refs_below(op, a.len() as int),
    ensures
        sound(define(st, a, op, dest)),
{
    broadcast use lemma_push_backward;
    lemma_bound_insert(st.values, dest.key(), a.len() as usize, a.len() + 1 as int);
}

proof fn lemma_then_define_sound(st: CtxState, r: Result<Seq<Op>, ConvertError>, op: Op, dest: Name)
    requires
        sound(st),
        grows(st.ops, r),
        refs_below(op, st.ops.len() as int),
    ensures
        stays_sound(then_define(st, r, op, dest)),
{
    if let Ok(a) = r {
        lemma_refs_below_mono(op, st.ops.len() as int, a.len() as int);
        lemma_define_sound(st, a, op, dest);
    }
}

proof fn lemma_then_push_sound(st: CtxState, r: Result<Seq<Op>, ConvertError>, op: Op)
    requires
        sound(st),
        grows(st.ops, r),
        refs_below(op, st.ops.len() as int),
    ensures
        stays_sound(then_push(st, r, op)),
{
    broadcast use lemma_push_backward;
    if let Ok(a) = r {
        lemma_refs_below_mono(op, st.ops.len() as int, a.len() as int);
    }
}

proof fn lemma_binary_sound(defs: Defs, st: CtxState, opcode: BinaryOpcode, b: BinaryOp)
    requires
        sound(st),
    ensures
        stays_sound(binary_step(defs, st, opcode, b)),
{
    lemma_operand2_backward(defs, st.values, st.ops, b.operand0, b.operand1);
    lemma_then_define_sound(
        st,
        operand2_code(defs, st.values, st.ops, b.operand0, b.operand1),
        Op::BuildBinary { opcode, name: b.dest },
        b.dest,
    );
}

proof fn lemma_call_sound(defs: Defs, st: CtxState, c: Call)
    requires
        sound(st),
    ensures
        stays_sound(call_step(defs, st, c)),
{
    broadcast use lemma_push_backward;
    if let Callee::Operand(f) = c.function {
        lemma_operand_backward(defs, st.values, st.ops, f);
        if let Ok(a1) = operand_code(defs, st.values, st.ops, f) {
            lemma_type_code_backward(defs, Seq::empty(), a1, c.function_ty);
            if let Ok(a2) = type_code(defs, Seq::empty(), a1, c.function_ty) {
                lemma_operands_backward(defs, st.values, a2, c.arguments@, 0);
                if let Ok(a3) = operands_code(defs, st.values, a2, c.arguments@, 0) {
                    let op = Op::BuildCall { arg_count: c.arguments.len(), name: c.dest };
                    if let Some(d) = c.dest {
                        lemma_define_sound(st, a3, op, d);
                    }
                }
            }
        }
    }
}

proof fn lemma_incoming_backward(
    defs: Defs,
    values: Map<NameKey, usize>,
    bbs: Map<NameKey, usize>,
    acc: Seq<Op>,
    inc: Seq<(Operand, Name)>,
    i: int,
)
    requires
        refers_backward(acc),
        bound_below(values, acc.len() as int),
        bound_below(bbs, acc.len() as int),
    ensures
        grows(acc, incoming_code(defs, values, bbs, acc, inc, i)),
    decreases inc.len() - i,
{
    broadcast use lemma_push_backward;
    if 0 <= i < inc.len() {
        lemma_operand_backward(defs, values, acc, inc[i].0);
        if let Ok(a1) = operand_code(defs, values, acc, inc[i].0) {
            if bbs.contains_key(inc[i].1.key()) {
                let a2 = a1.push(Op::Value(bbs[inc[i].1.key()]));
                lemma_incoming_backward(defs, values, bbs, a2, inc, i + 1);
            }
        }
    }
}

proof fn lemma_phi_sound(defs: Defs, st: CtxState, p: Phi)
    requires
        sound(st),
    ensures
        stays_sound(phi_step(defs, st, p)),
{
    lemma_type_code_backward(defs, Seq::empty(), st.ops, p.to_type);
    if let Ok(a1) = type_code(defs, Seq::empty(), st.ops, p.to_type) {
        lemma_define_sound(st, a1, Op::BuildPhi(p.dest), p.dest);
    }
}

proof fn lemma_phi_fill_sound(defs: Defs, st: CtxState, p: Phi)
    requires
        sound(st),
    ensures
        stays_sound(phi_fill_step(defs, st, p)),
{
    broadcast use lemma_push_backward;
    if let Some(h) = phi_handle(st, p.dest) {
        lemma_incoming_backward(defs, st.values, st.bbs, st.ops, p.incoming_values@, 0);
        if let Ok(a) = incoming_code(defs, st.values, st.bbs, st.ops, p.incoming_values@, 0) {
            let op = Op::AddIncoming { phi: h, count: p.incoming_values.len() };
            assert(refs_below(op, a.len() as int));
            let a3 = a.push(op);
            assert(refers_backward(a3));
            assert(bound_below(st.values, a3.len() as int));
            assert(bound_below(st.bbs, a3.len() as int));
        }
    }
}

proof fn lemma_instrs_phis_sound(defs: Defs, st: CtxState, is: Seq<Instruction>, j: int)
    requires
        sound(st),
    ensures
        stays_sound(instrs_phis_step(defs, st, is, j)),
    decreases is.len() - j,
{
    if 0 <= j < is.len() {
        match is[j] {
            Instruction::Phi(p) => {
                lemma_phi_fill_sound(defs, st, p);
                if let Ok(st1) = phi_fill_step(defs, st, p) {
                    lemma_instrs_phis_sound(defs, st1, is, j + 1);
                }
            },
            _ => lemma_instrs_phis_sound(defs, st, is, j + 1),
        }
    }
}

proof fn lemma_phis_sound(defs: Defs, st: CtxState, bbs: Seq<BasicBlock>, i: int)
    requires
        sound(st),
    ensures
        stays_sound(phis_step(defs, st, bbs, i)),
    decreases bbs.len() - i,
{
    if 0 <= i < bbs.len() {
        lemma_instrs_phis_sound(defs, st, bbs[i].instrs@, 0);
        if let Ok(st1) = instrs_phis_step(defs, st, bbs[i].instrs@, 0) {
            lemma_phis_sound(defs, st1, bbs, i + 1);
        }
    }
}

proof fn lemma_unary_sound(defs: Defs, st: CtxState, u: UnaryOp, op: Op)
    requires
        sound(st),
        refs_below(op, st.ops.len() as int),
    ensures
        stays_sound(unary_step(defs, st, u, op)),
{
    lemma_operand_backward(defs, st.values, st.ops, u.operand);
    lemma_then_define_sound(st, operand_code(defs, st.values, st.ops, u.operand), op, u.dest);
}

proof fn lemma_cast_sound(defs: Defs, st: CtxState, opcode: CastOpcode, c: Cast)
    requires
        sound(st),
    ensures
        stays_sound(cast_step(defs, st, opcode, c)),
{
    lemma_operand_backward(defs, st.values, st.ops, c.operand);
    let r = match operand_code(defs, st.values, st.ops, c.operand) {
        Ok(a1) => type_code(defs, Seq::empty(), a1, c.to_type),
        Err(e) => Err(e),
    };
    if let Ok(a1) = operand_code(defs, st.values, st.ops, c.operand) {
        lemma_type_code_backward(defs, Seq::empty(), a1, c.to_type);
    }
    lemma_then_define_sound(st, r, Op::BuildCast { opcode, name: c.dest }, c.dest);
}

proof fn lemma_extract_prefix_backward(acc: Seq<Op>, idx: Seq<u32>, j: int)
    requires
        refers_backward(acc),
    ensures
        refers_backward(extract_prefix(acc, idx, j)),
        acc.len() <= extract_prefix(acc, idx, j).len(),
    decreases idx.len() - j,
{
    broadcast use lemma_push_backward;
    if 0 <= j < idx.len() - 1 {
        let h = acc.len() as usize;
        let a1 = acc.push(Op::BuildExtractValue { index: idx[j], name: None });
        let a2 = a1.push(Op::Value(h));
        lemma_extract_prefix_backward(a2, idx, j + 1);
    }
}

proof fn lemma_extract_value_sound(defs: Defs, st: CtxState, x: ExtractValue)
    requires
        sound(st),
    ensures
        stays_sound(extract_value_step(defs, st, x)),
{
    let idx = x.indices@;
    if idx.len() > 0 {
        lemma_operand_backward(defs, st.values, st.ops, x.aggregate);
        let r = match operand_code(defs, st.values, st.ops, x.aggregate) {
            Ok(a1) => Ok(extract_prefix(a1, idx, 0)),
            Err(e) => Err(e),
        };
        if let Ok(a1) = operand_code(defs, st.values, st.ops, x.aggregate) {
            lemma_extract_prefix_backward(a1, idx, 0);
        }
        lemma_then_define_sound(st, r, Op::BuildExtractValue { index: idx.last(), name: Some(x.dest) }, x.dest);
    }
}

proof fn lemma_agg_backward(defs: Defs, values: Map<NameKey, usize>, acc: Seq<Op>, agg: Operand, src: Option<usize>)
    requires
        refers_backward(acc),
        bound_below(values, acc.len() as int),
        src matches Some(h) ==> h < acc.len(),
    ensures
        grows(acc, agg_code(defs, values, acc, agg, src)),
{
    broadcast use lemma_push_backward;
    if src is None {
        lemma_operand_backward(defs, values, acc, agg);
    }
}

proof fn lemma_insert_code_backward(
    defs: Defs,
    values: Map<NameKey, usize>,
    acc: Seq<Op>,
    agg: Operand,
    src: Option<usize>,
    elem: Operand,
    idx: Seq<u32>,
    j: int,
    name: Option<Name>,
)
    requires
        refers_backward(acc),
        bound_below(values, acc.len() as int),
        src matches Some(h) ==> h < acc.len(),
        0 <= j < idx.len(),
    ensures
        match insert_code(defs, values, acc, agg, src, elem, idx, j, name) {
            Ok(a) => refers_backward(a) && acc.len() < a.len(),
            Err(_) => true,
        },
    decreases idx.len() - j,
{
    broadcast use lemma_push_backward;
    lemma_agg_backward(defs, values, acc, agg, src);
    if j < idx.len() - 1 {
        if let Ok(a1) = agg_code(defs, values, acc, agg, src) {
            lemma_agg_backward(defs, values, a1, agg, src);
            if let Ok(a2) = agg_code(defs, values, a1, agg, src) {
                let hx = a2.len() as usize;
                let a3 = a2.push(Op::BuildExtractValue { index: idx[j], name: None });
                lemma_insert_code_backward(defs, values, a3, agg, Some(hx), elem, idx, j + 1, None);
                if let Ok(a4) = insert_code(defs, values, a3, agg, Some(hx), elem, idx, j + 1, None) {
                    let a5 = a4.push(Op::Value((a4.len() - 1) as usize));
                    assert(refers_backward(a5));
                    assert(refers_backward(a5.push(Op::BuildInsertValue { index: idx[j], name })));
                }
            }
        }
    } else {
        if let Ok(a1) = agg_code(defs, values, acc, agg, src) {
            lemma_operand_backward(defs, values, a1, elem);
        }
    }
}

proof fn lemma_insert_value_sound(defs: Defs, st: CtxState, x: InsertValue)
    requires
        sound(st),
    ensures
        stays_sound(insert_value_step(defs, st, x)),
{
    if x.indices@.len() > 0 {
        lemma_insert_code_backward(defs, st.values, st.ops, x.aggregate, None, x.element, x.indices@, 0, Some(x.dest));
        if let Ok(a) = insert_code(defs, st.values, st.ops, x.aggregate, None, x.element, x.indices@, 0, Some(x.dest)) {
            lemma_bound_insert(st.values, x.dest.key(), (a.len() - 1) as usize, a.len() as int);
        }
    }
}

proof fn lemma_shuffle_sound(defs: Defs, st: CtxState, x: ShuffleVector)
    requires
        sound(st),
    ensures
        stays_sound(instr_step(defs, st, Instruction::ShuffleVector(x))),
{
    lemma_operand2_backward(defs, st.values, st.ops, x.operand0, x.operand1);
    let r = match operand2_code(defs, st.values, st.ops, x.operand0, x.operand1) {
        Ok(a2) => const_code(defs, st.values, a2, x.mask),
        Err(e) => Err(e),
    };
    if let Ok(a2) = operand2_code(defs, st.values, st.ops, x.operand0, x.operand1) {
        lemma_const_code_backward(defs, st.values, a2, x.mask);
    }
    lemma_then_define_sound(st, r, Op::BuildShuffleVector(x.dest), x.dest);
}

proof fn lemma_memory_sound(defs: Defs, st: CtxState, instr: Instruction)
    requires
        sound(st),
        instr is Alloca || instr is Load || instr is Store || instr is GetElementPtr || instr is ICmp,
    ensures
        stays_sound(instr_step(defs, st, instr)),
{
    broadcast use lemma_push_backward;
    match instr {
        Instruction::Alloca(a) => {
            lemma_type_code_backward(defs, Seq::empty(), st.ops, a.allocated_type);
            if let Ok(a1) = type_code(defs, Seq::empty(), st.ops, a.allocated_type) {
                lemma_define_sound(st, a1, Op::BuildAlloca(a.dest), a.dest);
            }
        },
        Instruction::Load(l) => {
            lemma_operand_backward(defs, st.values, st.ops, l.address);
            if let Ok(a1) = operand_code(defs, st.values, st.ops, l.address) {
                lemma_type_code_backward(defs, Seq::empty(), a1, l.loaded_ty);
                if let Ok(a2) = type_code(defs, Seq::empty(), a1, l.loaded_ty) {
                    lemma_define_sound(st, a2, Op::BuildLoad(l.dest), l.dest);
                }
            }
        },
        Instruction::Store(s) => {
            lemma_operand2_backward(defs, st.values, st.ops, s.value, s.address);
        },
        Instruction::GetElementPtr(g) => {
            lemma_operand_backward(defs, st.values, st.ops, g.address);
            if let Ok(a1) = operand_code(defs, st.values, st.ops, g.address) {
                lemma_operands_backward(defs, st.values, a1, g.indices@, 0);
                if let Ok(a2) = operands_code(defs, st.values, a1, g.indices@, 0) {
                    lemma_type_code_backward(defs, Seq::empty(), a2, g.source_element_type);
                    if let Ok(a3) = type_code(defs, Seq::empty(), a2, g.source_element_type) {
                        lemma_define_sound(st, a3, Op::BuildGEP { index_count: g.indices.len(), name: g.dest }, g.dest);
                    }
                }
            }
        },
        Instruction::ICmp(c) => {
            lemma_operand2_backward(defs, st.values, st.ops, c.operand0, c.operand1);
        },
        _ => {},
    }
}

/// Converting an instruction keeps a state sound.
#[verifier::spinoff_prover]
proof fn lemma_instr_sound(defs: Defs, st: CtxState, instr: Instruction)
    requires
        sound(st),
    ensures
        stays_sound(instr_step(defs, st, instr)),
{
    let v = st.values;
    let o = st.ops;
    match instr {
        Instruction::Add(b) => lemma_binary_sound(defs, st, BinaryOpcode::Add, b),
        Instruction::Sub(b) => lemma_binary_sound(defs, st, BinaryOpcode::Sub, b),
        Instruction::Mul(b) => lemma_binary_sound(defs, st, BinaryOpcode::Mul, b),
        Instruction::UDiv(b) => lemma_binary_sound(defs, st, BinaryOpcode::UDiv, b),
        Instruction::SDiv(b) => lemma_binary_sound(defs, st, BinaryOpcode::SDiv, b),
        Instruction::URem(b) => lemma_binary_sound(defs, st, BinaryOpcode::URem, b),
        Instruction::SRem(b) => lemma_binary_sound(defs, st, BinaryOpcode::SRem, b),
        Instruction::And(b) => lemma_binary_sound(defs, st, BinaryOpcode::And, b),
        Instruction::Or(b) => lemma_binary_sound(defs, st, BinaryOpcode::Or, b),
        Instruction::Xor(b) => lemma_binary_sound(defs, st, BinaryOpcode::Xor, b),
        Instruction::Shl(b) => lemma_binary_sound(defs, st, BinaryOpcode::Shl, b),
        Instruction::LShr(b) => lemma_binary_sound(defs, st, BinaryOpcode::LShr, b),
        Instruction::AShr(b) => lemma_binary_sound(defs, st, BinaryOpcode::AShr, b),
        Instruction::FAdd(b) => lemma_binary_sound(defs, st, BinaryOpcode::FAdd, b),
        Instruction::FSub(b) => lemma_binary_sound(defs, st, BinaryOpcode::FSub, b),
        Instruction::FMul(b) => lemma_binary_sound(defs, st, BinaryOpcode::FMul, b),
        Instruction::FDiv(b) => lemma_binary_sound(defs, st, BinaryOpcode::FDiv, b),
        Instruction::FRem(b) => lemma_binary_sound(defs, st, BinaryOpcode::FRem, b),
        Instruction::FNeg(u) => lemma_unary_sound(defs, st, u, Op::BuildFNeg(u.dest)),
        Instruction::Freeze(u) => lemma_unary_sound(defs, st, u, Op::BuildFreeze(u.dest)),
        Instruction::ExtractElement(x) => {
            lemma_operand2_backward(defs, v, o, x.vector, x.index);
            lemma_then_define_sound(st, operand2_code(defs, v, o, x.vector, x.index), Op::BuildExtractElement(x.dest), x.dest);
        },
        Instruction::InsertElement(x) => {
            lemma_operand3_backward(defs, v, o, x.vector, x.element, x.index);
            lemma_then_define_sound(st, operand3_code(defs, v, o, x.vector, x.element, x.index), Op::BuildInsertElement(x.dest), x.dest);
        },
        Instruction::ShuffleVector(x) => lemma_shuffle_sound(defs, st, x),
        Instruction::ExtractValue(x) => lemma_extract_value_sound(defs, st, x),
        Instruction::InsertValue(x) => lemma_insert_value_sound(defs, st, x),
        Instruction::Fence(f) => {
            broadcast use lemma_push_backward;
            assert(refs_below(Op::BuildFence {
                ordering: ordering_code(f.atomicity.mem_ordering),
                single_thread: single_thread(f.atomicity),
            }, o.len() as int));
        },
        Instruction::CmpXchg(c) => {
            lemma_operand3_backward(defs, v, o, c.address, c.expected, c.replacement);
            lemma_then_define_sound(st, operand3_code(defs, v, o, c.address, c.expected, c.replacement), Op::BuildCmpXchg {
                success: ordering_code(c.atomicity.mem_ordering),
                failure: ordering_code(c.failure_memory_ordering),
                single_thread: single_thread(c.atomicity),
                weak: c.weak,
                volatile: c.volatile,
                name: c.dest,
            }, c.dest);
        },
        Instruction::AtomicRMW(a) => {
            lemma_operand2_backward(defs, v, o, a.address, a.value);
            lemma_then_define_sound(st, operand2_code(defs, v, o, a.address, a.value), Op::BuildAtomicRMW {
                operation: rmw_code(a.operation),
                ordering: ordering_code(a.atomicity.mem_ordering),
                single_thread: single_thread(a.atomicity),
                volatile: a.volatile,
                name: a.dest,
            }, a.dest);
        },
        Instruction::Trunc(c) => lemma_cast_sound(defs, st, CastOpcode::Trunc, c),
        Instruction::ZExt(c) => lemma_cast_sound(defs, st, CastOpcode::ZExt, c),
        Instruction::SExt(c) => lemma_cast_sound(defs, st, CastOpcode::SExt, c),
        Instruction::FPTrunc(c) => lemma_cast_sound(defs, st, CastOpcode::FPTrunc, c),
        Instruction::FPExt(c) => lemma_cast_sound(defs, st, CastOpcode::FPExt, c),
        Instruction::FPToUI(c) => lemma_cast_sound(defs, st, CastOpcode::FPToUI, c),
        Instruction::FPToSI(c) => lemma_cast_sound(defs, st, CastOpcode::FPToSI, c),
        Instruction::UIToFP(c) => lemma_cast_sound(defs, st, CastOpcode::UIToFP, c),
        Instruction::SIToFP(c) => lemma_cast_sound(defs, st, CastOpcode::SIToFP, c),
        Instruction::PtrToInt(c) => lemma_cast_sound(defs, st, CastOpcode::PtrToInt, c),
        Instruction::IntToPtr(c) => lemma_cast_sound(defs, st, CastOpcode::IntToPtr, c),
        Instruction::BitCast(c) => lemma_cast_sound(defs, st, CastOpcode::BitCast, c),
        Instruction::AddrSpaceCast(c) => lemma_cast_sound(defs, st, CastOpcode::AddrSpaceCast, c),
        Instruction::FCmp(c) => {
            lemma_operand2_backward(defs, v, o, c.operand0, c.operand1);
            lemma_then_define_sound(st, operand2_code(defs, v, o, c.operand0, c.operand1), Op::BuildFCmp {
                predicate: real_predicate_code(c.predicate),
                name: c.dest,
            }, c.dest);
        },
        Instruction::Select(x) => {
            lemma_operand3_backward(defs, v, o, x.condition, x.true_value, x.false_value);
            lemma_then_define_sound(st, operand3_code(defs, v, o, x.condition, x.true_value, x.false_value), Op::BuildSelect(x.dest), x.dest);
        },
        Instruction::Call(c) => lemma_call_sound(defs, st, c),
        Instruction::Alloca(_) => lemma_memory_sound(defs, st, instr),
        Instruction::Load(_) => lemma_memory_sound(defs, st, instr),
        Instruction::Store(_) => lemma_memory_sound(defs, st, instr),
        Instruction::GetElementPtr(_) => lemma_memory_sound(defs, st, instr),
        Instruction::ICmp(_) => lemma_memory_sound(defs, st, instr),
        Instruction::Phi(p) => lemma_phi_sound(defs, st, p),
        _ => {},
    }
}

proof fn lemma_instrs_sound(defs: Defs, st: CtxState, is: Seq<Instruction>, i: int)
    requires
        sound(st),
    ensures
        stays_sound(instrs_step(defs, st, is, i)),
    decreases is.len() - i,
{
    if 0 <= i < is.len() {
        lemma_instr_sound(defs, st, is[i]);
        if let Ok(st1) = instr_step(defs, st, is[i]) {
            lemma_instrs_sound(defs, st1, is, i + 1);
        }
    }
}

proof fn lemma_cases_backward(
    defs: Defs,
    values: Map<NameKey, usize>,
    bbs: Map<NameKey, usize>,
    acc: Seq<Op>,
    cases: Seq<(Constant, Name)>,
    sw: usize,
    i: int,
)
    requires
        refers_backward(acc),
        bound_below(values, acc.len() as int),
        bound_below(bbs, acc.len() as int),
        sw < acc.len(),
    ensures
        grows(acc, cases_code(defs, values, bbs, acc, cases, sw, i)),
    decreases cases.len() - i,
{
    broadcast use lemma_push_backward;
    if 0 <= i < cases.len() {
        lemma_const_code_backward(defs, values, acc, cases[i].0);
        if let Ok(a1) = const_code(defs, values, acc, cases[i].0) {
            if bbs.contains_key(cases[i].1.key()) {
                let a2 = a1.push(Op::AddCase { switch: sw, block: bbs[cases[i].1.key()] });
                lemma_cases_backward(defs, values, bbs, a2, cases, sw, i + 1);
            }
        }
    }
}

proof fn lemma_dests_backward(bbs: Map<NameKey, usize>, acc: Seq<Op>, dests: Seq<Name>, ib: usize, i: int)
    requires
        refers_backward(acc),
        bound_below(bbs, acc.len() as int),
        ib < acc.len(),
    ensures
        grows(acc, dests_code(bbs, acc, dests, ib, i)),
    decreases dests.len() - i,
{
    broadcast use lemma_push_backward;
    if 0 <= i < dests.len() && bbs.contains_key(dests[i].key()) {
        let a1 = acc.push(Op::AddDestination { indirect_br: ib, block: bbs[dests[i].key()] });
        lemma_dests_backward(bbs, a1, dests, ib, i + 1);
    }
}

proof fn lemma_invoke_sound(defs: Defs, st: CtxState, iv: Invoke)
    requires
        sound(st),
    ensures
        stays_sound(invoke_step(defs, st, iv)),
{
    if let Callee::Operand(f) = iv.function {
        lemma_operand_backward(defs, st.values, st.ops, f);
        if let Ok(a1) = operand_code(defs, st.values, st.ops, f) {
            lemma_type_code_backward(defs, Seq::empty(), a1, iv.function_ty);
            if let Ok(a2) = type_code(defs, Seq::empty(), a1, iv.function_ty) {
                lemma_operands_backward(defs, st.values, a2, iv.arguments@, 0);
                if let Ok(a3) = operands_code(defs, st.values, a2, iv.arguments@, 0) {
                    if st.bbs.contains_key(iv.return_label.key()) && st.bbs.contains_key(iv.exception_label.key()) {
                        let op = Op::BuildInvoke {
                            arg_count: iv.arguments.len(),
                            then_block: st.bbs[iv.return_label.key()],
                            catch_block: st.bbs[iv.exception_label.key()],
                            name: iv.result,
                        };
                        lemma_define_sound(st, a3, op, iv.result);
                    }
                }
            }
        }
    }
}

proof fn lemma_switch_sound(defs: Defs, st: CtxState, s: Switch)
    requires
        sound(st),
    ensures
        stays_sound(term_step(defs, st, Terminator::Switch(s))),
{
    broadcast use lemma_push_backward;
    lemma_operand_backward(defs, st.values, st.ops, s.operand);
    if let Ok(a1) = operand_code(defs, st.values, st.ops, s.operand) {
        if st.bbs.contains_key(s.default_dest.key()) {
            let h = a1.len() as usize;
            let a2 = a1.push(Op::BuildSwitch { default_block: st.bbs[s.default_dest.key()], case_count: s.dests.len() });
            lemma_cases_backward(defs, st.values, st.bbs, a2, s.dests@, h, 0);
        }
    }
}

proof fn lemma_indirect_br_sound(defs: Defs, st: CtxState, b: IndirectBr)
    requires
        sound(st),
    ensures
        stays_sound(term_step(defs, st, Terminator::IndirectBr(b))),
{
    broadcast use lemma_push_backward;
    lemma_operand_backward(defs, st.values, st.ops, b.operand);
    if let Ok(a1) = operand_code(defs, st.values, st.ops, b.operand) {
        let h = a1.len() as usize;
        let a2 = a1.push(Op::BuildIndirectBr { dest_count: b.possible_dests.len() });
        lemma_dests_backward(st.bbs, a2, b.possible_dests@, h, 0);
    }
}

/// Converting a terminator keeps a state sound.
proof fn lemma_term_sound(defs: Defs, st: CtxState, t: Terminator)
    requires
        sound(st),
    ensures
        stays_sound(term_step(defs, st, t)),
{
    broadcast use lemma_push_backward;
    match t {
        Terminator::Ret(r) => {
            if let Some(op) = r.return_operand {
                lemma_operand_backward(defs, st.values, st.ops, op);
            }
        },
        Terminator::CondBr(c) => {
            lemma_operand_backward(defs, st.values, st.ops, c.condition);
        },
        Terminator::Switch(s) => lemma_switch_sound(defs, st, s),
        Terminator::IndirectBr(b) => lemma_indirect_br_sound(defs, st, b),
        Terminator::Invoke(iv) => lemma_invoke_sound(defs, st, iv),
        Terminator::Resume(r) => {
            lemma_operand_backward(defs, st.values, st.ops, r.operand);
            lemma_then_push_sound(st, operand_code(defs, st.values, st.ops, r.operand), Op::BuildResume);
        },
        _ => {},
    }
}

proof fn lemma_bb_sound(defs: Defs, st: CtxState, bb: BasicBlock)
    requires
        sound(st),
    ensures
        stays_sound(bb_step(defs, st, bb)),
{
    broadcast use lemma_push_backward;
    if st.bbs.contains_key(bb.name.key()) {
        let st1 = with_op(st, Op::PositionAtEnd(st.bbs[bb.name.key()]));
        lemma_instrs_sound(defs, st1, bb.instrs@, 0);
        if let Ok(st2) = instrs_step(defs, st1, bb.instrs@, 0) {
            lemma_term_sound(defs, st2, bb.term);
        }
    }
}

proof fn lemma_bodies_sound(defs: Defs, st: CtxState, bbs: Seq<BasicBlock>, i: int)
    requires
        sound(st),
    ensures
        stays_sound(bodies_step(defs, st, bbs, i)),
    decreases bbs.len() - i,
{
    if 0 <= i < bbs.len() {
        lemma_bb_sound(defs, st, bbs[i]);
        if let Ok(st1) = bb_step(defs, st, bbs[i]) {
            lemma_bodies_sound(defs, st1, bbs, i + 1);
        }
    }
}

proof fn lemma_blocks_sound(st: CtxState, f: usize, bbs: Seq<BasicBlock>, i: int)
    requires
        sound(st),
        f < st.ops.len(),
    ensures
        sound(blocks_step(st, f, bbs, i)),
        st.ops.len() <= blocks_step(st, f, bbs, i).ops.len(),
    decreases bbs.len() - i,
{
    broadcast use lemma_push_backward;
    if 0 <= i < bbs.len() {
        let h = st.ops.len() as usize;
        let st1 = CtxState {
            ops: st.ops.push(Op::AppendBasicBlock { function: f, name: bbs[i].name }),
            values: st.values,
            bbs: st.bbs.insert(bbs[i].name.key(), h),
        };
        lemma_bound_insert(st.bbs, bbs[i].name.key(), h, st1.ops.len() as int);
        lemma_blocks_sound(st1, f, bbs, i + 1);
    }
}

proof fn lemma_params_sound(st: CtxState, f: usize, ps: Seq<Parameter>, i: int)
    requires
        sound(st),
        f < st.ops.len(),
    ensures
        sound(params_step(st, f, ps, i)),
    decreases ps.len() - i,
{
    broadcast use lemma_push_backward;
    if 0 <= i < ps.len() {
        let h = st.ops.len() as usize;
        let st1 = CtxState {
            ops: st.ops.push(Op::GetParam { function: f, index: i as u32 }),
            values: st.values.insert(ps[i].name.key(), h),
            bbs: st.bbs,
        };
        lemma_bound_insert(st.values, ps[i].name.key(), h, st1.ops.len() as int);
        lemma_params_sound(st1, f, ps, i + 1);
    }
}

proof fn lemma_header_sound(st: CtxState, a1: Seq<Op>, name: String, l: Linkage, v: Visibility, gc: Option<String>)
    requires
        sound(st),
        refers_backward(a1),
        st.ops.len() <= a1.len(),
    ensures
        sound(fn_header(st, a1, a1.len() as usize, name, l, v, gc)),
        a1.len() < fn_header(st, a1, a1.len() as usize, name, l, v, gc).ops.len(),
{
    broadcast use lemma_push_backward;
    let h = a1.len() as usize;
    let a2 = attrs(a1.push(Op::AddFunction(name)), h, l, v);
    assert(refers_backward(a2));
    let r = fn_header(st, a1, h, name, l, v, gc);
    lemma_bound_insert(st.values, NameKey::Text(name@), h, r.ops.len() as int);
}

proof fn lemma_attr_ops_backward(acc: Seq<Op>, h: usize, place: AttrPlace, attrs: Seq<Attribute>, i: int)
    requires
        refers_backward(acc),
        h < acc.len(),
    ensures
        refers_backward(attr_ops(acc, h, place, attrs, i)),
        acc.len() <= attr_ops(acc, h, place, attrs, i).len(),
    decreases attrs.len() - i,
{
    broadcast use lemma_push_backward;
    if 0 <= i < attrs.len() {
        let op = Op::AddAttribute { target: h, place, attribute: attrs[i] };
        lemma_attr_ops_backward(acc.push(op), h, place, attrs, i + 1);
    }
}

proof fn lemma_param_attr_backward(acc: Seq<Op>, h: usize, ps: Seq<Parameter>, j: int)
    requires
        refers_backward(acc),
        h < acc.len(),
    ensures
        refers_backward(param_attr_ops(acc, h, ps, j)),
        acc.len() <= param_attr_ops(acc, h, ps, j).len(),
    decreases ps.len() - j,
{
    if 0 <= j < ps.len() {
        lemma_attr_ops_backward(acc, h, AttrPlace::Param(j as u32), ps[j].attributes@, 0);
        lemma_param_attr_backward(attr_ops(acc, h, AttrPlace::Param(j as u32), ps[j].attributes@, 0), h, ps, j + 1);
    }
}

proof fn lemma_fn_attr_sound(st: CtxState, h: usize, fa: Seq<Attribute>, ra: Seq<Attribute>, ps: Seq<Parameter>)
    requires
        sound(st),
        h < st.ops.len(),
    ensures
        sound(with_fn_attrs(st, h, fa, ra, ps)),
{
    lemma_attr_ops_backward(st.ops, h, AttrPlace::Function, fa, 0);
    let a1 = attr_ops(st.ops, h, AttrPlace::Function, fa, 0);
    lemma_attr_ops_backward(a1, h, AttrPlace::Return, ra, 0);
    let a2 = attr_ops(a1, h, AttrPlace::Return, ra, 0);
    lemma_param_attr_backward(a2, h, ps, 0);
    let a3 = param_attr_ops(a2, h, ps, 0);
    assert(bound_below(st.values, a3.len() as int));
    assert(bound_below(st.bbs, a3.len() as int));
}

proof fn lemma_decl_sound(defs: Defs, st: CtxState, d: FunctionDeclaration)
    requires
        sound(st),
    ensures
        stays_sound(decl_step(defs, st, d)),
{
    reveal(decl_step);
    lemma_fn_type_backward(defs, st.ops, d.return_type, param_types(d.parameters@), d.is_var_arg);
    if let Ok(a1) = fn_type_code(defs, st.ops, d.return_type, param_types(d.parameters@), d.is_var_arg) {
        lemma_header_sound(st, a1, d.name, d.linkage, d.visibility, d.garbage_collector_name);
        let st1 = fn_header(st, a1, a1.len() as usize, d.name, d.linkage, d.visibility, d.garbage_collector_name);
        lemma_fn_attr_sound(st1, a1.len() as usize, d.function_attributes@, d.return_attributes@, d.parameters@);
    }
}

proof fn lemma_fn_decl_sound(defs: Defs, st: CtxState, f: Function)
    requires
        sound(st),
    ensures
        stays_sound(fn_decl_step(defs, st, f)),
{
    lemma_fn_type_backward(defs, st.ops, f.return_type, param_types(f.parameters@), f.is_var_arg);
    if let Ok(a1) = fn_type_code(defs, st.ops, f.return_type, param_types(f.parameters@), f.is_var_arg) {
        lemma_header_sound(st, a1, f.name, f.linkage, f.visibility, f.garbage_collector_name);
        let st1 = fn_header(st, a1, a1.len() as usize, f.name, f.linkage, f.visibility, f.garbage_collector_name);
        lemma_fn_attr_sound(st1, a1.len() as usize, f.function_attributes@, f.return_attributes@, f.parameters@);
    }
}

proof fn lemma_fn_body_sound(defs: Defs, st: CtxState, f: Function)
    requires
        sound(st),
    ensures
        stays_sound(fn_body_step(defs, st, f)),
{
    reveal(fn_body_step);
    if f.basic_blocks.len() > 0 {
        if let Some(h) = fn_handle(st, f.name) {
            lemma_blocks_sound(st, h, f.basic_blocks@, 0);
            let st2 = blocks_step(st, h, f.basic_blocks@, 0);
            lemma_params_sound(st2, h, f.parameters@, 0);
            let st3 = params_step(st2, h, f.parameters@, 0);
            lemma_bodies_sound(defs, st3, f.basic_blocks@, 0);
            if let Ok(st4) = bodies_step(defs, st3, f.basic_blocks@, 0) {
                lemma_phis_sound(defs, st4, f.basic_blocks@, 0);
            }
        }
    }
}

proof fn lemma_global_sound(defs: Defs, st: CtxState, g: GlobalVariable)
    requires
        sound(st),
    ensures
        stays_sound(global_decl_step(defs, st, g)),
{
    broadcast use lemma_push_backward;
    reveal(global_decl_step);
    let ty = match g.initializer {
        Some(init) => type_of_code(defs, st.ops, init),
        None => Ok(st.ops.push(Op::IntType(8))),
    };
    match g.initializer {
        Some(init) => lemma_type_of_code_backward(defs, st.ops, init),
        None => {},
    }
    if let Ok(a1) = ty {
        let h = a1.len() as usize;
        let a2 = attrs(a1.push(Op::AddGlobal(g.name)), h, g.linkage, g.visibility).push(
            Op::SetGlobalConstant { target: h, is_constant: g.is_constant },
        );
        assert(refers_backward(a2));
        let a3 = if g.alignment > 0 {
            a2.push(Op::SetAlignment { target: h, alignment: g.alignment })
        } else {
            a2
        };
        let a4 = match g.section {
            Some(s) => a3.push(Op::SetSection { target: h, section: s }),
            None => a3,
        };
        assert(refers_backward(a4));
        lemma_bound_insert(st.values, g.name.key(), h, a4.len() as int);
    }
}

proof fn lemma_global_init_sound(defs: Defs, st: CtxState, g: GlobalVariable)
    requires
        sound(st),
    ensures
        stays_sound(global_init_step(defs, st, g)),
{
    broadcast use lemma_push_backward;
    reveal(global_init_step);
    if let Some(init) = g.initializer {
        if let Some(h) = global_handle(st, g.name) {
            lemma_const_code_backward(defs, st.values, st.ops, init);
            if let Ok(a) = const_code(defs, st.values, st.ops, init) {
                let op = Op::SetInitializer { target: h };
                assert(refs_below(op, a.len() as int));
                assert(refers_backward(a.push(op)));
                assert(bound_below(st.values, a.len() + 1 as int));
                assert(bound_below(st.bbs, a.len() + 1 as int));
            }
        }
    }
}

proof fn lemma_alias_sound(defs: Defs, st: CtxState, a: GlobalAlias)
    requires
        sound(st),
    ensures
        stays_sound(alias_step(defs, st, a)),
{
    broadcast use lemma_push_backward;
    reveal(alias_step);
    lemma_type_code_backward(defs, Seq::empty(), st.ops, a.ty);
    if let Ok(a1) = type_code(defs, Seq::empty(), st.ops, a.ty) {
        lemma_const_code_backward(defs, st.values, a1, a.aliasee);
        if let Ok(a2) = const_code(defs, st.values, a1, a.aliasee) {
            let h = a2.len() as usize;
            let a3 = attrs(a2.push(Op::AddAlias(a.name)), h, a.linkage, a.visibility);
            assert(refers_backward(a3));
            lemma_bound_insert(st.values, a.name.key(), h, a3.len() as int);
        }
    }
}

proof fn lemma_globals_sound(defs: Defs, st: CtxState, gs: Seq<GlobalVariable>, i: int)
    requires
        sound(st),
    ensures
        stays_sound(global_decls_step(defs, st, gs, i)),
    decreases gs.len() - i,
{
    if 0 <= i < gs.len() {
        lemma_global_sound(defs, st, gs[i]);
        if let Ok(st1) = global_decl_step(defs, st, gs[i]) {
            lemma_globals_sound(defs, st1, gs, i + 1);
        }
    }
}

proof fn lemma_global_inits_sound(defs: Defs, st: CtxState, gs: Seq<GlobalVariable>, i: int)
    requires
        sound(st),
    ensures
        stays_sound(global_inits_step(defs, st, gs, i)),
    decreases gs.len() - i,
{
    if 0 <= i < gs.len() {
        lemma_global_init_sound(defs, st, gs[i]);
        if let Ok(st1) = global_init_step(defs, st, gs[i]) {
            lemma_global_inits_sound(defs, st1, gs, i + 1);
        }
    }
}

proof fn lemma_decls_sound(defs: Defs, st: CtxState, ds: Seq<FunctionDeclaration>, i: int)
    requires
        sound(st),
    ensures
        stays_sound(decls_step(defs, st, ds, i)),
    decreases ds.len() - i,
{
    if 0 <= i < ds.len() {
        lemma_decl_sound(defs, st, ds[i]);
        if let Ok(st1) = decl_step(defs, st, ds[i]) {
            lemma_decls_sound(defs, st1, ds, i + 1);
        }
    }
}

proof fn lemma_fn_decls_sound(defs: Defs, st: CtxState, fs: Seq<Function>, i: int)
    requires
        sound(st),
    ensures
        stays_sound(fn_decls_step(defs, st, fs, i)),
    decreases fs.len() - i,
{
    if 0 <= i < fs.len() {
        lemma_fn_decl_sound(defs, st, fs[i]);
        if let Ok(st1) = fn_decl_step(defs, st, fs[i]) {
            lemma_fn_decls_sound(defs, st1, fs, i + 1);
        }
    }
}

proof fn lemma_fn_bodies_sound(defs: Defs, st: CtxState, fs: Seq<Function>, i: int)
    requires
        sound(st),
    ensures
        stays_sound(fn_bodies_step(defs, st, fs, i)),
    decreases fs.len() - i,
{
    if 0 <= i < fs.len() {
        lemma_fn_body_sound(defs, st, fs[i]);
        if let Ok(st1) = fn_body_step(defs, st, fs[i]) {
            lemma_fn_bodies_sound(defs, st1, fs, i + 1);
        }
    }
}

proof fn lemma_aliases_sound(defs: Defs, st: CtxState, als: Seq<GlobalAlias>, i: int)
    requires
        sound(st),
    ensures
        stays_sound(aliases_step(defs, st, als, i)),
    decreases als.len() - i,
{
    if 0 <= i < als.len() {
        lemma_alias_sound(defs, st, als[i]);
        if let Ok(st1) = alias_step(defs, st, als[i]) {
            lemma_aliases_sound(defs, st1, als, i + 1);
        }
    }
}

proof fn lemma_metadata_backward(m: Module)
    ensures
        refers_backward(metadata_ops(m)),
{
    broadcast use lemma_push_backward;
    assert(refers_backward(Seq::<Op>::empty()));
}

/// In a converted module's construction program, every operation refers
/// only to operations before it: the value pushed again, the global or
/// function whose attributes are set, the function whose blocks are
/// appended or whose parameters are taken, the block the builder is placed
/// in, the blocks that branches, switches, phis and invokes name, and the
/// phi, switch or indirect branch that is completed. A replay in order has
/// therefore always made what an operation uses.
pub proof fn plan_refers_backward(m: Module)
    ensures
        match module_plan(m) {
            Ok(ops) => refers_backward(ops),
            Err(_) => true,
        },
{
    let defs = m.types.named_structs@;
    let st0 = CtxState { ops: metadata_ops(m), ..empty_state() };
    lemma_metadata_backward(m);
    assert(sound(st0));
    lemma_globals_sound(defs, st0, m.global_vars@, 0);
    if let Ok(st1) = global_decls_step(defs, st0, m.global_vars@, 0) {
        lemma_decls_sound(defs, st1, m.func_declarations@, 0);
        if let Ok(st2) = decls_step(defs, st1, m.func_declarations@, 0) {
            lemma_fn_decls_sound(defs, st2, m.functions@, 0);
            if let Ok(st3) = fn_decls_step(defs, st2, m.functions@, 0) {
                lemma_aliases_sound(defs, st3, m.global_aliases@, 0);
                if let Ok(st4) = aliases_step(defs, st3, m.global_aliases@, 0) {
                    lemma_global_inits_sound(defs, st4, m.global_vars@, 0);
                    if let Ok(st5) = global_inits_step(defs, st4, m.global_vars@, 0) {
                        lemma_fn_bodies_sound(defs, st5, m.functions@, 0);
                    }
                }
            }
        }
    }
}

} // verus!
