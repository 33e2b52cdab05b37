//! The replay of a construction program, as a stack machine over the kinds
//! of results (types, values, blocks). The law of this module states that a
//! module's program replays without a fault: every operation finds on the
//! stack the kinds it takes, every handle names an earlier operation of the
//! kind it needs, and the stack is empty at the end.

use vstd::prelude::*;
use crate::body_conv::{
    agg_code, bb_step, binary_step, call_step, cases_code, cast_step, dests_code, extract_prefix,
    extract_value_step, incoming_code, insert_code, insert_value_step, instr_step, instrs_step, invoke_step,
    operand2_code, operand3_code, phi_fill_step, phi_handle, instrs_phis_step, phi_step, single_thread, term_step, then_define, then_push, unary_step,
};
use crate::const_conv::{
    block_handle, lemma_block_made, const_code, consts_code, extract_path, field_type_path, insert_loads, insert_stores, operand_code,
    operands_code, type_of_code, types_of_code,
};
use crate::context::{empty_state, with_op};
use crate::ir::{
    Attribute, BasicBlock, BinaryOp, Call, Callee, Cast, Constant, ExtractValue, Float, Function, FunctionDeclaration,
    GlobalAlias, GlobalVariable, ICmp, IndirectBr, InsertValue, Instruction, Invoke, Linkage, Module, Name, NameKey,
    NamedStructDef, Operand, Parameter, Phi, ShuffleVector, Switch, Terminator, Type, UnaryOp, Visibility,
};
use crate::module_conv::{
    alias_step, aliases_step, attrs, blocks_step, bodies_step, decl_step, decls_step, attr_ops, fn_body_step, fn_bodies_step, param_attr_ops, with_fn_attrs,
    fn_decl_step, fn_decls_step, fn_handle, fn_header, global_decl_step, global_decls_step, global_handle,
    global_init_step, global_inits_step, metadata_ops, module_plan, param_types, params_step, phis_step,
};
use crate::llvm_codes::{int_predicate_code, linkage_code, ordering_code, real_predicate_code, rmw_code, visibility_code};
use crate::plan::{extends, AttrPlace, BinaryOpcode, CastOpcode, ConvertError, CtxState, Op};
use crate::types_conv::{first_def, fn_type_code, lemma_struct_made, struct_handle, struct_made, type_code, types_code, vector_op, Defs};

verus! {

/// The kind of a result: a type, a value or a basic block.
pub enum Slot {
    Ty,
    Val,
    Block,
}

/// The kind of result an operation makes, if any. An operation that pushes
/// again an earlier result (`Value`) makes nothing of its own here.
pub open spec fn made(op: Op) -> Option<Slot> {
    match op {
        Op::VoidType => Some(Slot::Ty),
        Op::IntType(_) => Some(Slot::Ty),
        Op::PointerType(_) => Some(Slot::Ty),
        Op::HalfType => Some(Slot::Ty),
        Op::BFloatType => Some(Slot::Ty),
        Op::FloatType => Some(Slot::Ty),
        Op::DoubleType => Some(Slot::Ty),
        Op::FP128Type => Some(Slot::Ty),
        Op::X86FP80Type => Some(Slot::Ty),
        Op::PPCFP128Type => Some(Slot::Ty),
        Op::FunctionType { param_count: _, is_var_arg: _ } => Some(Slot::Ty),
        Op::VectorType(_) => Some(Slot::Ty),
        Op::ScalableVectorType(_) => Some(Slot::Ty),
        Op::ArrayType(_) => Some(Slot::Ty),
        Op::StructType { element_count: _, is_packed: _ } => Some(Slot::Ty),
        Op::NamedStruct(_) => Some(Slot::Ty),
        Op::SetStructBody { element_count: _, is_packed: _ } => Some(Slot::Ty),
        Op::X86MMXType => Some(Slot::Ty),
        Op::X86AMXType => Some(Slot::Ty),
        Op::MetadataType => Some(Slot::Ty),
        Op::LabelType => Some(Slot::Ty),
        Op::TokenType => Some(Slot::Ty),
        Op::ConstInt(_) => Some(Slot::Val),
        Op::ConstNull => Some(Slot::Val),
        Op::ConstSingle(_) => Some(Slot::Val),
        Op::ConstDouble(_) => Some(Slot::Val),
        Op::GetUndef => Some(Slot::Val),
        Op::GetPoison => Some(Slot::Val),
        Op::ConstBinary(_) => Some(Slot::Val),
        Op::ConstCast(_) => Some(Slot::Val),
        Op::ConstICmp(_) => Some(Slot::Val),
        Op::ConstFCmp(_) => Some(Slot::Val),
        Op::ConstSelect => Some(Slot::Val),
        Op::ConstGEP { index_count: _, in_bounds: _ } => Some(Slot::Val),
        Op::ConstBlockAddress => Some(Slot::Val),
        Op::ConstExtractElement => Some(Slot::Val),
        Op::ConstInsertElement => Some(Slot::Val),
        Op::ConstShuffleVector => Some(Slot::Val),
        Op::ElementType => Some(Slot::Ty),
        Op::FieldType(_) => Some(Slot::Ty),
        Op::ConstExtractValue(_) => Some(Slot::Val),
        Op::ConstInsertValue(_) => Some(Slot::Val),
        Op::ShuffleType => Some(Slot::Ty),
        Op::ComparisonType => Some(Slot::Ty),
        Op::ConstNamedStruct { element_count: _ } => Some(Slot::Val),
        Op::ConstStruct { element_count: _, is_packed: _ } => Some(Slot::Val),
        Op::ConstArray { element_count: _ } => Some(Slot::Val),
        Op::ConstVector { element_count: _ } => Some(Slot::Val),
        Op::AddGlobal(_) => Some(Slot::Val),
        Op::AddAlias(_) => Some(Slot::Val),
        Op::AddFunction(_) => Some(Slot::Val),
        Op::AppendBasicBlock { function: _, name: _ } => Some(Slot::Block),
        Op::GetParam { function: _, index: _ } => Some(Slot::Val),
        Op::BuildBinary { opcode: _, name: _ } => Some(Slot::Val),
        Op::BuildCall { arg_count: _, name: _ } => Some(Slot::Val),
        Op::BuildAlloca(_) => Some(Slot::Val),
        Op::BuildLoad(_) => Some(Slot::Val),
        Op::BuildStore => Some(Slot::Val),
        Op::BuildGEP { index_count: _, name: _ } => Some(Slot::Val),
        Op::BuildICmp { predicate: _, name: _ } => Some(Slot::Val),
        Op::BuildFNeg(_) => Some(Slot::Val),
        Op::BuildFreeze(_) => Some(Slot::Val),
        Op::BuildCast { opcode: _, name: _ } => Some(Slot::Val),
        Op::BuildFCmp { predicate: _, name: _ } => Some(Slot::Val),
        Op::BuildSelect(_) => Some(Slot::Val),
        Op::BuildExtractElement(_) => Some(Slot::Val),
        Op::BuildInsertElement(_) => Some(Slot::Val),
        Op::BuildShuffleVector(_) => Some(Slot::Val),
        Op::BuildExtractValue { index: _, name: _ } => Some(Slot::Val),
        Op::BuildInsertValue { index: _, name: _ } => Some(Slot::Val),
        Op::BuildFence { ordering: _, single_thread: _ } => Some(Slot::Val),
        Op::BuildCmpXchg { success: _, failure: _, single_thread: _, weak: _, volatile: _, name: _ } => Some(Slot::Val),
        Op::BuildAtomicRMW { operation: _, ordering: _, single_thread: _, volatile: _, name: _ } => Some(Slot::Val),
        Op::BuildPhi(_) => Some(Slot::Val),
        Op::BuildRet => Some(Slot::Val),
        Op::BuildRetVoid => Some(Slot::Val),
        Op::BuildBr(_) => Some(Slot::Val),
        Op::BuildCondBr { then_block: _, else_block: _ } => Some(Slot::Val),
        Op::BuildSwitch { default_block: _, case_count: _ } => Some(Slot::Val),
        Op::BuildIndirectBr { dest_count: _ } => Some(Slot::Val),
        Op::BuildInvoke { arg_count: _, then_block: _, catch_block: _, name: _ } => Some(Slot::Val),
        Op::BuildResume => Some(Slot::Val),
        Op::BuildUnreachable => Some(Slot::Val),
        _ => None,
    }
}

/// Whether the operation pushes its result on the stack (types, constants,
/// and results pushed again).
pub open spec fn pushes(op: Op) -> bool {
    made(op) matches Some(k) && (k == Slot::Ty || op is ConstInt || op is ConstNull || op is ConstSingle
        || op is ConstDouble || op is GetUndef || op is GetPoison || op is ConstBinary
        || op is ConstCast || op is ConstICmp || op is ConstFCmp || op is ConstSelect || op is ConstGEP
        || op is ConstBlockAddress || op is ConstExtractElement || op is ConstInsertElement
        || op is ConstShuffleVector || op is ConstExtractValue || op is ConstInsertValue || op is ConstNamedStruct || op is ConstStruct || op is ConstArray
        || op is ConstVector)
}

/// `n` slots of kind `k`.
pub open spec fn slots(k: Slot, n: int) -> Seq<Slot> {
    Seq::new(if n > 0 { n as nat } else { 0 }, |_i: int| k)
}

/// `n` pairs of a value and a block.
pub open spec fn pairs(n: int) -> Seq<Slot>
    decreases n,
{
    if n > 0 {
        seq![Slot::Val, Slot::Block] + pairs(n - 1)
    } else {
        Seq::empty()
    }
}

/// What an operation takes from the top of the stack, the deepest first.
pub open spec fn takes(op: Op) -> Seq<Slot> {
    match op {
        Op::FunctionType { param_count, is_var_arg: _ } => seq![Slot::Ty] + slots(Slot::Ty, param_count as int),
        Op::VectorType(_) => seq![Slot::Ty],
        Op::ScalableVectorType(_) => seq![Slot::Ty],
        Op::ArrayType(_) => seq![Slot::Ty],
        Op::StructType { element_count, is_packed: _ } => slots(Slot::Ty, element_count as int),
        Op::SetStructBody { element_count, is_packed: _ } => seq![Slot::Ty] + slots(Slot::Ty, element_count as int),
        Op::ConstInt(_) => seq![Slot::Ty],
        Op::ConstNull => seq![Slot::Ty],
        Op::ConstSingle(_) => seq![Slot::Ty],
        Op::ConstDouble(_) => seq![Slot::Ty],
        Op::GetUndef => seq![Slot::Ty],
        Op::GetPoison => seq![Slot::Ty],
        Op::ConstBinary(_) => seq![Slot::Val, Slot::Val],
        Op::ConstCast(_) => seq![Slot::Val, Slot::Ty],
        Op::ConstICmp(_) => seq![Slot::Val, Slot::Val],
        Op::ConstFCmp(_) => seq![Slot::Val, Slot::Val],
        Op::ConstSelect => seq![Slot::Val, Slot::Val, Slot::Val],
        Op::ConstGEP { index_count, in_bounds: _ } => seq![Slot::Val] + slots(Slot::Val, index_count as int) + seq![Slot::Ty],
        Op::ConstBlockAddress => seq![Slot::Val, Slot::Block],
        Op::ConstExtractElement => seq![Slot::Val, Slot::Val],
        Op::ConstInsertElement => seq![Slot::Val, Slot::Val, Slot::Val],
        Op::ConstShuffleVector => seq![Slot::Val, Slot::Val, Slot::Val],
        Op::ElementType => seq![Slot::Ty],
        Op::FieldType(_) => seq![Slot::Ty],
        Op::ConstExtractValue(_) => seq![Slot::Val],
        Op::ConstInsertValue(_) => seq![Slot::Val, Slot::Val],
        Op::ShuffleType => seq![Slot::Ty, Slot::Ty],
        Op::ComparisonType => seq![Slot::Ty],
        Op::ConstNamedStruct { element_count } => seq![Slot::Ty] + slots(Slot::Val, element_count as int),
        Op::ConstStruct { element_count, is_packed: _ } => slots(Slot::Val, element_count as int),
        Op::ConstArray { element_count } => seq![Slot::Ty] + slots(Slot::Val, element_count as int),
        Op::ConstVector { element_count } => slots(Slot::Val, element_count as int),
        Op::AddGlobal(_) => seq![Slot::Ty],
        Op::SetInitializer { target: _ } => seq![Slot::Val],
        Op::AddAlias(_) => seq![Slot::Ty, Slot::Val],
        Op::AddFunction(_) => seq![Slot::Ty],
        Op::BuildBinary { opcode: _, name: _ } => seq![Slot::Val, Slot::Val],
        Op::BuildCall { arg_count, name: _ } => seq![Slot::Val, Slot::Ty] + slots(Slot::Val, arg_count as int),
        Op::BuildAlloca(_) => seq![Slot::Ty],
        Op::BuildLoad(_) => seq![Slot::Val, Slot::Ty],
        Op::BuildStore => seq![Slot::Val, Slot::Val],
        Op::BuildGEP { index_count, name: _ } => seq![Slot::Val] + slots(Slot::Val, index_count as int) + seq![Slot::Ty],
        Op::BuildICmp { predicate: _, name: _ } => seq![Slot::Val, Slot::Val],
        Op::BuildFNeg(_) => seq![Slot::Val],
        Op::BuildFreeze(_) => seq![Slot::Val],
        Op::BuildCast { opcode: _, name: _ } => seq![Slot::Val, Slot::Ty],
        Op::BuildFCmp { predicate: _, name: _ } => seq![Slot::Val, Slot::Val],
        Op::BuildSelect(_) => seq![Slot::Val, Slot::Val, Slot::Val],
        Op::BuildExtractElement(_) => seq![Slot::Val, Slot::Val],
        Op::BuildInsertElement(_) => seq![Slot::Val, Slot::Val, Slot::Val],
        Op::BuildShuffleVector(_) => seq![Slot::Val, Slot::Val, Slot::Val],
        Op::BuildExtractValue { index: _, name: _ } => seq![Slot::Val],
        Op::BuildInsertValue { index: _, name: _ } => seq![Slot::Val, Slot::Val],
        Op::BuildCmpXchg { success: _, failure: _, single_thread: _, weak: _, volatile: _, name: _ } => seq![
            Slot::Val,
            Slot::Val,
            Slot::Val,
        ],
        Op::BuildAtomicRMW { operation: _, ordering: _, single_thread: _, volatile: _, name: _ } => seq![
            Slot::Val,
            Slot::Val,
        ],
        Op::BuildPhi(_) => seq![Slot::Ty],
        Op::AddIncoming { phi: _, count } => pairs(count as int),
        Op::BuildRet => seq![Slot::Val],
        Op::BuildCondBr { then_block: _, else_block: _ } => seq![Slot::Val],
        Op::BuildSwitch { default_block: _, case_count: _ } => seq![Slot::Val],
        Op::AddCase { switch: _, block: _ } => seq![Slot::Val],
        Op::BuildIndirectBr { dest_count: _ } => seq![Slot::Val],
        Op::BuildInvoke { arg_count, then_block: _, catch_block: _, name: _ } => seq![Slot::Val, Slot::Ty] + slots(
            Slot::Val,
            arg_count as int,
        ),
        Op::BuildResume => seq![Slot::Val],
        _ => Seq::empty(),
    }
}

/// The kind of the result of the operation at `h`, as seen from position
/// `i`: only earlier operations are seen.
pub open spec fn kind_at(ops: Seq<Op>, i: int, h: int) -> Option<Slot> {
    if 0 <= h < i && i <= ops.len() {
        made(ops[h])
    } else {
        None
    }
}

/// Whether the handles that the operation at `i` refers to name earlier
/// operations of the kinds it needs.
pub open spec fn refs_fit(ops: Seq<Op>, i: int) -> bool {
    let val = |h: usize| kind_at(ops, i, h as int) == Some(Slot::Val);
    let block = |h: usize| kind_at(ops, i, h as int) == Some(Slot::Block);
    match ops[i] {
        Op::Value(h) => val(h) || block(h) || kind_at(ops, i, h as int) == Some(Slot::Ty),
        Op::SetLinkage { target, linkage: _ } => val(target),
        Op::SetVisibility { target, visibility: _ } => val(target),
        Op::SetGlobalConstant { target, is_constant: _ } => val(target),
        Op::SetInitializer { target } => val(target),
        Op::SetAlignment { target, alignment: _ } => val(target),
        Op::SetSection { target, section: _ } => val(target),
        Op::SetGC { target, name: _ } => val(target),
        Op::AddAttribute { target, place: _, attribute: _ } => val(target),
        Op::AppendBasicBlock { function, name: _ } => val(function),
        Op::GetParam { function, index: _ } => val(function),
        Op::PositionAtEnd(b) => block(b),
        Op::AddIncoming { phi, count: _ } => val(phi),
        Op::BuildBr(b) => block(b),
        Op::BuildCondBr { then_block, else_block } => block(then_block) && block(else_block),
        Op::BuildSwitch { default_block, case_count: _ } => block(default_block),
        Op::AddCase { switch, block: b } => val(switch) && block(b),
        Op::AddDestination { indirect_br, block: b } => val(indirect_br) && block(b),
        Op::BuildInvoke { arg_count: _, then_block, catch_block, name: _ } => block(then_block) && block(catch_block),
        _ => true,
    }
}

/// The stack after the operation at `i`, from stack `s`, or `None` if the
/// replay faults there.
pub open spec fn step_at(ops: Seq<Op>, i: int, s: Seq<Slot>) -> Option<Seq<Slot>> {
    let op = ops[i];
    let t = takes(op);
    if 0 <= i < ops.len() && refs_fit(ops, i) && t.len() <= s.len() && s.subrange(s.len() - t.len(), s.len() as int) == t {
        let rest = s.subrange(0, s.len() - t.len());
        match op {
            Op::Value(h) => Some(rest.push(kind_at(ops, i, h as int)->Some_0)),
            _ => if pushes(op) {
                Some(rest.push(made(op)->Some_0))
            } else {
                Some(rest)
            },
        }
    } else {
        None
    }
}

/// The stack after the operations at `from..to`, from stack `s`, or `None`
/// if the replay faults among them.
pub open spec fn run_seg(ops: Seq<Op>, from: int, to: int, s: Seq<Slot>) -> Option<Seq<Slot>>
    decreases to - from,
{
    if to <= from {
        Some(s)
    } else {
        match run_seg(ops, from, to - 1, s) {
            Some(s1) => step_at(ops, to - 1, s1),
            None => None,
        }
    }
}


proof fn lemma_step_prefix(a: Seq<Op>, b: Seq<Op>, i: int, s: Seq<Slot>)
    requires
        extends(b, a),
        0 <= i < a.len(),
    ensures
        step_at(a, i, s) == step_at(b, i, s),
{
    assert(a[i] == b[i]);
    assert forall|h: int| 0 <= h < i implies kind_at(a, i, h) == kind_at(b, i, h) by {
        assert(a[h] == b[h]);
    }
    match a[i] {
        Op::Value(h) => {
            if 0 <= h < i {
                assert(a[h as int] == b[h as int]);
            }
        },
        _ => {},
    }
}

proof fn lemma_run_prefix(a: Seq<Op>, b: Seq<Op>, from: int, to: int, s: Seq<Slot>)
    requires
        extends(b, a),
        0 <= from,
        to <= a.len(),
    ensures
        run_seg(a, from, to, s) == run_seg(b, from, to, s),
    decreases to - from,
{
    if to > from {
        lemma_run_prefix(a, b, from, to - 1, s);
        if let Some(s1) = run_seg(a, from, to - 1, s) {
            lemma_step_prefix(a, b, to - 1, s1);
        }
    }
}

proof fn lemma_run_split(ops: Seq<Op>, from: int, mid: int, to: int, s: Seq<Slot>)
    requires
        from <= mid <= to,
    ensures
        run_seg(ops, from, to, s) == match run_seg(ops, from, mid, s) {
            Some(s1) => run_seg(ops, mid, to, s1),
            None => None,
        },
    decreases to - mid,
{
    if to > mid {
        lemma_run_split(ops, from, mid, to - 1, s);
    }
}

proof fn lemma_extends_push(a: Seq<Op>, op: Op)
    ensures
        extends(a.push(op), a),
{
    assert forall|j: int| 0 <= j < a.len() implies #[trigger] a.push(op)[j] == a[j] by {}
}

proof fn lemma_extends_trans(a: Seq<Op>, b: Seq<Op>, c: Seq<Op>)
    requires
        extends(b, a),
        extends(c, b),
    ensures
        extends(c, a),
{
    assert forall|j: int| 0 <= j < a.len() implies #[trigger] c[j] == a[j] by {
        assert(c[j] == b[j]);
    }
}

proof fn lemma_extends_refl(a: Seq<Op>)
    ensures
        extends(a, a),
{
}

/// The replay of a program made of `a1` and then more operations (`a2`):
/// after the operations `from..` of `a1` leave `s1`, the rest continues from
/// `s1`.
proof fn lemma_then(a1: Seq<Op>, a2: Seq<Op>, from: int, s: Seq<Slot>, s1: Seq<Slot>)
    requires
        extends(a2, a1),
        0 <= from <= a1.len(),
        run_seg(a1, from, a1.len() as int, s) == Some(s1),
    ensures
        run_seg(a2, from, a2.len() as int, s) == run_seg(a2, a1.len() as int, a2.len() as int, s1),
{
    lemma_run_split(a2, from, a1.len() as int, a2.len() as int, s);
    lemma_run_prefix(a1, a2, from, a1.len() as int, s);
}

/// Appending one operation to a program: its replay is one more step.
proof fn lemma_run_push(a: Seq<Op>, op: Op, from: int, s: Seq<Slot>)
    requires
        0 <= from <= a.len(),
    ensures
        run_seg(a.push(op), from, a.len() + 1 as int, s) == match run_seg(a, from, a.len() as int, s) {
            Some(s1) => step_at(a.push(op), a.len() as int, s1),
            None => None,
        },
{
    lemma_extends_push(a, op);
    lemma_run_prefix(a, a.push(op), from, a.len() as int, s);
}

/// Appending an operation (other than `Value`) whose inputs are on top of
/// the stack: they are replaced by its result, if it pushes one.
proof fn lemma_push_op(a: Seq<Op>, op: Op, from: int, s0: Seq<Slot>, below: Seq<Slot>)
    requires
        0 <= from <= a.len(),
        run_seg(a, from, a.len() as int, s0) == Some(below + takes(op)),
        refs_fit(a.push(op), a.len() as int),
        !(op is Value),
    ensures
        extends(a.push(op), a),
        run_seg(a.push(op), from, a.len() + 1 as int, s0) == Some(
            if pushes(op) {
                below.push(made(op)->Some_0)
            } else {
                below
            },
        ),
{
    lemma_run_push(a, op, from, s0);
    lemma_extends_push(a, op);
    let st = below + takes(op);
    assert(a.push(op)[a.len() as int] == op);
    assert(st.subrange(st.len() - takes(op).len(), st.len() as int) =~= takes(op));
    assert(st.subrange(0, st.len() - takes(op).len()) =~= below);
}

/// Appending `Value(h)`, where `h` made a value or a block: its result is
/// pushed again.
proof fn lemma_push_value(a: Seq<Op>, h: usize, from: int, s0: Seq<Slot>, s1: Seq<Slot>, k: Slot)
    requires
        0 <= from <= a.len(),
        run_seg(a, from, a.len() as int, s0) == Some(s1),
        h < a.len(),
        made(a[h as int]) == Some(k),
        k == Slot::Val || k == Slot::Block,
    ensures
        extends(a.push(Op::Value(h)), a),
        run_seg(a.push(Op::Value(h)), from, a.len() + 1 as int, s0) == Some(s1.push(k)),
{
    let op = Op::Value(h);
    lemma_run_push(a, op, from, s0);
    lemma_extends_push(a, op);
    assert(a.push(op)[a.len() as int] == op);
    assert(a.push(op)[h as int] == a[h as int]);
    assert(s1.subrange(s1.len() - 0, s1.len() as int) =~= Seq::<Slot>::empty());
    assert(s1.subrange(0, s1.len() - 0) =~= s1);
}

/// The program `r`, if there is one, begins with `acc`, and its operations
/// after `acc` turn stack `s` into `s + out`.
pub open spec fn leaves(acc: Seq<Op>, r: Result<Seq<Op>, ConvertError>, s: Seq<Slot>, out: Seq<Slot>) -> bool {
    match r {
        Ok(a) => extends(a, acc) && run_seg(a, acc.len() as int, a.len() as int, s) == Some(s + out),
        Err(_) => true,
    }
}

proof fn lemma_type_stack(defs: Defs, stack: Seq<usize>, acc: Seq<Op>, t: Type, s: Seq<Slot>)
    ensures
        leaves(acc, type_code(defs, stack, acc, t), s, seq![Slot::Ty]),
    decreases defs.len() - stack.len(), t, 0int,
{
    let n0 = acc.len() as int;
    assert(s + seq![Slot::Ty] =~= s.push(Slot::Ty));
    assert(Seq::<Slot>::empty() + takes(Op::VoidType) =~= Seq::<Slot>::empty());
    match t {
        Type::FuncType { result_type, param_types, is_var_arg } => {
            lemma_type_stack(defs, stack, acc, *result_type, s);
            if let Ok(a1) = type_code(defs, stack, acc, *result_type) {
                lemma_types_stack(defs, stack, a1, param_types@, 0, s.push(Slot::Ty));
                if let Ok(a2) = types_code(defs, stack, a1, param_types@, 0) {
                    let op = Op::FunctionType { param_count: param_types.len(), is_var_arg };
                    lemma_then(a1, a2, n0, s, s.push(Slot::Ty));
                    assert(s.push(Slot::Ty) + slots(Slot::Ty, param_types@.len() - 0) =~= s + takes(op));
                    lemma_push_op(a2, op, n0, s, s);
                    lemma_extends_trans(acc, a1, a2);
                    lemma_extends_trans(acc, a2, a2.push(op));
                }
            }
        },
        Type::VectorType { element_type, num_elements, scalable } => {
            lemma_type_stack(defs, stack, acc, *element_type, s);
            if let Ok(a1) = type_code(defs, stack, acc, *element_type) {
                let op = vector_op(num_elements as u32, scalable);
                assert(s + seq![Slot::Ty] =~= s + takes(op));
                lemma_push_op(a1, op, n0, s, s);
                lemma_extends_trans(acc, a1, a1.push(op));
            }
        },
        Type::ArrayType { element_type, num_elements } => {
            lemma_type_stack(defs, stack, acc, *element_type, s);
            if let Ok(a1) = type_code(defs, stack, acc, *element_type) {
                let op = Op::ArrayType(num_elements as u32);
                assert(s + seq![Slot::Ty] =~= s + takes(op));
                lemma_push_op(a1, op, n0, s, s);
                lemma_extends_trans(acc, a1, a1.push(op));
            }
        },
        Type::StructType { element_types, is_packed } => {
            lemma_types_stack(defs, stack, acc, element_types@, 0, s);
            if let Ok(a1) = types_code(defs, stack, acc, element_types@, 0) {
                let op = Op::StructType { element_count: element_types.len(), is_packed };
                assert(s + slots(Slot::Ty, element_types@.len() - 0) =~= s + takes(op));
                lemma_push_op(a1, op, n0, s, s);
                lemma_extends_trans(acc, a1, a1.push(op));
            }
        },
        Type::NamedStructType { name } => {
            let i = first_def(defs, name@, 0);
            let op0 = Op::NamedStruct(name);
            let a0 = acc.push(op0);
            lemma_extends_refl(acc);
            assert(run_seg(acc, n0, n0, s) == Some(s));
            assert(s =~= s + takes(op0));
            lemma_push_op(acc, op0, n0, s, s);
            lemma_struct_made(acc, name@, 0);
            if let Some(made) = struct_handle(acc, name@) {
                let v = Op::Value(made);
                lemma_run_push(acc, v, n0, s);
                lemma_extends_push(acc, v);
                assert(acc.push(v)[acc.len() as int] == v);
                assert(acc.push(v)[made as int] == acc[made as int]);
                assert(s.subrange(s.len() - 0, s.len() as int) =~= Seq::<Slot>::empty());
                assert(s.subrange(0, s.len() - 0) =~= s);
            } else if 0 <= i < defs.len() {
                match defs[i].1 {
                    NamedStructDef::Defined(Type::StructType { element_types, is_packed }) => {
                        if !(stack.contains(i as usize) || stack.len() >= defs.len()) {
                            lemma_types_stack(defs, stack.push(i as usize), a0, element_types@, 0, s.push(Slot::Ty));
                            if let Ok(a1) = types_code(defs, stack.push(i as usize), a0, element_types@, 0) {
                                let op = Op::SetStructBody { element_count: element_types.len(), is_packed };
                                lemma_then(a0, a1, n0, s, s.push(Slot::Ty));
                                assert(s.push(Slot::Ty) + slots(Slot::Ty, element_types@.len() - 0) =~= s + takes(op));
                                lemma_push_op(a1, op, n0, s, s);
                                lemma_extends_trans(acc, a0, a1);
                                lemma_extends_trans(acc, a1, a1.push(op));
                            }
                        }
                    },
                    _ => {},
                }
            }
        },
        Type::TargetExtType => {},
        _ => {
            let a = type_code(defs, stack, acc, t)->Ok_0;
            let op = a.last();
            assert(a == acc.push(op));
            lemma_extends_refl(acc);
            assert(run_seg(acc, n0, n0, s) == Some(s));
            assert(s =~= s + takes(op));
            lemma_push_op(acc, op, n0, s, s);
        },
    }
}

proof fn lemma_types_stack(defs: Defs, stack: Seq<usize>, acc: Seq<Op>, ts: Seq<Type>, i: int, s: Seq<Slot>)
    requires
        0 <= i,
    ensures
        leaves(acc, types_code(defs, stack, acc, ts, i), s, slots(Slot::Ty, ts.len() - i)),
    decreases defs.len() - stack.len(), ts, ts.len() - i,
{
    let n0 = acc.len() as int;
    if i < ts.len() {
        lemma_type_stack(defs, stack, acc, ts[i], s);
        if let Ok(a1) = type_code(defs, stack, acc, ts[i]) {
            lemma_types_stack(defs, stack, a1, ts, i + 1, s.push(Slot::Ty));
            if let Ok(a2) = types_code(defs, stack, a1, ts, i + 1) {
                assert(s + seq![Slot::Ty] =~= s.push(Slot::Ty));
                lemma_then(a1, a2, n0, s, s.push(Slot::Ty));
                assert(s.push(Slot::Ty) + slots(Slot::Ty, ts.len() - (i + 1)) =~= s + slots(Slot::Ty, ts.len() - i));
                lemma_extends_trans(acc, a1, a2);
            }
        }
    } else {
        lemma_extends_refl(acc);
        assert(s + slots(Slot::Ty, ts.len() - i) =~= s);
    }
}

proof fn lemma_fn_type_stack(defs: Defs, acc: Seq<Op>, result: Type, params: Seq<Type>, is_var_arg: bool, s: Seq<Slot>)
    requires
        params.len() <= usize::MAX,
    ensures
        leaves(acc, fn_type_code(defs, acc, result, params, is_var_arg), s, seq![Slot::Ty]),
{
    let n0 = acc.len() as int;
    lemma_type_stack(defs, Seq::empty(), acc, result, s);
    if let Ok(a1) = type_code(defs, Seq::empty(), acc, result) {
        assert(s + seq![Slot::Ty] =~= s.push(Slot::Ty));
        lemma_types_stack(defs, Seq::empty(), a1, params, 0, s.push(Slot::Ty));
        if let Ok(a2) = types_code(defs, Seq::empty(), a1, params, 0) {
            let op = Op::FunctionType { param_count: params.len() as usize, is_var_arg };
            lemma_then(a1, a2, n0, s, s.push(Slot::Ty));
            assert(s.push(Slot::Ty) + slots(Slot::Ty, params.len() - 0) =~= s + takes(op));
            lemma_push_op(a2, op, n0, s, s);
            lemma_extends_trans(acc, a1, a2);
            lemma_extends_trans(acc, a2, a2.push(op));
        }
    }
}

/// Every name bound in `values` is bound to an operation of `acc` that
/// made a value.
pub open spec fn values_ok(values: Map<NameKey, usize>, acc: Seq<Op>) -> bool {
    forall|k: NameKey| #[trigger] values.contains_key(k) ==> values[k] < acc.len() && made(acc[values[k] as int]) == Some(
        Slot::Val,
    )
}

/// Every name bound in `bbs` is bound to an operation of `acc` that made a
/// block.
pub open spec fn blocks_ok(bbs: Map<NameKey, usize>, acc: Seq<Op>) -> bool {
    forall|k: NameKey| #[trigger] bbs.contains_key(k) ==> bbs[k] < acc.len() && made(acc[bbs[k] as int]) == Some(
        Slot::Block,
    )
}

proof fn lemma_values_ok_extends(values: Map<NameKey, usize>, acc: Seq<Op>, a: Seq<Op>)
    requires
        values_ok(values, acc),
        extends(a, acc),
    ensures
        values_ok(values, a),
{
    assert forall|k: NameKey| #[trigger] values.contains_key(k) implies values[k] < a.len() && made(a[values[k] as int])
        == Some(Slot::Val) by {
        assert(a[values[k] as int] == acc[values[k] as int]);
    }
}

proof fn lemma_blocks_ok_extends(bbs: Map<NameKey, usize>, acc: Seq<Op>, a: Seq<Op>)
    requires
        blocks_ok(bbs, acc),
        extends(a, acc),
    ensures
        blocks_ok(bbs, a),
{
    assert forall|k: NameKey| #[trigger] bbs.contains_key(k) implies bbs[k] < a.len() && made(a[bbs[k] as int]) == Some(
        Slot::Block,
    ) by {
        assert(a[bbs[k] as int] == acc[bbs[k] as int]);
    }
}

/// Appending one operation that takes nothing, to a program whose
/// operations after `n0` left `s + x`.
proof fn lemma_push_plain(a: Seq<Op>, op: Op, n0: int, s0: Seq<Slot>, x: Seq<Slot>)
    requires
        0 <= n0 <= a.len(),
        run_seg(a, n0, a.len() as int, s0) == Some(x),
        takes(op) == Seq::<Slot>::empty(),
        refs_fit(a.push(op), a.len() as int),
        !(op is Value),
    ensures
        extends(a.push(op), a),
        run_seg(a.push(op), n0, a.len() + 1 as int, s0) == Some(
            if pushes(op) {
                x.push(made(op)->Some_0)
            } else {
                x
            },
        ),
{
    assert(x + takes(op) =~= x);
    lemma_push_op(a, op, n0, s0, x);
}

/// Like `leaves`, but the replay is known only when `ok` holds; the program
/// is known to begin with `acc` in any case.
pub open spec fn leaves_when(acc: Seq<Op>, r: Result<Seq<Op>, ConvertError>, s: Seq<Slot>, out: Seq<Slot>, ok: bool) -> bool {
    match r {
        Ok(a) => extends(a, acc) && (ok ==> run_seg(a, acc.len() as int, a.len() as int, s) == Some(s + out)),
        Err(_) => true,
    }
}

proof fn lemma_leaves_when(acc: Seq<Op>, r: Result<Seq<Op>, ConvertError>, s: Seq<Slot>, out: Seq<Slot>, ok: bool)
    requires
        leaves(acc, r, s, out),
    ensures
        leaves_when(acc, r, s, out, ok),
{
}

/// Two steps `acc -> a1 -> a2` that leave `x` then `y` leave `x + y`.
proof fn lemma_chain(acc: Seq<Op>, a1: Seq<Op>, a2: Seq<Op>, s: Seq<Slot>, x: Seq<Slot>, y: Seq<Slot>, ok: bool)
    requires
        extends(a1, acc),
        ok ==> run_seg(a1, acc.len() as int, a1.len() as int, s) == Some(s + x),
        extends(a2, a1),
        ok ==> run_seg(a2, a1.len() as int, a2.len() as int, s + x) == Some((s + x) + y),
    ensures
        leaves_when(acc, Ok(a2), s, x + y, ok),
{
    lemma_extends_trans(acc, a1, a2);
    if ok {
        lemma_then(a1, a2, acc.len() as int, s, s + x);
        assert((s + x) + y =~= s + (x + y));
    }
}

/// A step `acc -> a1` that leaves `x`, then one operation that turns `x`
/// (its input `takes(op)` on top of `below`) into `below` plus its result.
proof fn lemma_chain_op(acc: Seq<Op>, a1: Seq<Op>, op: Op, s: Seq<Slot>, x: Seq<Slot>, below: Seq<Slot>, ok: bool)
    requires
        extends(a1, acc),
        ok ==> run_seg(a1, acc.len() as int, a1.len() as int, s) == Some(s + x),
        s + x == below + takes(op),
        refs_free(op),
        !(op is Value),
    ensures
        extends(a1.push(op), acc),
        ok ==> run_seg(a1.push(op), acc.len() as int, a1.len() + 1 as int, s) == Some(
            if pushes(op) {
                below.push(made(op)->Some_0)
            } else {
                below
            },
        ),
{
    lemma_extends_push(a1, op);
    lemma_extends_trans(acc, a1, a1.push(op));
    if ok {
        lemma_refs_free(a1, op);
        lemma_push_op(a1, op, acc.len() as int, s, below);
    }
}

proof fn lemma_const_blockaddress_stack(defs: Defs, values: Map<NameKey, usize>, acc: Seq<Op>, c: Constant, s: Seq<Slot>)
    requires
        c is BlockAddress,
    ensures
        leaves_when(acc, const_code(defs, values, acc, c), s, seq![Slot::Val], values_ok(values, acc)),
    decreases c, 0int,
{
    let n0 = acc.len() as int;
    let ok = values_ok(values, acc);
    let e = Seq::<Slot>::empty();
    assert(s + seq![Slot::Val] =~= s.push(Slot::Val));
    assert(s + seq![Slot::Ty] =~= s.push(Slot::Ty));
    assert(s + e =~= s);
    lemma_extends_refl(acc);
    assert(run_seg(acc, n0, n0, s) == Some(s + e));
    match c {
        Constant::BlockAddress { function, block } => {
            if values.contains_key(function.key()) {
                let f = values[function.key()];
                lemma_block_made(acc, f, block, 0);
                if let Some(b) = block_handle(acc, f, block) {
                    let a1 = acc.push(Op::Value(f));
                    let a2 = a1.push(Op::Value(b));
                    lemma_extends_push(acc, Op::Value(f));
                    lemma_extends_push(a1, Op::Value(b));
                    lemma_extends_trans(acc, a1, a2);
                    if ok {
                        lemma_push_value(acc, f, n0, s, s, Slot::Val);
                        assert(a1[b as int] == acc[b as int]);
                        lemma_push_value(a1, b, n0, s, s.push(Slot::Val), Slot::Block);
                    }
                    let op = Op::ConstBlockAddress;
                    let x = seq![Slot::Val, Slot::Block];
                    assert(s.push(Slot::Val).push(Slot::Block) =~= s + x);
                    assert(s + x =~= s + takes(op));
                    lemma_chain_op(acc, a2, op, s, x, s, ok);
                }
            }
        },
        _ => {},
    }
}

proof fn lemma_const_binary_stack(defs: Defs, values: Map<NameKey, usize>, acc: Seq<Op>, c: Constant, s: Seq<Slot>)
    requires
        c is Binary,
    ensures
        leaves_when(acc, const_code(defs, values, acc, c), s, seq![Slot::Val], values_ok(values, acc)),
    decreases c, 0int,
{
    let n0 = acc.len() as int;
    let ok = values_ok(values, acc);
    let e = Seq::<Slot>::empty();
    assert(s + seq![Slot::Val] =~= s.push(Slot::Val));
    assert(s + seq![Slot::Ty] =~= s.push(Slot::Ty));
    assert(s + e =~= s);
    lemma_extends_refl(acc);
    assert(run_seg(acc, n0, n0, s) == Some(s + e));
    match c {
        Constant::Binary { opcode, operand0, operand1 } => {
            lemma_const_stack(defs, values, acc, *operand0, s);
            if let Ok(a1) = const_code(defs, values, acc, *operand0) {
                if ok {
                    lemma_values_ok_extends(values, acc, a1);
                }
                lemma_const_stack(defs, values, a1, *operand1, s + seq![Slot::Val]);
                if let Ok(a2) = const_code(defs, values, a1, *operand1) {
                    lemma_chain(acc, a1, a2, s, seq![Slot::Val], seq![Slot::Val], ok);
                    let op = Op::ConstBinary(opcode);
                    let x = seq![Slot::Val] + seq![Slot::Val];
                    assert(s + x =~= s + takes(op));
                    lemma_chain_op(acc, a2, op, s, x, s, ok);
                }
            }
        },
        _ => {},
    }
}

proof fn lemma_const_int_compare_stack(defs: Defs, values: Map<NameKey, usize>, acc: Seq<Op>, c: Constant, s: Seq<Slot>)
    requires
        c is ICmp,
    ensures
        leaves_when(acc, const_code(defs, values, acc, c), s, seq![Slot::Val], values_ok(values, acc)),
    decreases c, 0int,
{
    let n0 = acc.len() as int;
    let ok = values_ok(values, acc);
    let e = Seq::<Slot>::empty();
    assert(s + seq![Slot::Val] =~= s.push(Slot::Val));
    assert(s + seq![Slot::Ty] =~= s.push(Slot::Ty));
    assert(s + e =~= s);
    lemma_extends_refl(acc);
    assert(run_seg(acc, n0, n0, s) == Some(s + e));
    match c {
        Constant::ICmp { predicate, operand0, operand1 } => {
            lemma_const_stack(defs, values, acc, *operand0, s);
            if let Ok(a1) = const_code(defs, values, acc, *operand0) {
                if ok {
                    lemma_values_ok_extends(values, acc, a1);
                }
                lemma_const_stack(defs, values, a1, *operand1, s + seq![Slot::Val]);
                if let Ok(a2) = const_code(defs, values, a1, *operand1) {
                    lemma_chain(acc, a1, a2, s, seq![Slot::Val], seq![Slot::Val], ok);
                    let op = Op::ConstICmp(int_predicate_code(predicate));
                    let x = seq![Slot::Val] + seq![Slot::Val];
                    assert(s + x =~= s + takes(op));
                    lemma_chain_op(acc, a2, op, s, x, s, ok);
                }
            }
        },
        _ => {},
    }
}

proof fn lemma_const_real_compare_stack(defs: Defs, values: Map<NameKey, usize>, acc: Seq<Op>, c: Constant, s: Seq<Slot>)
    requires
        c is FCmp,
    ensures
        leaves_when(acc, const_code(defs, values, acc, c), s, seq![Slot::Val], values_ok(values, acc)),
    decreases c, 0int,
{
    let n0 = acc.len() as int;
    let ok = values_ok(values, acc);
    let e = Seq::<Slot>::empty();
    assert(s + seq![Slot::Val] =~= s.push(Slot::Val));
    assert(s + seq![Slot::Ty] =~= s.push(Slot::Ty));
    assert(s + e =~= s);
    lemma_extends_refl(acc);
    assert(run_seg(acc, n0, n0, s) == Some(s + e));
    match c {
        Constant::FCmp { predicate, operand0, operand1 } => {
            lemma_const_stack(defs, values, acc, *operand0, s);
            if let Ok(a1) = const_code(defs, values, acc, *operand0) {
                if ok {
                    lemma_values_ok_extends(values, acc, a1);
                }
                lemma_const_stack(defs, values, a1, *operand1, s + seq![Slot::Val]);
                if let Ok(a2) = const_code(defs, values, a1, *operand1) {
                    lemma_chain(acc, a1, a2, s, seq![Slot::Val], seq![Slot::Val], ok);
                    let op = Op::ConstFCmp(real_predicate_code(predicate));
                    let x = seq![Slot::Val] + seq![Slot::Val];
                    assert(s + x =~= s + takes(op));
                    lemma_chain_op(acc, a2, op, s, x, s, ok);
                }
            }
        },
        _ => {},
    }
}

proof fn lemma_const_cast_stack(defs: Defs, values: Map<NameKey, usize>, acc: Seq<Op>, c: Constant, s: Seq<Slot>)
    requires
        c is Cast,
    ensures
        leaves_when(acc, const_code(defs, values, acc, c), s, seq![Slot::Val], values_ok(values, acc)),
    decreases c, 0int,
{
    let n0 = acc.len() as int;
    let ok = values_ok(values, acc);
    let e = Seq::<Slot>::empty();
    assert(s + seq![Slot::Val] =~= s.push(Slot::Val));
    assert(s + seq![Slot::Ty] =~= s.push(Slot::Ty));
    assert(s + e =~= s);
    lemma_extends_refl(acc);
    assert(run_seg(acc, n0, n0, s) == Some(s + e));
    match c {
        Constant::Cast { opcode, operand, to_type } => {
            lemma_const_stack(defs, values, acc, *operand, s);
            if let Ok(a1) = const_code(defs, values, acc, *operand) {
                lemma_type_stack(defs, Seq::empty(), a1, to_type, s + seq![Slot::Val]);
                lemma_leaves_when(a1, type_code(defs, Seq::empty(), a1, to_type), s + seq![Slot::Val], seq![Slot::Ty], ok);
                if let Ok(a2) = type_code(defs, Seq::empty(), a1, to_type) {
                    lemma_chain(acc, a1, a2, s, seq![Slot::Val], seq![Slot::Ty], ok);
                    let op = Op::ConstCast(opcode);
                    let x = seq![Slot::Val] + seq![Slot::Ty];
                    assert(s + x =~= s + takes(op));
                    lemma_chain_op(acc, a2, op, s, x, s, ok);
                }
            }
        },
        _ => {},
    }
}

proof fn lemma_const_select_stack(defs: Defs, values: Map<NameKey, usize>, acc: Seq<Op>, c: Constant, s: Seq<Slot>)
    requires
        c is Select,
    ensures
        leaves_when(acc, const_code(defs, values, acc, c), s, seq![Slot::Val], values_ok(values, acc)),
    decreases c, 0int,
{
    let n0 = acc.len() as int;
    let ok = values_ok(values, acc);
    let e = Seq::<Slot>::empty();
    assert(s + seq![Slot::Val] =~= s.push(Slot::Val));
    assert(s + seq![Slot::Ty] =~= s.push(Slot::Ty));
    assert(s + e =~= s);
    lemma_extends_refl(acc);
    assert(run_seg(acc, n0, n0, s) == Some(s + e));
    match c {
        Constant::Select { condition, true_value, false_value } => {
            lemma_const_stack(defs, values, acc, *condition, s);
            if let Ok(a1) = const_code(defs, values, acc, *condition) {
                if ok {
                    lemma_values_ok_extends(values, acc, a1);
                }
                lemma_const_stack(defs, values, a1, *true_value, s + seq![Slot::Val]);
                if let Ok(a2) = const_code(defs, values, a1, *true_value) {
                    lemma_chain(acc, a1, a2, s, seq![Slot::Val], seq![Slot::Val], ok);
                    if ok {
                        lemma_values_ok_extends(values, acc, a2);
                    }
                    let x2 = seq![Slot::Val] + seq![Slot::Val];
                    lemma_const_stack(defs, values, a2, *false_value, s + x2);
                    if let Ok(a3) = const_code(defs, values, a2, *false_value) {
                        lemma_chain(acc, a2, a3, s, x2, seq![Slot::Val], ok);
                        let op = Op::ConstSelect;
                        let x = x2 + seq![Slot::Val];
                        assert(s + x =~= s + takes(op));
                        lemma_chain_op(acc, a3, op, s, x, s, ok);
                    }
                }
            }
        },
        _ => {},
    }
}

proof fn lemma_const_extract_element_stack(defs: Defs, values: Map<NameKey, usize>, acc: Seq<Op>, c: Constant, s: Seq<Slot>)
    requires
        c is ExtractElement,
    ensures
        leaves_when(acc, const_code(defs, values, acc, c), s, seq![Slot::Val], values_ok(values, acc)),
    decreases c, 0int,
{
    let n0 = acc.len() as int;
    let ok = values_ok(values, acc);
    let e = Seq::<Slot>::empty();
    assert(s + seq![Slot::Val] =~= s.push(Slot::Val));
    assert(s + seq![Slot::Ty] =~= s.push(Slot::Ty));
    assert(s + e =~= s);
    lemma_extends_refl(acc);
    assert(run_seg(acc, n0, n0, s) == Some(s + e));
    match c {
        Constant::ExtractElement { vector, index } => {
            lemma_const_stack(defs, values, acc, *vector, s);
            if let Ok(a1) = const_code(defs, values, acc, *vector) {
                if ok {
                    lemma_values_ok_extends(values, acc, a1);
                }
                lemma_const_stack(defs, values, a1, *index, s + seq![Slot::Val]);
                if let Ok(a2) = const_code(defs, values, a1, *index) {
                    lemma_chain(acc, a1, a2, s, seq![Slot::Val], seq![Slot::Val], ok);
                    let op = Op::ConstExtractElement;
                    let x = seq![Slot::Val] + seq![Slot::Val];
                    assert(s + x =~= s + takes(op));
                    lemma_chain_op(acc, a2, op, s, x, s, ok);
                }
            }
        },
        _ => {},
    }
}

proof fn lemma_const_insert_element_stack(defs: Defs, values: Map<NameKey, usize>, acc: Seq<Op>, c: Constant, s: Seq<Slot>)
    requires
        c is InsertElement,
    ensures
        leaves_when(acc, const_code(defs, values, acc, c), s, seq![Slot::Val], values_ok(values, acc)),
    decreases c, 0int,
{
    let n0 = acc.len() as int;
    let ok = values_ok(values, acc);
    let e = Seq::<Slot>::empty();
    assert(s + seq![Slot::Val] =~= s.push(Slot::Val));
    assert(s + seq![Slot::Ty] =~= s.push(Slot::Ty));
    assert(s + e =~= s);
    lemma_extends_refl(acc);
    assert(run_seg(acc, n0, n0, s) == Some(s + e));
    match c {
        Constant::InsertElement { vector, element, index } => {
            lemma_const_stack(defs, values, acc, *vector, s);
            if let Ok(a1) = const_code(defs, values, acc, *vector) {
                if ok {
                    lemma_values_ok_extends(values, acc, a1);
                }
                lemma_const_stack(defs, values, a1, *element, s + seq![Slot::Val]);
                if let Ok(a2) = const_code(defs, values, a1, *element) {
                    lemma_chain(acc, a1, a2, s, seq![Slot::Val], seq![Slot::Val], ok);
                    if ok {
                        lemma_values_ok_extends(values, acc, a2);
                    }
                    let x2 = seq![Slot::Val] + seq![Slot::Val];
                    lemma_const_stack(defs, values, a2, *index, s + x2);
                    if let Ok(a3) = const_code(defs, values, a2, *index) {
                        lemma_chain(acc, a2, a3, s, x2, seq![Slot::Val], ok);
                        let op = Op::ConstInsertElement;
                        let x = x2 + seq![Slot::Val];
                        assert(s + x =~= s + takes(op));
                        lemma_chain_op(acc, a3, op, s, x, s, ok);
                    }
                }
            }
        },
        _ => {},
    }
}

proof fn lemma_const_shuffle_vector_stack(defs: Defs, values: Map<NameKey, usize>, acc: Seq<Op>, c: Constant, s: Seq<Slot>)
    requires
        c is ShuffleVector,
    ensures
        leaves_when(acc, const_code(defs, values, acc, c), s, seq![Slot::Val], values_ok(values, acc)),
    decreases c, 0int,
{
    let n0 = acc.len() as int;
    let ok = values_ok(values, acc);
    let e = Seq::<Slot>::empty();
    assert(s + seq![Slot::Val] =~= s.push(Slot::Val));
    assert(s + seq![Slot::Ty] =~= s.push(Slot::Ty));
    assert(s + e =~= s);
    lemma_extends_refl(acc);
    assert(run_seg(acc, n0, n0, s) == Some(s + e));
    match c {
        Constant::ShuffleVector { operand0, operand1, mask } => {
            lemma_const_stack(defs, values, acc, *operand0, s);
            if let Ok(a1) = const_code(defs, values, acc, *operand0) {
                if ok {
                    lemma_values_ok_extends(values, acc, a1);
                }
                lemma_const_stack(defs, values, a1, *operand1, s + seq![Slot::Val]);
                if let Ok(a2) = const_code(defs, values, a1, *operand1) {
                    lemma_chain(acc, a1, a2, s, seq![Slot::Val], seq![Slot::Val], ok);
                    if ok {
                        lemma_values_ok_extends(values, acc, a2);
                    }
                    let x2 = seq![Slot::Val] + seq![Slot::Val];
                    lemma_const_stack(defs, values, a2, *mask, s + x2);
                    if let Ok(a3) = const_code(defs, values, a2, *mask) {
                        lemma_chain(acc, a2, a3, s, x2, seq![Slot::Val], ok);
                        let op = Op::ConstShuffleVector;
                        let x = x2 + seq![Slot::Val];
                        assert(s + x =~= s + takes(op));
                        lemma_chain_op(acc, a3, op, s, x, s, ok);
                    }
                }
            }
        },
        _ => {},
    }
}

proof fn lemma_const_getelementptr_stack(defs: Defs, values: Map<NameKey, usize>, acc: Seq<Op>, c: Constant, s: Seq<Slot>)
    requires
        c is GetElementPtr,
    ensures
        leaves_when(acc, const_code(defs, values, acc, c), s, seq![Slot::Val], values_ok(values, acc)),
    decreases c, 0int,
{
    let n0 = acc.len() as int;
    let ok = values_ok(values, acc);
    let e = Seq::<Slot>::empty();
    assert(s + seq![Slot::Val] =~= s.push(Slot::Val));
    assert(s + seq![Slot::Ty] =~= s.push(Slot::Ty));
    assert(s + e =~= s);
    lemma_extends_refl(acc);
    assert(run_seg(acc, n0, n0, s) == Some(s + e));
    match c {
        Constant::GetElementPtr { address, indices, in_bounds, source_element_type } => {
            lemma_const_stack(defs, values, acc, *address, s);
            if let Ok(a1) = const_code(defs, values, acc, *address) {
                if ok {
                    lemma_values_ok_extends(values, acc, a1);
                }
                let n = indices@.len() - 0;
                lemma_consts_stack(defs, values, a1, indices@, 0, s + seq![Slot::Val]);
                if let Ok(a2) = consts_code(defs, values, a1, indices@, 0) {
                    lemma_chain(acc, a1, a2, s, seq![Slot::Val], slots(Slot::Val, n), ok);
                    let x2 = seq![Slot::Val] + slots(Slot::Val, n);
                    lemma_type_stack(defs, Seq::empty(), a2, source_element_type, s + x2);
                    lemma_leaves_when(a2, type_code(defs, Seq::empty(), a2, source_element_type), s + x2, seq![Slot::Ty], ok);
                    if let Ok(a3) = type_code(defs, Seq::empty(), a2, source_element_type) {
                        lemma_chain(acc, a2, a3, s, x2, seq![Slot::Ty], ok);
                        let op = Op::ConstGEP { index_count: indices.len(), in_bounds };
                        let x = x2 + seq![Slot::Ty];
                        assert(s + x =~= s + takes(op));
                        lemma_chain_op(acc, a3, op, s, x, s, ok);
                    }
                }
            }
        },
        _ => {},
    }
}

/// Reading fields one index at a time leaves one value where the aggregate
/// was.
proof fn lemma_extract_path_stack(a: Seq<Op>, idx: Seq<u32>, k: int, j: int, from: int, s0: Seq<Slot>, below: Seq<Slot>, ok: bool)
    requires
        0 <= from <= a.len(),
        ok ==> run_seg(a, from, a.len() as int, s0) == Some(below.push(Slot::Val)),
    ensures
        extends(extract_path(a, idx, k, j), a),
        ok ==> run_seg(extract_path(a, idx, k, j), from, extract_path(a, idx, k, j).len() as int, s0) == Some(below.push(Slot::Val)),
    decreases j - k,
{
    if k < j {
        let op = Op::ConstExtractValue(idx[k]);
        lemma_refs_free(a, op);
        lemma_extends_push(a, op);
        if ok {
            assert(below.push(Slot::Val) =~= below + takes(op));
            lemma_push_op(a, op, from, s0, below);
        }
        lemma_extract_path_stack(a.push(op), idx, k + 1, j, from, s0, below, ok);
        lemma_extends_trans(a, a.push(op), extract_path(a, idx, k, j));
    } else {
        lemma_extends_refl(a);
    }
}

/// Reading field types one index at a time leaves one type where the
/// aggregate's type was.
proof fn lemma_field_type_path_stack(a: Seq<Op>, idx: Seq<u32>, k: int, from: int, s0: Seq<Slot>, below: Seq<Slot>)
    requires
        0 <= from <= a.len(),
        run_seg(a, from, a.len() as int, s0) == Some(below.push(Slot::Ty)),
    ensures
        extends(field_type_path(a, idx, k), a),
        run_seg(field_type_path(a, idx, k), from, field_type_path(a, idx, k).len() as int, s0) == Some(below.push(Slot::Ty)),
    decreases idx.len() - k,
{
    if 0 <= k < idx.len() {
        let op = Op::FieldType(idx[k]);
        lemma_refs_free(a, op);
        assert(below.push(Slot::Ty) =~= below + takes(op));
        lemma_push_op(a, op, from, s0, below);
        lemma_field_type_path_stack(a.push(op), idx, k + 1, from, s0, below);
        lemma_extends_trans(a, a.push(op), field_type_path(a, idx, k));
    } else {
        lemma_extends_refl(a);
    }
}

/// Each insertion takes a value and the aggregate below it and leaves the
/// new aggregate.
proof fn lemma_insert_stores_stack(a: Seq<Op>, idx: Seq<u32>, j: int, from: int, s0: Seq<Slot>, below: Seq<Slot>, ok: bool)
    requires
        0 <= j,
        0 <= from <= a.len(),
        ok ==> run_seg(a, from, a.len() as int, s0) == Some(below + slots(Slot::Val, j + 1)),
    ensures
        extends(insert_stores(a, idx, j), a),
        ok ==> run_seg(insert_stores(a, idx, j), from, insert_stores(a, idx, j).len() as int, s0) == Some(below.push(Slot::Val)),
    decreases j,
{
    if j > 0 {
        let op = Op::ConstInsertValue(idx[j - 1]);
        lemma_refs_free(a, op);
        lemma_extends_push(a, op);
        let rest = below + slots(Slot::Val, j - 1);
        if ok {
            assert(below + slots(Slot::Val, j + 1) =~= rest + takes(op));
            lemma_push_op(a, op, from, s0, rest);
            assert(rest.push(Slot::Val) =~= below + slots(Slot::Val, j));
        }
        lemma_insert_stores_stack(a.push(op), idx, j - 1, from, s0, below, ok);
        lemma_extends_trans(a, a.push(op), insert_stores(a, idx, j));
    } else {
        lemma_extends_refl(a);
        assert(below + slots(Slot::Val, j + 1) =~= below.push(Slot::Val));
    }
}

/// The aggregates an insertion works on, one value each.
proof fn lemma_insert_loads_stack(defs: Defs, values: Map<NameKey, usize>, acc: Seq<Op>, agg: Constant, idx: Seq<u32>, j: int, s: Seq<Slot>)
    requires
        0 <= j <= idx.len(),
    ensures
        leaves_when(acc, insert_loads(defs, values, acc, agg, idx, j), s, slots(Slot::Val, idx.len() - j), values_ok(values, acc)),
    decreases agg, idx.len() - j + 3,
{
    let ok = values_ok(values, acc);
    let n = idx.len() as int;
    if j < n {
        lemma_const_stack(defs, values, acc, agg, s);
        if let Ok(a1) = const_code(defs, values, acc, agg) {
            assert(s + seq![Slot::Val] =~= s.push(Slot::Val));
            lemma_extract_path_stack(a1, idx, 0, j, acc.len() as int, s, s, ok);
            let a1e = extract_path(a1, idx, 0, j);
            lemma_extends_trans(acc, a1, a1e);
            if ok {
                lemma_values_ok_extends(values, acc, a1e);
            }
            lemma_insert_loads_stack(defs, values, a1e, agg, idx, j + 1, s + seq![Slot::Val]);
            if let Ok(a2) = insert_loads(defs, values, a1e, agg, idx, j + 1) {
                lemma_chain(acc, a1e, a2, s, seq![Slot::Val], slots(Slot::Val, n - (j + 1)), ok);
                assert(seq![Slot::Val] + slots(Slot::Val, n - (j + 1)) =~= slots(Slot::Val, n - j));
            }
        }
    } else {
        lemma_extends_refl(acc);
        assert(s + slots(Slot::Val, n - j) =~= s);
    }
}

proof fn lemma_const_extract_value_stack(defs: Defs, values: Map<NameKey, usize>, acc: Seq<Op>, c: Constant, s: Seq<Slot>)
    requires
        c is ExtractValue,
    ensures
        leaves_when(acc, const_code(defs, values, acc, c), s, seq![Slot::Val], values_ok(values, acc)),
    decreases c, 0int,
{
    let ok = values_ok(values, acc);
    assert(s + seq![Slot::Val] =~= s.push(Slot::Val));
    match c {
        Constant::ExtractValue { aggregate, indices } => {
            if indices@.len() > 0 {
                lemma_const_stack(defs, values, acc, *aggregate, s);
                if let Ok(a1) = const_code(defs, values, acc, *aggregate) {
                    lemma_extract_path_stack(a1, indices@, 0, indices@.len() as int, acc.len() as int, s, s, ok);
                    lemma_extends_trans(acc, a1, extract_path(a1, indices@, 0, indices@.len() as int));
                }
            }
        },
        _ => {},
    }
}

proof fn lemma_const_insert_value_stack(defs: Defs, values: Map<NameKey, usize>, acc: Seq<Op>, c: Constant, s: Seq<Slot>)
    requires
        c is InsertValue,
    ensures
        leaves_when(acc, const_code(defs, values, acc, c), s, seq![Slot::Val], values_ok(values, acc)),
    decreases c, 0int,
{
    let ok = values_ok(values, acc);
    assert(s + seq![Slot::Val] =~= s.push(Slot::Val));
    match c {
        Constant::InsertValue { aggregate, element, indices } => {
            let n = indices@.len() as int;
            if n > 0 {
                lemma_insert_loads_stack(defs, values, acc, *aggregate, indices@, 0, s);
                if let Ok(a1) = insert_loads(defs, values, acc, *aggregate, indices@, 0) {
                    if ok {
                        lemma_values_ok_extends(values, acc, a1);
                    }
                    assert(slots(Slot::Val, n - 0) =~= slots(Slot::Val, n));
                    lemma_const_stack(defs, values, a1, *element, s + slots(Slot::Val, n));
                    if let Ok(a2) = const_code(defs, values, a1, *element) {
                        lemma_chain(acc, a1, a2, s, slots(Slot::Val, n), seq![Slot::Val], ok);
                        assert(s + (slots(Slot::Val, n) + seq![Slot::Val]) =~= s + slots(Slot::Val, n + 1));
                        lemma_insert_stores_stack(a2, indices@, n, acc.len() as int, s, s, ok);
                        lemma_extends_trans(acc, a2, insert_stores(a2, indices@, n));
                    }
                }
            }
        },
        _ => {},
    }
}

/// `lemma_const_stack` for block addresses and constant expressions.
proof fn lemma_const_expr_stack(defs: Defs, values: Map<NameKey, usize>, acc: Seq<Op>, c: Constant, s: Seq<Slot>)
    requires
        c is BlockAddress || c is Binary || c is ICmp || c is FCmp || c is Cast || c is Select || c is GetElementPtr
            || c is ExtractElement || c is InsertElement || c is ShuffleVector || c is ExtractValue || c is InsertValue,
    ensures
        leaves_when(acc, const_code(defs, values, acc, c), s, seq![Slot::Val], values_ok(values, acc)),
    decreases c, 1int,
{
    if c is BlockAddress {
        lemma_const_blockaddress_stack(defs, values, acc, c, s);
    }
    if c is Binary {
        lemma_const_binary_stack(defs, values, acc, c, s);
    }
    if c is ICmp {
        lemma_const_int_compare_stack(defs, values, acc, c, s);
    }
    if c is FCmp {
        lemma_const_real_compare_stack(defs, values, acc, c, s);
    }
    if c is Cast {
        lemma_const_cast_stack(defs, values, acc, c, s);
    }
    if c is Select {
        lemma_const_select_stack(defs, values, acc, c, s);
    }
    if c is GetElementPtr {
        lemma_const_getelementptr_stack(defs, values, acc, c, s);
    }
    if c is ExtractElement {
        lemma_const_extract_element_stack(defs, values, acc, c, s);
    }
    if c is InsertElement {
        lemma_const_insert_element_stack(defs, values, acc, c, s);
    }
    if c is ShuffleVector {
        lemma_const_shuffle_vector_stack(defs, values, acc, c, s);
    }
    if c is ExtractValue {
        lemma_const_extract_value_stack(defs, values, acc, c, s);
    }
    if c is InsertValue {
        lemma_const_insert_value_stack(defs, values, acc, c, s);
    }
}

/// The operations that make a type are appended to those before them.
pub proof fn lemma_type_code_extends(defs: Defs, stack: Seq<usize>, acc: Seq<Op>, t: Type)
    ensures
        type_code(defs, stack, acc, t) matches Ok(a) ==> extends(a, acc),
{
    lemma_type_stack(defs, stack, acc, t, Seq::empty());
}

/// The operations that make a constant are appended to those before them.
pub proof fn lemma_const_code_extends(defs: Defs, values: Map<NameKey, usize>, acc: Seq<Op>, c: Constant)
    ensures
        const_code(defs, values, acc, c) matches Ok(a) ==> extends(a, acc),
{
    lemma_const_stack(defs, values, acc, c, Seq::empty());
}

proof fn lemma_const_stack(defs: Defs, values: Map<NameKey, usize>, acc: Seq<Op>, c: Constant, s: Seq<Slot>)
    ensures
        leaves_when(acc, const_code(defs, values, acc, c), s, seq![Slot::Val], values_ok(values, acc)),
    decreases c, 2int,
{
    let n0 = acc.len() as int;
    let ok = values_ok(values, acc);
    let e = Seq::<Slot>::empty();
    assert(s + seq![Slot::Val] =~= s.push(Slot::Val));
    assert(s + seq![Slot::Ty] =~= s.push(Slot::Ty));
    assert(s + e =~= s);
    lemma_extends_refl(acc);
    assert(run_seg(acc, n0, n0, s) == Some(s + e));
    match c {
        Constant::Int { bits, value } => {
            let a1 = acc.push(Op::IntType(bits));
            lemma_chain_op(acc, acc, Op::IntType(bits), s, e, s, ok);
            assert(s.push(Slot::Ty) == s + seq![Slot::Ty]);
            lemma_chain_op(acc, a1, Op::ConstInt(value), s, seq![Slot::Ty], s, ok);
        },
        Constant::Float(f) => {
            let a = const_code(defs, values, acc, c)->Ok_0;
            let t_op = a[n0];
            let c_op = a[n0 + 1];
            let a1 = acc.push(t_op);
            assert(a == a1.push(c_op));
            lemma_chain_op(acc, acc, t_op, s, e, s, ok);
            lemma_chain_op(acc, a1, c_op, s, seq![Slot::Ty], s, ok);
        },
        Constant::Poison(t) => {
            lemma_type_stack(defs, Seq::empty(), acc, t, s);
            if let Ok(a1) = type_code(defs, Seq::empty(), acc, t) {
                lemma_chain_op(acc, a1, Op::GetPoison, s, seq![Slot::Ty], s, ok);
            }
        },
        Constant::TokenNone => {
            let a1 = acc.push(Op::TokenType);
            lemma_chain_op(acc, acc, Op::TokenType, s, e, s, ok);
            assert(s.push(Slot::Ty) == s + seq![Slot::Ty]);
            lemma_chain_op(acc, a1, Op::ConstNull, s, seq![Slot::Ty], s, ok);
        },
        Constant::BlockAddress { function: _, block: _ } => lemma_const_expr_stack(defs, values, acc, c, s),
        Constant::Binary { opcode: _, operand0: _, operand1: _ } => lemma_const_expr_stack(defs, values, acc, c, s),
        Constant::ICmp { predicate: _, operand0: _, operand1: _ } => lemma_const_expr_stack(defs, values, acc, c, s),
        Constant::FCmp { predicate: _, operand0: _, operand1: _ } => lemma_const_expr_stack(defs, values, acc, c, s),
        Constant::Cast { opcode: _, operand: _, to_type: _ } => lemma_const_expr_stack(defs, values, acc, c, s),
        Constant::Select { condition: _, true_value: _, false_value: _ } => lemma_const_expr_stack(defs, values, acc, c, s),
        Constant::GetElementPtr { address: _, indices: _, in_bounds: _, source_element_type: _ } => {
            lemma_const_expr_stack(defs, values, acc, c, s)
        },
        Constant::ExtractElement { vector: _, index: _ } => lemma_const_expr_stack(defs, values, acc, c, s),
        Constant::InsertElement { vector: _, element: _, index: _ } => lemma_const_expr_stack(defs, values, acc, c, s),
        Constant::ShuffleVector { operand0: _, operand1: _, mask: _ } => lemma_const_expr_stack(defs, values, acc, c, s),
        Constant::ExtractValue { aggregate: _, indices: _ } => lemma_const_expr_stack(defs, values, acc, c, s),
        Constant::InsertValue { aggregate: _, element: _, indices: _ } => lemma_const_expr_stack(defs, values, acc, c, s),
        Constant::Null(t) => {
            lemma_type_stack(defs, Seq::empty(), acc, t, s);
            if let Ok(a1) = type_code(defs, Seq::empty(), acc, t) {
                lemma_chain_op(acc, a1, Op::ConstNull, s, seq![Slot::Ty], s, ok);
            }
        },
        Constant::AggregateZero(t) => {
            lemma_type_stack(defs, Seq::empty(), acc, t, s);
            if let Ok(a1) = type_code(defs, Seq::empty(), acc, t) {
                lemma_chain_op(acc, a1, Op::ConstNull, s, seq![Slot::Ty], s, ok);
            }
        },
        Constant::Undef(t) => {
            lemma_type_stack(defs, Seq::empty(), acc, t, s);
            if let Ok(a1) = type_code(defs, Seq::empty(), acc, t) {
                lemma_chain_op(acc, a1, Op::GetUndef, s, seq![Slot::Ty], s, ok);
            }
        },
        Constant::Struct { name, values: fields, is_packed } => match name {
            Some(n) => {
                let t = Type::NamedStructType { name: n };
                lemma_type_stack(defs, Seq::empty(), acc, t, s);
                if let Ok(a1) = type_code(defs, Seq::empty(), acc, t) {
                    if ok {
                        lemma_values_ok_extends(values, acc, a1);
                    }
                    lemma_consts_stack(defs, values, a1, fields@, 0, s + seq![Slot::Ty]);
                    if let Ok(a2) = consts_code(defs, values, a1, fields@, 0) {
                        let x = seq![Slot::Ty] + slots(Slot::Val, fields@.len() - 0);
                        lemma_chain(acc, a1, a2, s, seq![Slot::Ty], slots(Slot::Val, fields@.len() - 0), ok);
                        let op = Op::ConstNamedStruct { element_count: fields.len() };
                        assert(s + x =~= s + takes(op));
                        lemma_chain_op(acc, a2, op, s, x, s, ok);
                    }
                }
            },
            None => {
                lemma_consts_stack(defs, values, acc, fields@, 0, s);
                if let Ok(a1) = consts_code(defs, values, acc, fields@, 0) {
                    let op = Op::ConstStruct { element_count: fields.len(), is_packed };
                    assert(s + slots(Slot::Val, fields@.len() - 0) =~= s + takes(op));
                    lemma_chain_op(acc, a1, op, s, slots(Slot::Val, fields@.len() - 0), s, ok);
                }
            },
        },
        Constant::Array { element_type, elements } => {
            lemma_type_stack(defs, Seq::empty(), acc, element_type, s);
            if let Ok(a1) = type_code(defs, Seq::empty(), acc, element_type) {
                if ok {
                    lemma_values_ok_extends(values, acc, a1);
                }
                lemma_consts_stack(defs, values, a1, elements@, 0, s + seq![Slot::Ty]);
                if let Ok(a2) = consts_code(defs, values, a1, elements@, 0) {
                    let x = seq![Slot::Ty] + slots(Slot::Val, elements@.len() - 0);
                    lemma_chain(acc, a1, a2, s, seq![Slot::Ty], slots(Slot::Val, elements@.len() - 0), ok);
                    let op = Op::ConstArray { element_count: elements.len() };
                    assert(s + x =~= s + takes(op));
                    lemma_chain_op(acc, a2, op, s, x, s, ok);
                }
            }
        },
        Constant::Vector(elements) => {
            lemma_consts_stack(defs, values, acc, elements@, 0, s);
            if let Ok(a1) = consts_code(defs, values, acc, elements@, 0) {
                let op = Op::ConstVector { element_count: elements.len() };
                assert(s + slots(Slot::Val, elements@.len() - 0) =~= s + takes(op));
                lemma_chain_op(acc, a1, op, s, slots(Slot::Val, elements@.len() - 0), s, ok);
            }
        },
        Constant::GlobalReference { name, ty: _ } => {
            if values.contains_key(name.key()) {
                let h = values[name.key()];
                lemma_extends_push(acc, Op::Value(h));
                if ok {
                    lemma_push_value(acc, h, n0, s, s, Slot::Val);
                }
            }
        },
    }
}

proof fn lemma_consts_stack(defs: Defs, values: Map<NameKey, usize>, acc: Seq<Op>, cs: Seq<Constant>, i: int, s: Seq<Slot>)
    requires
        0 <= i,
    ensures
        leaves_when(acc, consts_code(defs, values, acc, cs, i), s, slots(Slot::Val, cs.len() - i), values_ok(values, acc)),
    decreases cs, cs.len() - i,
{
    let ok = values_ok(values, acc);
    if i < cs.len() {
        lemma_const_stack(defs, values, acc, cs[i], s);
        if let Ok(a1) = const_code(defs, values, acc, cs[i]) {
            if ok {
                lemma_values_ok_extends(values, acc, a1);
            }
            lemma_consts_stack(defs, values, a1, cs, i + 1, s + seq![Slot::Val]);
            if let Ok(a2) = consts_code(defs, values, a1, cs, i + 1) {
                lemma_chain(acc, a1, a2, s, seq![Slot::Val], slots(Slot::Val, cs.len() - (i + 1)), ok);
                assert(seq![Slot::Val] + slots(Slot::Val, cs.len() - (i + 1)) =~= slots(Slot::Val, cs.len() - i));
            }
        }
    } else {
        lemma_extends_refl(acc);
        assert(s + slots(Slot::Val, cs.len() - i) =~= s);
    }
}

proof fn lemma_type_of_stack(defs: Defs, acc: Seq<Op>, c: Constant, s: Seq<Slot>)
    ensures
        leaves(acc, type_of_code(defs, acc, c), s, seq![Slot::Ty]),
    decreases c, 0int,
{
    let n0 = acc.len() as int;
    assert(s + seq![Slot::Ty] =~= s.push(Slot::Ty));
    lemma_extends_refl(acc);
    assert(run_seg(acc, n0, n0, s) == Some(s));
    match c {
        Constant::Binary { opcode: _, operand0, operand1: _ } => lemma_type_of_stack(defs, acc, *operand0, s),
        Constant::Select { condition: _, true_value, false_value: _ } => lemma_type_of_stack(defs, acc, *true_value, s),
        Constant::GetElementPtr { address, indices: _, in_bounds: _, source_element_type: _ } => lemma_type_of_stack(defs, acc, *address, s),
        Constant::Cast { opcode: _, operand: _, to_type } => lemma_type_stack(defs, Seq::empty(), acc, to_type, s),
        Constant::InsertElement { vector, element: _, index: _ } => lemma_type_of_stack(defs, acc, *vector, s),
        Constant::InsertValue { aggregate, element: _, indices: _ } => lemma_type_of_stack(defs, acc, *aggregate, s),
        Constant::ExtractValue { aggregate, indices } => {
            lemma_type_of_stack(defs, acc, *aggregate, s);
            if let Ok(a1) = type_of_code(defs, acc, *aggregate) {
                lemma_field_type_path_stack(a1, indices@, 0, n0, s, s);
                lemma_extends_trans(acc, a1, field_type_path(a1, indices@, 0));
            }
        },
        Constant::ExtractElement { vector, index: _ } => {
            lemma_type_of_stack(defs, acc, *vector, s);
            if let Ok(a1) = type_of_code(defs, acc, *vector) {
                let op = Op::ElementType;
                assert(s + seq![Slot::Ty] =~= s + takes(op));
                lemma_push_op(a1, op, n0, s, s);
                lemma_extends_trans(acc, a1, a1.push(op));
            }
        },
        Constant::ShuffleVector { operand0, operand1: _, mask } => {
            lemma_type_of_stack(defs, acc, *operand0, s);
            if let Ok(a1) = type_of_code(defs, acc, *operand0) {
                lemma_type_of_stack(defs, a1, *mask, s.push(Slot::Ty));
                if let Ok(a2) = type_of_code(defs, a1, *mask) {
                    lemma_then(a1, a2, n0, s, s.push(Slot::Ty));
                    lemma_extends_trans(acc, a1, a2);
                    let op = Op::ShuffleType;
                    assert(s.push(Slot::Ty) + seq![Slot::Ty] =~= s + takes(op));
                    lemma_push_op(a2, op, n0, s, s);
                    lemma_extends_trans(acc, a2, a2.push(op));
                }
            }
        },
        Constant::ICmp { predicate: _, operand0, operand1: _ } => {
            lemma_type_of_stack(defs, acc, *operand0, s);
            if let Ok(a1) = type_of_code(defs, acc, *operand0) {
                let op = Op::ComparisonType;
                assert(s + seq![Slot::Ty] =~= s + takes(op));
                lemma_push_op(a1, op, n0, s, s);
                lemma_extends_trans(acc, a1, a1.push(op));
            }
        },
        Constant::FCmp { predicate: _, operand0, operand1: _ } => {
            lemma_type_of_stack(defs, acc, *operand0, s);
            if let Ok(a1) = type_of_code(defs, acc, *operand0) {
                let op = Op::ComparisonType;
                assert(s + seq![Slot::Ty] =~= s + takes(op));
                lemma_push_op(a1, op, n0, s, s);
                lemma_extends_trans(acc, a1, a1.push(op));
            }
        },
        Constant::Null(t) => lemma_type_stack(defs, Seq::empty(), acc, t, s),
        Constant::AggregateZero(t) => lemma_type_stack(defs, Seq::empty(), acc, t, s),
        Constant::Undef(t) => lemma_type_stack(defs, Seq::empty(), acc, t, s),
        Constant::Poison(t) => lemma_type_stack(defs, Seq::empty(), acc, t, s),
        Constant::Struct { name, values, is_packed } => match name {
            Some(n) => lemma_type_stack(defs, Seq::empty(), acc, Type::NamedStructType { name: n }, s),
            None => {
                lemma_types_of_stack(defs, acc, values@, 0, s);
                if let Ok(a1) = types_of_code(defs, acc, values@, 0) {
                    let op = Op::StructType { element_count: values.len(), is_packed };
                    assert(s + slots(Slot::Ty, values@.len() - 0) =~= s + takes(op));
                    lemma_push_op(a1, op, n0, s, s);
                    lemma_extends_trans(acc, a1, a1.push(op));
                }
            },
        },
        Constant::Array { element_type, elements } => {
            lemma_type_stack(defs, Seq::empty(), acc, element_type, s);
            if let Ok(a1) = type_code(defs, Seq::empty(), acc, element_type) {
                let op = Op::ArrayType(elements.len() as u32);
                assert(s + seq![Slot::Ty] =~= s + takes(op));
                lemma_push_op(a1, op, n0, s, s);
                lemma_extends_trans(acc, a1, a1.push(op));
            }
        },
        Constant::Vector(elements) => {
            if elements.len() > 0 {
                lemma_type_of_stack(defs, acc, elements@[0], s);
                if let Ok(a1) = type_of_code(defs, acc, elements@[0]) {
                    let op = Op::VectorType(elements.len() as u32);
                    assert(s + seq![Slot::Ty] =~= s + takes(op));
                    lemma_push_op(a1, op, n0, s, s);
                    lemma_extends_trans(acc, a1, a1.push(op));
                }
            }
        },
        _ => {
            let a = type_of_code(defs, acc, c)->Ok_0;
            let op = a.last();
            assert(a == acc.push(op));
            lemma_push_plain(acc, op, n0, s, s);
        },
    }
}

proof fn lemma_types_of_stack(defs: Defs, acc: Seq<Op>, cs: Seq<Constant>, i: int, s: Seq<Slot>)
    requires
        0 <= i,
    ensures
        leaves(acc, types_of_code(defs, acc, cs, i), s, slots(Slot::Ty, cs.len() - i)),
    decreases cs, cs.len() - i,
{
    let n0 = acc.len() as int;
    if i < cs.len() {
        lemma_type_of_stack(defs, acc, cs[i], s);
        if let Ok(a1) = type_of_code(defs, acc, cs[i]) {
            lemma_types_of_stack(defs, a1, cs, i + 1, s.push(Slot::Ty));
            if let Ok(a2) = types_of_code(defs, a1, cs, i + 1) {
                assert(s + seq![Slot::Ty] =~= s.push(Slot::Ty));
                lemma_then(a1, a2, n0, s, s.push(Slot::Ty));
                assert(s.push(Slot::Ty) + slots(Slot::Ty, cs.len() - (i + 1)) =~= s + slots(Slot::Ty, cs.len() - i));
                lemma_extends_trans(acc, a1, a2);
            }
        }
    } else {
        lemma_extends_refl(acc);
        assert(s + slots(Slot::Ty, cs.len() - i) =~= s);
    }
}

proof fn lemma_operand_stack(defs: Defs, values: Map<NameKey, usize>, acc: Seq<Op>, op: Operand, s: Seq<Slot>)
    ensures
        leaves_when(acc, operand_code(defs, values, acc, op), s, seq![Slot::Val], values_ok(values, acc)),
{
    let n0 = acc.len() as int;
    match op {
        Operand::LocalOperand { name, ty: _ } => {
            if values.contains_key(name.key()) {
                let h = values[name.key()];
                lemma_extends_push(acc, Op::Value(h));
                if values_ok(values, acc) {
                    lemma_extends_refl(acc);
                    assert(run_seg(acc, n0, n0, s) == Some(s));
                    lemma_push_value(acc, h, n0, s, s, Slot::Val);
                    assert(s + seq![Slot::Val] =~= s.push(Slot::Val));
                }
            }
        },
        Operand::ConstantOperand(c) => lemma_const_stack(defs, values, acc, c, s),
        Operand::MetadataOperand => {},
    }
}

proof fn lemma_operands_stack(defs: Defs, values: Map<NameKey, usize>, acc: Seq<Op>, ops: Seq<Operand>, i: int, s: Seq<Slot>)
    requires
        0 <= i,
    ensures
        leaves_when(acc, operands_code(defs, values, acc, ops, i), s, slots(Slot::Val, ops.len() - i), values_ok(values, acc)),
    decreases ops.len() - i,
{
    let ok = values_ok(values, acc);
    if i < ops.len() {
        lemma_operand_stack(defs, values, acc, ops[i], s);
        if let Ok(a1) = operand_code(defs, values, acc, ops[i]) {
            if ok {
                lemma_values_ok_extends(values, acc, a1);
            }
            lemma_operands_stack(defs, values, a1, ops, i + 1, s + seq![Slot::Val]);
            if let Ok(a2) = operands_code(defs, values, a1, ops, i + 1) {
                lemma_chain(acc, a1, a2, s, seq![Slot::Val], slots(Slot::Val, ops.len() - (i + 1)), ok);
                assert(seq![Slot::Val] + slots(Slot::Val, ops.len() - (i + 1)) =~= slots(Slot::Val, ops.len() - i));
            }
        }
    } else {
        lemma_extends_refl(acc);
        assert(s + slots(Slot::Val, ops.len() - i) =~= s);
    }
}

proof fn lemma_operand2_stack(defs: Defs, values: Map<NameKey, usize>, acc: Seq<Op>, a: Operand, b: Operand, s: Seq<Slot>)
    ensures
        leaves_when(acc, operand2_code(defs, values, acc, a, b), s, seq![Slot::Val, Slot::Val], values_ok(values, acc)),
{
    let ok = values_ok(values, acc);
    lemma_operand_stack(defs, values, acc, a, s);
    if let Ok(a1) = operand_code(defs, values, acc, a) {
        if ok {
            lemma_values_ok_extends(values, acc, a1);
        }
        lemma_operand_stack(defs, values, a1, b, s + seq![Slot::Val]);
        if let Ok(a2) = operand_code(defs, values, a1, b) {
            lemma_chain(acc, a1, a2, s, seq![Slot::Val], seq![Slot::Val], ok);
            assert(seq![Slot::Val] + seq![Slot::Val] =~= seq![Slot::Val, Slot::Val]);
        }
    }
}

proof fn lemma_operand3_stack(
    defs: Defs,
    values: Map<NameKey, usize>,
    acc: Seq<Op>,
    a: Operand,
    b: Operand,
    c: Operand,
    s: Seq<Slot>,
)
    ensures
        leaves_when(
            acc,
            operand3_code(defs, values, acc, a, b, c),
            s,
            seq![Slot::Val, Slot::Val, Slot::Val],
            values_ok(values, acc),
        ),
{
    let ok = values_ok(values, acc);
    lemma_operand2_stack(defs, values, acc, a, b, s);
    if let Ok(a2) = operand2_code(defs, values, acc, a, b) {
        if ok {
            lemma_values_ok_extends(values, acc, a2);
        }
        lemma_operand_stack(defs, values, a2, c, s + seq![Slot::Val, Slot::Val]);
        if let Ok(a3) = operand_code(defs, values, a2, c) {
            lemma_chain(acc, a2, a3, s, seq![Slot::Val, Slot::Val], seq![Slot::Val], ok);
            assert(seq![Slot::Val, Slot::Val] + seq![Slot::Val] =~= seq![Slot::Val, Slot::Val, Slot::Val]);
        }
    }
}

/// A conversion state from which the replay goes on: its program replays
/// from an empty stack to an empty stack, and its names are bound to
/// operations that made values or, for block names, blocks.
pub open spec fn replayable(st: CtxState) -> bool {
    &&& run_seg(st.ops, 0, st.ops.len() as int, Seq::empty()) == Some(Seq::<Slot>::empty())
    &&& values_ok(st.values, st.ops)
    &&& blocks_ok(st.bbs, st.ops)
}

/// A program no longer than the largest handle: its positions are handles
/// as they are.
pub open spec fn fits(ops: Seq<Op>) -> bool {
    ops.len() <= usize::MAX
}

/// What holds of a state from which a step starts: replayable, if its
/// program fits.
pub open spec fn start_ok(st: CtxState) -> bool {
    fits(st.ops) ==> replayable(st)
}

/// The step from `st` to `r`, if it succeeds, extends the program, and the
/// state it reaches is replayable if its program fits.
pub open spec fn step_ok(st: CtxState, r: Result<CtxState, ConvertError>) -> bool {
    match r {
        Ok(s) => extends(s.ops, st.ops) && start_ok(s),
        Err(_) => true,
    }
}

/// Whether an operation refers to no handle.
pub open spec fn refs_free(op: Op) -> bool {
    refs_fit(seq![op], 0)
}

proof fn lemma_refs_free(a: Seq<Op>, op: Op)
    requires
        refs_free(op),
    ensures
        refs_fit(a.push(op), a.len() as int),
{
    assert(seq![op][0] == op);
    assert(a.push(op)[a.len() as int] == op);
}

proof fn lemma_fits_prefix(a: Seq<Op>, b: Seq<Op>)
    requires
        extends(b, a),
        fits(b),
    ensures
        fits(a),
{
}

/// Appending, after operations that left exactly what `op` takes, the
/// operation `op`, which takes them and pushes nothing.
proof fn lemma_close(st: CtxState, a: Seq<Op>, op: Op)
    requires
        replayable(st),
        extends(a, st.ops),
        run_seg(a, st.ops.len() as int, a.len() as int, Seq::empty()) == Some(Seq::empty() + takes(op)),
        refs_fit(a.push(op), a.len() as int),
        !pushes(op),
        !(op is Value),
    ensures
        run_seg(a.push(op), 0, a.len() + 1 as int, Seq::empty()) == Some(Seq::<Slot>::empty()),
        extends(a.push(op), st.ops),
        values_ok(st.values, a.push(op)),
        blocks_ok(st.bbs, a.push(op)),
{
    let n = st.ops.len() as int;
    lemma_push_op(a, op, n, Seq::empty(), Seq::empty());
    lemma_extends_trans(st.ops, a, a.push(op));
    lemma_run_split(a.push(op), 0, n, a.len() + 1 as int, Seq::empty());
    lemma_run_prefix(st.ops, a.push(op), 0, n, Seq::empty());
    lemma_values_ok_extends(st.values, st.ops, a.push(op));
    lemma_blocks_ok_extends(st.bbs, st.ops, a.push(op));
}

proof fn lemma_values_ok_insert(values: Map<NameKey, usize>, ops: Seq<Op>, k: NameKey, h: usize)
    requires
        values_ok(values, ops),
        h < ops.len(),
        made(ops[h as int]) == Some(Slot::Val),
    ensures
        values_ok(values.insert(k, h), ops),
{
    assert forall|k2: NameKey| #[trigger] values.insert(k, h).contains_key(k2) implies values.insert(k, h)[k2] < ops.len()
        && made(ops[values.insert(k, h)[k2] as int]) == Some(Slot::Val) by {
        if k2 != k {
            assert(values.contains_key(k2));
        }
    }
}

proof fn lemma_blocks_ok_insert(bbs: Map<NameKey, usize>, ops: Seq<Op>, k: NameKey, h: usize)
    requires
        blocks_ok(bbs, ops),
        h < ops.len(),
        made(ops[h as int]) == Some(Slot::Block),
    ensures
        blocks_ok(bbs.insert(k, h), ops),
{
    assert forall|k2: NameKey| #[trigger] bbs.insert(k, h).contains_key(k2) implies bbs.insert(k, h)[k2] < ops.len()
        && made(ops[bbs.insert(k, h)[k2] as int]) == Some(Slot::Block) by {
        if k2 != k {
            assert(bbs.contains_key(k2));
        }
    }
}

/// A step that appends, after operations `r` that leave what `op` takes, an
/// operation `op` that makes the value of `dest`.
/// Like `leaves_when`, but the replay is known only of a program that fits.
pub open spec fn leaves_fit(acc: Seq<Op>, r: Result<Seq<Op>, ConvertError>, s: Seq<Slot>, out: Seq<Slot>, ok: bool) -> bool {
    match r {
        Ok(a) => extends(a, acc) && (ok && fits(a) ==> run_seg(a, acc.len() as int, a.len() as int, s) == Some(s + out)),
        Err(_) => true,
    }
}

proof fn lemma_then_define_ok(st: CtxState, r: Result<Seq<Op>, ConvertError>, op: Op, dest: Name)
    requires
        start_ok(st),
        leaves_fit(st.ops, r, Seq::empty(), takes(op), values_ok(st.values, st.ops)),
        refs_free(op),
        !pushes(op),
        !(op is Value),
        made(op) == Some(Slot::Val),
    ensures
        step_ok(st, then_define(st, r, op, dest)),
{
    if let Ok(a) = r {
        lemma_extends_push(a, op);
        lemma_extends_trans(st.ops, a, a.push(op));
        if fits(a.push(op)) {
            lemma_fits_prefix(st.ops, a.push(op));
            lemma_fits_prefix(a, a.push(op));
            lemma_refs_free(a, op);
            assert(Seq::<Slot>::empty() + takes(op) =~= takes(op));
            lemma_close(st, a, op);
            assert(a.push(op)[a.len() as int] == op);
            lemma_values_ok_insert(st.values, a.push(op), dest.key(), a.len() as usize);
        }
    }
}

proof fn lemma_then_push_ok(st: CtxState, r: Result<Seq<Op>, ConvertError>, op: Op)
    requires
        start_ok(st),
        leaves_fit(st.ops, r, Seq::empty(), takes(op), values_ok(st.values, st.ops)),
        refs_free(op),
        !pushes(op),
        !(op is Value),
    ensures
        step_ok(st, then_push(st, r, op)),
{
    if let Ok(a) = r {
        lemma_extends_push(a, op);
        lemma_extends_trans(st.ops, a, a.push(op));
        if fits(a.push(op)) {
            lemma_fits_prefix(st.ops, a.push(op));
            lemma_fits_prefix(a, a.push(op));
            lemma_refs_free(a, op);
            assert(Seq::<Slot>::empty() + takes(op) =~= takes(op));
            lemma_close(st, a, op);
        }
    }
}

proof fn lemma_binary_ok(defs: Defs, st: CtxState, opcode: BinaryOpcode, b: BinaryOp)
    requires
        start_ok(st),
    ensures
        step_ok(st, binary_step(defs, st, opcode, b)),
{
    let op = Op::BuildBinary { opcode, name: b.dest };
    lemma_operand2_stack(defs, st.values, st.ops, b.operand0, b.operand1, Seq::empty());
    assert(seq![Slot::Val, Slot::Val] =~= takes(op));
    lemma_then_define_ok(st, operand2_code(defs, st.values, st.ops, b.operand0, b.operand1), op, b.dest);
}

proof fn lemma_unary_ok(defs: Defs, st: CtxState, u: UnaryOp, op: Op)
    requires
        start_ok(st),
        takes(op) == seq![Slot::Val],
        refs_free(op),
        !pushes(op),
        !(op is Value),
        made(op) == Some(Slot::Val),
    ensures
        step_ok(st, unary_step(defs, st, u, op)),
{
    lemma_operand_stack(defs, st.values, st.ops, u.operand, Seq::empty());
    assert(Seq::<Slot>::empty() + seq![Slot::Val] =~= seq![Slot::Val]);
    lemma_then_define_ok(st, operand_code(defs, st.values, st.ops, u.operand), op, u.dest);
}

proof fn lemma_cast_ok(defs: Defs, st: CtxState, opcode: CastOpcode, c: Cast)
    requires
        start_ok(st),
    ensures
        step_ok(st, cast_step(defs, st, opcode, c)),
{
    let e = Seq::<Slot>::empty();
    let ok = values_ok(st.values, st.ops);
    let op = Op::BuildCast { opcode, name: c.dest };
    lemma_operand_stack(defs, st.values, st.ops, c.operand, e);
    let r = match operand_code(defs, st.values, st.ops, c.operand) {
        Ok(a1) => type_code(defs, Seq::empty(), a1, c.to_type),
        Err(e) => Err(e),
    };
    if let Ok(a1) = operand_code(defs, st.values, st.ops, c.operand) {
        lemma_type_stack(defs, Seq::empty(), a1, c.to_type, e + seq![Slot::Val]);
        if let Ok(a2) = type_code(defs, Seq::empty(), a1, c.to_type) {
            lemma_chain(st.ops, a1, a2, e, seq![Slot::Val], seq![Slot::Ty], ok);
            assert(seq![Slot::Val] + seq![Slot::Ty] =~= takes(op));
        }
    }
    lemma_then_define_ok(st, r, op, c.dest);
}

proof fn lemma_defined2_ok(defs: Defs, st: CtxState, a: Operand, b: Operand, op: Op, dest: Name)
    requires
        start_ok(st),
        takes(op) == seq![Slot::Val, Slot::Val],
        refs_free(op),
        !pushes(op),
        !(op is Value),
        made(op) == Some(Slot::Val),
    ensures
        step_ok(st, then_define(st, operand2_code(defs, st.values, st.ops, a, b), op, dest)),
{
    lemma_operand2_stack(defs, st.values, st.ops, a, b, Seq::empty());
    assert(Seq::<Slot>::empty() + seq![Slot::Val, Slot::Val] =~= seq![Slot::Val, Slot::Val]);
    lemma_then_define_ok(st, operand2_code(defs, st.values, st.ops, a, b), op, dest);
}

proof fn lemma_defined3_ok(defs: Defs, st: CtxState, a: Operand, b: Operand, c: Operand, op: Op, dest: Name)
    requires
        start_ok(st),
        takes(op) == seq![Slot::Val, Slot::Val, Slot::Val],
        refs_free(op),
        !pushes(op),
        !(op is Value),
        made(op) == Some(Slot::Val),
    ensures
        step_ok(st, then_define(st, operand3_code(defs, st.values, st.ops, a, b, c), op, dest)),
{
    lemma_operand3_stack(defs, st.values, st.ops, a, b, c, Seq::empty());
    assert(Seq::<Slot>::empty() + seq![Slot::Val, Slot::Val, Slot::Val] =~= seq![Slot::Val, Slot::Val, Slot::Val]);
    lemma_then_define_ok(st, operand3_code(defs, st.values, st.ops, a, b, c), op, dest);
}

proof fn lemma_shuffle_ok(defs: Defs, st: CtxState, x: ShuffleVector)
    requires
        start_ok(st),
    ensures
        step_ok(st, instr_step(defs, st, Instruction::ShuffleVector(x))),
{
    let e = Seq::<Slot>::empty();
    let ok = values_ok(st.values, st.ops);
    let op = Op::BuildShuffleVector(x.dest);
    lemma_operand2_stack(defs, st.values, st.ops, x.operand0, x.operand1, e);
    let r = match operand2_code(defs, st.values, st.ops, x.operand0, x.operand1) {
        Ok(a2) => const_code(defs, st.values, a2, x.mask),
        Err(e) => Err(e),
    };
    if let Ok(a2) = operand2_code(defs, st.values, st.ops, x.operand0, x.operand1) {
        if ok {
            lemma_values_ok_extends(st.values, st.ops, a2);
        }
        lemma_const_stack(defs, st.values, a2, x.mask, e + seq![Slot::Val, Slot::Val]);
        if let Ok(a3) = const_code(defs, st.values, a2, x.mask) {
            lemma_chain(st.ops, a2, a3, e, seq![Slot::Val, Slot::Val], seq![Slot::Val], ok);
            assert(seq![Slot::Val, Slot::Val] + seq![Slot::Val] =~= takes(op));
        }
    }
    lemma_then_define_ok(st, r, op, x.dest);
}

proof fn lemma_call_ok(defs: Defs, st: CtxState, c: Call)
    requires
        start_ok(st),
    ensures
        step_ok(st, call_step(defs, st, c)),
{
    let e = Seq::<Slot>::empty();
    let ok = values_ok(st.values, st.ops);
    if let Callee::Operand(f) = c.function {
        let op = Op::BuildCall { arg_count: c.arguments.len(), name: c.dest };
        lemma_operand_stack(defs, st.values, st.ops, f, e);
        if let Ok(a1) = operand_code(defs, st.values, st.ops, f) {
            lemma_type_stack(defs, Seq::empty(), a1, c.function_ty, e + seq![Slot::Val]);
            if let Ok(a2) = type_code(defs, Seq::empty(), a1, c.function_ty) {
                lemma_chain(st.ops, a1, a2, e, seq![Slot::Val], seq![Slot::Ty], ok);
                let x2 = seq![Slot::Val] + seq![Slot::Ty];
                if ok {
                    lemma_values_ok_extends(st.values, st.ops, a2);
                }
                lemma_operands_stack(defs, st.values, a2, c.arguments@, 0, e + x2);
                if let Ok(a3) = operands_code(defs, st.values, a2, c.arguments@, 0) {
                    lemma_chain(st.ops, a2, a3, e, x2, slots(Slot::Val, c.arguments@.len() - 0), ok);
                    assert(x2 + slots(Slot::Val, c.arguments@.len() - 0) =~= takes(op));
                    match c.dest {
                        Some(d) => lemma_then_define_ok(st, Ok(a3), op, d),
                        None => lemma_then_push_ok(st, Ok(a3), op),
                    }
                }
            }
        }
    }
}

proof fn lemma_memory_ok(defs: Defs, st: CtxState, instr: Instruction)
    requires
        start_ok(st),
        instr is Alloca || instr is Load || instr is Store || instr is GetElementPtr || instr is ICmp,
    ensures
        step_ok(st, instr_step(defs, st, instr)),
{
    let e = Seq::<Slot>::empty();
    let ok = values_ok(st.values, st.ops);
    match instr {
        Instruction::Alloca(a) => {
            let op = Op::BuildAlloca(a.dest);
            lemma_type_stack(defs, Seq::empty(), st.ops, a.allocated_type, e);
            lemma_leaves_when(st.ops, type_code(defs, Seq::empty(), st.ops, a.allocated_type), e, seq![Slot::Ty], ok);
            assert(e + seq![Slot::Ty] =~= e + takes(op));
            lemma_then_define_ok(st, type_code(defs, Seq::empty(), st.ops, a.allocated_type), op, a.dest);
        },
        Instruction::Load(l) => {
            let op = Op::BuildLoad(l.dest);
            lemma_operand_stack(defs, st.values, st.ops, l.address, e);
            let r = match operand_code(defs, st.values, st.ops, l.address) {
                Ok(a1) => type_code(defs, Seq::empty(), a1, l.loaded_ty),
                Err(e) => Err(e),
            };
            if let Ok(a1) = operand_code(defs, st.values, st.ops, l.address) {
                lemma_type_stack(defs, Seq::empty(), a1, l.loaded_ty, e + seq![Slot::Val]);
                if let Ok(a2) = type_code(defs, Seq::empty(), a1, l.loaded_ty) {
                    lemma_chain(st.ops, a1, a2, e, seq![Slot::Val], seq![Slot::Ty], ok);
                    assert(seq![Slot::Val] + seq![Slot::Ty] =~= takes(op));
                }
            }
            assert(instr_step(defs, st, instr) == then_define(st, r, op, l.dest));
            lemma_then_define_ok(st, r, op, l.dest);
        },
        Instruction::Store(x) => {
            let op = Op::BuildStore;
            lemma_operand2_stack(defs, st.values, st.ops, x.value, x.address, e);
            assert(e + seq![Slot::Val, Slot::Val] =~= e + takes(op));
            lemma_then_push_ok(st, operand2_code(defs, st.values, st.ops, x.value, x.address), op);
        },
        Instruction::GetElementPtr(g) => {
            let op = Op::BuildGEP { index_count: g.indices.len(), name: g.dest };
            lemma_operand_stack(defs, st.values, st.ops, g.address, e);
            if let Ok(a1) = operand_code(defs, st.values, st.ops, g.address) {
                if ok {
                    lemma_values_ok_extends(st.values, st.ops, a1);
                }
                lemma_operands_stack(defs, st.values, a1, g.indices@, 0, e + seq![Slot::Val]);
                if let Ok(a2) = operands_code(defs, st.values, a1, g.indices@, 0) {
                    let n = slots(Slot::Val, g.indices@.len() - 0);
                    lemma_chain(st.ops, a1, a2, e, seq![Slot::Val], n, ok);
                    lemma_type_stack(defs, Seq::empty(), a2, g.source_element_type, e + (seq![Slot::Val] + n));
                    if let Ok(a3) = type_code(defs, Seq::empty(), a2, g.source_element_type) {
                        lemma_chain(st.ops, a2, a3, e, seq![Slot::Val] + n, seq![Slot::Ty], ok);
                        assert(seq![Slot::Val] + n + seq![Slot::Ty] =~= takes(op));
                        lemma_then_define_ok(st, Ok(a3), op, g.dest);
                    }
                }
            }
        },
        Instruction::ICmp(c) => {
            let op = Op::BuildICmp { predicate: crate::llvm_codes::int_predicate_code(c.predicate), name: c.dest };
            lemma_defined2_ok(defs, st, c.operand0, c.operand1, op, c.dest);
        },
        _ => {},
    }
}

proof fn lemma_incoming_stack(
    defs: Defs,
    values: Map<NameKey, usize>,
    bbs: Map<NameKey, usize>,
    acc: Seq<Op>,
    inc: Seq<(Operand, Name)>,
    i: int,
    s: Seq<Slot>,
)
    requires
        0 <= i,
    ensures
        leaves_when(
            acc,
            incoming_code(defs, values, bbs, acc, inc, i),
            s,
            pairs(inc.len() - i),
            values_ok(values, acc) && blocks_ok(bbs, acc),
        ),
    decreases inc.len() - i,
{
    let ok = values_ok(values, acc) && blocks_ok(bbs, acc);
    let n0 = acc.len() as int;
    if i < inc.len() {
        lemma_operand_stack(defs, values, acc, inc[i].0, s);
        if let Ok(a1) = operand_code(defs, values, acc, inc[i].0) {
            if bbs.contains_key(inc[i].1.key()) {
                let hb = bbs[inc[i].1.key()];
                let a2 = a1.push(Op::Value(hb));
                lemma_extends_push(a1, Op::Value(hb));
                lemma_extends_trans(acc, a1, a2);
                if ok {
                    lemma_blocks_ok_extends(bbs, acc, a1);
                    lemma_push_value(a1, hb, n0, s, s + seq![Slot::Val], Slot::Block);
                    assert((s + seq![Slot::Val]).push(Slot::Block) =~= s + seq![Slot::Val, Slot::Block]);
                    lemma_values_ok_extends(values, acc, a2);
                    lemma_blocks_ok_extends(bbs, acc, a2);
                }
                lemma_incoming_stack(defs, values, bbs, a2, inc, i + 1, s + seq![Slot::Val, Slot::Block]);
                if let Ok(a3) = incoming_code(defs, values, bbs, a2, inc, i + 1) {
                    lemma_chain(acc, a2, a3, s, seq![Slot::Val, Slot::Block], pairs(inc.len() - (i + 1)), ok);
                }
            }
        }
    } else {
        lemma_extends_refl(acc);
        assert(s + pairs(inc.len() - i) =~= s);
    }
}

proof fn lemma_phi_ok(defs: Defs, st: CtxState, p: Phi)
    requires
        start_ok(st),
    ensures
        step_ok(st, phi_step(defs, st, p)),
{
    let e = Seq::<Slot>::empty();
    let ok = values_ok(st.values, st.ops);
    let op = Op::BuildPhi(p.dest);
    lemma_type_stack(defs, Seq::empty(), st.ops, p.to_type, e);
    lemma_leaves_when(st.ops, type_code(defs, Seq::empty(), st.ops, p.to_type), e, seq![Slot::Ty], ok);
    assert(e + seq![Slot::Ty] =~= e + takes(op));
    lemma_then_define_ok(st, type_code(defs, Seq::empty(), st.ops, p.to_type), op, p.dest);
}

proof fn lemma_phi_fill_ok(defs: Defs, st: CtxState, p: Phi)
    requires
        start_ok(st),
    ensures
        step_ok(st, phi_fill_step(defs, st, p)),
{
    let e = Seq::<Slot>::empty();
    if let Some(h) = phi_handle(st, p.dest) {
        lemma_incoming_stack(defs, st.values, st.bbs, st.ops, p.incoming_values@, 0, e);
        if let Ok(a) = incoming_code(defs, st.values, st.bbs, st.ops, p.incoming_values@, 0) {
            let op = Op::AddIncoming { phi: h, count: p.incoming_values.len() };
            let a3 = a.push(op);
            lemma_extends_push(a, op);
            lemma_extends_trans(st.ops, a, a3);
            if fits(a3) {
                lemma_fits_prefix(st.ops, a3);
                assert(replayable(st));
                assert(e + pairs(p.incoming_values@.len() - 0) =~= e + takes(op));
                assert(a[h as int] == st.ops[h as int]);
                assert(a3[h as int] == st.ops[h as int]);
                assert(a3[a.len() as int] == op);
                assert(refs_fit(a3, a.len() as int));
                lemma_close(st, a, op);
            }
        }
    }
}

proof fn lemma_instrs_phis_ok(defs: Defs, st: CtxState, is: Seq<Instruction>, j: int)
    requires
        start_ok(st),
    ensures
        step_ok(st, instrs_phis_step(defs, st, is, j)),
    decreases is.len() - j,
{
    if 0 <= j < is.len() {
        match is[j] {
            Instruction::Phi(p) => {
                lemma_phi_fill_ok(defs, st, p);
                if let Ok(st1) = phi_fill_step(defs, st, p) {
                    lemma_instrs_phis_ok(defs, st1, is, j + 1);
                    if let Ok(st2) = instrs_phis_step(defs, st1, is, j + 1) {
                        lemma_extends_trans(st.ops, st1.ops, st2.ops);
                    }
                }
            },
            _ => lemma_instrs_phis_ok(defs, st, is, j + 1),
        }
    } else {
        lemma_extends_refl(st.ops);
    }
}

proof fn lemma_phis_ok(defs: Defs, st: CtxState, bbs: Seq<BasicBlock>, i: int)
    requires
        start_ok(st),
    ensures
        step_ok(st, phis_step(defs, st, bbs, i)),
    decreases bbs.len() - i,
{
    if 0 <= i < bbs.len() {
        lemma_instrs_phis_ok(defs, st, bbs[i].instrs@, 0);
        if let Ok(st1) = instrs_phis_step(defs, st, bbs[i].instrs@, 0) {
            lemma_phis_ok(defs, st1, bbs, i + 1);
            if let Ok(st2) = phis_step(defs, st1, bbs, i + 1) {
                lemma_extends_trans(st.ops, st1.ops, st2.ops);
            }
        }
    } else {
        lemma_extends_refl(st.ops);
    }
}

proof fn lemma_extract_prefix_stack(acc: Seq<Op>, idx: Seq<u32>, j: int, s: Seq<Slot>)
    requires
        0 <= j,
    ensures
        extends(extract_prefix(acc, idx, j), acc),
        fits(extract_prefix(acc, idx, j)) ==> run_seg(
            extract_prefix(acc, idx, j),
            acc.len() as int,
            extract_prefix(acc, idx, j).len() as int,
            s.push(Slot::Val),
        ) == Some(s.push(Slot::Val)),
    decreases idx.len() - j,
{
    let n0 = acc.len() as int;
    let sv = s.push(Slot::Val);
    if j < idx.len() - 1 {
        let h = acc.len() as usize;
        let ev = Op::BuildExtractValue { index: idx[j], name: None };
        let a1 = acc.push(ev);
        let a2 = a1.push(Op::Value(h));
        lemma_extends_push(acc, ev);
        lemma_extends_push(a1, Op::Value(h));
        lemma_extends_trans(acc, a1, a2);
        lemma_extract_prefix_stack(a2, idx, j + 1, s);
        let r = extract_prefix(a2, idx, j + 1);
        lemma_extends_trans(acc, a2, r);
        if fits(r) {
            lemma_fits_prefix(a2, r);
            lemma_extends_refl(acc);
            assert(run_seg(acc, n0, n0, sv) == Some(sv));
            assert(sv =~= s + takes(ev));
            lemma_refs_free(acc, ev);
            lemma_push_op(acc, ev, n0, sv, s);
            assert(a1[h as int] == ev);
            lemma_push_value(a1, h, n0, sv, s, Slot::Val);
            lemma_then(a2, r, n0, sv, sv);
        }
    } else {
        lemma_extends_refl(acc);
    }
}

proof fn lemma_extract_value_ok(defs: Defs, st: CtxState, x: ExtractValue)
    requires
        start_ok(st),
    ensures
        step_ok(st, extract_value_step(defs, st, x)),
{
    let e = Seq::<Slot>::empty();
    let ok = values_ok(st.values, st.ops);
    let idx = x.indices@;
    if idx.len() > 0 {
        let op = Op::BuildExtractValue { index: idx.last(), name: Some(x.dest) };
        lemma_operand_stack(defs, st.values, st.ops, x.aggregate, e);
        let r = match operand_code(defs, st.values, st.ops, x.aggregate) {
            Ok(a1) => Ok(extract_prefix(a1, idx, 0)),
            Err(e) => Err(e),
        };
        if let Ok(a1) = operand_code(defs, st.values, st.ops, x.aggregate) {
            lemma_extract_prefix_stack(a1, idx, 0, e);
            let a2 = extract_prefix(a1, idx, 0);
            lemma_extends_trans(st.ops, a1, a2);
            if ok && fits(a2) {
                lemma_fits_prefix(a1, a2);
                assert(e + seq![Slot::Val] =~= e.push(Slot::Val));
                lemma_then(a1, a2, st.ops.len() as int, e, e.push(Slot::Val));
                assert(e.push(Slot::Val) =~= e + takes(op));
            }
        }
        lemma_then_define_ok(st, r, op, x.dest);
    }
}

/// The aggregate source `src`, if it is a handle, names an operation of
/// `acc` that made a value.
pub open spec fn src_ok(acc: Seq<Op>, src: Option<usize>) -> bool {
    src matches Some(h) ==> h < acc.len() && made(acc[h as int]) == Some(Slot::Val)
}

proof fn lemma_agg_stack(defs: Defs, values: Map<NameKey, usize>, acc: Seq<Op>, agg: Operand, src: Option<usize>, s: Seq<Slot>)
    ensures
        leaves_when(acc, agg_code(defs, values, acc, agg, src), s, seq![Slot::Val], values_ok(values, acc) && src_ok(acc, src)),
{
    let n0 = acc.len() as int;
    match src {
        Some(h) => {
            lemma_extends_push(acc, Op::Value(h));
            if src_ok(acc, src) {
                lemma_extends_refl(acc);
                assert(run_seg(acc, n0, n0, s) == Some(s));
                lemma_push_value(acc, h, n0, s, s, Slot::Val);
                assert(s + seq![Slot::Val] =~= s.push(Slot::Val));
            }
        },
        None => lemma_operand_stack(defs, values, acc, agg, s),
    }
}

proof fn lemma_src_ok_extends(acc: Seq<Op>, a: Seq<Op>, src: Option<usize>)
    requires
        src_ok(acc, src),
        extends(a, acc),
    ensures
        src_ok(a, src),
{
    if let Some(h) = src {
        assert(a[h as int] == acc[h as int]);
    }
}

proof fn lemma_insert_stack(
    defs: Defs,
    values: Map<NameKey, usize>,
    acc: Seq<Op>,
    agg: Operand,
    src: Option<usize>,
    elem: Operand,
    idx: Seq<u32>,
    j: int,
    name: Option<Name>,
    s: Seq<Slot>,
)
    requires
        0 <= j < idx.len(),
    ensures
        match insert_code(defs, values, acc, agg, src, elem, idx, j, name) {
            Ok(a) => {
                &&& extends(a, acc)
                &&& acc.len() < a.len()
                &&& made(a[a.len() - 1]) == Some(Slot::Val)
                &&& (values_ok(values, acc) && src_ok(acc, src) && fits(a)) ==> run_seg(
                    a,
                    acc.len() as int,
                    a.len() as int,
                    s,
                ) == Some(s)
            },
            Err(_) => true,
        },
    decreases idx.len() - j,
{
    let n0 = acc.len() as int;
    let ok = values_ok(values, acc) && src_ok(acc, src);
    let v = seq![Slot::Val];
    lemma_agg_stack(defs, values, acc, agg, src, s);
    if j < idx.len() - 1 {
        if let Ok(a1) = agg_code(defs, values, acc, agg, src) {
            if ok {
                lemma_values_ok_extends(values, acc, a1);
                lemma_src_ok_extends(acc, a1, src);
            }
            lemma_agg_stack(defs, values, a1, agg, src, s + v);
            if let Ok(a2) = agg_code(defs, values, a1, agg, src) {
                lemma_chain(acc, a1, a2, s, v, v, ok);
                let hx = a2.len() as usize;
                let ev = Op::BuildExtractValue { index: idx[j], name: None };
                let a3 = a2.push(ev);
                lemma_extends_push(a2, ev);
                lemma_extends_trans(acc, a2, a3);
                lemma_insert_stack(defs, values, a3, agg, Some(hx), elem, idx, j + 1, None, s + v);
                if let Ok(a4) = insert_code(defs, values, a3, agg, Some(hx), elem, idx, j + 1, None) {
                    let hi = (a4.len() - 1) as usize;
                    let a5 = a4.push(Op::Value(hi));
                    let iv = Op::BuildInsertValue { index: idx[j], name };
                    let a6 = a5.push(iv);
                    lemma_extends_trans(acc, a3, a4);
                    lemma_extends_push(a4, Op::Value(hi));
                    lemma_extends_push(a5, iv);
                    lemma_extends_trans(acc, a4, a5);
                    lemma_extends_trans(acc, a5, a6);
                    assert(a6[a6.len() - 1] == iv);
                    if ok && fits(a6) {
                        lemma_fits_prefix(a2, a6);
                        lemma_fits_prefix(a4, a6);
                        assert(v + v =~= seq![Slot::Val, Slot::Val]);
                        assert(s + seq![Slot::Val, Slot::Val] =~= (s + v) + takes(ev));
                        lemma_refs_free(a2, ev);
                        lemma_push_op(a2, ev, n0, s, s + v);
                        assert(a3[hx as int] == ev);
                        lemma_values_ok_extends(values, acc, a3);
                        assert(src_ok(a3, Some(hx)));
                        lemma_then(a3, a4, n0, s, s + v);
                        lemma_push_value(a4, hi, n0, s, s + v, Slot::Val);
                        assert((s + v).push(Slot::Val) =~= s + takes(iv));
                        lemma_refs_free(a5, iv);
                        lemma_push_op(a5, iv, n0, s, s);
                    }
                }
            }
        }
    } else {
        if let Ok(a1) = agg_code(defs, values, acc, agg, src) {
            if ok {
                lemma_values_ok_extends(values, acc, a1);
            }
            lemma_operand_stack(defs, values, a1, elem, s + v);
            if let Ok(a2) = operand_code(defs, values, a1, elem) {
                lemma_chain(acc, a1, a2, s, v, v, ok);
                let iv = Op::BuildInsertValue { index: idx[j], name };
                let a3 = a2.push(iv);
                assert(s + (v + v) =~= s + takes(iv));
                lemma_chain_op(acc, a2, iv, s, v + v, s, ok);
                assert(a3[a3.len() - 1] == iv);
            }
        }
    }
}

proof fn lemma_insert_value_ok(defs: Defs, st: CtxState, x: InsertValue)
    requires
        start_ok(st),
    ensures
        step_ok(st, insert_value_step(defs, st, x)),
{
    let e = Seq::<Slot>::empty();
    let n0 = st.ops.len() as int;
    if x.indices@.len() > 0 {
        lemma_insert_stack(defs, st.values, st.ops, x.aggregate, None, x.element, x.indices@, 0, Some(x.dest), e);
        if let Ok(a) = insert_code(defs, st.values, st.ops, x.aggregate, None, x.element, x.indices@, 0, Some(x.dest)) {
            if fits(a) {
                lemma_fits_prefix(st.ops, a);
                lemma_run_split(a, 0, n0, a.len() as int, e);
                lemma_run_prefix(st.ops, a, 0, n0, e);
                lemma_values_ok_extends(st.values, st.ops, a);
                lemma_blocks_ok_extends(st.bbs, st.ops, a);
                lemma_values_ok_insert(st.values, a, x.dest.key(), (a.len() - 1) as usize);
            }
        }
    }
}

/// Converting an instruction extends the program and keeps a state
/// replayable.
#[verifier::spinoff_prover]
proof fn lemma_instr_ok(defs: Defs, st: CtxState, instr: Instruction)
    requires
        start_ok(st),
    ensures
        step_ok(st, instr_step(defs, st, instr)),
{
    let v = st.values;
    let o = st.ops;
    match instr {
        Instruction::Add(b) => lemma_binary_ok(defs, st, BinaryOpcode::Add, b),
        Instruction::Sub(b) => lemma_binary_ok(defs, st, BinaryOpcode::Sub, b),
        Instruction::Mul(b) => lemma_binary_ok(defs, st, BinaryOpcode::Mul, b),
        Instruction::UDiv(b) => lemma_binary_ok(defs, st, BinaryOpcode::UDiv, b),
        Instruction::SDiv(b) => lemma_binary_ok(defs, st, BinaryOpcode::SDiv, b),
        Instruction::URem(b) => lemma_binary_ok(defs, st, BinaryOpcode::URem, b),
        Instruction::SRem(b) => lemma_binary_ok(defs, st, BinaryOpcode::SRem, b),
        Instruction::And(b) => lemma_binary_ok(defs, st, BinaryOpcode::And, b),
        Instruction::Or(b) => lemma_binary_ok(defs, st, BinaryOpcode::Or, b),
        Instruction::Xor(b) => lemma_binary_ok(defs, st, BinaryOpcode::Xor, b),
        Instruction::Shl(b) => lemma_binary_ok(defs, st, BinaryOpcode::Shl, b),
        Instruction::LShr(b) => lemma_binary_ok(defs, st, BinaryOpcode::LShr, b),
        Instruction::AShr(b) => lemma_binary_ok(defs, st, BinaryOpcode::AShr, b),
        Instruction::FAdd(b) => lemma_binary_ok(defs, st, BinaryOpcode::FAdd, b),
        Instruction::FSub(b) => lemma_binary_ok(defs, st, BinaryOpcode::FSub, b),
        Instruction::FMul(b) => lemma_binary_ok(defs, st, BinaryOpcode::FMul, b),
        Instruction::FDiv(b) => lemma_binary_ok(defs, st, BinaryOpcode::FDiv, b),
        Instruction::FRem(b) => lemma_binary_ok(defs, st, BinaryOpcode::FRem, b),
        Instruction::FNeg(u) => lemma_unary_ok(defs, st, u, Op::BuildFNeg(u.dest)),
        Instruction::Freeze(u) => lemma_unary_ok(defs, st, u, Op::BuildFreeze(u.dest)),
        Instruction::ExtractElement(x) => lemma_defined2_ok(defs, st, x.vector, x.index, Op::BuildExtractElement(x.dest), x.dest),
        Instruction::InsertElement(x) => lemma_defined3_ok(
            defs,
            st,
            x.vector,
            x.element,
            x.index,
            Op::BuildInsertElement(x.dest),
            x.dest,
        ),
        Instruction::ShuffleVector(x) => lemma_shuffle_ok(defs, st, x),
        Instruction::ExtractValue(x) => lemma_extract_value_ok(defs, st, x),
        Instruction::InsertValue(x) => lemma_insert_value_ok(defs, st, x),
        Instruction::Fence(f) => {
            let op = Op::BuildFence { ordering: ordering_code(f.atomicity.mem_ordering), single_thread: single_thread(f.atomicity) };
            lemma_extends_refl(o);
            assert(run_seg(o, o.len() as int, o.len() as int, Seq::empty()) == Some(Seq::<Slot>::empty()));
            assert(Seq::<Slot>::empty() + takes(op) =~= Seq::<Slot>::empty());
            lemma_then_push_ok(st, Ok(o), op);
            assert(instr_step(defs, st, instr) == then_push(st, Ok(o), op));
        },
        Instruction::CmpXchg(c) => lemma_defined3_ok(defs, st, c.address, c.expected, c.replacement, Op::BuildCmpXchg {
            success: ordering_code(c.atomicity.mem_ordering),
            failure: ordering_code(c.failure_memory_ordering),
            single_thread: single_thread(c.atomicity),
            weak: c.weak,
            volatile: c.volatile,
            name: c.dest,
        }, c.dest),
        Instruction::AtomicRMW(a) => lemma_defined2_ok(defs, st, a.address, a.value, Op::BuildAtomicRMW {
            operation: rmw_code(a.operation),
            ordering: ordering_code(a.atomicity.mem_ordering),
            single_thread: single_thread(a.atomicity),
            volatile: a.volatile,
            name: a.dest,
        }, a.dest),
        Instruction::Trunc(c) => lemma_cast_ok(defs, st, CastOpcode::Trunc, c),
        Instruction::ZExt(c) => lemma_cast_ok(defs, st, CastOpcode::ZExt, c),
        Instruction::SExt(c) => lemma_cast_ok(defs, st, CastOpcode::SExt, c),
        Instruction::FPTrunc(c) => lemma_cast_ok(defs, st, CastOpcode::FPTrunc, c),
        Instruction::FPExt(c) => lemma_cast_ok(defs, st, CastOpcode::FPExt, c),
        Instruction::FPToUI(c) => lemma_cast_ok(defs, st, CastOpcode::FPToUI, c),
        Instruction::FPToSI(c) => lemma_cast_ok(defs, st, CastOpcode::FPToSI, c),
        Instruction::UIToFP(c) => lemma_cast_ok(defs, st, CastOpcode::UIToFP, c),
        Instruction::SIToFP(c) => lemma_cast_ok(defs, st, CastOpcode::SIToFP, c),
        Instruction::PtrToInt(c) => lemma_cast_ok(defs, st, CastOpcode::PtrToInt, c),
        Instruction::IntToPtr(c) => lemma_cast_ok(defs, st, CastOpcode::IntToPtr, c),
        Instruction::BitCast(c) => lemma_cast_ok(defs, st, CastOpcode::BitCast, c),
        Instruction::AddrSpaceCast(c) => lemma_cast_ok(defs, st, CastOpcode::AddrSpaceCast, c),
        Instruction::FCmp(c) => lemma_defined2_ok(defs, st, c.operand0, c.operand1, Op::BuildFCmp {
            predicate: real_predicate_code(c.predicate),
            name: c.dest,
        }, c.dest),
        Instruction::Select(x) => lemma_defined3_ok(
            defs,
            st,
            x.condition,
            x.true_value,
            x.false_value,
            Op::BuildSelect(x.dest),
            x.dest,
        ),
        Instruction::Call(c) => lemma_call_ok(defs, st, c),
        Instruction::Alloca(_) => lemma_memory_ok(defs, st, instr),
        Instruction::Load(_) => lemma_memory_ok(defs, st, instr),
        Instruction::Store(_) => lemma_memory_ok(defs, st, instr),
        Instruction::GetElementPtr(_) => lemma_memory_ok(defs, st, instr),
        Instruction::ICmp(_) => lemma_memory_ok(defs, st, instr),
        Instruction::Phi(p) => lemma_phi_ok(defs, st, p),
        _ => {},
    }
}

proof fn lemma_instrs_ok(defs: Defs, st: CtxState, is: Seq<Instruction>, i: int)
    requires
        start_ok(st),
    ensures
        step_ok(st, instrs_step(defs, st, is, i)),
    decreases is.len() - i,
{
    if 0 <= i < is.len() {
        lemma_instr_ok(defs, st, is[i]);
        if let Ok(st1) = instr_step(defs, st, is[i]) {
            lemma_instrs_ok(defs, st1, is, i + 1);
            if let Ok(st2) = instrs_step(defs, st1, is, i + 1) {
                lemma_extends_trans(st.ops, st1.ops, st2.ops);
            }
        }
    } else {
        lemma_extends_refl(st.ops);
    }
}

proof fn lemma_cases_stack(
    defs: Defs,
    values: Map<NameKey, usize>,
    bbs: Map<NameKey, usize>,
    acc: Seq<Op>,
    cases: Seq<(Constant, Name)>,
    sw: usize,
    i: int,
    s: Seq<Slot>,
)
    requires
        0 <= i,
    ensures
        leaves_when(
            acc,
            cases_code(defs, values, bbs, acc, cases, sw, i),
            s,
            Seq::empty(),
            values_ok(values, acc) && blocks_ok(bbs, acc) && sw < acc.len() && made(acc[sw as int]) == Some(Slot::Val),
        ),
    decreases cases.len() - i,
{
    let n0 = acc.len() as int;
    let ok = values_ok(values, acc) && blocks_ok(bbs, acc) && sw < acc.len() && made(acc[sw as int]) == Some(Slot::Val);
    let e = Seq::<Slot>::empty();
    assert(s + e =~= s);
    if i < cases.len() {
        lemma_const_stack(defs, values, acc, cases[i].0, s);
        if let Ok(a1) = const_code(defs, values, acc, cases[i].0) {
            if bbs.contains_key(cases[i].1.key()) {
                let op = Op::AddCase { switch: sw, block: bbs[cases[i].1.key()] };
                let a2 = a1.push(op);
                lemma_extends_push(a1, op);
                lemma_extends_trans(acc, a1, a2);
                if ok {
                    lemma_values_ok_extends(values, acc, a2);
                    lemma_blocks_ok_extends(bbs, acc, a2);
                    assert(a2[sw as int] == acc[sw as int]);
                    assert(a2[bbs[cases[i].1.key()] as int] == acc[bbs[cases[i].1.key()] as int]);
                    assert(a2[a1.len() as int] == op);
                    assert(refs_fit(a2, a1.len() as int));
                    assert(s + seq![Slot::Val] =~= s + takes(op));
                    lemma_push_op(a1, op, n0, s, s);
                }
                lemma_cases_stack(defs, values, bbs, a2, cases, sw, i + 1, s);
                if let Ok(a3) = cases_code(defs, values, bbs, a2, cases, sw, i + 1) {
                    if ok {
                        assert(a2[sw as int] == acc[sw as int]);
                    }
                    lemma_chain(acc, a2, a3, s, e, e, ok);
                    assert(e + e =~= e);
                }
            }
        }
    } else {
        lemma_extends_refl(acc);
    }
}

proof fn lemma_dests_stack(bbs: Map<NameKey, usize>, acc: Seq<Op>, dests: Seq<Name>, ib: usize, i: int, s: Seq<Slot>)
    requires
        0 <= i,
    ensures
        leaves_when(
            acc,
            dests_code(bbs, acc, dests, ib, i),
            s,
            Seq::empty(),
            blocks_ok(bbs, acc) && ib < acc.len() && made(acc[ib as int]) == Some(Slot::Val),
        ),
    decreases dests.len() - i,
{
    let n0 = acc.len() as int;
    let ok = blocks_ok(bbs, acc) && ib < acc.len() && made(acc[ib as int]) == Some(Slot::Val);
    let e = Seq::<Slot>::empty();
    assert(s + e =~= s);
    if i < dests.len() && bbs.contains_key(dests[i].key()) {
        let op = Op::AddDestination { indirect_br: ib, block: bbs[dests[i].key()] };
        let a1 = acc.push(op);
        lemma_extends_push(acc, op);
        if ok {
            lemma_blocks_ok_extends(bbs, acc, a1);
            assert(a1[ib as int] == acc[ib as int]);
            assert(a1[bbs[dests[i].key()] as int] == acc[bbs[dests[i].key()] as int]);
            assert(a1[acc.len() as int] == op);
            assert(refs_fit(a1, acc.len() as int));
            lemma_extends_refl(acc);
            assert(run_seg(acc, n0, n0, s) == Some(s + takes(op)));
            lemma_push_op(acc, op, n0, s, s);
        }
        lemma_dests_stack(bbs, a1, dests, ib, i + 1, s);
        if let Ok(a2) = dests_code(bbs, a1, dests, ib, i + 1) {
            if ok {
                assert(a1[ib as int] == acc[ib as int]);
            }
            lemma_chain(acc, a1, a2, s, e, e, ok);
            assert(e + e =~= e);
        }
    } else {
        lemma_extends_refl(acc);
    }
}

/// Closing a step with an operation that refers to blocks and values of the
/// state it starts from.
proof fn lemma_close_fit(st: CtxState, a: Seq<Op>, op: Op)
    requires
        replayable(st),
        extends(a, st.ops),
        run_seg(a, st.ops.len() as int, a.len() as int, Seq::empty()) == Some(takes(op)),
        refs_fit(st.ops.push(op), st.ops.len() as int),
        !pushes(op),
        !(op is Value),
    ensures
        run_seg(a.push(op), 0, a.len() + 1 as int, Seq::empty()) == Some(Seq::<Slot>::empty()),
        extends(a.push(op), st.ops),
        values_ok(st.values, a.push(op)),
        blocks_ok(st.bbs, a.push(op)),
{
    let n = st.ops.len() as int;
    let b = a.push(op);
    lemma_extends_push(a, op);
    lemma_extends_trans(st.ops, a, b);
    assert(st.ops.push(op)[n] == op);
    assert(b[a.len() as int] == op);
    assert forall|h: int| 0 <= h < n implies kind_at(b, a.len() as int, h) == kind_at(st.ops.push(op), n, h) by {
        assert(b[h] == st.ops[h]);
        assert(st.ops.push(op)[h] == st.ops[h]);
    }
    assert(refs_fit(b, a.len() as int));
    assert(Seq::<Slot>::empty() + takes(op) =~= takes(op));
    lemma_close(st, a, op);
}

proof fn lemma_switch_ok(defs: Defs, st: CtxState, x: Switch)
    requires
        start_ok(st),
    ensures
        step_ok(st, term_step(defs, st, Terminator::Switch(x))),
{
    let e = Seq::<Slot>::empty();
    let n0 = st.ops.len() as int;
    lemma_operand_stack(defs, st.values, st.ops, x.operand, e);
    if let Ok(a1) = operand_code(defs, st.values, st.ops, x.operand) {
        if st.bbs.contains_key(x.default_dest.key()) {
            let h = a1.len() as usize;
            let sw = Op::BuildSwitch { default_block: st.bbs[x.default_dest.key()], case_count: x.dests.len() };
            let a2 = a1.push(sw);
            lemma_extends_push(a1, sw);
            lemma_extends_trans(st.ops, a1, a2);
            lemma_cases_stack(defs, st.values, st.bbs, a2, x.dests@, h, 0, e);
            if let Ok(a3) = cases_code(defs, st.values, st.bbs, a2, x.dests@, h, 0) {
                lemma_extends_trans(st.ops, a2, a3);
                if fits(a3) {
                    lemma_fits_prefix(st.ops, a3);
                    lemma_fits_prefix(a2, a3);
                    assert(replayable(st));
                    let b1 = st.ops.push(sw);
                    assert(b1[n0] == sw);
                    assert(b1[st.bbs[x.default_dest.key()] as int] == st.ops[st.bbs[x.default_dest.key()] as int]);
                    assert(refs_fit(b1, n0));
                    assert(a2[a1.len() as int] == sw);
                    assert(a2[st.bbs[x.default_dest.key()] as int] == st.ops[st.bbs[x.default_dest.key()] as int]);
                    assert(refs_fit(a2, a1.len() as int));
                    assert(e + seq![Slot::Val] =~= e + takes(sw));
                    lemma_push_op(a1, sw, n0, e, e);
                    lemma_values_ok_extends(st.values, st.ops, a2);
                    lemma_blocks_ok_extends(st.bbs, st.ops, a2);
                    assert(a2[h as int] == sw);
                    lemma_then(a2, a3, n0, e, e);
                    assert(e + e =~= e);
                    lemma_run_split(a3, 0, n0, a3.len() as int, e);
                    lemma_run_prefix(st.ops, a3, 0, n0, e);
                    lemma_values_ok_extends(st.values, st.ops, a3);
                    lemma_blocks_ok_extends(st.bbs, st.ops, a3);
                }
            }
        }
    }
}

proof fn lemma_indirect_br_ok(defs: Defs, st: CtxState, x: IndirectBr)
    requires
        start_ok(st),
    ensures
        step_ok(st, term_step(defs, st, Terminator::IndirectBr(x))),
{
    let e = Seq::<Slot>::empty();
    let n0 = st.ops.len() as int;
    lemma_operand_stack(defs, st.values, st.ops, x.operand, e);
    if let Ok(a1) = operand_code(defs, st.values, st.ops, x.operand) {
        let h = a1.len() as usize;
        let ib = Op::BuildIndirectBr { dest_count: x.possible_dests.len() };
        let a2 = a1.push(ib);
        lemma_extends_push(a1, ib);
        lemma_extends_trans(st.ops, a1, a2);
        lemma_dests_stack(st.bbs, a2, x.possible_dests@, h, 0, e);
        if let Ok(a3) = dests_code(st.bbs, a2, x.possible_dests@, h, 0) {
            lemma_extends_trans(st.ops, a2, a3);
            if fits(a3) {
                lemma_fits_prefix(st.ops, a3);
                lemma_fits_prefix(a2, a3);
                assert(replayable(st));
                assert(e + seq![Slot::Val] =~= e + takes(ib));
                lemma_refs_free(a1, ib);
                lemma_push_op(a1, ib, n0, e, e);
                lemma_blocks_ok_extends(st.bbs, st.ops, a2);
                assert(a2[h as int] == ib);
                lemma_then(a2, a3, n0, e, e);
                assert(e + e =~= e);
                lemma_run_split(a3, 0, n0, a3.len() as int, e);
                lemma_run_prefix(st.ops, a3, 0, n0, e);
                lemma_values_ok_extends(st.values, st.ops, a3);
                lemma_blocks_ok_extends(st.bbs, st.ops, a3);
            }
        }
    }
}

proof fn lemma_invoke_ok(defs: Defs, st: CtxState, iv: Invoke)
    requires
        start_ok(st),
    ensures
        step_ok(st, invoke_step(defs, st, iv)),
{
    let e = Seq::<Slot>::empty();
    let ok = values_ok(st.values, st.ops);
    if let Callee::Operand(f) = iv.function {
        lemma_operand_stack(defs, st.values, st.ops, f, e);
        if let Ok(a1) = operand_code(defs, st.values, st.ops, f) {
            lemma_type_stack(defs, Seq::empty(), a1, iv.function_ty, e + seq![Slot::Val]);
            if let Ok(a2) = type_code(defs, Seq::empty(), a1, iv.function_ty) {
                lemma_chain(st.ops, a1, a2, e, seq![Slot::Val], seq![Slot::Ty], ok);
                let x2 = seq![Slot::Val] + seq![Slot::Ty];
                if ok {
                    lemma_values_ok_extends(st.values, st.ops, a2);
                }
                lemma_operands_stack(defs, st.values, a2, iv.arguments@, 0, e + x2);
                if let Ok(a3) = operands_code(defs, st.values, a2, iv.arguments@, 0) {
                    lemma_chain(st.ops, a2, a3, e, x2, slots(Slot::Val, iv.arguments@.len() - 0), ok);
                    if st.bbs.contains_key(iv.return_label.key()) && st.bbs.contains_key(iv.exception_label.key()) {
                        let op = Op::BuildInvoke {
                            arg_count: iv.arguments.len(),
                            then_block: st.bbs[iv.return_label.key()],
                            catch_block: st.bbs[iv.exception_label.key()],
                            name: iv.result,
                        };
                        lemma_extends_push(a3, op);
                        lemma_extends_trans(st.ops, a3, a3.push(op));
                        if fits(a3.push(op)) {
                            lemma_fits_prefix(st.ops, a3.push(op));
                            lemma_fits_prefix(a3, a3.push(op));
                            assert(replayable(st));
                            assert(x2 + slots(Slot::Val, iv.arguments@.len() - 0) =~= takes(op));
                            assert(e + takes(op) =~= takes(op));
                            let b1 = st.ops.push(op);
                            assert(b1[st.ops.len() as int] == op);
                            assert(b1[st.bbs[iv.return_label.key()] as int] == st.ops[st.bbs[iv.return_label.key()] as int]);
                            assert(b1[st.bbs[iv.exception_label.key()] as int] == st.ops[st.bbs[iv.exception_label.key()] as int]);
                            assert(refs_fit(b1, st.ops.len() as int));
                            lemma_close_fit(st, a3, op);
                            assert(a3.push(op)[a3.len() as int] == op);
                            lemma_values_ok_insert(st.values, a3.push(op), iv.result.key(), a3.len() as usize);
                        }
                    }
                }
            }
        }
    }
}

/// Converting a terminator extends the program and keeps a state
/// replayable.
proof fn lemma_term_ok(defs: Defs, st: CtxState, t: Terminator)
    requires
        start_ok(st),
    ensures
        step_ok(st, term_step(defs, st, t)),
{
    let e = Seq::<Slot>::empty();
    let o = st.ops;
    let n0 = o.len() as int;
    lemma_extends_refl(o);
    assert(run_seg(o, n0, n0, e) == Some(e));
    assert(e + e =~= e);
    match t {
        Terminator::Ret(r) => match r.return_operand {
            Some(x) => {
                lemma_operand_stack(defs, st.values, o, x, e);
                assert(e + seq![Slot::Val] =~= e + takes(Op::BuildRet));
                lemma_then_push_ok(st, operand_code(defs, st.values, o, x), Op::BuildRet);
                assert(term_step(defs, st, t) == then_push(st, operand_code(defs, st.values, o, x), Op::BuildRet));
            },
            None => {
                lemma_then_push_ok(st, Ok(o), Op::BuildRetVoid);
                assert(term_step(defs, st, t) == then_push(st, Ok(o), Op::BuildRetVoid));
            },
        },
        Terminator::Br(b) => {
            if st.bbs.contains_key(b.dest.key()) {
                let op = Op::BuildBr(st.bbs[b.dest.key()]);
                lemma_extends_push(o, op);
                if fits(o.push(op)) {
                    lemma_fits_prefix(o, o.push(op));
                    assert(replayable(st));
                    assert(o.push(op)[n0] == op);
                    assert(o.push(op)[st.bbs[b.dest.key()] as int] == o[st.bbs[b.dest.key()] as int]);
                    lemma_close_fit(st, o, op);
                }
            }
        },
        Terminator::CondBr(c) => {
            lemma_operand_stack(defs, st.values, o, c.condition, e);
            if let Ok(a1) = operand_code(defs, st.values, o, c.condition) {
                if st.bbs.contains_key(c.true_dest.key()) && st.bbs.contains_key(c.false_dest.key()) {
                    let op = Op::BuildCondBr {
                        then_block: st.bbs[c.true_dest.key()],
                        else_block: st.bbs[c.false_dest.key()],
                    };
                    lemma_extends_push(a1, op);
                    lemma_extends_trans(o, a1, a1.push(op));
                    if fits(a1.push(op)) {
                        lemma_fits_prefix(o, a1.push(op));
                        lemma_fits_prefix(a1, a1.push(op));
                        assert(replayable(st));
                        let b1 = o.push(op);
                        assert(b1[n0] == op);
                        assert(b1[st.bbs[c.true_dest.key()] as int] == o[st.bbs[c.true_dest.key()] as int]);
                        assert(b1[st.bbs[c.false_dest.key()] as int] == o[st.bbs[c.false_dest.key()] as int]);
                        assert(e + seq![Slot::Val] =~= takes(op));
                        lemma_close_fit(st, a1, op);
                    }
                }
            }
        },
        Terminator::Switch(x) => lemma_switch_ok(defs, st, x),
        Terminator::IndirectBr(x) => lemma_indirect_br_ok(defs, st, x),
        Terminator::Invoke(iv) => lemma_invoke_ok(defs, st, iv),
        Terminator::Resume(r) => {
            lemma_operand_stack(defs, st.values, o, r.operand, e);
            assert(e + seq![Slot::Val] =~= e + takes(Op::BuildResume));
            lemma_then_push_ok(st, operand_code(defs, st.values, o, r.operand), Op::BuildResume);
        },
        Terminator::Unreachable => {
            lemma_then_push_ok(st, Ok(o), Op::BuildUnreachable);
            assert(term_step(defs, st, t) == then_push(st, Ok(o), Op::BuildUnreachable));
        },
        _ => {},
    }
}

proof fn lemma_bb_ok(defs: Defs, st: CtxState, bb: BasicBlock)
    requires
        start_ok(st),
    ensures
        step_ok(st, bb_step(defs, st, bb)),
{
    let e = Seq::<Slot>::empty();
    let n0 = st.ops.len() as int;
    if st.bbs.contains_key(bb.name.key()) {
        let op = Op::PositionAtEnd(st.bbs[bb.name.key()]);
        let st1 = with_op(st, op);
        lemma_extends_push(st.ops, op);
        if fits(st1.ops) {
            lemma_fits_prefix(st.ops, st1.ops);
            assert(replayable(st));
            lemma_extends_refl(st.ops);
            assert(run_seg(st.ops, n0, n0, e) == Some(takes(op)));
            assert(st.ops.push(op)[n0] == op);
            assert(st.ops.push(op)[st.bbs[bb.name.key()] as int] == st.ops[st.bbs[bb.name.key()] as int]);
            lemma_close_fit(st, st.ops, op);
        }
        lemma_instrs_ok(defs, st1, bb.instrs@, 0);
        if let Ok(st2) = instrs_step(defs, st1, bb.instrs@, 0) {
            lemma_extends_trans(st.ops, st1.ops, st2.ops);
            lemma_term_ok(defs, st2, bb.term);
            if let Ok(st3) = term_step(defs, st2, bb.term) {
                lemma_extends_trans(st.ops, st2.ops, st3.ops);
            }
        }
    }
}

proof fn lemma_bodies_ok(defs: Defs, st: CtxState, bbs: Seq<BasicBlock>, i: int)
    requires
        start_ok(st),
    ensures
        step_ok(st, bodies_step(defs, st, bbs, i)),
    decreases bbs.len() - i,
{
    if 0 <= i < bbs.len() {
        lemma_bb_ok(defs, st, bbs[i]);
        if let Ok(st1) = bb_step(defs, st, bbs[i]) {
            lemma_bodies_ok(defs, st1, bbs, i + 1);
            if let Ok(st2) = bodies_step(defs, st1, bbs, i + 1) {
                lemma_extends_trans(st.ops, st1.ops, st2.ops);
            }
        }
    } else {
        lemma_extends_refl(st.ops);
    }
}

/// The operation at `f` made a value, if the program fits.
pub open spec fn fn_ok(st: CtxState, f: usize) -> bool {
    fits(st.ops) ==> f < st.ops.len() && made(st.ops[f as int]) == Some(Slot::Val)
}

proof fn lemma_blocks_ok_step(st: CtxState, f: usize, bbs: Seq<BasicBlock>, i: int)
    requires
        start_ok(st),
        fn_ok(st, f),
    ensures
        extends(blocks_step(st, f, bbs, i).ops, st.ops),
        start_ok(blocks_step(st, f, bbs, i)),
        fn_ok(blocks_step(st, f, bbs, i), f),
        blocks_step(st, f, bbs, i).values == st.values,
    decreases bbs.len() - i,
{
    let e = Seq::<Slot>::empty();
    let n0 = st.ops.len() as int;
    if 0 <= i < bbs.len() {
        let h = st.ops.len() as usize;
        let op = Op::AppendBasicBlock { function: f, name: bbs[i].name };
        let st1 = CtxState { ops: st.ops.push(op), values: st.values, bbs: st.bbs.insert(bbs[i].name.key(), h) };
        lemma_extends_push(st.ops, op);
        if fits(st1.ops) {
            lemma_fits_prefix(st.ops, st1.ops);
            assert(replayable(st));
            lemma_extends_refl(st.ops);
            assert(run_seg(st.ops, n0, n0, e) == Some(takes(op)));
            assert(st.ops.push(op)[n0] == op);
            assert(st.ops.push(op)[f as int] == st.ops[f as int]);
            lemma_close_fit(st, st.ops, op);
            lemma_blocks_ok_insert(st.bbs, st1.ops, bbs[i].name.key(), h);
            assert(st1.ops[f as int] == st.ops[f as int]);
        }
        if fits(st1.ops) {
        } else {
            assert(start_ok(st1));
        }
        lemma_blocks_ok_step(st1, f, bbs, i + 1);
        lemma_extends_trans(st.ops, st1.ops, blocks_step(st1, f, bbs, i + 1).ops);
    } else {
        lemma_extends_refl(st.ops);
    }
}

proof fn lemma_params_ok_step(st: CtxState, f: usize, ps: Seq<Parameter>, i: int)
    requires
        start_ok(st),
        fn_ok(st, f),
    ensures
        extends(params_step(st, f, ps, i).ops, st.ops),
        start_ok(params_step(st, f, ps, i)),
        fn_ok(params_step(st, f, ps, i), f),
    decreases ps.len() - i,
{
    let e = Seq::<Slot>::empty();
    let n0 = st.ops.len() as int;
    if 0 <= i < ps.len() {
        let h = st.ops.len() as usize;
        let op = Op::GetParam { function: f, index: i as u32 };
        let st1 = CtxState { ops: st.ops.push(op), values: st.values.insert(ps[i].name.key(), h), bbs: st.bbs };
        lemma_extends_push(st.ops, op);
        if fits(st1.ops) {
            lemma_fits_prefix(st.ops, st1.ops);
            assert(replayable(st));
            lemma_extends_refl(st.ops);
            assert(run_seg(st.ops, n0, n0, e) == Some(takes(op)));
            assert(st.ops.push(op)[n0] == op);
            assert(st.ops.push(op)[f as int] == st.ops[f as int]);
            lemma_close_fit(st, st.ops, op);
            lemma_values_ok_insert(st.values, st1.ops, ps[i].name.key(), h);
            assert(st1.ops[f as int] == st.ops[f as int]);
        }
        lemma_params_ok_step(st1, f, ps, i + 1);
        lemma_extends_trans(st.ops, st1.ops, params_step(st1, f, ps, i + 1).ops);
    } else {
        lemma_extends_refl(st.ops);
    }
}

/// Appending an operation that takes nothing and pushes nothing, to a
/// program whose operations after `n0` leave the stack empty.
proof fn lemma_quiet_on(a: Seq<Op>, op: Op, n0: int)
    requires
        0 <= n0 <= a.len(),
        run_seg(a, n0, a.len() as int, Seq::empty()) == Some(Seq::<Slot>::empty()),
        takes(op) == Seq::<Slot>::empty(),
        !pushes(op),
        !(op is Value),
        refs_fit(a.push(op), a.len() as int),
    ensures
        extends(a.push(op), a),
        run_seg(a.push(op), n0, a.len() + 1 as int, Seq::empty()) == Some(Seq::<Slot>::empty()),
{
    lemma_push_plain(a, op, n0, Seq::empty(), Seq::empty());
}

/// The linkage and visibility of the global at `h`.
proof fn lemma_attrs_ok(a: Seq<Op>, n0: int, h: usize, l: Linkage, v: Visibility)
    requires
        0 <= n0 <= a.len(),
        run_seg(a, n0, a.len() as int, Seq::empty()) == Some(Seq::<Slot>::empty()),
        h < a.len(),
        made(a[h as int]) == Some(Slot::Val),
    ensures
        extends(attrs(a, h, l, v), a),
        run_seg(attrs(a, h, l, v), n0, attrs(a, h, l, v).len() as int, Seq::empty()) == Some(Seq::<Slot>::empty()),
        attrs(a, h, l, v)[h as int] == a[h as int],
{
    let op1 = Op::SetLinkage { target: h, linkage: linkage_code(l) };
    let op2 = Op::SetVisibility { target: h, visibility: visibility_code(v) };
    let a1 = a.push(op1);
    assert(a1[a.len() as int] == op1);
    assert(a1[h as int] == a[h as int]);
    assert(refs_fit(a1, a.len() as int));
    lemma_quiet_on(a, op1, n0);
    let a2 = a1.push(op2);
    assert(a2[a1.len() as int] == op2);
    assert(a2[h as int] == a[h as int]);
    assert(refs_fit(a2, a1.len() as int));
    lemma_quiet_on(a1, op2, n0);
    lemma_extends_trans(a, a1, a2);
}

proof fn lemma_header_ok(st: CtxState, a1: Seq<Op>, name: String, l: Linkage, v: Visibility, gc: Option<String>)
    requires
        start_ok(st),
        extends(a1, st.ops),
        run_seg(a1, st.ops.len() as int, a1.len() as int, Seq::empty()) == Some(seq![Slot::Ty]),
    ensures
        step_ok(st, Ok(fn_header(st, a1, a1.len() as usize, name, l, v, gc))),
        fn_ok(fn_header(st, a1, a1.len() as usize, name, l, v, gc), a1.len() as usize),
{
    let e = Seq::<Slot>::empty();
    let n0 = st.ops.len() as int;
    let h = a1.len() as usize;
    let add = Op::AddFunction(name);
    let a2 = a1.push(add);
    let a3 = attrs(a2, h, l, v);
    let r = fn_header(st, a1, h, name, l, v, gc);
    lemma_extends_push(a1, add);
    assert(extends(attrs(a2, h, l, v), a2)) by {
        assert forall|j: int| 0 <= j < a2.len() implies #[trigger] attrs(a2, h, l, v)[j] == a2[j] by {}
    }
    lemma_extends_trans(st.ops, a1, a2);
    lemma_extends_trans(st.ops, a2, a3);
    assert(extends(r.ops, a3)) by {
        assert forall|j: int| 0 <= j < a3.len() implies #[trigger] r.ops[j] == a3[j] by {}
    }
    lemma_extends_trans(st.ops, a3, r.ops);
    if fits(r.ops) {
        lemma_fits_prefix(st.ops, r.ops);
        lemma_fits_prefix(a1, r.ops);
        assert(replayable(st));
        assert(e + seq![Slot::Ty] =~= e + takes(add));
        lemma_refs_free(a1, add);
        lemma_push_op(a1, add, n0, e, e);
        assert(a2[h as int] == add);
        lemma_attrs_ok(a2, n0, h, l, v);
        match gc {
            Some(g) => {
                let op = Op::SetGC { target: h, name: g };
                assert(a3[h as int] == add);
                assert(a3.push(op)[a3.len() as int] == op);
                assert(a3.push(op)[h as int] == add);
                assert(refs_fit(a3.push(op), a3.len() as int));
                lemma_quiet_on(a3, op, n0);
            },
            None => {},
        }
        assert(r.ops[h as int] == add);
        lemma_run_split(r.ops, 0, n0, r.ops.len() as int, e);
        lemma_run_prefix(st.ops, r.ops, 0, n0, e);
        lemma_values_ok_extends(st.values, st.ops, r.ops);
        lemma_blocks_ok_extends(st.bbs, st.ops, r.ops);
        lemma_values_ok_insert(st.values, r.ops, NameKey::Text(name@), h);
    }
}

/// What a function's attributes need of the program before them: the
/// function at `h`, and a replay from `n0` that leaves the stack empty.
pub open spec fn attrs_ready(a: Seq<Op>, n0: int, h: usize) -> bool {
    &&& 0 <= n0 <= a.len()
    &&& run_seg(a, n0, a.len() as int, Seq::empty()) == Some(Seq::<Slot>::empty())
    &&& h < a.len()
    &&& made(a[h as int]) == Some(Slot::Val)
}

proof fn lemma_attr_ops_run(a: Seq<Op>, n0: int, h: usize, place: AttrPlace, attrs: Seq<Attribute>, i: int)
    ensures
        extends(attr_ops(a, h, place, attrs, i), a),
        attrs_ready(a, n0, h) ==> attrs_ready(attr_ops(a, h, place, attrs, i), n0, h),
    decreases attrs.len() - i,
{
    let e = Seq::<Slot>::empty();
    if 0 <= i < attrs.len() {
        let op = Op::AddAttribute { target: h, place, attribute: attrs[i] };
        let b = a.push(op);
        lemma_extends_push(a, op);
        if attrs_ready(a, n0, h) {
            assert(b[a.len() as int] == op);
            assert(b[h as int] == a[h as int]);
            assert(refs_fit(b, a.len() as int));
            assert(e + takes(op) =~= e);
            lemma_push_op(a, op, n0, e, e);
        }
        lemma_attr_ops_run(b, n0, h, place, attrs, i + 1);
        lemma_extends_trans(a, b, attr_ops(b, h, place, attrs, i + 1));
    } else {
        lemma_extends_refl(a);
    }
}

proof fn lemma_param_attr_run(a: Seq<Op>, n0: int, h: usize, ps: Seq<Parameter>, j: int)
    ensures
        extends(param_attr_ops(a, h, ps, j), a),
        attrs_ready(a, n0, h) ==> attrs_ready(param_attr_ops(a, h, ps, j), n0, h),
    decreases ps.len() - j,
{
    if 0 <= j < ps.len() {
        let place = AttrPlace::Param(j as u32);
        lemma_attr_ops_run(a, n0, h, place, ps[j].attributes@, 0);
        let b = attr_ops(a, h, place, ps[j].attributes@, 0);
        if attrs_ready(a, n0, h) {
            assert(b[h as int] == a[h as int]);
        }
        lemma_param_attr_run(b, n0, h, ps, j + 1);
        lemma_extends_trans(a, b, param_attr_ops(b, h, ps, j + 1));
    } else {
        lemma_extends_refl(a);
    }
}

proof fn lemma_header_at(st: CtxState, a1: Seq<Op>, name: String, l: Linkage, v: Visibility, gc: Option<String>)
    requires
        a1.len() < usize::MAX,
    ensures
        a1.len() < fn_header(st, a1, a1.len() as usize, name, l, v, gc).ops.len(),
        fn_header(st, a1, a1.len() as usize, name, l, v, gc).ops[a1.len() as int] == Op::AddFunction(name),
{
    let h = a1.len() as usize;
    let a1f = a1.push(Op::AddFunction(name));
    assert(a1f[h as int] == Op::AddFunction(name));
    let x = a1f.push(Op::SetLinkage { target: h, linkage: linkage_code(l) });
    assert(x[h as int] == a1f[h as int]);
    let a2 = attrs(a1f, h, l, v);
    assert(a2 == x.push(Op::SetVisibility { target: h, visibility: visibility_code(v) }));
    assert(a2[h as int] == x[h as int]);
    match gc {
        Some(g) => {
            assert(a2.push(Op::SetGC { target: h, name: g })[h as int] == a2[h as int]);
        },
        None => {},
    }
}

/// Adding the attributes of a function that was just added keeps the
/// state replayable.
proof fn lemma_fn_attr_ok(st: CtxState, st1: CtxState, h: usize, fa: Seq<Attribute>, ra: Seq<Attribute>, ps: Seq<Parameter>)
    requires
        step_ok(st, Ok(st1)),
        fits(st1.ops) ==> h < st1.ops.len() && made(st1.ops[h as int]) == Some(Slot::Val),
    ensures
        step_ok(st, Ok(with_fn_attrs(st1, h, fa, ra, ps))),
{
    let e = Seq::<Slot>::empty();
    let n1 = st1.ops.len() as int;
    assert(run_seg(st1.ops, n1, n1, e) == Some(e));
    lemma_attr_ops_run(st1.ops, n1, h, AttrPlace::Function, fa, 0);
    let a1 = attr_ops(st1.ops, h, AttrPlace::Function, fa, 0);
    lemma_attr_ops_run(a1, n1, h, AttrPlace::Return, ra, 0);
    let a2 = attr_ops(a1, h, AttrPlace::Return, ra, 0);
    lemma_param_attr_run(a2, n1, h, ps, 0);
    let a3 = param_attr_ops(a2, h, ps, 0);
    lemma_extends_trans(st1.ops, a1, a2);
    lemma_extends_trans(st1.ops, a2, a3);
    lemma_extends_trans(st.ops, st1.ops, a3);
    if fits(a3) {
        lemma_fits_prefix(st1.ops, a3);
        assert(replayable(st1));
        assert(attrs_ready(st1.ops, n1, h));
        lemma_finish(st1, a3);
    }
}

proof fn lemma_decl_ok(defs: Defs, st: CtxState, d: FunctionDeclaration)
    requires
        start_ok(st),
    ensures
        step_ok(st, decl_step(defs, st, d)),
{
    reveal(decl_step);
    let e = Seq::<Slot>::empty();
    let ps = param_types(d.parameters@);
    assert(ps.len() == d.parameters@.len());
    assert(d.parameters.len() == d.parameters@.len());
    lemma_fn_type_stack(defs, st.ops, d.return_type, ps, d.is_var_arg, e);
    if let Ok(a1) = fn_type_code(defs, st.ops, d.return_type, ps, d.is_var_arg) {
        assert(e + seq![Slot::Ty] =~= seq![Slot::Ty]);
        lemma_header_ok(st, a1, d.name, d.linkage, d.visibility, d.garbage_collector_name);
        let h = a1.len() as usize;
        let st1 = fn_header(st, a1, h, d.name, d.linkage, d.visibility, d.garbage_collector_name);
        assert(a1.len() < st1.ops.len());
        if fits(st1.ops) {
            lemma_header_at(st, a1, d.name, d.linkage, d.visibility, d.garbage_collector_name);
        }
        lemma_fn_attr_ok(st, st1, h, d.function_attributes@, d.return_attributes@, d.parameters@);
    }
}

proof fn lemma_fn_decl_ok(defs: Defs, st: CtxState, f: Function)
    requires
        start_ok(st),
    ensures
        step_ok(st, fn_decl_step(defs, st, f)),
{
    let e = Seq::<Slot>::empty();
    let ps = param_types(f.parameters@);
    assert(ps.len() == f.parameters@.len());
    assert(f.parameters.len() == f.parameters@.len());
    lemma_fn_type_stack(defs, st.ops, f.return_type, ps, f.is_var_arg, e);
    if let Ok(a1) = fn_type_code(defs, st.ops, f.return_type, ps, f.is_var_arg) {
        assert(e + seq![Slot::Ty] =~= seq![Slot::Ty]);
        lemma_header_ok(st, a1, f.name, f.linkage, f.visibility, f.garbage_collector_name);
        let h = a1.len() as usize;
        let st1 = fn_header(st, a1, h, f.name, f.linkage, f.visibility, f.garbage_collector_name);
        assert(a1.len() < st1.ops.len());
        if fits(st1.ops) {
            lemma_header_at(st, a1, f.name, f.linkage, f.visibility, f.garbage_collector_name);
        }
        lemma_fn_attr_ok(st, st1, h, f.function_attributes@, f.return_attributes@, f.parameters@);
    }
}

proof fn lemma_fn_body_ok(defs: Defs, st: CtxState, f: Function)
    requires
        start_ok(st),
    ensures
        step_ok(st, fn_body_step(defs, st, f)),
{
    reveal(fn_body_step);
    lemma_extends_refl(st.ops);
    if f.basic_blocks.len() > 0 {
        if let Some(h) = fn_handle(st, f.name) {
            assert(fn_ok(st, h));
            lemma_blocks_ok_step(st, h, f.basic_blocks@, 0);
            let st2 = blocks_step(st, h, f.basic_blocks@, 0);
            lemma_params_ok_step(st2, h, f.parameters@, 0);
            let st3 = params_step(st2, h, f.parameters@, 0);
            lemma_extends_trans(st.ops, st2.ops, st3.ops);
            lemma_bodies_ok(defs, st3, f.basic_blocks@, 0);
            if let Ok(st4) = bodies_step(defs, st3, f.basic_blocks@, 0) {
                lemma_extends_trans(st.ops, st3.ops, st4.ops);
                lemma_phis_ok(defs, st4, f.basic_blocks@, 0);
                if let Ok(st5) = phis_step(defs, st4, f.basic_blocks@, 0) {
                    lemma_extends_trans(st.ops, st4.ops, st5.ops);
                }
            }
        }
    }
}

/// Completing a step: the operations after `st`'s program leave the stack
/// empty, and the names keep their kinds.
proof fn lemma_finish(st: CtxState, a: Seq<Op>)
    requires
        replayable(st),
        extends(a, st.ops),
        run_seg(a, st.ops.len() as int, a.len() as int, Seq::empty()) == Some(Seq::<Slot>::empty()),
    ensures
        run_seg(a, 0, a.len() as int, Seq::empty()) == Some(Seq::<Slot>::empty()),
        values_ok(st.values, a),
        blocks_ok(st.bbs, a),
{
    let n0 = st.ops.len() as int;
    lemma_run_split(a, 0, n0, a.len() as int, Seq::empty());
    lemma_run_prefix(st.ops, a, 0, n0, Seq::empty());
    lemma_values_ok_extends(st.values, st.ops, a);
    lemma_blocks_ok_extends(st.bbs, st.ops, a);
}

/// Appending an operation that sets something of the global at `h`.
proof fn lemma_set_on(a: Seq<Op>, op: Op, n0: int, h: usize)
    requires
        0 <= n0 <= a.len(),
        run_seg(a, n0, a.len() as int, Seq::empty()) == Some(Seq::<Slot>::empty()),
        h < a.len(),
        made(a[h as int]) == Some(Slot::Val),
        op == (Op::SetGlobalConstant { target: h, is_constant: op->is_constant }) || op == (Op::SetAlignment {
            target: h,
            alignment: op->alignment,
        }) || op == (Op::SetSection { target: h, section: op->section }),
    ensures
        extends(a.push(op), a),
        run_seg(a.push(op), n0, a.len() + 1 as int, Seq::empty()) == Some(Seq::<Slot>::empty()),
        a.push(op)[h as int] == a[h as int],
{
    assert(a.push(op)[a.len() as int] == op);
    assert(a.push(op)[h as int] == a[h as int]);
    assert(refs_fit(a.push(op), a.len() as int));
    lemma_quiet_on(a, op, n0);
}

proof fn lemma_global_ok(defs: Defs, st: CtxState, g: GlobalVariable)
    requires
        start_ok(st),
    ensures
        step_ok(st, global_decl_step(defs, st, g)),
{
    reveal(global_decl_step);
    let e = Seq::<Slot>::empty();
    let n0 = st.ops.len() as int;
    let ty = match g.initializer {
        Some(init) => type_of_code(defs, st.ops, init),
        None => Ok(st.ops.push(Op::IntType(8))),
    };
    match g.initializer {
        Some(init) => lemma_type_of_stack(defs, st.ops, init, e),
        None => {
            lemma_extends_refl(st.ops);
            assert(run_seg(st.ops, n0, n0, e) == Some(e));
            lemma_push_plain(st.ops, Op::IntType(8), n0, e, e);
            assert(e.push(Slot::Ty) =~= e + seq![Slot::Ty]);
        },
    }
    if let Ok(a1) = ty {
        let h = a1.len() as usize;
        let add = Op::AddGlobal(g.name);
        let a1g = a1.push(add);
        let a2a = attrs(a1g, h, g.linkage, g.visibility);
        let cst = Op::SetGlobalConstant { target: h, is_constant: g.is_constant };
        let a2 = a2a.push(cst);
        lemma_extends_push(a1, add);
        assert(extends(a2a, a1g)) by {
            assert forall|j: int| 0 <= j < a1g.len() implies #[trigger] a2a[j] == a1g[j] by {}
        }
        lemma_extends_push(a2a, cst);
        lemma_extends_trans(st.ops, a1, a1g);
        lemma_extends_trans(st.ops, a1g, a2a);
        lemma_extends_trans(st.ops, a2a, a2);
        let a3 = if g.alignment > 0 {
            a2.push(Op::SetAlignment { target: h, alignment: g.alignment })
        } else {
            a2
        };
        let a4 = match g.section {
            Some(sec) => a3.push(Op::SetSection { target: h, section: sec }),
            None => a3,
        };
        lemma_extends_push(a2, Op::SetAlignment { target: h, alignment: g.alignment });
        lemma_extends_refl(a2);
        lemma_extends_trans(st.ops, a2, a3);
        match g.section {
            Some(sec) => lemma_extends_push(a3, Op::SetSection { target: h, section: sec }),
            None => lemma_extends_refl(a3),
        }
        lemma_extends_trans(st.ops, a3, a4);
        if fits(a4) {
            lemma_fits_prefix(st.ops, a4);
            lemma_fits_prefix(a1, a4);
            assert(replayable(st));
            assert(e + seq![Slot::Ty] =~= e + takes(add));
            lemma_refs_free(a1, add);
            lemma_push_op(a1, add, n0, e, e);
            assert(a1g[h as int] == add);
            lemma_attrs_ok(a1g, n0, h, g.linkage, g.visibility);
            lemma_set_on(a2a, cst, n0, h);
            assert(a2[h as int] == add);
            if g.alignment > 0 {
                lemma_set_on(a2, Op::SetAlignment { target: h, alignment: g.alignment }, n0, h);
            }
            assert(a3[h as int] == add);
            match g.section {
                Some(sec) => lemma_set_on(a3, Op::SetSection { target: h, section: sec }, n0, h),
                None => {},
            }
            assert(a4[h as int] == add);
            lemma_finish(st, a4);
            lemma_values_ok_insert(st.values, a4, g.name.key(), h);
        }
    }
}

proof fn lemma_global_init_ok(defs: Defs, st: CtxState, g: GlobalVariable)
    requires
        start_ok(st),
    ensures
        step_ok(st, global_init_step(defs, st, g)),
{
    reveal(global_init_step);
    let e = Seq::<Slot>::empty();
    let n0 = st.ops.len() as int;
    match g.initializer {
        Some(init) => {
            if let Some(h) = global_handle(st, g.name) {
                lemma_const_stack(defs, st.values, st.ops, init, e);
                if let Ok(a) = const_code(defs, st.values, st.ops, init) {
                    let si = Op::SetInitializer { target: h };
                    let a3 = a.push(si);
                    lemma_extends_push(a, si);
                    lemma_extends_trans(st.ops, a, a3);
                    if fits(a3) {
                        lemma_fits_prefix(st.ops, a3);
                        assert(replayable(st));
                        assert(e + seq![Slot::Val] =~= e + takes(si));
                        assert(a[h as int] == st.ops[h as int]);
                        assert(a3[h as int] == st.ops[h as int]);
                        assert(a3[a.len() as int] == si);
                        assert(refs_fit(a3, a.len() as int));
                        lemma_close(st, a, si);
                    }
                }
            }
        },
        None => {
            lemma_extends_refl(st.ops);
        },
    }
}

proof fn lemma_alias_ok(defs: Defs, st: CtxState, x: GlobalAlias)
    requires
        start_ok(st),
    ensures
        step_ok(st, alias_step(defs, st, x)),
{
    reveal(alias_step);
    let e = Seq::<Slot>::empty();
    let n0 = st.ops.len() as int;
    lemma_type_stack(defs, Seq::empty(), st.ops, x.ty, e);
    if let Ok(a1) = type_code(defs, Seq::empty(), st.ops, x.ty) {
        lemma_const_stack(defs, st.values, a1, x.aliasee, e + seq![Slot::Ty]);
        if let Ok(a2) = const_code(defs, st.values, a1, x.aliasee) {
            let h = a2.len() as usize;
            let add = Op::AddAlias(x.name);
            let a3 = a2.push(add);
            let a4 = attrs(a3, h, x.linkage, x.visibility);
            lemma_extends_trans(st.ops, a1, a2);
            lemma_extends_push(a2, add);
            assert(extends(a4, a3)) by {
                assert forall|j: int| 0 <= j < a3.len() implies #[trigger] a4[j] == a3[j] by {}
            }
            lemma_extends_trans(st.ops, a2, a3);
            lemma_extends_trans(st.ops, a3, a4);
            if fits(a4) {
                lemma_fits_prefix(st.ops, a4);
                lemma_fits_prefix(a2, a4);
                assert(replayable(st));
                lemma_values_ok_extends(st.values, st.ops, a1);
                lemma_chain(st.ops, a1, a2, e, seq![Slot::Ty], seq![Slot::Val], true);
                assert(e + (seq![Slot::Ty] + seq![Slot::Val]) =~= e + takes(add));
                lemma_refs_free(a2, add);
                lemma_push_op(a2, add, n0, e, e);
                assert(a3[h as int] == add);
                lemma_attrs_ok(a3, n0, h, x.linkage, x.visibility);
                assert(a4[h as int] == add);
                lemma_finish(st, a4);
                lemma_values_ok_insert(st.values, a4, x.name.key(), h);
            }
        }
    }
}

proof fn lemma_globals_ok(defs: Defs, st: CtxState, gs: Seq<GlobalVariable>, i: int)
    requires
        start_ok(st),
    ensures
        step_ok(st, global_decls_step(defs, st, gs, i)),
    decreases gs.len() - i,
{
    if 0 <= i < gs.len() {
        lemma_global_ok(defs, st, gs[i]);
        if let Ok(st1) = global_decl_step(defs, st, gs[i]) {
            lemma_globals_ok(defs, st1, gs, i + 1);
            if let Ok(st2) = global_decls_step(defs, st1, gs, i + 1) {
                lemma_extends_trans(st.ops, st1.ops, st2.ops);
            }
        }
    } else {
        lemma_extends_refl(st.ops);
    }
}

proof fn lemma_global_inits_ok(defs: Defs, st: CtxState, gs: Seq<GlobalVariable>, i: int)
    requires
        start_ok(st),
    ensures
        step_ok(st, global_inits_step(defs, st, gs, i)),
    decreases gs.len() - i,
{
    if 0 <= i < gs.len() {
        lemma_global_init_ok(defs, st, gs[i]);
        if let Ok(st1) = global_init_step(defs, st, gs[i]) {
            lemma_global_inits_ok(defs, st1, gs, i + 1);
            if let Ok(st2) = global_inits_step(defs, st1, gs, i + 1) {
                lemma_extends_trans(st.ops, st1.ops, st2.ops);
            }
        }
    } else {
        lemma_extends_refl(st.ops);
    }
}

proof fn lemma_decls_ok(defs: Defs, st: CtxState, ds: Seq<FunctionDeclaration>, i: int)
    requires
        start_ok(st),
    ensures
        step_ok(st, decls_step(defs, st, ds, i)),
    decreases ds.len() - i,
{
    if 0 <= i < ds.len() {
        lemma_decl_ok(defs, st, ds[i]);
        if let Ok(st1) = decl_step(defs, st, ds[i]) {
            lemma_decls_ok(defs, st1, ds, i + 1);
            if let Ok(st2) = decls_step(defs, st1, ds, i + 1) {
                lemma_extends_trans(st.ops, st1.ops, st2.ops);
            }
        }
    } else {
        lemma_extends_refl(st.ops);
    }
}

proof fn lemma_fn_decls_ok(defs: Defs, st: CtxState, fs: Seq<Function>, i: int)
    requires
        start_ok(st),
    ensures
        step_ok(st, fn_decls_step(defs, st, fs, i)),
    decreases fs.len() - i,
{
    if 0 <= i < fs.len() {
        lemma_fn_decl_ok(defs, st, fs[i]);
        if let Ok(st1) = fn_decl_step(defs, st, fs[i]) {
            lemma_fn_decls_ok(defs, st1, fs, i + 1);
            if let Ok(st2) = fn_decls_step(defs, st1, fs, i + 1) {
                lemma_extends_trans(st.ops, st1.ops, st2.ops);
            }
        }
    } else {
        lemma_extends_refl(st.ops);
    }
}

proof fn lemma_fn_bodies_ok(defs: Defs, st: CtxState, fs: Seq<Function>, i: int)
    requires
        start_ok(st),
    ensures
        step_ok(st, fn_bodies_step(defs, st, fs, i)),
    decreases fs.len() - i,
{
    if 0 <= i < fs.len() {
        lemma_fn_body_ok(defs, st, fs[i]);
        if let Ok(st1) = fn_body_step(defs, st, fs[i]) {
            lemma_fn_bodies_ok(defs, st1, fs, i + 1);
            if let Ok(st2) = fn_bodies_step(defs, st1, fs, i + 1) {
                lemma_extends_trans(st.ops, st1.ops, st2.ops);
            }
        }
    } else {
        lemma_extends_refl(st.ops);
    }
}

proof fn lemma_aliases_ok(defs: Defs, st: CtxState, als: Seq<GlobalAlias>, i: int)
    requires
        start_ok(st),
    ensures
        step_ok(st, aliases_step(defs, st, als, i)),
    decreases als.len() - i,
{
    if 0 <= i < als.len() {
        lemma_alias_ok(defs, st, als[i]);
        if let Ok(st1) = alias_step(defs, st, als[i]) {
            lemma_aliases_ok(defs, st1, als, i + 1);
            if let Ok(st2) = aliases_step(defs, st1, als, i + 1) {
                lemma_extends_trans(st.ops, st1.ops, st2.ops);
            }
        }
    } else {
        lemma_extends_refl(st.ops);
    }
}

proof fn lemma_metadata_replays(m: Module)
    ensures
        run_seg(metadata_ops(m), 0, metadata_ops(m).len() as int, Seq::empty()) == Some(Seq::<Slot>::empty()),
{
    let e = Seq::<Slot>::empty();
    let a0 = Seq::<Op>::empty();
    assert(run_seg(a0, 0, 0, e) == Some(e));
    let a1 = {
        let op = Op::SetSourceFileName(m.source_file_name);
        lemma_quiet_on(a0, op, 0);
        a0.push(op)
    };
    let a2 = if m.data_layout.layout_str@.len() > 0 {
        let op = Op::SetDataLayout(m.data_layout.layout_str);
        lemma_quiet_on(a1, op, 0);
        a1.push(op)
    } else {
        a1
    };
    let a3 = match m.target_triple {
        Some(t) => {
            let op = Op::SetTarget(t);
            lemma_quiet_on(a2, op, 0);
            a2.push(op)
        },
        None => a2,
    };
    if m.inline_assembly@.len() > 0 {
        let op = Op::SetInlineAsm(m.inline_assembly);
        lemma_quiet_on(a3, op, 0);
    }
}

proof fn lemma_struct_made_extends(acc: Seq<Op>, a1: Seq<Op>, name: Seq<char>, i: int)
    requires
        extends(a1, acc),
        0 <= i <= acc.len(),
    ensures
        struct_made(acc, name, i) >= 0 ==> struct_made(a1, name, i) == struct_made(acc, name, i),
        struct_made(acc, name, i) == -1 ==> struct_made(a1, name, i) == struct_made(a1, name, acc.len() as int),
    decreases acc.len() - i,
{
    if i < acc.len() {
        assert(a1[i] == acc[i]);
        lemma_struct_made_extends(acc, a1, name, i + 1);
    }
}

/// A named struct is made once: once a program has made the named struct
/// `name` (here by converting its type after `acc`), converting the type
/// again pushes that same struct, by the handle of the operation that made
/// it, and makes no other. Every use of a name in a program therefore
/// denotes one type, with the body it was made with.
pub proof fn named_struct_made_once(defs: Defs, acc: Seq<Op>, name: String)
    ensures
        match type_code(defs, Seq::empty(), acc, Type::NamedStructType { name }) {
            Ok(a1) => a1.len() <= usize::MAX ==> {
                let h = struct_made(a1, name@, 0);
                &&& 0 <= h < a1.len()
                &&& a1[h] is NamedStruct
                &&& a1[h]->NamedStruct_0@ == name@
                &&& type_code(defs, Seq::empty(), a1, Type::NamedStructType { name })
                    == Ok::<Seq<Op>, ConvertError>(a1.push(Op::Value(h as usize)))
            },
            Err(_) => true,
        },
{
    let t = Type::NamedStructType { name };
    let e = Seq::<Slot>::empty();
    lemma_type_stack(defs, Seq::empty(), acc, t, e);
    lemma_struct_made(acc, name@, 0);
    if let Ok(a1) = type_code(defs, Seq::empty(), acc, t) {
        if a1.len() <= usize::MAX {
            lemma_struct_made_extends(acc, a1, name@, 0);
            if struct_made(acc, name@, 0) == -1 {
                let a0 = acc.push(Op::NamedStruct(name));
                let i = first_def(defs, name@, 0);
                assert(extends(a1, a0)) by {
                    lemma_extends_push(acc, Op::NamedStruct(name));
                    if 0 <= i < defs.len() {
                        match defs[i].1 {
                            NamedStructDef::Defined(Type::StructType { element_types, is_packed }) => {
                                let st = Seq::<usize>::empty().push(i as usize);
                                lemma_types_stack(defs, st, a0, element_types@, 0, e.push(Slot::Ty));
                                let x = types_code(defs, st, a0, element_types@, 0)->Ok_0;
                                lemma_extends_push(x, Op::SetStructBody { element_count: element_types.len(), is_packed });
                                lemma_extends_trans(a0, x, a1);
                            },
                            _ => lemma_extends_refl(a0),
                        }
                    } else {
                        lemma_extends_refl(a0);
                    }
                }
                assert(a1[acc.len() as int] == a0[acc.len() as int]);
                assert(struct_made(a1, name@, acc.len() as int) == acc.len());
            }
            lemma_struct_made(a1, name@, 0);
        }
    }
}

/// The replay of `ops` from an empty stack runs to its end without a fault
/// and leaves the stack empty.
pub open spec fn replays(ops: Seq<Op>) -> bool {
    run_seg(ops, 0, ops.len() as int, Seq::empty()) == Some(Seq::<Slot>::empty())
}

/// A converted module's construction program replays without a fault
/// (provided it is short enough for its positions to be machine-sized
/// handles, as every program held in memory is): each operation finds on
/// the stack the types and values it takes, in the order it takes them;
/// each handle names an earlier operation that made what the operation
/// needs (a value for the target of an attribute, a function, a phi, a
/// switch or an indirect branch; a block for a branch target or the
/// builder's position); and the stack is empty at the end.
pub proof fn plan_replays(m: Module)
    ensures
        match module_plan(m) {
            Ok(ops) => fits(ops) ==> replays(ops),
            Err(_) => true,
        },
{
    let defs = m.types.named_structs@;
    let st0 = CtxState { ops: metadata_ops(m), ..empty_state() };
    lemma_metadata_replays(m);
    assert(replayable(st0));
    lemma_globals_ok(defs, st0, m.global_vars@, 0);
    if let Ok(st1) = global_decls_step(defs, st0, m.global_vars@, 0) {
        lemma_decls_ok(defs, st1, m.func_declarations@, 0);
        if let Ok(st2) = decls_step(defs, st1, m.func_declarations@, 0) {
            lemma_fn_decls_ok(defs, st2, m.functions@, 0);
            if let Ok(st3) = fn_decls_step(defs, st2, m.functions@, 0) {
                lemma_aliases_ok(defs, st3, m.global_aliases@, 0);
                if let Ok(st4) = aliases_step(defs, st3, m.global_aliases@, 0) {
                    lemma_global_inits_ok(defs, st4, m.global_vars@, 0);
                    if let Ok(st5) = global_inits_step(defs, st4, m.global_vars@, 0) {
                        lemma_fn_bodies_ok(defs, st5, m.functions@, 0);
                    }
                }
            }
        }
    }
}

} // verus!
