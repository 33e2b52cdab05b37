//! Conversion of instructions, terminators and basic blocks.

use vstd::prelude::*;
use crate::const_conv::{const_code, emit_const, emit_operand, emit_operands, operand_code, operands_code};
use crate::context::{keeps_bindings, with_op, ToLLVMContext};
use crate::name_map::NameMap;
use crate::ir::{
    AtomicRMW, Atomicity, BasicBlock, BinaryOp, Call, Callee, Cast, CmpXchg, Constant, ExtractValue, InsertValue,
    Instruction, Invoke, Name, NameKey, NamedStructDef, Operand, Phi, SynchronizationScope, Terminator, Types,
    UnaryOp,
};
use crate::llvm_codes::{int_predicate_code, ordering_code, real_predicate_code, rmw_code};
use crate::plan::{extends, BinaryOpcode, CastOpcode, ConvertError, CtxState, Op};
use crate::types_conv::{emit_type_top, type_code, Defs};

verus! {

/// The state with its operations replaced.
pub open spec fn with_ops(st: CtxState, ops: Seq<Op>) -> CtxState {
    CtxState { ops, ..st }
}

/// The state after appending an operation that makes the value of a name:
/// the name is bound to the operation's handle.
pub open spec fn define(st: CtxState, ops: Seq<Op>, op: Op, dest: Name) -> CtxState {
    CtxState { ops: ops.push(op), values: st.values.insert(dest.key(), ops.len() as usize), bbs: st.bbs }
}

/// Converting a two-operand arithmetic instruction.
pub open spec fn binary_step(defs: Defs, st: CtxState, opcode: BinaryOpcode, b: BinaryOp) -> Result<CtxState, ConvertError> {
    match operand_code(defs, st.values, st.ops, b.operand0) {
        Ok(a1) => match operand_code(defs, st.values, a1, b.operand1) {
            Ok(a2) => Ok(define(st, a2, Op::BuildBinary { opcode, name: b.dest }, b.dest)),
            Err(e) => Err(e),
        },
        Err(e) => Err(e),
    }
}

/// The operations that add the incoming pairs `inc[i..]` of a phi: each
/// value, then its block.
pub open spec fn incoming_code(defs: Defs, values: Map<NameKey, usize>, bbs: Map<NameKey, usize>, acc: Seq<Op>, inc: Seq<(Operand, Name)>, i: int) -> Result<Seq<Op>, ConvertError>
    decreases inc.len() - i,
{
    if 0 <= i < inc.len() {
        match operand_code(defs, values, acc, inc[i].0) {
            Ok(a1) => {
                if bbs.contains_key(inc[i].1.key()) {
                    incoming_code(defs, values, bbs, a1.push(Op::Value(bbs[inc[i].1.key()])), inc, i + 1)
                } else {
                    Err(ConvertError::TargetBlockNotFound(inc[i].1))
                }
            },
            Err(e) => Err(e),
        }
    } else {
        Ok(acc)
    }
}

/// Converting a call.
pub open spec fn call_step(defs: Defs, st: CtxState, c: Call) -> Result<CtxState, ConvertError> {
    match c.function {
        Callee::InlineAssembly { ty: _ } => Err(ConvertError::InlineAsmCallUnsupported),
        Callee::Operand(f) => match operand_code(defs, st.values, st.ops, f) {
            Ok(a1) => match type_code(defs, Seq::empty(), a1, c.function_ty) {
                Ok(a2) => match operands_code(defs, st.values, a2, c.arguments@, 0) {
                    Ok(a3) => {
                        let op = Op::BuildCall { arg_count: c.arguments.len(), name: c.dest };
                        match c.dest {
                            Some(d) => Ok(define(st, a3, op, d)),
                            None => Ok(with_ops(st, a3.push(op))),
                        }
                    },
                    Err(e) => Err(e),
                },
                Err(e) => Err(e),
            },
            Err(e) => Err(e),
        },
    }
}

/// Converting a phi where it stands: the phi is built with no incoming
/// pairs yet, and its name is bound to it. Its pairs are added once all the
/// values of its function are made (`phi_fill_step`), so that a pair may
/// name a value that is defined later in the function, as in a loop.
pub open spec fn phi_step(defs: Defs, st: CtxState, p: Phi) -> Result<CtxState, ConvertError> {
    then_define(st, type_code(defs, Seq::empty(), st.ops, p.to_type), Op::BuildPhi(p.dest), p.dest)
}

/// The phi built for a name: the handle bound to the name, where the
/// operation there builds a phi.
pub open spec fn phi_handle(st: CtxState, n: Name) -> Option<usize> {
    if st.values.contains_key(n.key()) && st.values[n.key()] < st.ops.len()
        && st.ops[st.values[n.key()] as int] is BuildPhi {
        Some(st.values[n.key()])
    } else {
        None
    }
}

/// Adding the incoming pairs of a phi that was built: each value, then its
/// block, looked up among all the names bound so far.
pub open spec fn phi_fill_step(defs: Defs, st: CtxState, p: Phi) -> Result<CtxState, ConvertError> {
    match phi_handle(st, p.dest) {
        Some(h) => match incoming_code(defs, st.values, st.bbs, st.ops, p.incoming_values@, 0) {
            Ok(a) => Ok(with_ops(st, a.push(Op::AddIncoming { phi: h, count: p.incoming_values.len() }))),
            Err(e) => Err(e),
        },
        None => Err(ConvertError::LocalOperandNotFound(p.dest)),
    }
}

/// Adding the incoming pairs of the phis among the instructions `is[j..]`,
/// in order.
pub open spec fn instrs_phis_step(defs: Defs, st: CtxState, is: Seq<Instruction>, j: int) -> Result<CtxState, ConvertError>
    decreases is.len() - j,
{
    if 0 <= j < is.len() {
        match is[j] {
            Instruction::Phi(p) => match phi_fill_step(defs, st, p) {
                Ok(st1) => instrs_phis_step(defs, st1, is, j + 1),
                Err(e) => Err(e),
            },
            _ => instrs_phis_step(defs, st, is, j + 1),
        }
    } else {
        Ok(st)
    }
}

/// The operations that make two operands, in order.
pub open spec fn operand2_code(defs: Defs, values: Map<NameKey, usize>, acc: Seq<Op>, a: Operand, b: Operand) -> Result<Seq<Op>, ConvertError> {
    match operand_code(defs, values, acc, a) {
        Ok(a1) => operand_code(defs, values, a1, b),
        Err(e) => Err(e),
    }
}

/// The operations that make three operands, in order.
pub open spec fn operand3_code(defs: Defs, values: Map<NameKey, usize>, acc: Seq<Op>, a: Operand, b: Operand, c: Operand) -> Result<Seq<Op>, ConvertError> {
    match operand2_code(defs, values, acc, a, b) {
        Ok(a2) => operand_code(defs, values, a2, c),
        Err(e) => Err(e),
    }
}

/// The state after the operations `r` (if they could be made) and then an
/// operation that makes the value of `dest`.
pub open spec fn then_define(st: CtxState, r: Result<Seq<Op>, ConvertError>, op: Op, dest: Name) -> Result<CtxState, ConvertError> {
    match r {
        Ok(a) => Ok(define(st, a, op, dest)),
        Err(e) => Err(e),
    }
}

/// The state after the operations `r` (if they could be made) and then an
/// operation that makes no named value.
pub open spec fn then_push(st: CtxState, r: Result<Seq<Op>, ConvertError>, op: Op) -> Result<CtxState, ConvertError> {
    match r {
        Ok(a) => Ok(with_ops(st, a.push(op))),
        Err(e) => Err(e),
    }
}

/// Converting a one-operand instruction whose operation is `op`.
pub open spec fn unary_step(defs: Defs, st: CtxState, u: UnaryOp, op: Op) -> Result<CtxState, ConvertError> {
    then_define(st, operand_code(defs, st.values, st.ops, u.operand), op, u.dest)
}

/// Converting a conversion instruction: its operand, then its target type.
pub open spec fn cast_step(defs: Defs, st: CtxState, opcode: CastOpcode, c: Cast) -> Result<CtxState, ConvertError> {
    let r = match operand_code(defs, st.values, st.ops, c.operand) {
        Ok(a1) => type_code(defs, Seq::empty(), a1, c.to_type),
        Err(e) => Err(e),
    };
    then_define(st, r, Op::BuildCast { opcode, name: c.dest }, c.dest)
}

/// Whether an atomic access synchronizes with its own thread only.
pub open spec fn single_thread(a: Atomicity) -> bool {
    a.synch_scope == SynchronizationScope::SingleThread
}

/// The operations that read the fields at the indices `idx[j..]` but the
/// last, each from the result of the one before (the first from the value
/// made last): each read is unnamed, and its result is pushed again.
pub open spec fn extract_prefix(acc: Seq<Op>, idx: Seq<u32>, j: int) -> Seq<Op>
    decreases idx.len() - j,
{
    if 0 <= j < idx.len() - 1 {
        let h = acc.len() as usize;
        extract_prefix(acc.push(Op::BuildExtractValue { index: idx[j], name: None }).push(Op::Value(h)), idx, j + 1)
    } else {
        acc
    }
}

/// Converting an extractvalue: its aggregate, then one read per index, the
/// last of which makes the named result.
pub open spec fn extract_value_step(defs: Defs, st: CtxState, x: ExtractValue) -> Result<CtxState, ConvertError> {
    let idx = x.indices@;
    if idx.len() == 0 {
        Err(ConvertError::AggregateIndicesEmpty)
    } else {
        let r = match operand_code(defs, st.values, st.ops, x.aggregate) {
            Ok(a1) => Ok(extract_prefix(a1, idx, 0)),
            Err(e) => Err(e),
        };
        then_define(st, r, Op::BuildExtractValue { index: idx.last(), name: Some(x.dest) }, x.dest)
    }
}

/// The operations that push an aggregate: operand `agg` itself (`src` is
/// `None`), or the value made by the operation with handle `src`.
pub open spec fn agg_code(defs: Defs, values: Map<NameKey, usize>, acc: Seq<Op>, agg: Operand, src: Option<usize>) -> Result<Seq<Op>, ConvertError> {
    match src {
        Some(h) => Ok(acc.push(Op::Value(h))),
        None => operand_code(defs, values, acc, agg),
    }
}

/// The operations that replace by `elem` the field at the path `idx[j..]`
/// of the aggregate given by `agg` and `src`. For one index, this is one
/// insertion. For more, the field at the first index is read, the rest of
/// the path is replaced in it, and the result is inserted at the first
/// index. Only this outermost insertion has the name `name`.
pub open spec fn insert_code(
    defs: Defs,
    values: Map<NameKey, usize>,
    acc: Seq<Op>,
    agg: Operand,
    src: Option<usize>,
    elem: Operand,
    idx: Seq<u32>,
    j: int,
    name: Option<Name>,
) -> Result<Seq<Op>, ConvertError>
    decreases idx.len() - j,
{
    if 0 <= j < idx.len() - 1 {
        match agg_code(defs, values, acc, agg, src) {
            Ok(a1) => match agg_code(defs, values, a1, agg, src) {
                Ok(a2) => {
                    let hx = a2.len() as usize;
                    let a3 = a2.push(Op::BuildExtractValue { index: idx[j], name: None });
                    match insert_code(defs, values, a3, agg, Some(hx), elem, idx, j + 1, None) {
                        Ok(a4) => Ok(a4.push(Op::Value((a4.len() - 1) as usize)).push(Op::BuildInsertValue { index: idx[j], name })),
                        Err(e) => Err(e),
                    }
                },
                Err(e) => Err(e),
            },
            Err(e) => Err(e),
        }
    } else if 0 <= j < idx.len() {
        match agg_code(defs, values, acc, agg, src) {
            Ok(a1) => match operand_code(defs, values, a1, elem) {
                Ok(a2) => Ok(a2.push(Op::BuildInsertValue { index: idx[j], name })),
                Err(e) => Err(e),
            },
            Err(e) => Err(e),
        }
    } else {
        Ok(acc)
    }
}

/// Converting an insertvalue; its result is made by the last operation.
pub open spec fn insert_value_step(defs: Defs, st: CtxState, x: InsertValue) -> Result<CtxState, ConvertError> {
    if x.indices@.len() == 0 {
        Err(ConvertError::AggregateIndicesEmpty)
    } else {
        match insert_code(defs, st.values, st.ops, x.aggregate, None, x.element, x.indices@, 0, Some(x.dest)) {
            Ok(a) => Ok(CtxState { ops: a, values: st.values.insert(x.dest.key(), (a.len() - 1) as usize), bbs: st.bbs }),
            Err(e) => Err(e),
        }
    }
}

/// Converting a compare-and-exchange.
pub open spec fn cmpxchg_step(defs: Defs, st: CtxState, c: CmpXchg) -> Result<CtxState, ConvertError> {
    then_define(
        st,
        operand3_code(defs, st.values, st.ops, c.address, c.expected, c.replacement),
        Op::BuildCmpXchg {
            success: ordering_code(c.atomicity.mem_ordering),
            failure: ordering_code(c.failure_memory_ordering),
            single_thread: single_thread(c.atomicity),
            weak: c.weak,
            volatile: c.volatile,
            name: c.dest,
        },
        c.dest,
    )
}

/// Converting an atomic read-modify-write.
pub open spec fn atomicrmw_step(defs: Defs, st: CtxState, a: AtomicRMW) -> Result<CtxState, ConvertError> {
    then_define(
        st,
        operand2_code(defs, st.values, st.ops, a.address, a.value),
        Op::BuildAtomicRMW {
            operation: rmw_code(a.operation),
            ordering: ordering_code(a.atomicity.mem_ordering),
            single_thread: single_thread(a.atomicity),
            volatile: a.volatile,
            name: a.dest,
        },
        a.dest,
    )
}

/// Converting one instruction.
pub open spec fn instr_step(defs: Defs, st: CtxState, instr: Instruction) -> Result<CtxState, ConvertError> {
    match instr {
        Instruction::Add(b) => binary_step(defs, st, BinaryOpcode::Add, b),
        Instruction::Sub(b) => binary_step(defs, st, BinaryOpcode::Sub, b),
        Instruction::Mul(b) => binary_step(defs, st, BinaryOpcode::Mul, b),
        Instruction::UDiv(b) => binary_step(defs, st, BinaryOpcode::UDiv, b),
        Instruction::SDiv(b) => binary_step(defs, st, BinaryOpcode::SDiv, b),
        Instruction::URem(b) => binary_step(defs, st, BinaryOpcode::URem, b),
        Instruction::SRem(b) => binary_step(defs, st, BinaryOpcode::SRem, b),
        Instruction::And(b) => binary_step(defs, st, BinaryOpcode::And, b),
        Instruction::Or(b) => binary_step(defs, st, BinaryOpcode::Or, b),
        Instruction::Xor(b) => binary_step(defs, st, BinaryOpcode::Xor, b),
        Instruction::Shl(b) => binary_step(defs, st, BinaryOpcode::Shl, b),
        Instruction::LShr(b) => binary_step(defs, st, BinaryOpcode::LShr, b),
        Instruction::AShr(b) => binary_step(defs, st, BinaryOpcode::AShr, b),
        Instruction::FAdd(b) => binary_step(defs, st, BinaryOpcode::FAdd, b),
        Instruction::FSub(b) => binary_step(defs, st, BinaryOpcode::FSub, b),
        Instruction::FMul(b) => binary_step(defs, st, BinaryOpcode::FMul, b),
        Instruction::FDiv(b) => binary_step(defs, st, BinaryOpcode::FDiv, b),
        Instruction::FRem(b) => binary_step(defs, st, BinaryOpcode::FRem, b),
        Instruction::FNeg(u) => unary_step(defs, st, u, Op::BuildFNeg(u.dest)),
        Instruction::Freeze(u) => unary_step(defs, st, u, Op::BuildFreeze(u.dest)),
        Instruction::ExtractElement(x) => then_define(
            st,
            operand2_code(defs, st.values, st.ops, x.vector, x.index),
            Op::BuildExtractElement(x.dest),
            x.dest,
        ),
        Instruction::InsertElement(x) => then_define(
            st,
            operand3_code(defs, st.values, st.ops, x.vector, x.element, x.index),
            Op::BuildInsertElement(x.dest),
            x.dest,
        ),
        Instruction::ShuffleVector(x) => {
            let r = match operand2_code(defs, st.values, st.ops, x.operand0, x.operand1) {
                Ok(a2) => const_code(defs, st.values, a2, x.mask),
                Err(e) => Err(e),
            };
            then_define(st, r, Op::BuildShuffleVector(x.dest), x.dest)
        },
        Instruction::ExtractValue(x) => extract_value_step(defs, st, x),
        Instruction::InsertValue(x) => insert_value_step(defs, st, x),
        Instruction::Fence(f) => Ok(with_op(st, Op::BuildFence {
            ordering: ordering_code(f.atomicity.mem_ordering),
            single_thread: single_thread(f.atomicity),
        })),
        Instruction::CmpXchg(c) => cmpxchg_step(defs, st, c),
        Instruction::AtomicRMW(a) => atomicrmw_step(defs, st, a),
        Instruction::Trunc(c) => cast_step(defs, st, CastOpcode::Trunc, c),
        Instruction::ZExt(c) => cast_step(defs, st, CastOpcode::ZExt, c),
        Instruction::SExt(c) => cast_step(defs, st, CastOpcode::SExt, c),
        Instruction::FPTrunc(c) => cast_step(defs, st, CastOpcode::FPTrunc, c),
        Instruction::FPExt(c) => cast_step(defs, st, CastOpcode::FPExt, c),
        Instruction::FPToUI(c) => cast_step(defs, st, CastOpcode::FPToUI, c),
        Instruction::FPToSI(c) => cast_step(defs, st, CastOpcode::FPToSI, c),
        Instruction::UIToFP(c) => cast_step(defs, st, CastOpcode::UIToFP, c),
        Instruction::SIToFP(c) => cast_step(defs, st, CastOpcode::SIToFP, c),
        Instruction::PtrToInt(c) => cast_step(defs, st, CastOpcode::PtrToInt, c),
        Instruction::IntToPtr(c) => cast_step(defs, st, CastOpcode::IntToPtr, c),
        Instruction::BitCast(c) => cast_step(defs, st, CastOpcode::BitCast, c),
        Instruction::AddrSpaceCast(c) => cast_step(defs, st, CastOpcode::AddrSpaceCast, c),
        Instruction::FCmp(c) => then_define(
            st,
            operand2_code(defs, st.values, st.ops, c.operand0, c.operand1),
            Op::BuildFCmp { predicate: real_predicate_code(c.predicate), name: c.dest },
            c.dest,
        ),
        Instruction::Select(x) => then_define(
            st,
            operand3_code(defs, st.values, st.ops, x.condition, x.true_value, x.false_value),
            Op::BuildSelect(x.dest),
            x.dest,
        ),
        Instruction::Call(c) => call_step(defs, st, c),
        Instruction::Alloca(a) => match type_code(defs, Seq::empty(), st.ops, a.allocated_type) {
            Ok(a1) => Ok(define(st, a1, Op::BuildAlloca(a.dest), a.dest)),
            Err(e) => Err(e),
        },
        Instruction::Load(l) => match operand_code(defs, st.values, st.ops, l.address) {
            Ok(a1) => match type_code(defs, Seq::empty(), a1, l.loaded_ty) {
                Ok(a2) => Ok(define(st, a2, Op::BuildLoad(l.dest), l.dest)),
                Err(e) => Err(e),
            },
            Err(e) => Err(e),
        },
        Instruction::Store(s) => match operand_code(defs, st.values, st.ops, s.value) {
            Ok(a1) => match operand_code(defs, st.values, a1, s.address) {
                Ok(a2) => Ok(with_ops(st, a2.push(Op::BuildStore))),
                Err(e) => Err(e),
            },
            Err(e) => Err(e),
        },
        Instruction::GetElementPtr(g) => match operand_code(defs, st.values, st.ops, g.address) {
            Ok(a1) => match operands_code(defs, st.values, a1, g.indices@, 0) {
                Ok(a2) => match type_code(defs, Seq::empty(), a2, g.source_element_type) {
                    Ok(a3) => Ok(define(st, a3, Op::BuildGEP { index_count: g.indices.len(), name: g.dest }, g.dest)),
                    Err(e) => Err(e),
                },
                Err(e) => Err(e),
            },
            Err(e) => Err(e),
        },
        Instruction::ICmp(c) => match operand_code(defs, st.values, st.ops, c.operand0) {
            Ok(a1) => match operand_code(defs, st.values, a1, c.operand1) {
                Ok(a2) => Ok(define(st, a2, Op::BuildICmp { predicate: int_predicate_code(c.predicate), name: c.dest }, c.dest)),
                Err(e) => Err(e),
            },
            Err(e) => Err(e),
        },
        Instruction::Phi(p) => phi_step(defs, st, p),
        Instruction::VAArg => Err(ConvertError::InstructionUnsupported),
        Instruction::LandingPad => Err(ConvertError::InstructionUnsupported),
        Instruction::CatchPad => Err(ConvertError::InstructionUnsupported),
        Instruction::CleanupPad => Err(ConvertError::InstructionUnsupported),
    }
}

/// Converting the instructions `is[i..]`, in order.
pub open spec fn instrs_step(defs: Defs, st: CtxState, is: Seq<Instruction>, i: int) -> Result<CtxState, ConvertError>
    decreases is.len() - i,
{
    if 0 <= i < is.len() {
        match instr_step(defs, st, is[i]) {
            Ok(st1) => instrs_step(defs, st1, is, i + 1),
            Err(e) => Err(e),
        }
    } else {
        Ok(st)
    }
}

/// The operations that add the cases `cases[i..]` to switch `sw`: each case
/// value, then the case's block.
pub open spec fn cases_code(defs: Defs, values: Map<NameKey, usize>, bbs: Map<NameKey, usize>, acc: Seq<Op>, cases: Seq<(Constant, Name)>, sw: usize, i: int) -> Result<Seq<Op>, ConvertError>
    decreases cases.len() - i,
{
    if 0 <= i < cases.len() {
        match const_code(defs, values, acc, cases[i].0) {
            Ok(a1) => {
                if bbs.contains_key(cases[i].1.key()) {
                    cases_code(defs, values, bbs, a1.push(Op::AddCase { switch: sw, block: bbs[cases[i].1.key()] }), cases, sw, i + 1)
                } else {
                    Err(ConvertError::TargetBlockNotFound(cases[i].1))
                }
            },
            Err(e) => Err(e),
        }
    } else {
        Ok(acc)
    }
}

/// The operations that add the blocks `dests[i..]` as possible
/// destinations of the indirect branch `ib`.
pub open spec fn dests_code(bbs: Map<NameKey, usize>, acc: Seq<Op>, dests: Seq<Name>, ib: usize, i: int) -> Result<Seq<Op>, ConvertError>
    decreases dests.len() - i,
{
    if 0 <= i < dests.len() {
        if bbs.contains_key(dests[i].key()) {
            dests_code(bbs, acc.push(Op::AddDestination { indirect_br: ib, block: bbs[dests[i].key()] }), dests, ib, i + 1)
        } else {
            Err(ConvertError::TargetBlockNotFound(dests[i]))
        }
    } else {
        Ok(acc)
    }
}

/// Converting an invoke: as a call, then the two blocks it continues in.
pub open spec fn invoke_step(defs: Defs, st: CtxState, iv: Invoke) -> Result<CtxState, ConvertError> {
    match iv.function {
        Callee::InlineAssembly { ty: _ } => Err(ConvertError::InlineAsmCallUnsupported),
        Callee::Operand(f) => match operand_code(defs, st.values, st.ops, f) {
            Ok(a1) => match type_code(defs, Seq::empty(), a1, iv.function_ty) {
                Ok(a2) => match operands_code(defs, st.values, a2, iv.arguments@, 0) {
                    Ok(a3) => {
                        if !st.bbs.contains_key(iv.return_label.key()) {
                            Err(ConvertError::TargetBlockNotFound(iv.return_label))
                        } else if !st.bbs.contains_key(iv.exception_label.key()) {
                            Err(ConvertError::TargetBlockNotFound(iv.exception_label))
                        } else {
                            Ok(define(st, a3, Op::BuildInvoke {
                                arg_count: iv.arguments.len(),
                                then_block: st.bbs[iv.return_label.key()],
                                catch_block: st.bbs[iv.exception_label.key()],
                                name: iv.result,
                            }, iv.result))
                        }
                    },
                    Err(e) => Err(e),
                },
                Err(e) => Err(e),
            },
            Err(e) => Err(e),
        },
    }
}

/// Converting a terminator.
pub open spec fn term_step(defs: Defs, st: CtxState, t: Terminator) -> Result<CtxState, ConvertError> {
    match t {
        Terminator::Ret(r) => match r.return_operand {
            Some(op) => match operand_code(defs, st.values, st.ops, op) {
                Ok(a1) => Ok(with_ops(st, a1.push(Op::BuildRet))),
                Err(e) => Err(e),
            },
            None => Ok(with_op(st, Op::BuildRetVoid)),
        },
        Terminator::Br(b) => {
            if st.bbs.contains_key(b.dest.key()) {
                Ok(with_op(st, Op::BuildBr(st.bbs[b.dest.key()])))
            } else {
                Err(ConvertError::TargetBlockNotFound(b.dest))
            }
        },
        Terminator::CondBr(c) => match operand_code(defs, st.values, st.ops, c.condition) {
            Ok(a1) => {
                if !st.bbs.contains_key(c.true_dest.key()) {
                    Err(ConvertError::TargetBlockNotFound(c.true_dest))
                } else if !st.bbs.contains_key(c.false_dest.key()) {
                    Err(ConvertError::TargetBlockNotFound(c.false_dest))
                } else {
                    Ok(with_ops(st, a1.push(Op::BuildCondBr {
                        then_block: st.bbs[c.true_dest.key()],
                        else_block: st.bbs[c.false_dest.key()],
                    })))
                }
            },
            Err(e) => Err(e),
        },
        Terminator::Switch(s) => match operand_code(defs, st.values, st.ops, s.operand) {
            Ok(a1) => {
                if st.bbs.contains_key(s.default_dest.key()) {
                    let h = a1.len() as usize;
                    let a2 = a1.push(Op::BuildSwitch {
                        default_block: st.bbs[s.default_dest.key()],
                        case_count: s.dests.len(),
                    });
                    match cases_code(defs, st.values, st.bbs, a2, s.dests@, h, 0) {
                        Ok(a3) => Ok(with_ops(st, a3)),
                        Err(e) => Err(e),
                    }
                } else {
                    Err(ConvertError::TargetBlockNotFound(s.default_dest))
                }
            },
            Err(e) => Err(e),
        },
        Terminator::IndirectBr(b) => match operand_code(defs, st.values, st.ops, b.operand) {
            Ok(a1) => {
                let h = a1.len() as usize;
                match dests_code(st.bbs, a1.push(Op::BuildIndirectBr { dest_count: b.possible_dests.len() }), b.possible_dests@, h, 0) {
                    Ok(a2) => Ok(with_ops(st, a2)),
                    Err(e) => Err(e),
                }
            },
            Err(e) => Err(e),
        },
        Terminator::Invoke(iv) => invoke_step(defs, st, iv),
        Terminator::Resume(r) => then_push(st, operand_code(defs, st.values, st.ops, r.operand), Op::BuildResume),
        Terminator::Unreachable => Ok(with_op(st, Op::BuildUnreachable)),
        Terminator::CleanupRet => Err(ConvertError::TerminatorUnsupported),
        Terminator::CatchRet => Err(ConvertError::TerminatorUnsupported),
        Terminator::CatchSwitch => Err(ConvertError::TerminatorUnsupported),
        Terminator::CallBr => Err(ConvertError::TerminatorUnsupported),
    }
}

/// Converting a basic block whose block has been made: the builder is
/// moved to its end, then its instructions and its terminator are built.
pub open spec fn bb_step(defs: Defs, st: CtxState, bb: BasicBlock) -> Result<CtxState, ConvertError> {
    if st.bbs.contains_key(bb.name.key()) {
        let st1 = with_op(st, Op::PositionAtEnd(st.bbs[bb.name.key()]));
        match instrs_step(defs, st1, bb.instrs@, 0) {
            Ok(st2) => term_step(defs, st2, bb.term),
            Err(e) => Err(e),
        }
    } else {
        Err(ConvertError::BasicBlockNotFound(bb.name))
    }
}

fn clone_opt_name(n: &Option<Name>) -> (r: Option<Name>)
    ensures
        r == *n,
{
    match n {
        Some(x) => Some(x.clone_name()),
        None => None,
    }
}

/// Appends a result-making operation and binds its name to it.
fn define_value(ctx: &mut ToLLVMContext, op: Op, dest: &Name)
    requires
        old(ctx).wf(),
    ensures
        extends(final(ctx).ops@, old(ctx).ops@),
        final(ctx).wf(),
        final(ctx).module_name == old(ctx).module_name,
        final(ctx).state() == define(old(ctx).state(), old(ctx).ops@, op, *dest),
{
    let h = ctx.push_op(op);
    ctx.insert_value(dest.clone_name(), h);
}

fn convert_binary(ctx: &mut ToLLVMContext, types: &Types, opcode: BinaryOpcode, b: &BinaryOp) -> (r: Result<(), ConvertError>)
    requires
        old(ctx).wf(),
    ensures
        extends(final(ctx).ops@, old(ctx).ops@),
        final(ctx).wf(),
        final(ctx).module_name == old(ctx).module_name,
        r is Err ==> keeps_bindings(old(ctx).state(), final(ctx).state()),
        match r {
            Ok(_) => binary_step(types.named_structs@, old(ctx).state(), opcode, *b) == Ok::<CtxState, ConvertError>(final(ctx).state()),
            Err(e) => binary_step(types.named_structs@, old(ctx).state(), opcode, *b) == Err::<CtxState, ConvertError>(e),
        },
{
    let ghost st = ctx.state();
    emit_operand(&types.named_structs, &ctx.value_map, &mut ctx.ops, &b.operand0)?;
    emit_operand(&types.named_structs, &ctx.value_map, &mut ctx.ops, &b.operand1)?;
    let ghost a2 = ctx.ops@;
    define_value(ctx, Op::BuildBinary { opcode, name: b.dest.clone_name() }, &b.dest);
    assert(ctx.state() == define(st, a2, Op::BuildBinary { opcode, name: b.dest }, b.dest));
    Ok(())
}

fn emit_incoming(ctx: &mut ToLLVMContext, types: &Types, inc: &Vec<(Operand, Name)>) -> (r: Result<(), ConvertError>)
    requires
        old(ctx).wf(),
    ensures
        extends(final(ctx).ops@, old(ctx).ops@),
        final(ctx).wf(),
        final(ctx).module_name == old(ctx).module_name,
        r is Err ==> keeps_bindings(old(ctx).state(), final(ctx).state()),
        final(ctx).value_map == old(ctx).value_map,
        final(ctx).bb_map == old(ctx).bb_map,
        match r {
            Ok(_) => incoming_code(types.named_structs@, old(ctx).state().values, old(ctx).state().bbs, old(ctx).ops@, inc@, 0) == Ok::<Seq<Op>, ConvertError>(final(ctx).ops@),
            Err(e) => incoming_code(types.named_structs@, old(ctx).state().values, old(ctx).state().bbs, old(ctx).ops@, inc@, 0) == Err::<Seq<Op>, ConvertError>(e),
        },
{
    let ghost st = ctx.state();
    let mut i: usize = 0;
    while i < inc.len()
        invariant
            extends(ctx.ops@, old(ctx).ops@),
            i <= inc@.len(),
            ctx.wf(),
            ctx.module_name == old(ctx).module_name,
            ctx.value_map == old(ctx).value_map,
            ctx.bb_map == old(ctx).bb_map,
            st == old(ctx).state(),
            incoming_code(types.named_structs@, st.values, st.bbs, st.ops, inc@, 0)
                == incoming_code(types.named_structs@, st.values, st.bbs, ctx.ops@, inc@, i as int),
        decreases inc@.len() - i,
    {
        emit_operand(&types.named_structs, &ctx.value_map, &mut ctx.ops, &inc[i].0)?;
        match ctx.get_bb(&inc[i].1) {
            Some(h) => {
                ctx.ops.push(Op::Value(h));
            },
            None => {
                return Err(ConvertError::TargetBlockNotFound(inc[i].1.clone_name()));
            },
        }
        i = i + 1;
    }
    Ok(())
}

fn emit_cases(ctx: &mut ToLLVMContext, types: &Types, cases: &Vec<(Constant, Name)>, sw: usize) -> (r: Result<(), ConvertError>)
    requires
        old(ctx).wf(),
    ensures
        extends(final(ctx).ops@, old(ctx).ops@),
        final(ctx).wf(),
        final(ctx).module_name == old(ctx).module_name,
        r is Err ==> keeps_bindings(old(ctx).state(), final(ctx).state()),
        final(ctx).value_map == old(ctx).value_map,
        final(ctx).bb_map == old(ctx).bb_map,
        match r {
            Ok(_) => cases_code(types.named_structs@, old(ctx).state().values, old(ctx).state().bbs, old(ctx).ops@, cases@, sw, 0) == Ok::<Seq<Op>, ConvertError>(final(ctx).ops@),
            Err(e) => cases_code(types.named_structs@, old(ctx).state().values, old(ctx).state().bbs, old(ctx).ops@, cases@, sw, 0) == Err::<Seq<Op>, ConvertError>(e),
        },
{
    let ghost st = ctx.state();
    let mut i: usize = 0;
    while i < cases.len()
        invariant
            extends(ctx.ops@, old(ctx).ops@),
            i <= cases@.len(),
            ctx.wf(),
            ctx.module_name == old(ctx).module_name,
            ctx.value_map == old(ctx).value_map,
            ctx.bb_map == old(ctx).bb_map,
            st == old(ctx).state(),
            cases_code(types.named_structs@, st.values, st.bbs, st.ops, cases@, sw, 0)
                == cases_code(types.named_structs@, st.values, st.bbs, ctx.ops@, cases@, sw, i as int),
        decreases cases@.len() - i,
    {
        emit_const(&types.named_structs, &ctx.value_map, &mut ctx.ops, &cases[i].0)?;
        match ctx.get_bb(&cases[i].1) {
            Some(h) => {
                ctx.ops.push(Op::AddCase { switch: sw, block: h });
            },
            None => {
                return Err(ConvertError::TargetBlockNotFound(cases[i].1.clone_name()));
            },
        }
        i = i + 1;
    }
    Ok(())
}

/// Appends the operations that make two operands, in order.
fn emit_operand2(defs: &Vec<(String, NamedStructDef)>, values: &NameMap, out: &mut Vec<Op>, a: &Operand, b: &Operand) -> (r: Result<(), ConvertError>)
    requires
        values.wf(),
    ensures
        extends(final(out)@, old(out)@),
        match r {
            Ok(_) => operand2_code(defs@, values.view(), old(out)@, *a, *b) == Ok::<Seq<Op>, ConvertError>(final(out)@),
            Err(e) => operand2_code(defs@, values.view(), old(out)@, *a, *b) == Err::<Seq<Op>, ConvertError>(e),
        },
{
    emit_operand(defs, values, out, a)?;
    emit_operand(defs, values, out, b)
}

/// Appends the operations that make three operands, in order.
fn emit_operand3(defs: &Vec<(String, NamedStructDef)>, values: &NameMap, out: &mut Vec<Op>, a: &Operand, b: &Operand, c: &Operand) -> (r: Result<(), ConvertError>)
    requires
        values.wf(),
    ensures
        extends(final(out)@, old(out)@),
        match r {
            Ok(_) => operand3_code(defs@, values.view(), old(out)@, *a, *b, *c) == Ok::<Seq<Op>, ConvertError>(final(out)@),
            Err(e) => operand3_code(defs@, values.view(), old(out)@, *a, *b, *c) == Err::<Seq<Op>, ConvertError>(e),
        },
{
    emit_operand2(defs, values, out, a, b)?;
    emit_operand(defs, values, out, c)
}

/// Makes one operand, then an operation that makes the value of `dest`.
fn convert1(ctx: &mut ToLLVMContext, types: &Types, a: &Operand, op: Op, dest: &Name) -> (r: Result<(), ConvertError>)
    requires
        old(ctx).wf(),
    ensures
        extends(final(ctx).ops@, old(ctx).ops@),
        final(ctx).wf(),
        final(ctx).module_name == old(ctx).module_name,
        r is Err ==> keeps_bindings(old(ctx).state(), final(ctx).state()),
        match r {
            Ok(_) => then_define(old(ctx).state(), operand_code(types.named_structs@, old(ctx).state().values, old(ctx).ops@, *a), op, *dest)
                == Ok::<CtxState, ConvertError>(final(ctx).state()),
            Err(e) => then_define(old(ctx).state(), operand_code(types.named_structs@, old(ctx).state().values, old(ctx).ops@, *a), op, *dest)
                == Err::<CtxState, ConvertError>(e),
        },
{
    emit_operand(&types.named_structs, &ctx.value_map, &mut ctx.ops, a)?;
    define_value(ctx, op, dest);
    Ok(())
}

/// Makes two operands, then an operation that makes the value of `dest`.
fn convert2(ctx: &mut ToLLVMContext, types: &Types, a: &Operand, b: &Operand, op: Op, dest: &Name) -> (r: Result<(), ConvertError>)
    requires
        old(ctx).wf(),
    ensures
        extends(final(ctx).ops@, old(ctx).ops@),
        final(ctx).wf(),
        final(ctx).module_name == old(ctx).module_name,
        r is Err ==> keeps_bindings(old(ctx).state(), final(ctx).state()),
        match r {
            Ok(_) => then_define(old(ctx).state(), operand2_code(types.named_structs@, old(ctx).state().values, old(ctx).ops@, *a, *b), op, *dest)
                == Ok::<CtxState, ConvertError>(final(ctx).state()),
            Err(e) => then_define(old(ctx).state(), operand2_code(types.named_structs@, old(ctx).state().values, old(ctx).ops@, *a, *b), op, *dest)
                == Err::<CtxState, ConvertError>(e),
        },
{
    emit_operand2(&types.named_structs, &ctx.value_map, &mut ctx.ops, a, b)?;
    define_value(ctx, op, dest);
    Ok(())
}

/// Makes three operands, then an operation that makes the value of `dest`.
fn convert3(ctx: &mut ToLLVMContext, types: &Types, a: &Operand, b: &Operand, c: &Operand, op: Op, dest: &Name) -> (r: Result<(), ConvertError>)
    requires
        old(ctx).wf(),
    ensures
        extends(final(ctx).ops@, old(ctx).ops@),
        final(ctx).wf(),
        final(ctx).module_name == old(ctx).module_name,
        r is Err ==> keeps_bindings(old(ctx).state(), final(ctx).state()),
        match r {
            Ok(_) => then_define(old(ctx).state(), operand3_code(types.named_structs@, old(ctx).state().values, old(ctx).ops@, *a, *b, *c), op, *dest)
                == Ok::<CtxState, ConvertError>(final(ctx).state()),
            Err(e) => then_define(old(ctx).state(), operand3_code(types.named_structs@, old(ctx).state().values, old(ctx).ops@, *a, *b, *c), op, *dest)
                == Err::<CtxState, ConvertError>(e),
        },
{
    emit_operand3(&types.named_structs, &ctx.value_map, &mut ctx.ops, a, b, c)?;
    define_value(ctx, op, dest);
    Ok(())
}

fn convert_cast(ctx: &mut ToLLVMContext, types: &Types, opcode: CastOpcode, c: &Cast) -> (r: Result<(), ConvertError>)
    requires
        old(ctx).wf(),
    ensures
        extends(final(ctx).ops@, old(ctx).ops@),
        final(ctx).wf(),
        final(ctx).module_name == old(ctx).module_name,
        r is Err ==> keeps_bindings(old(ctx).state(), final(ctx).state()),
        match r {
            Ok(_) => cast_step(types.named_structs@, old(ctx).state(), opcode, *c) == Ok::<CtxState, ConvertError>(final(ctx).state()),
            Err(e) => cast_step(types.named_structs@, old(ctx).state(), opcode, *c) == Err::<CtxState, ConvertError>(e),
        },
{
    emit_operand(&types.named_structs, &ctx.value_map, &mut ctx.ops, &c.operand)?;
    emit_type_top(&types.named_structs, &mut ctx.ops, &c.to_type)?;
    define_value(ctx, Op::BuildCast { opcode, name: c.dest.clone_name() }, &c.dest);
    Ok(())
}

fn is_single_thread(a: &Atomicity) -> (r: bool)
    ensures
        r == single_thread(*a),
{
    match a.synch_scope {
        SynchronizationScope::SingleThread => true,
        SynchronizationScope::System => false,
    }
}

fn convert_extract_value(ctx: &mut ToLLVMContext, types: &Types, x: &ExtractValue) -> (r: Result<(), ConvertError>)
    requires
        old(ctx).wf(),
    ensures
        extends(final(ctx).ops@, old(ctx).ops@),
        final(ctx).wf(),
        final(ctx).module_name == old(ctx).module_name,
        r is Err ==> keeps_bindings(old(ctx).state(), final(ctx).state()),
        match r {
            Ok(_) => extract_value_step(types.named_structs@, old(ctx).state(), *x) == Ok::<CtxState, ConvertError>(final(ctx).state()),
            Err(e) => extract_value_step(types.named_structs@, old(ctx).state(), *x) == Err::<CtxState, ConvertError>(e),
        },
{
    let n = x.indices.len();
    if n == 0 {
        return Err(ConvertError::AggregateIndicesEmpty);
    }
    emit_operand(&types.named_structs, &ctx.value_map, &mut ctx.ops, &x.aggregate)?;
    let ghost a1 = ctx.ops@;
    let mut j: usize = 0;
    while j + 1 < n
        invariant
            extends(ctx.ops@, old(ctx).ops@),
            n == x.indices@.len(),
            j < n,
            ctx.wf(),
            ctx.module_name == old(ctx).module_name,
            ctx.value_map == old(ctx).value_map,
            ctx.bb_map == old(ctx).bb_map,
            extract_prefix(a1, x.indices@, 0) == extract_prefix(ctx.ops@, x.indices@, j as int),
        decreases n - j,
    {
        let h = ctx.ops.len();
        ctx.ops.push(Op::BuildExtractValue { index: x.indices[j], name: None });
        ctx.ops.push(Op::Value(h));
        j = j + 1;
    }
    let ghost a2 = ctx.ops@;
    assert(extract_prefix(a2, x.indices@, j as int) == a2);
    define_value(ctx, Op::BuildExtractValue { index: x.indices[n - 1], name: Some(x.dest.clone_name()) }, &x.dest);
    Ok(())
}

/// Appends the operations that push an aggregate: `agg` itself, or the
/// value made by operation `src`.
fn emit_agg(defs: &Vec<(String, NamedStructDef)>, values: &NameMap, out: &mut Vec<Op>, agg: &Operand, src: Option<usize>) -> (r: Result<(), ConvertError>)
    requires
        values.wf(),
    ensures
        extends(final(out)@, old(out)@),
        match r {
            Ok(_) => agg_code(defs@, values.view(), old(out)@, *agg, src) == Ok::<Seq<Op>, ConvertError>(final(out)@),
            Err(e) => agg_code(defs@, values.view(), old(out)@, *agg, src) == Err::<Seq<Op>, ConvertError>(e),
        },
{
    match src {
        Some(h) => {
            out.push(Op::Value(h));
            Ok(())
        },
        None => emit_operand(defs, values, out, agg),
    }
}

/// Appends the operations that replace by `elem` the field at the path
/// `idx[j..]` of the aggregate given by `agg` and `src`.
fn emit_insert(
    defs: &Vec<(String, NamedStructDef)>,
    values: &NameMap,
    out: &mut Vec<Op>,
    agg: &Operand,
    src: Option<usize>,
    elem: &Operand,
    idx: &Vec<u32>,
    j: usize,
    name: &Option<Name>,
) -> (r: Result<(), ConvertError>)
    requires
        values.wf(),
        j < idx@.len(),
    ensures
        extends(final(out)@, old(out)@),
        r is Ok ==> final(out)@.len() > 0,
        match r {
            Ok(_) => insert_code(defs@, values.view(), old(out)@, *agg, src, *elem, idx@, j as int, *name)
                == Ok::<Seq<Op>, ConvertError>(final(out)@),
            Err(e) => insert_code(defs@, values.view(), old(out)@, *agg, src, *elem, idx@, j as int, *name)
                == Err::<Seq<Op>, ConvertError>(e),
        },
    decreases idx@.len() - j,
{
    if j < idx.len() - 1 {
        emit_agg(defs, values, out, agg, src)?;
        emit_agg(defs, values, out, agg, src)?;
        let hx = out.len();
        out.push(Op::BuildExtractValue { index: idx[j], name: None });
        emit_insert(defs, values, out, agg, Some(hx), elem, idx, j + 1, &None)?;
        let hi = out.len() - 1;
        out.push(Op::Value(hi));
        out.push(Op::BuildInsertValue { index: idx[j], name: clone_opt_name(name) });
        Ok(())
    } else {
        emit_agg(defs, values, out, agg, src)?;
        emit_operand(defs, values, out, elem)?;
        out.push(Op::BuildInsertValue { index: idx[j], name: clone_opt_name(name) });
        Ok(())
    }
}

fn convert_insert_value(ctx: &mut ToLLVMContext, types: &Types, x: &InsertValue) -> (r: Result<(), ConvertError>)
    requires
        old(ctx).wf(),
    ensures
        extends(final(ctx).ops@, old(ctx).ops@),
        final(ctx).wf(),
        final(ctx).module_name == old(ctx).module_name,
        r is Err ==> keeps_bindings(old(ctx).state(), final(ctx).state()),
        match r {
            Ok(_) => insert_value_step(types.named_structs@, old(ctx).state(), *x) == Ok::<CtxState, ConvertError>(final(ctx).state()),
            Err(e) => insert_value_step(types.named_structs@, old(ctx).state(), *x) == Err::<CtxState, ConvertError>(e),
        },
{
    if x.indices.len() == 0 {
        return Err(ConvertError::AggregateIndicesEmpty);
    }
    let name = Some(x.dest.clone_name());
    emit_insert(&types.named_structs, &ctx.value_map, &mut ctx.ops, &x.aggregate, None, &x.element, &x.indices, 0, &name)?;
    let h = ctx.ops.len() - 1;
    ctx.insert_value(x.dest.clone_name(), h);
    Ok(())
}

fn convert_cmpxchg(ctx: &mut ToLLVMContext, types: &Types, c: &CmpXchg) -> (r: Result<(), ConvertError>)
    requires
        old(ctx).wf(),
    ensures
        extends(final(ctx).ops@, old(ctx).ops@),
        final(ctx).wf(),
        final(ctx).module_name == old(ctx).module_name,
        r is Err ==> keeps_bindings(old(ctx).state(), final(ctx).state()),
        match r {
            Ok(_) => cmpxchg_step(types.named_structs@, old(ctx).state(), *c) == Ok::<CtxState, ConvertError>(final(ctx).state()),
            Err(e) => cmpxchg_step(types.named_structs@, old(ctx).state(), *c) == Err::<CtxState, ConvertError>(e),
        },
{
    let op = Op::BuildCmpXchg {
        success: c.atomicity.mem_ordering.to_llvm(),
        failure: c.failure_memory_ordering.to_llvm(),
        single_thread: is_single_thread(&c.atomicity),
        weak: c.weak,
        volatile: c.volatile,
        name: c.dest.clone_name(),
    };
    convert3(ctx, types, &c.address, &c.expected, &c.replacement, op, &c.dest)
}

fn convert_atomicrmw(ctx: &mut ToLLVMContext, types: &Types, a: &AtomicRMW) -> (r: Result<(), ConvertError>)
    requires
        old(ctx).wf(),
    ensures
        extends(final(ctx).ops@, old(ctx).ops@),
        final(ctx).wf(),
        final(ctx).module_name == old(ctx).module_name,
        r is Err ==> keeps_bindings(old(ctx).state(), final(ctx).state()),
        match r {
            Ok(_) => atomicrmw_step(types.named_structs@, old(ctx).state(), *a) == Ok::<CtxState, ConvertError>(final(ctx).state()),
            Err(e) => atomicrmw_step(types.named_structs@, old(ctx).state(), *a) == Err::<CtxState, ConvertError>(e),
        },
{
    let op = Op::BuildAtomicRMW {
        operation: a.operation.to_llvm(),
        ordering: a.atomicity.mem_ordering.to_llvm(),
        single_thread: is_single_thread(&a.atomicity),
        volatile: a.volatile,
        name: a.dest.clone_name(),
    };
    convert2(ctx, types, &a.address, &a.value, op, &a.dest)
}

fn emit_dests(ctx: &mut ToLLVMContext, dests: &Vec<Name>, ib: usize) -> (r: Result<(), ConvertError>)
    requires
        old(ctx).wf(),
    ensures
        extends(final(ctx).ops@, old(ctx).ops@),
        final(ctx).wf(),
        final(ctx).module_name == old(ctx).module_name,
        r is Err ==> keeps_bindings(old(ctx).state(), final(ctx).state()),
        final(ctx).value_map == old(ctx).value_map,
        final(ctx).bb_map == old(ctx).bb_map,
        match r {
            Ok(_) => dests_code(old(ctx).state().bbs, old(ctx).ops@, dests@, ib, 0) == Ok::<Seq<Op>, ConvertError>(final(ctx).ops@),
            Err(e) => dests_code(old(ctx).state().bbs, old(ctx).ops@, dests@, ib, 0) == Err::<Seq<Op>, ConvertError>(e),
        },
{
    let ghost st = ctx.state();
    let mut i: usize = 0;
    while i < dests.len()
        invariant
            extends(ctx.ops@, old(ctx).ops@),
            i <= dests@.len(),
            ctx.wf(),
            ctx.module_name == old(ctx).module_name,
            ctx.value_map == old(ctx).value_map,
            ctx.bb_map == old(ctx).bb_map,
            st == old(ctx).state(),
            dests_code(st.bbs, st.ops, dests@, ib, 0) == dests_code(st.bbs, ctx.ops@, dests@, ib, i as int),
        decreases dests@.len() - i,
    {
        match ctx.get_bb(&dests[i]) {
            Some(h) => {
                ctx.ops.push(Op::AddDestination { indirect_br: ib, block: h });
            },
            None => {
                return Err(ConvertError::TargetBlockNotFound(dests[i].clone_name()));
            },
        }
        i = i + 1;
    }
    Ok(())
}

fn convert_invoke(ctx: &mut ToLLVMContext, types: &Types, iv: &Invoke) -> (r: Result<(), ConvertError>)
    requires
        old(ctx).wf(),
    ensures
        extends(final(ctx).ops@, old(ctx).ops@),
        final(ctx).wf(),
        final(ctx).module_name == old(ctx).module_name,
        r is Err ==> keeps_bindings(old(ctx).state(), final(ctx).state()),
        match r {
            Ok(_) => invoke_step(types.named_structs@, old(ctx).state(), *iv) == Ok::<CtxState, ConvertError>(final(ctx).state()),
            Err(e) => invoke_step(types.named_structs@, old(ctx).state(), *iv) == Err::<CtxState, ConvertError>(e),
        },
{
    let defs = &types.named_structs;
    match &iv.function {
        Callee::InlineAssembly { ty: _ } => {
            return Err(ConvertError::InlineAsmCallUnsupported);
        },
        Callee::Operand(f) => {
            emit_operand(defs, &ctx.value_map, &mut ctx.ops, f)?;
        },
    }
    emit_type_top(defs, &mut ctx.ops, &iv.function_ty)?;
    emit_operands(defs, &ctx.value_map, &mut ctx.ops, &iv.arguments)?;
    let t = match ctx.get_bb(&iv.return_label) {
        Some(h) => h,
        None => {
            return Err(ConvertError::TargetBlockNotFound(iv.return_label.clone_name()));
        },
    };
    let c = match ctx.get_bb(&iv.exception_label) {
        Some(h) => h,
        None => {
            return Err(ConvertError::TargetBlockNotFound(iv.exception_label.clone_name()));
        },
    };
    let op = Op::BuildInvoke { arg_count: iv.arguments.len(), then_block: t, catch_block: c, name: iv.result.clone_name() };
    define_value(ctx, op, &iv.result);
    Ok(())
}

/// Adds the incoming pairs of a phi that was built.
fn fill_phi(ctx: &mut ToLLVMContext, types: &Types, p: &Phi) -> (r: Result<(), ConvertError>)
    requires
        old(ctx).wf(),
    ensures
        extends(final(ctx).ops@, old(ctx).ops@),
        final(ctx).wf(),
        final(ctx).module_name == old(ctx).module_name,
        final(ctx).value_map == old(ctx).value_map,
        final(ctx).bb_map == old(ctx).bb_map,
        match r {
            Ok(_) => phi_fill_step(types.named_structs@, old(ctx).state(), *p) == Ok::<CtxState, ConvertError>(final(ctx).state()),
            Err(e) => phi_fill_step(types.named_structs@, old(ctx).state(), *p) == Err::<CtxState, ConvertError>(e),
        },
{
    let h = match ctx.value_map.get(&p.dest) {
        Some(h) => h,
        None => {
            return Err(ConvertError::LocalOperandNotFound(p.dest.clone_name()));
        },
    };
    if h >= ctx.ops.len() {
        return Err(ConvertError::LocalOperandNotFound(p.dest.clone_name()));
    }
    let is_phi = match &ctx.ops[h] {
        Op::BuildPhi(_) => true,
        _ => false,
    };
    if !is_phi {
        return Err(ConvertError::LocalOperandNotFound(p.dest.clone_name()));
    }
    emit_incoming(ctx, types, &p.incoming_values)?;
    ctx.ops.push(Op::AddIncoming { phi: h, count: p.incoming_values.len() });
    Ok(())
}

impl Instruction {
    /// Appends to the context's program the operations that build this
    /// instruction, and binds its result's name. A conversion that fails leaves the context as
    /// it was.
    pub fn to_llvm(&self, ctx: &mut ToLLVMContext, types: &Types) -> (r: Result<(), ConvertError>)
        requires
            old(ctx).wf(),
        ensures
            extends(final(ctx).ops@, old(ctx).ops@),
            final(ctx).wf(),
            final(ctx).module_name == old(ctx).module_name,
            r is Err ==> final(ctx).ops@ == old(ctx).ops@,
            r is Err ==> final(ctx).state().values == old(ctx).state().values,
            r is Err ==> final(ctx).state().bbs == old(ctx).state().bbs,
            match r {
                Ok(_) => instr_step(types.named_structs@, old(ctx).state(), *self) == Ok::<CtxState, ConvertError>(final(ctx).state()),
                Err(e) => instr_step(types.named_structs@, old(ctx).state(), *self) == Err::<CtxState, ConvertError>(e),
            },
    {
        let n = ctx.ops.len();
        let r = self.build(ctx, types);
        if r.is_err() {
            ctx.discard_from(n);
            assert(ctx.ops@ =~= old(ctx).ops@);
        }
        r
    }

    /// Appends to the context's program the operations that build this
    /// instruction, and binds its result's name.
    fn build(&self, ctx: &mut ToLLVMContext, types: &Types) -> (r: Result<(), ConvertError>)
        requires
            old(ctx).wf(),
        ensures
            extends(final(ctx).ops@, old(ctx).ops@),
            final(ctx).wf(),
            final(ctx).module_name == old(ctx).module_name,
            r is Err ==> final(ctx).state().values == old(ctx).state().values,
            r is Err ==> final(ctx).state().bbs == old(ctx).state().bbs,
            match r {
                Ok(_) => instr_step(types.named_structs@, old(ctx).state(), *self) == Ok::<CtxState, ConvertError>(final(ctx).state()),
                Err(e) => instr_step(types.named_structs@, old(ctx).state(), *self) == Err::<CtxState, ConvertError>(e),
            },
    {
        let ghost st = ctx.state();
        let defs = &types.named_structs;
        match self {
            Instruction::Add(b) => convert_binary(ctx, types, BinaryOpcode::Add, b),
            Instruction::Sub(b) => convert_binary(ctx, types, BinaryOpcode::Sub, b),
            Instruction::Mul(b) => convert_binary(ctx, types, BinaryOpcode::Mul, b),
            Instruction::UDiv(b) => convert_binary(ctx, types, BinaryOpcode::UDiv, b),
            Instruction::SDiv(b) => convert_binary(ctx, types, BinaryOpcode::SDiv, b),
            Instruction::URem(b) => convert_binary(ctx, types, BinaryOpcode::URem, b),
            Instruction::SRem(b) => convert_binary(ctx, types, BinaryOpcode::SRem, b),
            Instruction::And(b) => convert_binary(ctx, types, BinaryOpcode::And, b),
            Instruction::Or(b) => convert_binary(ctx, types, BinaryOpcode::Or, b),
            Instruction::Xor(b) => convert_binary(ctx, types, BinaryOpcode::Xor, b),
            Instruction::Shl(b) => convert_binary(ctx, types, BinaryOpcode::Shl, b),
            Instruction::LShr(b) => convert_binary(ctx, types, BinaryOpcode::LShr, b),
            Instruction::AShr(b) => convert_binary(ctx, types, BinaryOpcode::AShr, b),
            Instruction::FAdd(b) => convert_binary(ctx, types, BinaryOpcode::FAdd, b),
            Instruction::FSub(b) => convert_binary(ctx, types, BinaryOpcode::FSub, b),
            Instruction::FMul(b) => convert_binary(ctx, types, BinaryOpcode::FMul, b),
            Instruction::FDiv(b) => convert_binary(ctx, types, BinaryOpcode::FDiv, b),
            Instruction::FRem(b) => convert_binary(ctx, types, BinaryOpcode::FRem, b),
            Instruction::FNeg(u) => convert1(ctx, types, &u.operand, Op::BuildFNeg(u.dest.clone_name()), &u.dest),
            Instruction::Freeze(u) => convert1(ctx, types, &u.operand, Op::BuildFreeze(u.dest.clone_name()), &u.dest),
            Instruction::ExtractElement(x) => convert2(ctx, types, &x.vector, &x.index, Op::BuildExtractElement(x.dest.clone_name()), &x.dest),
            Instruction::InsertElement(x) => convert3(
                ctx,
                types,
                &x.vector,
                &x.element,
                &x.index,
                Op::BuildInsertElement(x.dest.clone_name()),
                &x.dest,
            ),
            Instruction::ShuffleVector(x) => {
                emit_operand2(defs, &ctx.value_map, &mut ctx.ops, &x.operand0, &x.operand1)?;
                emit_const(defs, &ctx.value_map, &mut ctx.ops, &x.mask)?;
                define_value(ctx, Op::BuildShuffleVector(x.dest.clone_name()), &x.dest);
                Ok(())
            },
            Instruction::ExtractValue(x) => convert_extract_value(ctx, types, x),
            Instruction::InsertValue(x) => convert_insert_value(ctx, types, x),
            Instruction::Fence(f) => {
                let ordering = f.atomicity.mem_ordering.to_llvm();
                let single = is_single_thread(&f.atomicity);
                ctx.push_op(Op::BuildFence { ordering, single_thread: single });
                Ok(())
            },
            Instruction::CmpXchg(c) => convert_cmpxchg(ctx, types, c),
            Instruction::AtomicRMW(a) => convert_atomicrmw(ctx, types, a),
            Instruction::Trunc(c) => convert_cast(ctx, types, CastOpcode::Trunc, c),
            Instruction::ZExt(c) => convert_cast(ctx, types, CastOpcode::ZExt, c),
            Instruction::SExt(c) => convert_cast(ctx, types, CastOpcode::SExt, c),
            Instruction::FPTrunc(c) => convert_cast(ctx, types, CastOpcode::FPTrunc, c),
            Instruction::FPExt(c) => convert_cast(ctx, types, CastOpcode::FPExt, c),
            Instruction::FPToUI(c) => convert_cast(ctx, types, CastOpcode::FPToUI, c),
            Instruction::FPToSI(c) => convert_cast(ctx, types, CastOpcode::FPToSI, c),
            Instruction::UIToFP(c) => convert_cast(ctx, types, CastOpcode::UIToFP, c),
            Instruction::SIToFP(c) => convert_cast(ctx, types, CastOpcode::SIToFP, c),
            Instruction::PtrToInt(c) => convert_cast(ctx, types, CastOpcode::PtrToInt, c),
            Instruction::IntToPtr(c) => convert_cast(ctx, types, CastOpcode::IntToPtr, c),
            Instruction::BitCast(c) => convert_cast(ctx, types, CastOpcode::BitCast, c),
            Instruction::AddrSpaceCast(c) => convert_cast(ctx, types, CastOpcode::AddrSpaceCast, c),
            Instruction::FCmp(c) => {
                let pred = c.predicate.to_llvm();
                convert2(ctx, types, &c.operand0, &c.operand1, Op::BuildFCmp { predicate: pred, name: c.dest.clone_name() }, &c.dest)
            },
            Instruction::Select(x) => convert3(
                ctx,
                types,
                &x.condition,
                &x.true_value,
                &x.false_value,
                Op::BuildSelect(x.dest.clone_name()),
                &x.dest,
            ),
            Instruction::Call(c) => {
                match &c.function {
                    Callee::InlineAssembly { ty: _ } => {
                        return Err(ConvertError::InlineAsmCallUnsupported);
                    },
                    Callee::Operand(f) => {
                        emit_operand(defs, &ctx.value_map, &mut ctx.ops, f)?;
                    },
                }
                emit_type_top(defs, &mut ctx.ops, &c.function_ty)?;
                emit_operands(defs, &ctx.value_map, &mut ctx.ops, &c.arguments)?;
                let ghost a3 = ctx.ops@;
                let op = Op::BuildCall { arg_count: c.arguments.len(), name: clone_opt_name(&c.dest) };
                match &c.dest {
                    Some(d) => {
                        define_value(ctx, op, d);
                    },
                    None => {
                        ctx.push_op(op);
                        assert(ctx.state() == with_ops(st, a3.push(Op::BuildCall { arg_count: c.arguments.len(), name: c.dest })));
                    },
                }
                Ok(())
            },
            Instruction::Alloca(a) => {
                emit_type_top(defs, &mut ctx.ops, &a.allocated_type)?;
                define_value(ctx, Op::BuildAlloca(a.dest.clone_name()), &a.dest);
                Ok(())
            },
            Instruction::Load(l) => {
                emit_operand(defs, &ctx.value_map, &mut ctx.ops, &l.address)?;
                emit_type_top(defs, &mut ctx.ops, &l.loaded_ty)?;
                define_value(ctx, Op::BuildLoad(l.dest.clone_name()), &l.dest);
                Ok(())
            },
            Instruction::Store(s) => {
                emit_operand(defs, &ctx.value_map, &mut ctx.ops, &s.value)?;
                emit_operand(defs, &ctx.value_map, &mut ctx.ops, &s.address)?;
                ctx.push_op(Op::BuildStore);
                Ok(())
            },
            Instruction::GetElementPtr(g) => {
                emit_operand(defs, &ctx.value_map, &mut ctx.ops, &g.address)?;
                emit_operands(defs, &ctx.value_map, &mut ctx.ops, &g.indices)?;
                emit_type_top(defs, &mut ctx.ops, &g.source_element_type)?;
                define_value(ctx, Op::BuildGEP { index_count: g.indices.len(), name: g.dest.clone_name() }, &g.dest);
                Ok(())
            },
            Instruction::ICmp(c) => {
                emit_operand(defs, &ctx.value_map, &mut ctx.ops, &c.operand0)?;
                emit_operand(defs, &ctx.value_map, &mut ctx.ops, &c.operand1)?;
                let pred = c.predicate.to_llvm();
                define_value(ctx, Op::BuildICmp { predicate: pred, name: c.dest.clone_name() }, &c.dest);
                Ok(())
            },
            Instruction::Phi(p) => {
                emit_type_top(defs, &mut ctx.ops, &p.to_type)?;
                define_value(ctx, Op::BuildPhi(p.dest.clone_name()), &p.dest);
                Ok(())
            },
            Instruction::VAArg => Err(ConvertError::InstructionUnsupported),
            Instruction::LandingPad => Err(ConvertError::InstructionUnsupported),
            Instruction::CatchPad => Err(ConvertError::InstructionUnsupported),
            Instruction::CleanupPad => Err(ConvertError::InstructionUnsupported),
        }
    }
}

impl Terminator {
    /// Appends to the context's program the operations that build this
    /// terminator. A conversion that fails leaves the context as
    /// it was.
    pub fn to_llvm(&self, ctx: &mut ToLLVMContext, types: &Types) -> (r: Result<(), ConvertError>)
        requires
            old(ctx).wf(),
        ensures
            extends(final(ctx).ops@, old(ctx).ops@),
            final(ctx).wf(),
            final(ctx).module_name == old(ctx).module_name,
            r is Err ==> final(ctx).ops@ == old(ctx).ops@,
            r is Err ==> final(ctx).state().values == old(ctx).state().values,
            r is Err ==> final(ctx).state().bbs == old(ctx).state().bbs,
            match r {
                Ok(_) => term_step(types.named_structs@, old(ctx).state(), *self) == Ok::<CtxState, ConvertError>(final(ctx).state()),
                Err(e) => term_step(types.named_structs@, old(ctx).state(), *self) == Err::<CtxState, ConvertError>(e),
            },
    {
        let n = ctx.ops.len();
        let r = self.build(ctx, types);
        if r.is_err() {
            ctx.discard_from(n);
            assert(ctx.ops@ =~= old(ctx).ops@);
        }
        r
    }

    /// Appends to the context's program the operations that build this
    /// terminator.
    fn build(&self, ctx: &mut ToLLVMContext, types: &Types) -> (r: Result<(), ConvertError>)
        requires
            old(ctx).wf(),
        ensures
            extends(final(ctx).ops@, old(ctx).ops@),
            final(ctx).wf(),
            final(ctx).module_name == old(ctx).module_name,
            r is Err ==> final(ctx).state().values == old(ctx).state().values,
            r is Err ==> final(ctx).state().bbs == old(ctx).state().bbs,
            match r {
                Ok(_) => term_step(types.named_structs@, old(ctx).state(), *self) == Ok::<CtxState, ConvertError>(final(ctx).state()),
                Err(e) => term_step(types.named_structs@, old(ctx).state(), *self) == Err::<CtxState, ConvertError>(e),
            },
    {
        let defs = &types.named_structs;
        match self {
            Terminator::Ret(r) => {
                match &r.return_operand {
                    Some(op) => {
                        emit_operand(defs, &ctx.value_map, &mut ctx.ops, op)?;
                        ctx.push_op(Op::BuildRet);
                    },
                    None => {
                        ctx.push_op(Op::BuildRetVoid);
                    },
                }
                Ok(())
            },
            Terminator::Br(b) => match ctx.get_bb(&b.dest) {
                Some(h) => {
                    ctx.push_op(Op::BuildBr(h));
                    Ok(())
                },
                None => Err(ConvertError::TargetBlockNotFound(b.dest.clone_name())),
            },
            Terminator::CondBr(c) => {
                emit_operand(defs, &ctx.value_map, &mut ctx.ops, &c.condition)?;
                let t = match ctx.get_bb(&c.true_dest) {
                    Some(h) => h,
                    None => {
                        return Err(ConvertError::TargetBlockNotFound(c.true_dest.clone_name()));
                    },
                };
                let f = match ctx.get_bb(&c.false_dest) {
                    Some(h) => h,
                    None => {
                        return Err(ConvertError::TargetBlockNotFound(c.false_dest.clone_name()));
                    },
                };
                ctx.push_op(Op::BuildCondBr { then_block: t, else_block: f });
                Ok(())
            },
            Terminator::Switch(s) => {
                emit_operand(defs, &ctx.value_map, &mut ctx.ops, &s.operand)?;
                let d = match ctx.get_bb(&s.default_dest) {
                    Some(h) => h,
                    None => {
                        return Err(ConvertError::TargetBlockNotFound(s.default_dest.clone_name()));
                    },
                };
                let h = ctx.push_op(Op::BuildSwitch { default_block: d, case_count: s.dests.len() });
                emit_cases(ctx, types, &s.dests, h)?;
                Ok(())
            },
            Terminator::IndirectBr(b) => {
                emit_operand(defs, &ctx.value_map, &mut ctx.ops, &b.operand)?;
                let h = ctx.push_op(Op::BuildIndirectBr { dest_count: b.possible_dests.len() });
                emit_dests(ctx, &b.possible_dests, h)?;
                Ok(())
            },
            Terminator::Invoke(iv) => convert_invoke(ctx, types, iv),
            Terminator::Resume(r) => {
                emit_operand(defs, &ctx.value_map, &mut ctx.ops, &r.operand)?;
                ctx.push_op(Op::BuildResume);
                Ok(())
            },
            Terminator::Unreachable => {
                ctx.push_op(Op::BuildUnreachable);
                Ok(())
            },
            Terminator::CleanupRet => Err(ConvertError::TerminatorUnsupported),
            Terminator::CatchRet => Err(ConvertError::TerminatorUnsupported),
            Terminator::CatchSwitch => Err(ConvertError::TerminatorUnsupported),
            Terminator::CallBr => Err(ConvertError::TerminatorUnsupported),
        }
    }
}

impl BasicBlock {
    /// Appends to the context's program the operations that add the
    /// incoming pairs of this block's phis, in order, once the values of its
    /// function are all made. No name is bound.
    pub fn fill_phis(&self, ctx: &mut ToLLVMContext, types: &Types) -> (r: Result<(), ConvertError>)
        requires
            old(ctx).wf(),
        ensures
            extends(final(ctx).ops@, old(ctx).ops@),
            final(ctx).wf(),
            final(ctx).module_name == old(ctx).module_name,
            final(ctx).state().values == old(ctx).state().values,
            final(ctx).state().bbs == old(ctx).state().bbs,
            match r {
                Ok(_) => instrs_phis_step(types.named_structs@, old(ctx).state(), self.instrs@, 0) == Ok::<CtxState, ConvertError>(final(ctx).state()),
                Err(e) => instrs_phis_step(types.named_structs@, old(ctx).state(), self.instrs@, 0) == Err::<CtxState, ConvertError>(e),
            },
    {
        let mut j: usize = 0;
        while j < self.instrs.len()
            invariant
                extends(ctx.ops@, old(ctx).ops@),
                j <= self.instrs@.len(),
                ctx.wf(),
                ctx.module_name == old(ctx).module_name,
                ctx.value_map == old(ctx).value_map,
                ctx.bb_map == old(ctx).bb_map,
                instrs_phis_step(types.named_structs@, old(ctx).state(), self.instrs@, 0)
                    == instrs_phis_step(types.named_structs@, ctx.state(), self.instrs@, j as int),
            decreases self.instrs@.len() - j,
        {
            match &self.instrs[j] {
                Instruction::Phi(p) => {
                    fill_phi(ctx, types, p)?;
                },
                _ => {},
            }
            j = j + 1;
        }
        Ok(())
    }

    /// Appends to the context's program the operations that fill this
    /// block, whose block must already have been made. A block that fails
    /// to convert (its block was not made, or one of its instructions or
    /// its terminator fails) leaves the context as it was.
    pub fn to_llvm(&self, ctx: &mut ToLLVMContext, types: &Types) -> (r: Result<(), ConvertError>)
        requires
            old(ctx).wf(),
        ensures
            extends(final(ctx).ops@, old(ctx).ops@),
            final(ctx).wf(),
            final(ctx).module_name == old(ctx).module_name,
            r is Err ==> final(ctx).ops@ == old(ctx).ops@,
            r is Err ==> final(ctx).state().values == old(ctx).state().values,
            r is Err ==> final(ctx).state().bbs == old(ctx).state().bbs,
            match r {
                Ok(_) => bb_step(types.named_structs@, old(ctx).state(), *self) == Ok::<CtxState, ConvertError>(final(ctx).state()),
                Err(e) => bb_step(types.named_structs@, old(ctx).state(), *self) == Err::<CtxState, ConvertError>(e),
            },
    {
        let bb = match ctx.get_bb(&self.name) {
            Some(h) => h,
            None => {
                return Err(ConvertError::BasicBlockNotFound(self.name.clone_name()));
            },
        };
        let n = ctx.ops.len();
        let saved = ctx.value_map.copy();
        let saved_bbs = ctx.bb_map.copy();
        ctx.push_op(Op::PositionAtEnd(bb));
        let ghost st1 = ctx.state();
        let mut i: usize = 0;
        while i < self.instrs.len()
            invariant
                extends(ctx.ops@, old(ctx).ops@),
                n == old(ctx).ops@.len(),
                i <= self.instrs@.len(),
                ctx.wf(),
                ctx.module_name == old(ctx).module_name,
                old(ctx).state().bbs.contains_key(self.name.key()),
                saved.wf(),
                saved.view() == old(ctx).state().values,
                saved_bbs.wf(),
                saved_bbs.view() == old(ctx).state().bbs,
                st1 == with_op(old(ctx).state(), Op::PositionAtEnd(old(ctx).state().bbs[self.name.key()])),
                instrs_step(types.named_structs@, st1, self.instrs@, 0)
                    == instrs_step(types.named_structs@, ctx.state(), self.instrs@, i as int),
            decreases self.instrs@.len() - i,
        {
            let ghost sti = ctx.state();
            let r = self.instrs[i].to_llvm(ctx, types);
            if let Err(e) = r {
                assert(instrs_step(types.named_structs@, sti, self.instrs@, i as int) == Err::<CtxState, ConvertError>(e));
                ctx.value_map = saved;
                ctx.bb_map = saved_bbs;
                ctx.discard_from(n);
                assert(ctx.ops@ =~= old(ctx).ops@);
                return Err(e);
            }
            i = i + 1;
        }
        let ghost st2 = ctx.state();
        assert(instrs_step(types.named_structs@, st1, self.instrs@, 0) == Ok::<CtxState, ConvertError>(st2));
        let r = self.term.to_llvm(ctx, types);
        if r.is_err() {
            ctx.value_map = saved;
            ctx.bb_map = saved_bbs;
            ctx.discard_from(n);
            assert(ctx.ops@ =~= old(ctx).ops@);
        }
        r
    }
}

} // verus!
