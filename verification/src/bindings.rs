//! Which names a conversion step binds. Converting an instruction or a
//! terminator binds at most its own result's name and leaves every other
//! binding, and every block binding, as it was.

use vstd::prelude::*;
use crate::body_conv::{bb_step, instr_step, instrs_step, term_step};
use crate::context::with_op;
use crate::ir::{BasicBlock, Instruction, Name, Terminator};
use crate::plan::{ConvertError, CtxState, Op};
use crate::types_conv::Defs;

verus! {

/// The name an instruction gives its result, if it has one.
pub open spec fn instr_dest(instr: Instruction) -> Option<Name> {
    match instr {
        Instruction::Add(b) => Some(b.dest),
        Instruction::Sub(b) => Some(b.dest),
        Instruction::Mul(b) => Some(b.dest),
        Instruction::UDiv(b) => Some(b.dest),
        Instruction::SDiv(b) => Some(b.dest),
        Instruction::URem(b) => Some(b.dest),
        Instruction::SRem(b) => Some(b.dest),
        Instruction::And(b) => Some(b.dest),
        Instruction::Or(b) => Some(b.dest),
        Instruction::Xor(b) => Some(b.dest),
        Instruction::Shl(b) => Some(b.dest),
        Instruction::LShr(b) => Some(b.dest),
        Instruction::AShr(b) => Some(b.dest),
        Instruction::FAdd(b) => Some(b.dest),
        Instruction::FSub(b) => Some(b.dest),
        Instruction::FMul(b) => Some(b.dest),
        Instruction::FDiv(b) => Some(b.dest),
        Instruction::FRem(b) => Some(b.dest),
        Instruction::FNeg(u) => Some(u.dest),
        Instruction::ExtractElement(x) => Some(x.dest),
        Instruction::InsertElement(x) => Some(x.dest),
        Instruction::ShuffleVector(x) => Some(x.dest),
        Instruction::ExtractValue(x) => Some(x.dest),
        Instruction::InsertValue(x) => Some(x.dest),
        Instruction::Alloca(a) => Some(a.dest),
        Instruction::Load(l) => Some(l.dest),
        Instruction::Store(_) => None,
        Instruction::Fence(_) => None,
        Instruction::CmpXchg(c) => Some(c.dest),
        Instruction::AtomicRMW(a) => Some(a.dest),
        Instruction::GetElementPtr(g) => Some(g.dest),
        Instruction::Trunc(c) => Some(c.dest),
        Instruction::ZExt(c) => Some(c.dest),
        Instruction::SExt(c) => Some(c.dest),
        Instruction::FPTrunc(c) => Some(c.dest),
        Instruction::FPExt(c) => Some(c.dest),
        Instruction::FPToUI(c) => Some(c.dest),
        Instruction::FPToSI(c) => Some(c.dest),
        Instruction::UIToFP(c) => Some(c.dest),
        Instruction::SIToFP(c) => Some(c.dest),
        Instruction::PtrToInt(c) => Some(c.dest),
        Instruction::IntToPtr(c) => Some(c.dest),
        Instruction::BitCast(c) => Some(c.dest),
        Instruction::AddrSpaceCast(c) => Some(c.dest),
        Instruction::ICmp(c) => Some(c.dest),
        Instruction::FCmp(c) => Some(c.dest),
        Instruction::Phi(p) => Some(p.dest),
        Instruction::Select(x) => Some(x.dest),
        Instruction::Freeze(u) => Some(u.dest),
        Instruction::Call(c) => c.dest,
        Instruction::VAArg => None,
        Instruction::LandingPad => None,
        Instruction::CatchPad => None,
        Instruction::CleanupPad => None,
    }
}

/// The name a terminator gives its result: only an invoke has one.
pub open spec fn term_dest(t: Terminator) -> Option<Name> {
    match t {
        Terminator::Invoke(iv) => Some(iv.result),
        _ => None,
    }
}

/// State `s` differs from `st` at most by the binding of `dest` (if any):
/// the block bindings are the same, `dest` is bound, and every other value
/// binding is the same.
pub open spec fn binds_only(st: CtxState, s: CtxState, dest: Option<Name>) -> bool {
    &&& s.bbs == st.bbs
    &&& match dest {
        Some(d) => s.values.contains_key(d.key()) && s.values == st.values.insert(d.key(), s.values[d.key()]),
        None => s.values == st.values,
    }
}

/// A step from `st` to `r`, if it succeeds, binds only `dest`.
pub open spec fn step_binds_only(st: CtxState, r: Result<CtxState, ConvertError>, dest: Option<Name>) -> bool {
    match r {
        Ok(s) => binds_only(st, s, dest),
        Err(_) => true,
    }
}

proof fn lemma_instr_binds_a(defs: Defs, st: CtxState, instr: Instruction)
    requires
        instr is Add || instr is Sub || instr is Mul || instr is UDiv || instr is SDiv || instr is URem
            || instr is SRem || instr is And || instr is Or || instr is Xor || instr is Shl || instr is LShr
            || instr is AShr || instr is FAdd || instr is FSub || instr is FMul || instr is FDiv || instr is FRem,
    ensures
        step_binds_only(st, instr_step(defs, st, instr), instr_dest(instr)),
{
    if let Ok(s) = instr_step(defs, st, instr) {
        let d = instr_dest(instr)->Some_0;
        assert(s.values =~= st.values.insert(d.key(), s.values[d.key()]));
    }
}

proof fn lemma_instr_binds_b(defs: Defs, st: CtxState, instr: Instruction)
    requires
        instr is Trunc || instr is ZExt || instr is SExt || instr is FPTrunc || instr is FPExt || instr is FPToUI
            || instr is FPToSI || instr is UIToFP || instr is SIToFP || instr is PtrToInt || instr is IntToPtr
            || instr is BitCast || instr is AddrSpaceCast,
    ensures
        step_binds_only(st, instr_step(defs, st, instr), instr_dest(instr)),
{
    if let Ok(s) = instr_step(defs, st, instr) {
        let d = instr_dest(instr)->Some_0;
        assert(s.values =~= st.values.insert(d.key(), s.values[d.key()]));
    }
}

proof fn lemma_instr_binds_c(defs: Defs, st: CtxState, instr: Instruction)
    requires
        !(instr is Add || instr is Sub || instr is Mul || instr is UDiv || instr is SDiv || instr is URem
            || instr is SRem || instr is And || instr is Or || instr is Xor || instr is Shl || instr is LShr
            || instr is AShr || instr is FAdd || instr is FSub || instr is FMul || instr is FDiv || instr is FRem),
        !(instr is Trunc || instr is ZExt || instr is SExt || instr is FPTrunc || instr is FPExt || instr is FPToUI
            || instr is FPToSI || instr is UIToFP || instr is SIToFP || instr is PtrToInt || instr is IntToPtr
            || instr is BitCast || instr is AddrSpaceCast),
    ensures
        step_binds_only(st, instr_step(defs, st, instr), instr_dest(instr)),
{
    if let Ok(s) = instr_step(defs, st, instr) {
        match instr_dest(instr) {
            Some(d) => {
                assert(s.values =~= st.values.insert(d.key(), s.values[d.key()]));
            },
            None => {
                assert(s.values =~= st.values);
            },
        }
    }
}

/// Converting an instruction binds its result's name (if it has one) and
/// no other name: every other value name keeps its binding, and no block
/// name is bound.
pub proof fn instruction_binds_only_its_result(defs: Defs, st: CtxState, instr: Instruction)
    ensures
        step_binds_only(st, instr_step(defs, st, instr), instr_dest(instr)),
{
    if instr is Add || instr is Sub || instr is Mul || instr is UDiv || instr is SDiv || instr is URem
        || instr is SRem || instr is And || instr is Or || instr is Xor || instr is Shl || instr is LShr
        || instr is AShr || instr is FAdd || instr is FSub || instr is FMul || instr is FDiv || instr is FRem {
        lemma_instr_binds_a(defs, st, instr);
    } else if instr is Trunc || instr is ZExt || instr is SExt || instr is FPTrunc || instr is FPExt
        || instr is FPToUI || instr is FPToSI || instr is UIToFP || instr is SIToFP || instr is PtrToInt
        || instr is IntToPtr || instr is BitCast || instr is AddrSpaceCast {
        lemma_instr_binds_b(defs, st, instr);
    } else {
        lemma_instr_binds_c(defs, st, instr);
    }
}

/// Converting a terminator binds the result of an invoke and no other
/// name; every other terminator binds nothing.
pub proof fn terminator_binds_only_its_result(defs: Defs, st: CtxState, t: Terminator)
    ensures
        step_binds_only(st, term_step(defs, st, t), term_dest(t)),
{
    if let Ok(s) = term_step(defs, st, t) {
        match term_dest(t) {
            Some(d) => {
                assert(s.values =~= st.values.insert(d.key(), s.values[d.key()]));
            },
            None => {
                assert(s.values =~= st.values);
            },
        }
    }
}

proof fn lemma_instrs_keep_blocks(defs: Defs, st: CtxState, is: Seq<Instruction>, i: int)
    ensures
        match instrs_step(defs, st, is, i) {
            Ok(s) => s.bbs == st.bbs,
            Err(_) => true,
        },
    decreases is.len() - i,
{
    if 0 <= i < is.len() {
        instruction_binds_only_its_result(defs, st, is[i]);
        if let Ok(st1) = instr_step(defs, st, is[i]) {
            lemma_instrs_keep_blocks(defs, st1, is, i + 1);
        }
    }
}

/// Filling a basic block binds no block name: the blocks that branches
/// reach are those made before the block is filled.
pub proof fn filling_a_block_keeps_block_names(defs: Defs, st: CtxState, bb: BasicBlock)
    ensures
        match bb_step(defs, st, bb) {
            Ok(s) => s.bbs == st.bbs,
            Err(_) => true,
        },
{
    if st.bbs.contains_key(bb.name.key()) {
        let st1 = with_op(st, Op::PositionAtEnd(st.bbs[bb.name.key()]));
        lemma_instrs_keep_blocks(defs, st1, bb.instrs@, 0);
        if let Ok(st2) = instrs_step(defs, st1, bb.instrs@, 0) {
            terminator_binds_only_its_result(defs, st2, bb.term);
        }
    }
}

} // verus!
