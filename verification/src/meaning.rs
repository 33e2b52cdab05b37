//! What the operations of a construction program mean, stated apart from
//! the conversion: the arithmetic of two-operand instructions and opcodes,
//! the truth of comparison predicates, the layout of floating-point formats
//! and the shape of aggregate types. The laws below say that converting an
//! instruction, a terminator, a type or a constant keeps that meaning.

use vstd::prelude::*;
use vstd::arithmetic::power2::pow2;
use crate::body_conv::{cases_code, dests_code, incoming_code, instr_step, phi_fill_step, phi_handle, term_step};
use crate::const_conv::{const_code, type_of_code};
use crate::const_conv::{consts_code, operand_code, operands_code};
use crate::ir::{
    float_format, Attribute, BasicBlock, BinaryOp, Callee, Function, FunctionDeclaration, Cast, GlobalVariable, Name, Operand, Parameter, Phi, Constant, FPPredicate, FPType, Float, Instruction, IntPredicate, Linkage, MemoryOrdering,
    NameKey, RMWBinOp, Switch, SynchronizationScope, Terminator, Type, Visibility,
};
use crate::llvm_codes::{
    int_predicate_code, linkage_code, ordering_code, real_predicate_code, rmw_code, visibility_code, LlvmAtomicOrdering,
    LlvmAtomicRMWBinOp, LlvmIntPredicate, LlvmLinkage, LlvmRealPredicate, LlvmVisibility,
};
use crate::module_conv::{
    attr_ops, attrs, blocks_step, decl_step, fn_attr_ops, fn_decl_step, fn_header, global_decl_step, param_attr_ops, param_types,
    params_step, with_fn_attrs,
};
use crate::plan::{extends, AttrPlace, BinaryOpcode, CastOpcode, ConvertError, CtxState, Op};
use crate::stack::{lemma_const_code_extends, lemma_type_code_extends};
use crate::types_conv::vector_op;
use crate::types_conv::{fn_type_code, type_code, types_code, Defs};

verus! {

// ---------------------------------------------------------------------------
// Integers as bit patterns

/// The number of bit patterns of width `bits`.
pub open spec fn modulus(bits: nat) -> int {
    pow2(bits) as int
}

/// A mathematical integer reduced to a bit pattern of width `bits`.
pub open spec fn wrap(bits: nat, v: int) -> int {
    v % modulus(bits)
}

/// The two's-complement value of the bit pattern `x` of width `bits`.
pub open spec fn signed(bits: nat, x: int) -> int {
    if bits > 0 && x >= modulus(bits) / 2 {
        x - modulus(bits)
    } else {
        x
    }
}

pub open spec fn magnitude(a: int) -> int {
    if a < 0 {
        -a
    } else {
        a
    }
}

/// Division rounding toward zero.
pub open spec fn trunc_div(a: int, b: int) -> int {
    let q = magnitude(a) / magnitude(b);
    if (a < 0) != (b < 0) {
        -q
    } else {
        q
    }
}

/// Whether a signed division of `x` by `y` has no defined result: by zero,
/// or the most negative value by -1.
pub open spec fn signed_division_undefined(bits: nat, x: u64, y: u64) -> bool {
    y == 0 || (signed(bits, x as int) == -(modulus(bits) / 2) && signed(bits, y as int) == -1)
}

/// The result, as a bit pattern of width `bits`, of a two-operand integer
/// operation given by its C API opcode on the bit patterns `x` and `y`;
/// `None` where it has no defined result or is not an integer operation.
pub open spec fn opcode_int_result(op: BinaryOpcode, bits: nat, x: u64, y: u64) -> Option<int> {
    let (a, b) = (x as int, y as int);
    match op {
        BinaryOpcode::Add => Some(wrap(bits, a + b)),
        BinaryOpcode::Sub => Some(wrap(bits, a - b)),
        BinaryOpcode::Mul => Some(wrap(bits, a * b)),
        BinaryOpcode::UDiv => if b == 0 { None } else { Some(a / b) },
        BinaryOpcode::SDiv => if signed_division_undefined(bits, x, y) {
            None
        } else {
            Some(wrap(bits, trunc_div(signed(bits, a), signed(bits, b))))
        },
        BinaryOpcode::URem => if b == 0 { None } else { Some(a % b) },
        BinaryOpcode::SRem => if signed_division_undefined(bits, x, y) {
            None
        } else {
            Some(wrap(bits, signed(bits, a) - signed(bits, b) * trunc_div(signed(bits, a), signed(bits, b))))
        },
        BinaryOpcode::And => Some((x & y) as int),
        BinaryOpcode::Or => Some((x | y) as int),
        BinaryOpcode::Xor => Some((x ^ y) as int),
        BinaryOpcode::Shl => if b < bits { Some(wrap(bits, a * pow2(y as nat))) } else { None },
        BinaryOpcode::LShr => if b < bits { Some(a / pow2(y as nat) as int) } else { None },
        BinaryOpcode::AShr => if b < bits { Some(wrap(bits, signed(bits, a) / pow2(y as nat) as int)) } else { None },
        _ => None,
    }
}

/// The exact operation on real numbers that a floating-point operation
/// rounds.
#[derive(PartialEq, Eq, Structural)]
pub enum RealOperation {
    Plus,
    Minus,
    Times,
    Divide,
    Remainder,
}

/// The real operation that a C API opcode rounds, if it is a
/// floating-point opcode.
pub open spec fn opcode_real_operation(op: BinaryOpcode) -> Option<RealOperation> {
    match op {
        BinaryOpcode::FAdd => Some(RealOperation::Plus),
        BinaryOpcode::FSub => Some(RealOperation::Minus),
        BinaryOpcode::FMul => Some(RealOperation::Times),
        BinaryOpcode::FDiv => Some(RealOperation::Divide),
        BinaryOpcode::FRem => Some(RealOperation::Remainder),
        _ => None,
    }
}

/// The operands and result name of a two-operand arithmetic instruction.
pub open spec fn arith_operands(i: Instruction) -> Option<BinaryOp> {
    match i {
        Instruction::Add(b) => Some(b),
        Instruction::Sub(b) => Some(b),
        Instruction::Mul(b) => Some(b),
        Instruction::UDiv(b) => Some(b),
        Instruction::SDiv(b) => Some(b),
        Instruction::URem(b) => Some(b),
        Instruction::SRem(b) => Some(b),
        Instruction::And(b) => Some(b),
        Instruction::Or(b) => Some(b),
        Instruction::Xor(b) => Some(b),
        Instruction::Shl(b) => Some(b),
        Instruction::LShr(b) => Some(b),
        Instruction::AShr(b) => Some(b),
        Instruction::FAdd(b) => Some(b),
        Instruction::FSub(b) => Some(b),
        Instruction::FMul(b) => Some(b),
        Instruction::FDiv(b) => Some(b),
        Instruction::FRem(b) => Some(b),
        _ => None,
    }
}

/// What an integer arithmetic instruction computes on the bit patterns `x`
/// and `y` of width `bits` (LLVM's language reference: `add`, `sub`, `mul`
/// wrap; `udiv`, `urem` read the operands unsigned; `sdiv`, `srem` read
/// them in two's complement and round toward zero; `shl`, `lshr`, `ashr`
/// shift by fewer than `bits` places, `ashr` copying the sign bit).
pub open spec fn instr_int_result(i: Instruction, bits: nat, x: u64, y: u64) -> Option<int> {
    let (a, b) = (x as int, y as int);
    match i {
        Instruction::Add(_) => Some(wrap(bits, a + b)),
        Instruction::Sub(_) => Some(wrap(bits, a - b)),
        Instruction::Mul(_) => Some(wrap(bits, a * b)),
        Instruction::UDiv(_) => if b == 0 { None } else { Some(a / b) },
        Instruction::SDiv(_) => if signed_division_undefined(bits, x, y) {
            None
        } else {
            Some(wrap(bits, trunc_div(signed(bits, a), signed(bits, b))))
        },
        Instruction::URem(_) => if b == 0 { None } else { Some(a % b) },
        Instruction::SRem(_) => if signed_division_undefined(bits, x, y) {
            None
        } else {
            Some(wrap(bits, signed(bits, a) - signed(bits, b) * trunc_div(signed(bits, a), signed(bits, b))))
        },
        Instruction::And(_) => Some((x & y) as int),
        Instruction::Or(_) => Some((x | y) as int),
        Instruction::Xor(_) => Some((x ^ y) as int),
        Instruction::Shl(_) => if b < bits { Some(wrap(bits, a * pow2(y as nat))) } else { None },
        Instruction::LShr(_) => if b < bits { Some(a / pow2(y as nat) as int) } else { None },
        Instruction::AShr(_) => if b < bits { Some(wrap(bits, signed(bits, a) / pow2(y as nat) as int)) } else { None },
        _ => None,
    }
}

/// The real operation that a floating-point arithmetic instruction rounds.
pub open spec fn instr_real_operation(i: Instruction) -> Option<RealOperation> {
    match i {
        Instruction::FAdd(_) => Some(RealOperation::Plus),
        Instruction::FSub(_) => Some(RealOperation::Minus),
        Instruction::FMul(_) => Some(RealOperation::Times),
        Instruction::FDiv(_) => Some(RealOperation::Divide),
        Instruction::FRem(_) => Some(RealOperation::Remainder),
        _ => None,
    }
}

/// Converting a two-operand arithmetic instruction ends with one build of a
/// binary operation, named after the instruction's result, that computes
/// what the instruction computes: the same result on every pair of integer
/// bit patterns of every width, and the same rounded real operation.
pub proof fn law_arithmetic_instruction_meaning(defs: Defs, st: CtxState, i: Instruction, bits: nat, x: u64, y: u64)
    requires
        arith_operands(i) is Some,
    ensures
        match instr_step(defs, st, i) {
            Ok(st2) => st2.ops.len() > 0 && match st2.ops.last() {
                Op::BuildBinary { opcode, name } => {
                    &&& name == arith_operands(i)->Some_0.dest
                    &&& opcode_int_result(opcode, bits, x, y) == instr_int_result(i, bits, x, y)
                    &&& opcode_real_operation(opcode) == instr_real_operation(i)
                },
                _ => false,
            } && operands_in_order(defs, st, arith_operands(i)->Some_0, st2.ops.drop_last())
                && st2.values == st.values.insert(arith_operands(i)->Some_0.dest.key(), (st2.ops.len() - 1) as usize)
                && st2.bbs == st.bbs,
            Err(_) => true,
        },
{
    if let Ok(st2) = instr_step(defs, st, i) {
        let b = arith_operands(i)->Some_0;
        if let Ok(a1) = operand_code(defs, st.values, st.ops, b.operand0) {
            if let Ok(a2) = operand_code(defs, st.values, a1, b.operand1) {
                assert(st2.ops.drop_last() =~= a2);
            }
        }
    }
}

/// The operations before a two-operand operation make its left operand
/// and then its right one (the operation takes the right one from the top).
pub open spec fn operands_in_order(defs: Defs, st: CtxState, b: BinaryOp, before: Seq<Op>) -> bool {
    match operand_code(defs, st.values, st.ops, b.operand0) {
        Ok(a1) => operand_code(defs, st.values, a1, b.operand1) == Ok::<Seq<Op>, ConvertError>(before),
        Err(_) => false,
    }
}

// ---------------------------------------------------------------------------
// Comparisons

/// Whether an integer comparison with predicate `p` holds between the bit
/// patterns `x` and `y` of width `bits` (`u..` read them unsigned, `s..` in
/// two's complement).
pub open spec fn ir_int_holds(p: IntPredicate, bits: nat, x: int, y: int) -> bool {
    let (sx, sy) = (signed(bits, x), signed(bits, y));
    match p {
        IntPredicate::EQ => x == y,
        IntPredicate::NE => x != y,
        IntPredicate::UGT => x > y,
        IntPredicate::UGE => x >= y,
        IntPredicate::ULT => x < y,
        IntPredicate::ULE => x <= y,
        IntPredicate::SGT => sx > sy,
        IntPredicate::SGE => sx >= sy,
        IntPredicate::SLT => sx < sy,
        IntPredicate::SLE => sx <= sy,
    }
}

/// Whether the C API's integer predicate `q` holds between the bit patterns
/// `x` and `y` of width `bits`.
pub open spec fn c_int_holds(q: LlvmIntPredicate, bits: nat, x: int, y: int) -> bool {
    let (sx, sy) = (signed(bits, x), signed(bits, y));
    match q {
        LlvmIntPredicate::LLVMIntEQ => x == y,
        LlvmIntPredicate::LLVMIntNE => x != y,
        LlvmIntPredicate::LLVMIntUGT => x > y,
        LlvmIntPredicate::LLVMIntUGE => x >= y,
        LlvmIntPredicate::LLVMIntULT => x < y,
        LlvmIntPredicate::LLVMIntULE => x <= y,
        LlvmIntPredicate::LLVMIntSGT => sx > sy,
        LlvmIntPredicate::LLVMIntSGE => sx >= sy,
        LlvmIntPredicate::LLVMIntSLT => sx < sy,
        LlvmIntPredicate::LLVMIntSLE => sx <= sy,
    }
}

/// The C API predicate that an integer predicate is given as holds exactly
/// where the predicate holds, on every pair of bit patterns of every width.
pub proof fn law_int_predicate_meaning(p: IntPredicate, bits: nat, x: int, y: int)
    ensures
        c_int_holds(int_predicate_code(p), bits, x, y) == ir_int_holds(p, bits, x, y),
{
}

/// How two floating-point values compare.
#[derive(PartialEq, Eq, Structural)]
pub enum FpOrder {
    Less,
    Equal,
    Greater,
    /// At least one of them is a NaN.
    Unordered,
}

/// Whether a floating-point comparison with predicate `p` holds for values
/// that compare as `o` (`o..` predicates are false on NaN, `u..` true).
pub open spec fn ir_fp_holds(p: FPPredicate, o: FpOrder) -> bool {
    let (lt, eq, gt, un) = (o == FpOrder::Less, o == FpOrder::Equal, o == FpOrder::Greater, o == FpOrder::Unordered);
    match p {
        FPPredicate::False => false,
        FPPredicate::OEQ => eq,
        FPPredicate::OGT => gt,
        FPPredicate::OGE => gt || eq,
        FPPredicate::OLT => lt,
        FPPredicate::OLE => lt || eq,
        FPPredicate::ONE => lt || gt,
        FPPredicate::ORD => !un,
        FPPredicate::UNO => un,
        FPPredicate::UEQ => un || eq,
        FPPredicate::UGT => un || gt,
        FPPredicate::UGE => un || gt || eq,
        FPPredicate::ULT => un || lt,
        FPPredicate::ULE => un || lt || eq,
        FPPredicate::UNE => !eq,
        FPPredicate::True => true,
    }
}

/// Whether the C API's floating-point predicate `q` holds for values that
/// compare as `o`.
pub open spec fn c_fp_holds(q: LlvmRealPredicate, o: FpOrder) -> bool {
    let (lt, eq, gt, un) = (o == FpOrder::Less, o == FpOrder::Equal, o == FpOrder::Greater, o == FpOrder::Unordered);
    match q {
        LlvmRealPredicate::LLVMRealPredicateFalse => false,
        LlvmRealPredicate::LLVMRealOEQ => eq,
        LlvmRealPredicate::LLVMRealOGT => gt,
        LlvmRealPredicate::LLVMRealOGE => gt || eq,
        LlvmRealPredicate::LLVMRealOLT => lt,
        LlvmRealPredicate::LLVMRealOLE => lt || eq,
        LlvmRealPredicate::LLVMRealONE => lt || gt,
        LlvmRealPredicate::LLVMRealORD => !un,
        LlvmRealPredicate::LLVMRealUNO => un,
        LlvmRealPredicate::LLVMRealUEQ => un || eq,
        LlvmRealPredicate::LLVMRealUGT => un || gt,
        LlvmRealPredicate::LLVMRealUGE => un || gt || eq,
        LlvmRealPredicate::LLVMRealULT => un || lt,
        LlvmRealPredicate::LLVMRealULE => un || lt || eq,
        LlvmRealPredicate::LLVMRealUNE => !eq,
        LlvmRealPredicate::LLVMRealPredicateTrue => true,
    }
}

/// The C API predicate that a floating-point predicate is given as holds
/// exactly where the predicate holds, for every way two values compare.
pub proof fn law_fp_predicate_meaning(p: FPPredicate, o: FpOrder)
    ensures
        c_fp_holds(real_predicate_code(p), o) == ir_fp_holds(p, o),
{
}

/// Converting an integer comparison ends with one build of a comparison,
/// named after its result, whose predicate holds exactly where the
/// instruction's predicate holds.
pub proof fn law_int_compare_instruction_meaning(defs: Defs, st: CtxState, i: Instruction, bits: nat, x: int, y: int)
    requires
        i is ICmp,
    ensures
        match instr_step(defs, st, i) {
            Ok(st2) => st2.ops.len() > 0 && match st2.ops.last() {
                Op::BuildICmp { predicate, name } => {
                    &&& name == i->ICmp_0.dest
                    &&& c_int_holds(predicate, bits, x, y) == ir_int_holds(i->ICmp_0.predicate, bits, x, y)
                },
                _ => false,
            },
            Err(_) => true,
        },
{
}

/// Converting a floating-point comparison ends with one build of a
/// comparison, named after its result, whose predicate holds exactly where
/// the instruction's predicate holds.
pub proof fn law_fp_compare_instruction_meaning(defs: Defs, st: CtxState, i: Instruction, o: FpOrder)
    requires
        i is FCmp,
    ensures
        match instr_step(defs, st, i) {
            Ok(st2) => st2.ops.len() > 0 && match st2.ops.last() {
                Op::BuildFCmp { predicate, name } => {
                    &&& name == i->FCmp_0.dest
                    &&& c_fp_holds(predicate, o) == ir_fp_holds(i->FCmp_0.predicate, o)
                },
                _ => false,
            },
            Err(_) => true,
        },
{
}

/// Constant comparisons and constant arithmetic keep their meaning too: a
/// constant comparison ends with a comparison whose predicate holds exactly
/// where the constant's holds, and constant arithmetic with the constant's
/// own opcode.
pub proof fn law_constant_operation_meaning(defs: Defs, values: Map<NameKey, usize>, acc: Seq<Op>, c: Constant, bits: nat, x: int, y: int, o: FpOrder)
    ensures
        match const_code(defs, values, acc, c) {
            Ok(a) => match c {
                Constant::ICmp { predicate, operand0: _, operand1: _ } => a.len() > 0 && match a.last() {
                    Op::ConstICmp(q) => c_int_holds(q, bits, x, y) == ir_int_holds(predicate, bits, x, y),
                    _ => false,
                },
                Constant::FCmp { predicate, operand0: _, operand1: _ } => a.len() > 0 && match a.last() {
                    Op::ConstFCmp(q) => c_fp_holds(q, o) == ir_fp_holds(predicate, o),
                    _ => false,
                },
                Constant::Binary { opcode, operand0: _, operand1: _ } => a.len() > 0 && a.last() == Op::ConstBinary(opcode),
                _ => true,
            },
            Err(_) => true,
        },
{
}

// ---------------------------------------------------------------------------
// Branches

/// Converting a branch ends with a branch to the block made for its
/// destination; converting a conditional branch ends with a branch that
/// goes to the block made for its true destination when the condition
/// holds and to the block made for its false destination otherwise. Both
/// succeed exactly when their destinations have blocks (and, for a
/// conditional branch, its condition converts).
pub proof fn law_branch_targets(defs: Defs, st: CtxState, t: Terminator)
    ensures
        match t {
            Terminator::Br(b) => match term_step(defs, st, t) {
                Ok(st2) => st.bbs.contains_key(b.dest.key()) && st2.ops == st.ops.push(Op::BuildBr(st.bbs[b.dest.key()])),
                Err(e) => !st.bbs.contains_key(b.dest.key()) && e == ConvertError::TargetBlockNotFound(b.dest),
            },
            Terminator::CondBr(c) => match term_step(defs, st, t) {
                Ok(st2) => {
                    &&& st.bbs.contains_key(c.true_dest.key())
                    &&& st.bbs.contains_key(c.false_dest.key())
                    &&& st2.ops.len() > 0
                    &&& st2.ops.last() == Op::BuildCondBr {
                        then_block: st.bbs[c.true_dest.key()],
                        else_block: st.bbs[c.false_dest.key()],
                    }
                },
                Err(_) => true,
            },
            _ => true,
        },
        t is CondBr ==> (term_step(defs, st, t) is Ok <==> (
            st.bbs.contains_key(t->CondBr_0.true_dest.key())
            && st.bbs.contains_key(t->CondBr_0.false_dest.key())
            && operand_code(defs, st.values, st.ops, t->CondBr_0.condition) is Ok)),
{
}

// ---------------------------------------------------------------------------
// Floating-point formats

/// The layout of a floating-point format: its width in bits and the
/// precision of its significand in bits (the hidden bit included).
pub open spec fn fp_layout(fp: FPType) -> (nat, nat) {
    match fp {
        FPType::Half => (16, 11),
        FPType::BFloat => (16, 8),
        FPType::Single => (32, 24),
        FPType::Double => (64, 53),
        FPType::FP128 => (128, 113),
        FPType::X86_FP80 => (80, 64),
        FPType::PPC_FP128 => (128, 106),
    }
}

/// The layout of the floating-point type that a C API type operation makes
/// (`half`, `bfloat`, `float`, `double`, `fp128`, `x86_fp80`, `ppc_fp128`),
/// if it makes one.
pub open spec fn type_op_fp_layout(op: Op) -> Option<(nat, nat)> {
    match op {
        Op::HalfType => Some((16, 11)),
        Op::BFloatType => Some((16, 8)),
        Op::FloatType => Some((32, 24)),
        Op::DoubleType => Some((64, 53)),
        Op::FP128Type => Some((128, 113)),
        Op::X86FP80Type => Some((80, 64)),
        Op::PPCFP128Type => Some((128, 106)),
        _ => None,
    }
}

/// Converting a floating-point type appends one operation, which makes a
/// type of the same layout; the type of a floating-point constant, and the
/// type its value is made on, are likewise of its format's layout.
pub proof fn law_fp_type_layout(defs: Defs, stack: Seq<usize>, values: Map<NameKey, usize>, acc: Seq<Op>, fp: FPType, f: Float)
    ensures
        match type_code(defs, stack, acc, Type::FPType(fp)) {
            Ok(a) => a.len() == acc.len() + 1 && a.drop_last() == acc && type_op_fp_layout(a.last()) == Some(fp_layout(fp)),
            Err(_) => false,
        },
        match type_of_code(defs, acc, Constant::Float(f)) {
            Ok(a) => a.len() == acc.len() + 1 && a.drop_last() == acc && type_op_fp_layout(a.last()) == Some(fp_layout(float_format(f))),
            Err(_) => false,
        },
        match const_code(defs, values, acc, Constant::Float(f)) {
            Ok(a) => a.len() == acc.len() + 2 && type_op_fp_layout(a[acc.len() as int]) == Some(fp_layout(float_format(f))),
            Err(_) => false,
        },
{
    assert(acc.push(crate::types_conv::fp_op(fp)).drop_last() =~= acc);
    assert(acc.push(crate::types_conv::fp_op(float_format(f))).drop_last() =~= acc);
}

// ---------------------------------------------------------------------------
// Aggregate constants and their types

/// An integer constant, and a constant of a given type (null, zero,
/// undefined, poison), is made on exactly the type that its type is
/// converted to; an integer constant's type is the integer type of its
/// width.
pub proof fn law_constant_made_on_its_type(defs: Defs, values: Map<NameKey, usize>, acc: Seq<Op>, c: Constant)
    requires
        c is Int || c is Null || c is AggregateZero || c is Undef || c is Poison || c is Float,
    ensures
        match (const_code(defs, values, acc, c), type_of_code(defs, acc, c)) {
            (Ok(q), Ok(p)) => q.len() == p.len() + 1 && q.drop_last() == p,
            (Ok(_), Err(_)) => false,
            (Err(_), Ok(_)) => false,
            (Err(_), Err(_)) => true,
        },
        c is Int ==> type_of_code(defs, acc, c) == Ok::<Seq<Op>, ConvertError>(acc.push(Op::IntType(c->bits))),
{
    match c {
        Constant::Int { bits, value } => {
            assert(acc.push(Op::IntType(bits)).push(Op::ConstInt(value)).drop_last() =~= acc.push(Op::IntType(bits)));
        },
        Constant::Float(f) => match f {
            Float::Single(b) => {
                assert(acc.push(Op::FloatType).push(Op::ConstSingle(b)).drop_last() =~= acc.push(Op::FloatType));
            },
            Float::Double(b) => {
                assert(acc.push(Op::DoubleType).push(Op::ConstDouble(b)).drop_last() =~= acc.push(Op::DoubleType));
            },
            _ => {
                let t = crate::types_conv::fp_op(float_format(f));
                assert(acc.push(t).push(Op::ConstNull).drop_last() =~= acc.push(t));
            },
        },
        Constant::Null(t) => {
            if let Ok(a1) = type_code(defs, Seq::empty(), acc, t) {
                assert(a1.push(Op::ConstNull).drop_last() =~= a1);
            }
        },
        Constant::AggregateZero(t) => {
            if let Ok(a1) = type_code(defs, Seq::empty(), acc, t) {
                assert(a1.push(Op::ConstNull).drop_last() =~= a1);
            }
        },
        Constant::Undef(t) => {
            if let Ok(a1) = type_code(defs, Seq::empty(), acc, t) {
                assert(a1.push(Op::GetUndef).drop_last() =~= a1);
            }
        },
        Constant::Poison(t) => {
            if let Ok(a1) = type_code(defs, Seq::empty(), acc, t) {
                assert(a1.push(Op::GetPoison).drop_last() =~= a1);
            }
        },
        _ => {},
    }
}

/// A literal struct, array or vector constant is made as an aggregate of
/// as many elements as it has (a struct keeping its packedness), and its
/// type is an aggregate type of the same kind, the same number of elements
/// and (for a struct) the same packedness.
pub proof fn law_aggregate_constant_shape(defs: Defs, values: Map<NameKey, usize>, acc: Seq<Op>, c: Constant)
    ensures
        match c {
            Constant::Struct { name: None, values: fields, is_packed } => {
                &&& const_code(defs, values, acc, c) matches Ok(q) ==> q.len() > 0
                    && q.last() == Op::ConstStruct { element_count: fields.len(), is_packed }
                &&& type_of_code(defs, acc, c) matches Ok(p) ==> p.len() > 0
                    && p.last() == Op::StructType { element_count: fields.len(), is_packed }
            },
            Constant::Array { element_type: _, elements } => {
                &&& const_code(defs, values, acc, c) matches Ok(q) ==> q.len() > 0
                    && q.last() == Op::ConstArray { element_count: elements.len() }
                &&& type_of_code(defs, acc, c) matches Ok(p) ==> p.len() > 0
                    && p.last() == Op::ArrayType(elements.len() as u32)
            },
            Constant::Vector(elements) => {
                &&& const_code(defs, values, acc, c) matches Ok(q) ==> q.len() > 0
                    && q.last() == Op::ConstVector { element_count: elements.len() }
                &&& type_of_code(defs, acc, c) matches Ok(p) ==> p.len() > 0
                    && p.last() == Op::VectorType(elements.len() as u32)
            },
            _ => true,
        },
{
}

// ---------------------------------------------------------------------------
// Conversions

/// The kind of value a conversion reads or makes.
#[derive(PartialEq, Eq, Structural)]
pub enum ValueClass {
    Integer,
    Real,
    Pointer,
    /// Any first-class value of the same size.
    AnyOfSize,
}

/// What a conversion does: the kind of value it reads, the kind it makes,
/// whether it reads or makes integers as signed, and whether it narrows.
pub struct CastTraits {
    pub from: ValueClass,
    pub to: ValueClass,
    pub signed: bool,
    pub narrows: bool,
}

pub open spec fn cast_traits(from: ValueClass, to: ValueClass, signed: bool, narrows: bool) -> CastTraits {
    CastTraits { from, to, signed, narrows }
}

/// What the C API's conversion opcode `op` does.
pub open spec fn opcode_cast_traits(op: CastOpcode) -> CastTraits {
    match op {
        CastOpcode::Trunc => cast_traits(ValueClass::Integer, ValueClass::Integer, false, true),
        CastOpcode::ZExt => cast_traits(ValueClass::Integer, ValueClass::Integer, false, false),
        CastOpcode::SExt => cast_traits(ValueClass::Integer, ValueClass::Integer, true, false),
        CastOpcode::FPTrunc => cast_traits(ValueClass::Real, ValueClass::Real, false, true),
        CastOpcode::FPExt => cast_traits(ValueClass::Real, ValueClass::Real, false, false),
        CastOpcode::FPToUI => cast_traits(ValueClass::Real, ValueClass::Integer, false, false),
        CastOpcode::FPToSI => cast_traits(ValueClass::Real, ValueClass::Integer, true, false),
        CastOpcode::UIToFP => cast_traits(ValueClass::Integer, ValueClass::Real, false, false),
        CastOpcode::SIToFP => cast_traits(ValueClass::Integer, ValueClass::Real, true, false),
        CastOpcode::PtrToInt => cast_traits(ValueClass::Pointer, ValueClass::Integer, false, false),
        CastOpcode::IntToPtr => cast_traits(ValueClass::Integer, ValueClass::Pointer, false, false),
        CastOpcode::BitCast => cast_traits(ValueClass::AnyOfSize, ValueClass::AnyOfSize, false, false),
        CastOpcode::AddrSpaceCast => cast_traits(ValueClass::Pointer, ValueClass::Pointer, false, false),
    }
}

/// The operand and result of a conversion instruction.
pub open spec fn cast_operands(i: Instruction) -> Option<Cast> {
    match i {
        Instruction::Trunc(c) => Some(c),
        Instruction::ZExt(c) => Some(c),
        Instruction::SExt(c) => Some(c),
        Instruction::FPTrunc(c) => Some(c),
        Instruction::FPExt(c) => Some(c),
        Instruction::FPToUI(c) => Some(c),
        Instruction::FPToSI(c) => Some(c),
        Instruction::UIToFP(c) => Some(c),
        Instruction::SIToFP(c) => Some(c),
        Instruction::PtrToInt(c) => Some(c),
        Instruction::IntToPtr(c) => Some(c),
        Instruction::BitCast(c) => Some(c),
        Instruction::AddrSpaceCast(c) => Some(c),
        _ => None,
    }
}

/// What a conversion instruction does (LLVM's language reference: `trunc`
/// drops high bits, `zext` fills with zeros, `sext` copies the sign bit;
/// `fptoui`/`fptosi` round a real to an unsigned/signed integer, and so on).
pub open spec fn instr_cast_traits(i: Instruction) -> CastTraits {
    match i {
        Instruction::Trunc(_) => cast_traits(ValueClass::Integer, ValueClass::Integer, false, true),
        Instruction::ZExt(_) => cast_traits(ValueClass::Integer, ValueClass::Integer, false, false),
        Instruction::SExt(_) => cast_traits(ValueClass::Integer, ValueClass::Integer, true, false),
        Instruction::FPTrunc(_) => cast_traits(ValueClass::Real, ValueClass::Real, false, true),
        Instruction::FPExt(_) => cast_traits(ValueClass::Real, ValueClass::Real, false, false),
        Instruction::FPToUI(_) => cast_traits(ValueClass::Real, ValueClass::Integer, false, false),
        Instruction::FPToSI(_) => cast_traits(ValueClass::Real, ValueClass::Integer, true, false),
        Instruction::UIToFP(_) => cast_traits(ValueClass::Integer, ValueClass::Real, false, false),
        Instruction::SIToFP(_) => cast_traits(ValueClass::Integer, ValueClass::Real, true, false),
        Instruction::PtrToInt(_) => cast_traits(ValueClass::Pointer, ValueClass::Integer, false, false),
        Instruction::IntToPtr(_) => cast_traits(ValueClass::Integer, ValueClass::Pointer, false, false),
        Instruction::BitCast(_) => cast_traits(ValueClass::AnyOfSize, ValueClass::AnyOfSize, false, false),
        _ => cast_traits(ValueClass::Pointer, ValueClass::Pointer, false, false),
    }
}

/// Converting a conversion instruction makes its operand, then its target
/// type, then one build of a conversion that does what the instruction
/// does, named after its result.
pub proof fn law_cast_instruction_meaning(defs: Defs, st: CtxState, i: Instruction)
    requires
        cast_operands(i) is Some,
    ensures
        match instr_step(defs, st, i) {
            Ok(st2) => st2.ops.len() > 0 && match st2.ops.last() {
                Op::BuildCast { opcode, name } => name == cast_operands(i)->Some_0.dest
                    && opcode_cast_traits(opcode) == instr_cast_traits(i),
                _ => false,
            } && match operand_code(defs, st.values, st.ops, cast_operands(i)->Some_0.operand) {
                Ok(a1) => type_code(defs, Seq::empty(), a1, cast_operands(i)->Some_0.to_type)
                    == Ok::<Seq<Op>, ConvertError>(st2.ops.drop_last()),
                Err(_) => false,
            },
            Err(_) => true,
        },
{
    if let Ok(st2) = instr_step(defs, st, i) {
        let c = cast_operands(i)->Some_0;
        if let Ok(a1) = operand_code(defs, st.values, st.ops, c.operand) {
            if let Ok(a2) = type_code(defs, Seq::empty(), a1, c.to_type) {
                assert(st2.ops.drop_last() =~= a2);
            }
        }
    }
}

// ---------------------------------------------------------------------------
// Linkage and visibility

/// A property of a linkage (LLVM's language reference, "Linkage Types").
pub enum LinkageTrait {
    /// Not visible to other modules.
    Local,
    /// Not in the object file's symbol table.
    NoSymbol,
    /// Definitions of the same name in other modules are merged with it.
    Merged,
    /// May be dropped when nothing refers to it.
    Discardable,
    /// Every definition of the name is equivalent.
    OneDefinition,
    /// Its definition is known to exist in another module.
    DefinedElsewhere,
    /// A reference to it is null when no module defines it.
    NullIfUndefined,
    /// Arrays of the same name are appended when linked.
    Appended,
    /// Its symbol is hidden when its address is not taken.
    AutoHidden,
    /// A tentative, zero-initialized definition.
    Tentative,
    /// Imported from a shared library.
    DllImport,
    /// Exported from a shared library.
    DllExport,
    /// A placeholder with no effect on the output.
    Placeholder,
    /// Removed by the linker.
    RemovedByLinker,
}

/// The properties of a module linkage.
pub open spec fn linkage_traits(l: Linkage) -> Set<LinkageTrait> {
    match l {
        Linkage::External => set![],
        Linkage::AvailableExternally => set![LinkageTrait::Discardable, LinkageTrait::DefinedElsewhere],
        Linkage::LinkOnceAny => set![LinkageTrait::Merged, LinkageTrait::Discardable],
        Linkage::LinkOnceODR => set![LinkageTrait::Merged, LinkageTrait::Discardable, LinkageTrait::OneDefinition],
        Linkage::LinkOnceODRAutoHide => set![
            LinkageTrait::Merged,
            LinkageTrait::Discardable,
            LinkageTrait::OneDefinition,
            LinkageTrait::AutoHidden,
        ],
        Linkage::WeakAny => set![LinkageTrait::Merged],
        Linkage::WeakODR => set![LinkageTrait::Merged, LinkageTrait::OneDefinition],
        Linkage::Appending => set![LinkageTrait::Appended],
        Linkage::Internal => set![LinkageTrait::Local],
        Linkage::Private => set![LinkageTrait::Local, LinkageTrait::NoSymbol],
        Linkage::DLLImport => set![LinkageTrait::DefinedElsewhere, LinkageTrait::DllImport],
        Linkage::DLLExport => set![LinkageTrait::DllExport],
        Linkage::ExternalWeak => set![LinkageTrait::DefinedElsewhere, LinkageTrait::NullIfUndefined],
        Linkage::GhostLinkage => set![LinkageTrait::Placeholder],
        Linkage::Common => set![LinkageTrait::Merged, LinkageTrait::Tentative],
        Linkage::LinkerPrivate => set![LinkageTrait::Local, LinkageTrait::RemovedByLinker],
        Linkage::LinkerPrivateWeak => set![LinkageTrait::Local, LinkageTrait::RemovedByLinker, LinkageTrait::Merged],
    }
}

/// The properties of a C API linkage.
pub open spec fn c_linkage_traits(l: LlvmLinkage) -> Set<LinkageTrait> {
    match l {
        LlvmLinkage::LLVMExternalLinkage => set![],
        LlvmLinkage::LLVMAvailableExternallyLinkage => set![LinkageTrait::Discardable, LinkageTrait::DefinedElsewhere],
        LlvmLinkage::LLVMLinkOnceAnyLinkage => set![LinkageTrait::Merged, LinkageTrait::Discardable],
        LlvmLinkage::LLVMLinkOnceODRLinkage => set![LinkageTrait::Merged, LinkageTrait::Discardable, LinkageTrait::OneDefinition],
        LlvmLinkage::LLVMLinkOnceODRAutoHideLinkage => set![
            LinkageTrait::Merged,
            LinkageTrait::Discardable,
            LinkageTrait::OneDefinition,
            LinkageTrait::AutoHidden,
        ],
        LlvmLinkage::LLVMWeakAnyLinkage => set![LinkageTrait::Merged],
        LlvmLinkage::LLVMWeakODRLinkage => set![LinkageTrait::Merged, LinkageTrait::OneDefinition],
        LlvmLinkage::LLVMAppendingLinkage => set![LinkageTrait::Appended],
        LlvmLinkage::LLVMInternalLinkage => set![LinkageTrait::Local],
        LlvmLinkage::LLVMPrivateLinkage => set![LinkageTrait::Local, LinkageTrait::NoSymbol],
        LlvmLinkage::LLVMDLLImportLinkage => set![LinkageTrait::DefinedElsewhere, LinkageTrait::DllImport],
        LlvmLinkage::LLVMDLLExportLinkage => set![LinkageTrait::DllExport],
        LlvmLinkage::LLVMExternalWeakLinkage => set![LinkageTrait::DefinedElsewhere, LinkageTrait::NullIfUndefined],
        LlvmLinkage::LLVMGhostLinkage => set![LinkageTrait::Placeholder],
        LlvmLinkage::LLVMCommonLinkage => set![LinkageTrait::Merged, LinkageTrait::Tentative],
        LlvmLinkage::LLVMLinkerPrivateLinkage => set![LinkageTrait::Local, LinkageTrait::RemovedByLinker],
        LlvmLinkage::LLVMLinkerPrivateWeakLinkage => set![
            LinkageTrait::Local,
            LinkageTrait::RemovedByLinker,
            LinkageTrait::Merged,
        ],
    }
}

/// Whether a symbol of a visibility is seen outside its linked component,
/// and whether another component's definition can take its place.
pub open spec fn visibility_traits(v: Visibility) -> (bool, bool) {
    match v {
        Visibility::Default => (true, true),
        Visibility::Hidden => (false, false),
        Visibility::Protected => (true, false),
    }
}

/// The same properties of a C API visibility.
pub open spec fn c_visibility_traits(v: LlvmVisibility) -> (bool, bool) {
    match v {
        LlvmVisibility::LLVMDefaultVisibility => (true, true),
        LlvmVisibility::LLVMHiddenVisibility => (false, false),
        LlvmVisibility::LLVMProtectedVisibility => (true, false),
    }
}

/// The C API linkage and visibility that a module linkage and visibility
/// are given as have the same properties.
pub proof fn law_linkage_visibility_meaning(l: Linkage, v: Visibility)
    ensures
        c_linkage_traits(linkage_code(l)) == linkage_traits(l),
        c_visibility_traits(visibility_code(v)) == visibility_traits(v),
{
}

/// Setting a global's linkage and visibility appends exactly two
/// operations, on that global, with the linkage's and the visibility's
/// properties.
pub proof fn law_global_attrs_meaning(acc: Seq<Op>, h: usize, l: Linkage, v: Visibility)
    ensures
        attrs(acc, h, l, v).len() == acc.len() + 2,
        attrs(acc, h, l, v).subrange(0, acc.len() as int) == acc,
        match attrs(acc, h, l, v)[acc.len() as int] {
            Op::SetLinkage { target, linkage } => target == h && c_linkage_traits(linkage) == linkage_traits(l),
            _ => false,
        },
        match attrs(acc, h, l, v)[acc.len() + 1int] {
            Op::SetVisibility { target, visibility } => target == h && c_visibility_traits(visibility) == visibility_traits(v),
            _ => false,
        },
{
    assert(attrs(acc, h, l, v).subrange(0, acc.len() as int) =~= acc);
}

// ---------------------------------------------------------------------------
// Atomic operations

/// What a memory ordering guarantees (LLVM's language reference, "Atomic
/// Memory Ordering Constraints"): whether the access is atomic, whether the
/// accesses to one location are in one order, whether it acquires, whether
/// it releases, and whether it is part of one order of all such accesses.
pub open spec fn ordering_traits(o: MemoryOrdering) -> (bool, bool, bool, bool, bool) {
    match o {
        MemoryOrdering::NotAtomic => (false, false, false, false, false),
        MemoryOrdering::Unordered => (true, false, false, false, false),
        MemoryOrdering::Monotonic => (true, true, false, false, false),
        MemoryOrdering::Acquire => (true, true, true, false, false),
        MemoryOrdering::Release => (true, true, false, true, false),
        MemoryOrdering::AcquireRelease => (true, true, true, true, false),
        MemoryOrdering::SequentiallyConsistent => (true, true, true, true, true),
    }
}

/// The same guarantees of a C API ordering.
pub open spec fn c_ordering_traits(o: LlvmAtomicOrdering) -> (bool, bool, bool, bool, bool) {
    match o {
        LlvmAtomicOrdering::LLVMAtomicOrderingNotAtomic => (false, false, false, false, false),
        LlvmAtomicOrdering::LLVMAtomicOrderingUnordered => (true, false, false, false, false),
        LlvmAtomicOrdering::LLVMAtomicOrderingMonotonic => (true, true, false, false, false),
        LlvmAtomicOrdering::LLVMAtomicOrderingAcquire => (true, true, true, false, false),
        LlvmAtomicOrdering::LLVMAtomicOrderingRelease => (true, true, false, true, false),
        LlvmAtomicOrdering::LLVMAtomicOrderingAcquireRelease => (true, true, true, true, false),
        LlvmAtomicOrdering::LLVMAtomicOrderingSequentiallyConsistent => (true, true, true, true, true),
    }
}

/// The value a read-modify-write with operation `op` stores, as a bit
/// pattern of width `bits`, over the old value `v` and the operand `x`;
/// `None` for the floating-point operations.
pub open spec fn rmw_int_result(op: RMWBinOp, bits: nat, v: u64, x: u64) -> Option<int> {
    let (a, b) = (v as int, x as int);
    match op {
        RMWBinOp::Xchg => Some(b),
        RMWBinOp::Add => Some(wrap(bits, a + b)),
        RMWBinOp::Sub => Some(wrap(bits, a - b)),
        RMWBinOp::And => Some((v & x) as int),
        RMWBinOp::Nand => Some(wrap(bits, (!(v & x)) as int)),
        RMWBinOp::Or => Some((v | x) as int),
        RMWBinOp::Xor => Some((v ^ x) as int),
        RMWBinOp::Max => Some(if signed(bits, a) >= signed(bits, b) { a } else { b }),
        RMWBinOp::Min => Some(if signed(bits, a) <= signed(bits, b) { a } else { b }),
        RMWBinOp::UMax => Some(if a >= b { a } else { b }),
        RMWBinOp::UMin => Some(if a <= b { a } else { b }),
        _ => None,
    }
}

/// The value the C API's read-modify-write operation `op` stores.
pub open spec fn c_rmw_int_result(op: LlvmAtomicRMWBinOp, bits: nat, v: u64, x: u64) -> Option<int> {
    let (a, b) = (v as int, x as int);
    match op {
        LlvmAtomicRMWBinOp::LLVMAtomicRMWBinOpXchg => Some(b),
        LlvmAtomicRMWBinOp::LLVMAtomicRMWBinOpAdd => Some(wrap(bits, a + b)),
        LlvmAtomicRMWBinOp::LLVMAtomicRMWBinOpSub => Some(wrap(bits, a - b)),
        LlvmAtomicRMWBinOp::LLVMAtomicRMWBinOpAnd => Some((v & x) as int),
        LlvmAtomicRMWBinOp::LLVMAtomicRMWBinOpNand => Some(wrap(bits, (!(v & x)) as int)),
        LlvmAtomicRMWBinOp::LLVMAtomicRMWBinOpOr => Some((v | x) as int),
        LlvmAtomicRMWBinOp::LLVMAtomicRMWBinOpXor => Some((v ^ x) as int),
        LlvmAtomicRMWBinOp::LLVMAtomicRMWBinOpMax => Some(if signed(bits, a) >= signed(bits, b) { a } else { b }),
        LlvmAtomicRMWBinOp::LLVMAtomicRMWBinOpMin => Some(if signed(bits, a) <= signed(bits, b) { a } else { b }),
        LlvmAtomicRMWBinOp::LLVMAtomicRMWBinOpUMax => Some(if a >= b { a } else { b }),
        LlvmAtomicRMWBinOp::LLVMAtomicRMWBinOpUMin => Some(if a <= b { a } else { b }),
        _ => None,
    }
}

/// The real operation a floating-point read-modify-write rounds.
pub open spec fn rmw_real_operation(op: RMWBinOp) -> Option<RealOperation> {
    match op {
        RMWBinOp::FAdd => Some(RealOperation::Plus),
        RMWBinOp::FSub => Some(RealOperation::Minus),
        _ => None,
    }
}

pub open spec fn c_rmw_real_operation(op: LlvmAtomicRMWBinOp) -> Option<RealOperation> {
    match op {
        LlvmAtomicRMWBinOp::LLVMAtomicRMWBinOpFAdd => Some(RealOperation::Plus),
        LlvmAtomicRMWBinOp::LLVMAtomicRMWBinOpFSub => Some(RealOperation::Minus),
        _ => None,
    }
}

/// The C API ordering and read-modify-write operation that a module's are
/// given as guarantee the same and store the same.
pub proof fn law_atomic_codes_meaning(o: MemoryOrdering, op: RMWBinOp, bits: nat, v: u64, x: u64)
    ensures
        c_ordering_traits(ordering_code(o)) == ordering_traits(o),
        c_rmw_int_result(rmw_code(op), bits, v, x) == rmw_int_result(op, bits, v, x),
        c_rmw_real_operation(rmw_code(op)) == rmw_real_operation(op),
{
}

/// Converting a fence, a compare-exchange or a read-modify-write ends with
/// one build of it with the instruction's orderings, scope, operation,
/// weakness and volatility.
pub proof fn law_atomic_instruction_meaning(defs: Defs, st: CtxState, i: Instruction, bits: nat, v: u64, x: u64)
    ensures
        match instr_step(defs, st, i) {
            Ok(st2) => match i {
                Instruction::Fence(f) => st2.ops.len() > 0 && match st2.ops.last() {
                    Op::BuildFence { ordering, single_thread } => {
                        &&& c_ordering_traits(ordering) == ordering_traits(f.atomicity.mem_ordering)
                        &&& single_thread == (f.atomicity.synch_scope == SynchronizationScope::SingleThread)
                    },
                    _ => false,
                },
                Instruction::CmpXchg(c) => st2.ops.len() > 0 && match st2.ops.last() {
                    Op::BuildCmpXchg { success, failure, single_thread, weak, volatile, name } => {
                        &&& c_ordering_traits(success) == ordering_traits(c.atomicity.mem_ordering)
                        &&& c_ordering_traits(failure) == ordering_traits(c.failure_memory_ordering)
                        &&& single_thread == (c.atomicity.synch_scope == SynchronizationScope::SingleThread)
                        &&& weak == c.weak
                        &&& volatile == c.volatile
                        &&& name == c.dest
                    },
                    _ => false,
                },
                Instruction::AtomicRMW(a) => st2.ops.len() > 0 && match st2.ops.last() {
                    Op::BuildAtomicRMW { operation, ordering, single_thread, volatile, name } => {
                        &&& c_rmw_int_result(operation, bits, v, x) == rmw_int_result(a.operation, bits, v, x)
                        &&& c_rmw_real_operation(operation) == rmw_real_operation(a.operation)
                        &&& c_ordering_traits(ordering) == ordering_traits(a.atomicity.mem_ordering)
                        &&& single_thread == (a.atomicity.synch_scope == SynchronizationScope::SingleThread)
                        &&& volatile == a.volatile
                        &&& name == a.dest
                    },
                    _ => false,
                },
                _ => true,
            },
            Err(_) => true,
        },
{
}

// ---------------------------------------------------------------------------
// Switches, indirect branches and invokes

/// Where the case operations of a switch stand: for each case from the
/// `i`-th on, in order, a position after `acc` holding an addition of that
/// case to switch `sw`, with the block made for the case's destination.
pub proof fn lemma_case_positions(
    defs: Defs,
    values: Map<NameKey, usize>,
    bbs: Map<NameKey, usize>,
    acc: Seq<Op>,
    cases: Seq<(Constant, crate::ir::Name)>,
    sw: usize,
    i: int,
) -> (ps: Seq<int>)
    requires
        0 <= i <= cases.len(),
    ensures
        match cases_code(defs, values, bbs, acc, cases, sw, i) {
            Ok(a) => {
                &&& extends(a, acc)
                &&& ps.len() == cases.len() - i
                &&& forall|k: int| 0 <= k < ps.len() ==> acc.len() <= #[trigger] ps[k] < a.len()
                    && a[ps[k]] == Op::AddCase { switch: sw, block: bbs[cases[i + k].1.key()] }
                &&& forall|k: int, j: int| 0 <= k < j < ps.len() ==> ps[k] < ps[j]
            },
            Err(_) => true,
        },
    decreases cases.len() - i,
{
    if i < cases.len() {
        lemma_const_code_extends(defs, values, acc, cases[i].0);
        if let Ok(a1) = const_code(defs, values, acc, cases[i].0) {
            if bbs.contains_key(cases[i].1.key()) {
                let a2 = a1.push(Op::AddCase { switch: sw, block: bbs[cases[i].1.key()] });
                let rest = lemma_case_positions(defs, values, bbs, a2, cases, sw, i + 1);
                if let Ok(a) = cases_code(defs, values, bbs, a2, cases, sw, i + 1) {
                    let p0 = a1.len() as int;
                    let ps = seq![p0] + rest;
                    assert(a[p0] == a2[p0]);
                    assert forall|j: int| 0 <= j < acc.len() implies #[trigger] a[j] == acc[j] by {
                        assert(a[j] == a2[j]);
                        assert(a2[j] == a1[j]);
                    }
                    assert forall|k: int| 0 <= k < ps.len() implies acc.len() <= #[trigger] ps[k] < a.len()
                        && a[ps[k]] == Op::AddCase { switch: sw, block: bbs[cases[i + k].1.key()] } by {
                        if k > 0 {
                            assert(ps[k] == rest[k - 1]);
                            assert(i + 1 + (k - 1) == i + k);
                        }
                    }
                    assert forall|k: int, j: int| 0 <= k < j < ps.len() implies ps[k] < ps[j] by {
                        assert(ps[j] == rest[j - 1]);
                        if k > 0 {
                            assert(ps[k] == rest[k - 1]);
                        }
                    }
                    ps
                } else {
                    Seq::empty()
                }
            } else {
                Seq::empty()
            }
        } else {
            Seq::empty()
        }
    } else {
        Seq::empty()
    }
}

/// Converting a switch builds, at position `w.0`, a switch whose default
/// is the block made for its default destination, with as many cases as it
/// has; then, at the positions `w.1`, in the cases' order, adds to that
/// switch each case with the block made for that case's destination.
pub proof fn law_switch_targets(defs: Defs, st: CtxState, s: Switch) -> (w: (int, Seq<int>))
    ensures
        match term_step(defs, st, Terminator::Switch(s)) {
            Ok(st2) => {
                &&& st.bbs.contains_key(s.default_dest.key())
                &&& 0 <= w.0 < st2.ops.len()
                &&& st2.ops[w.0] == Op::BuildSwitch { default_block: st.bbs[s.default_dest.key()], case_count: s.dests.len() }
                &&& w.1.len() == s.dests@.len()
                &&& forall|k: int| 0 <= k < w.1.len() ==> w.0 < #[trigger] w.1[k] < st2.ops.len()
                    && st2.ops[w.1[k]] == Op::AddCase { switch: w.0 as usize, block: st.bbs[s.dests@[k].1.key()] }
                &&& forall|k: int, j: int| 0 <= k < j < w.1.len() ==> w.1[k] < w.1[j]
            },
            Err(_) => true,
        },
{
    if let Ok(a1) = operand_code(defs, st.values, st.ops, s.operand) {
        if st.bbs.contains_key(s.default_dest.key()) {
            let h = a1.len() as usize;
            let a2 = a1.push(Op::BuildSwitch { default_block: st.bbs[s.default_dest.key()], case_count: s.dests.len() });
            let ps = lemma_case_positions(defs, st.values, st.bbs, a2, s.dests@, h, 0);
            if let Ok(a3) = cases_code(defs, st.values, st.bbs, a2, s.dests@, h, 0) {
                let p = a1.len() as int;
                assert(a3[p] == a2[p]);
                assert forall|k: int| 0 <= k < ps.len() implies p < #[trigger] ps[k] < a3.len()
                    && a3[ps[k]] == Op::AddCase { switch: p as usize, block: st.bbs[s.dests@[k].1.key()] } by {
                    assert(0 + k == k);
                }
                (p, ps)
            } else {
                (0, Seq::empty())
            }
        } else {
            (0, Seq::empty())
        }
    } else {
        (0, Seq::empty())
    }
}

/// Converting an indirect branch adds, after the branch, each possible
/// destination in order, as the block made for it.
pub proof fn lemma_dest_positions(bbs: Map<NameKey, usize>, acc: Seq<Op>, dests: Seq<crate::ir::Name>, ib: usize, i: int)
    requires
        0 <= i <= dests.len(),
    ensures
        match dests_code(bbs, acc, dests, ib, i) {
            Ok(a) => a.len() == acc.len() + (dests.len() - i) && a.subrange(0, acc.len() as int) == acc
                && forall|k: int| 0 <= k < dests.len() - i ==> #[trigger] a[acc.len() + k]
                    == Op::AddDestination { indirect_br: ib, block: bbs[dests[i + k].key()] },
            Err(_) => true,
        },
    decreases dests.len() - i,
{
    if i < dests.len() && bbs.contains_key(dests[i].key()) {
        let a1 = acc.push(Op::AddDestination { indirect_br: ib, block: bbs[dests[i].key()] });
        lemma_dest_positions(bbs, a1, dests, ib, i + 1);
        if let Ok(a) = dests_code(bbs, a1, dests, ib, i + 1) {
            assert(a.subrange(0, acc.len() as int) =~= acc) by {
                assert(a.subrange(0, a1.len() as int) == a1);
                assert forall|j: int| 0 <= j < acc.len() implies a[j] == acc[j] by {
                    assert(a[j] == a.subrange(0, a1.len() as int)[j]);
                }
            }
            assert forall|k: int| 0 <= k < dests.len() - i implies #[trigger] a[acc.len() + k]
                == Op::AddDestination { indirect_br: ib, block: bbs[dests[i + k].key()] } by {
                if k == 0 {
                    assert(a[acc.len() as int] == a.subrange(0, a1.len() as int)[acc.len() as int]);
                } else {
                    assert(a[a1.len() + (k - 1)] == Op::AddDestination { indirect_br: ib, block: bbs[dests[i + 1 + (k - 1)].key()] });
                    assert(a1.len() + (k - 1) == acc.len() + k);
                }
            }
        }
    } else if i >= dests.len() {
        assert(acc.subrange(0, acc.len() as int) =~= acc);
    }
}

/// Converting an indirect branch builds it, right after its address, with
/// as many destinations as it has, then adds to it each possible
/// destination in order, as the block made for it. Converting an invoke
/// ends with an invoke that continues in the block made for its return
/// label and unwinds to the block made for its exception label.
pub proof fn law_indirect_branch_and_invoke_targets(defs: Defs, st: CtxState, t: Terminator)
    ensures
        match (t, term_step(defs, st, t)) {
            (Terminator::IndirectBr(b), Ok(st2)) => match operand_code(defs, st.values, st.ops, b.operand) {
                Ok(a1) => {
                    let h = a1.len() as int;
                    &&& st2.ops.len() == h + 1 + b.possible_dests@.len()
                    &&& st2.ops[h] == Op::BuildIndirectBr { dest_count: b.possible_dests.len() }
                    &&& forall|k: int| 0 <= k < b.possible_dests@.len() ==> #[trigger] st2.ops[h + 1 + k]
                        == Op::AddDestination { indirect_br: h as usize, block: st.bbs[b.possible_dests@[k].key()] }
                },
                Err(_) => false,
            },
            (Terminator::Invoke(iv), Ok(st2)) => st2.ops.len() > 0 && match st2.ops.last() {
                Op::BuildInvoke { arg_count, then_block, catch_block, name } => {
                    &&& st.bbs.contains_key(iv.return_label.key())
                    &&& st.bbs.contains_key(iv.exception_label.key())
                    &&& then_block == st.bbs[iv.return_label.key()]
                    &&& catch_block == st.bbs[iv.exception_label.key()]
                    &&& arg_count == iv.arguments.len()
                    &&& name == iv.result
                },
                _ => false,
            },
            _ => true,
        },
{
    if let Terminator::IndirectBr(b) = t {
        if let Ok(a1) = operand_code(defs, st.values, st.ops, b.operand) {
            let h = a1.len() as usize;
            let a2 = a1.push(Op::BuildIndirectBr { dest_count: b.possible_dests.len() });
            lemma_dest_positions(st.bbs, a2, b.possible_dests@, h, 0);
            if let Ok(a) = dests_code(st.bbs, a2, b.possible_dests@, h, 0) {
                let p = a1.len() as int;
                assert(a[p] == a.subrange(0, a2.len() as int)[p]);
                assert forall|k: int| 0 <= k < b.possible_dests@.len() implies #[trigger] a[p + 1 + k]
                    == Op::AddDestination { indirect_br: p as usize, block: st.bbs[b.possible_dests@[k].key()] } by {
                    assert(0 + k == k);
                    assert(a[a2.len() + k] == Op::AddDestination { indirect_br: h, block: st.bbs[b.possible_dests@[0 + k].key()] });
                }
            }
        }
    }
}

// ---------------------------------------------------------------------------
// Types

/// The shape of a type: its kind and what its kind is measured by.
pub enum TypeShape {
    Void,
    Integer(u32),
    Pointer(u32),
    Real(nat, nat),
    Function { params: usize, var_arg: bool },
    Vector { length: u32, scalable: bool },
    Array(u32),
    Struct { fields: usize, packed: bool },
}

/// The shape of a module type, where it is one of these kinds.
pub open spec fn type_shape(t: Type) -> Option<TypeShape> {
    match t {
        Type::VoidType => Some(TypeShape::Void),
        Type::IntegerType { bits } => Some(TypeShape::Integer(bits)),
        Type::PointerType { addr_space } => Some(TypeShape::Pointer(addr_space)),
        Type::FPType(fp) => Some(TypeShape::Real(fp_layout(fp).0, fp_layout(fp).1)),
        Type::FuncType { result_type: _, param_types, is_var_arg } => Some(
            TypeShape::Function { params: param_types.len(), var_arg: is_var_arg },
        ),
        Type::VectorType { element_type: _, num_elements, scalable } => Some(
            TypeShape::Vector { length: num_elements as u32, scalable },
        ),
        Type::ArrayType { element_type: _, num_elements } => Some(TypeShape::Array(num_elements as u32)),
        Type::StructType { element_types, is_packed } => Some(TypeShape::Struct { fields: element_types.len(), packed: is_packed }),
        _ => None,
    }
}

/// The shape of the type a C API type operation makes, where it is one of
/// these kinds.
pub open spec fn type_op_shape(op: Op) -> Option<TypeShape> {
    match op {
        Op::VoidType => Some(TypeShape::Void),
        Op::IntType(bits) => Some(TypeShape::Integer(bits)),
        Op::PointerType(addr_space) => Some(TypeShape::Pointer(addr_space)),
        Op::FunctionType { param_count, is_var_arg } => Some(TypeShape::Function { params: param_count, var_arg: is_var_arg }),
        Op::VectorType(n) => Some(TypeShape::Vector { length: n, scalable: false }),
        Op::ScalableVectorType(n) => Some(TypeShape::Vector { length: n, scalable: true }),
        Op::ArrayType(n) => Some(TypeShape::Array(n)),
        Op::StructType { element_count, is_packed } => Some(TypeShape::Struct { fields: element_count, packed: is_packed }),
        _ => match type_op_fp_layout(op) {
            Some(l) => Some(TypeShape::Real(l.0, l.1)),
            None => None,
        },
    }
}

/// Converting a type of one of these kinds ends with an operation that
/// makes a type of the same shape: an integer type of the same width, a
/// pointer in the same address space, a floating-point type of the same
/// layout, a function type with as many parameters and the same
/// variadicity, a vector of the same length and scalability, an array of
/// the same length, a struct with as many fields and the same packedness.
pub proof fn law_type_shape(defs: Defs, stack: Seq<usize>, acc: Seq<Op>, t: Type)
    requires
        type_shape(t) is Some,
    ensures
        type_code(defs, stack, acc, t) matches Ok(a) ==> a.len() > 0 && type_op_shape(a.last()) == type_shape(t),
{
}

// ---------------------------------------------------------------------------
// Operand order

/// The operands of an instruction in the order the C API's builder takes
/// them (`LLVMBuildStore(value, address)`, `LLVMBuildSelect(condition,
/// then, else)`, `LLVMBuildICmp(lhs, rhs)`, `LLVMBuildInsertElement(vector,
/// element, index)`, ...), and the build operation that makes the
/// instruction, for the instructions whose inputs are all operands.
pub open spec fn builder_call(i: Instruction) -> Option<(Seq<Operand>, Op)> {
    match i {
        Instruction::Store(x) => Some((seq![x.value, x.address], Op::BuildStore)),
        Instruction::Select(x) => Some((seq![x.condition, x.true_value, x.false_value], Op::BuildSelect(x.dest))),
        Instruction::ICmp(x) => Some((
            seq![x.operand0, x.operand1],
            Op::BuildICmp { predicate: int_predicate_code(x.predicate), name: x.dest },
        )),
        Instruction::FCmp(x) => Some((
            seq![x.operand0, x.operand1],
            Op::BuildFCmp { predicate: real_predicate_code(x.predicate), name: x.dest },
        )),
        Instruction::ExtractElement(x) => Some((seq![x.vector, x.index], Op::BuildExtractElement(x.dest))),
        Instruction::InsertElement(x) => Some((seq![x.vector, x.element, x.index], Op::BuildInsertElement(x.dest))),
        Instruction::FNeg(x) => Some((seq![x.operand], Op::BuildFNeg(x.dest))),
        Instruction::Freeze(x) => Some((seq![x.operand], Op::BuildFreeze(x.dest))),
        _ => None,
    }
}

proof fn lemma_operands_code_small(defs: Defs, values: Map<NameKey, usize>, acc: Seq<Op>, os: Seq<Operand>)
    requires
        1 <= os.len() <= 3,
    ensures
        operands_code(defs, values, acc, os, 0) == match operand_code(defs, values, acc, os[0]) {
            Ok(a1) => if os.len() == 1 {
                Ok(a1)
            } else {
                match operand_code(defs, values, a1, os[1]) {
                    Ok(a2) => if os.len() == 2 {
                        Ok(a2)
                    } else {
                        operand_code(defs, values, a2, os[2])
                    },
                    Err(e) => Err(e),
                }
            },
            Err(e) => Err(e),
        },
{
    reveal_with_fuel(operands_code, 4);
}

/// Converting an instruction whose inputs are all operands makes its
/// operands in the order the builder takes them, then the build operation
/// of that instruction; it binds the instruction's result name, if it has
/// one, to that operation and nothing else.
#[verifier::rlimit(50)]
pub proof fn law_operand_order(defs: Defs, st: CtxState, i: Instruction)
    requires
        builder_call(i) is Some,
    ensures
        match instr_step(defs, st, i) {
            Ok(st2) => {
                &&& st2.ops.len() > 0
                &&& operands_code(defs, st.values, st.ops, builder_call(i)->Some_0.0, 0)
                    == Ok::<Seq<Op>, ConvertError>(st2.ops.drop_last())
                &&& st2.ops.last() == builder_call(i)->Some_0.1
                &&& st2.bbs == st.bbs
                &&& st2.values == match crate::bindings::instr_dest(i) {
                    Some(d) => st.values.insert(d.key(), (st2.ops.len() - 1) as usize),
                    None => st.values,
                }
            },
            Err(_) => true,
        },
{
    let os = builder_call(i)->Some_0.0;
    lemma_operands_code_small(defs, st.values, st.ops, os);
    if let Ok(st2) = instr_step(defs, st, i) {
        if let Ok(a1) = operand_code(defs, st.values, st.ops, os[0]) {
            if os.len() == 1 {
                assert(st2.ops.drop_last() =~= a1);
            } else if let Ok(a2) = operand_code(defs, st.values, a1, os[1]) {
                if os.len() == 2 {
                    assert(st2.ops.drop_last() =~= a2);
                } else if let Ok(a3) = operand_code(defs, st.values, a2, os[2]) {
                    assert(st2.ops.drop_last() =~= a3);
                }
            }
        }
    }
}

/// Converting a load makes its address, then the type it loads, then the
/// load; converting an allocation makes the allocated type, then the
/// allocation. Each binds its result name to the last operation.
pub proof fn law_memory_instructions(defs: Defs, st: CtxState, i: Instruction)
    ensures
        match (i, instr_step(defs, st, i)) {
            (Instruction::Load(l), Ok(st2)) => {
                &&& st2.ops.len() > 0
                &&& st2.ops.last() == Op::BuildLoad(l.dest)
                &&& st2.values == st.values.insert(l.dest.key(), (st2.ops.len() - 1) as usize)
                &&& match operand_code(defs, st.values, st.ops, l.address) {
                    Ok(a1) => type_code(defs, Seq::empty(), a1, l.loaded_ty) == Ok::<Seq<Op>, ConvertError>(st2.ops.drop_last()),
                    Err(_) => false,
                }
            },
            (Instruction::Alloca(a), Ok(st2)) => {
                &&& st2.ops.len() > 0
                &&& st2.ops.last() == Op::BuildAlloca(a.dest)
                &&& st2.values == st.values.insert(a.dest.key(), (st2.ops.len() - 1) as usize)
                &&& type_code(defs, Seq::empty(), st.ops, a.allocated_type) == Ok::<Seq<Op>, ConvertError>(st2.ops.drop_last())
            },
            _ => true,
        },
{
    if let (Instruction::Load(l), Ok(st2)) = (i, instr_step(defs, st, i)) {
        if let Ok(a1) = operand_code(defs, st.values, st.ops, l.address) {
            if let Ok(a2) = type_code(defs, Seq::empty(), a1, l.loaded_ty) {
                assert(st2.ops.drop_last() =~= a2);
            }
        }
    }
    if let (Instruction::Alloca(a), Ok(st2)) = (i, instr_step(defs, st, i)) {
        if let Ok(a1) = type_code(defs, Seq::empty(), st.ops, a.allocated_type) {
            assert(st2.ops.drop_last() =~= a1);
        }
    }
}

// ---------------------------------------------------------------------------
// Names, calls, returns and phis

/// An operand that names a local value pushes the value bound to that
/// name, and fails exactly when the name is unbound; a constant reference
/// to a global does the same with the global's name.
pub proof fn law_operand_resolution(defs: Defs, values: Map<NameKey, usize>, acc: Seq<Op>, op: Operand, c: Constant)
    ensures
        match op {
            Operand::LocalOperand { name, ty: _ } => operand_code(defs, values, acc, op) == if values.contains_key(name.key()) {
                Ok::<Seq<Op>, ConvertError>(acc.push(Op::Value(values[name.key()])))
            } else {
                Err(ConvertError::LocalOperandNotFound(name))
            },
            _ => true,
        },
        match c {
            Constant::GlobalReference { name, ty: _ } => const_code(defs, values, acc, c) == if values.contains_key(name.key()) {
                Ok::<Seq<Op>, ConvertError>(acc.push(Op::Value(values[name.key()])))
            } else {
                Err(ConvertError::GlobalReferenceNotFound(name))
            },
            _ => true,
        },
{
}

/// Converting a call makes the callee, then its function type, then the
/// arguments in order, then a call with as many arguments, named after its
/// result (bound to the call when it has one).
pub proof fn law_call_order(defs: Defs, st: CtxState, i: Instruction)
    requires
        i is Call,
    ensures
        match instr_step(defs, st, i) {
            Ok(st2) => {
                let c = i->Call_0;
                &&& c.function is Operand
                &&& st2.ops.len() > 0
                &&& st2.ops.last() == Op::BuildCall { arg_count: c.arguments.len(), name: c.dest }
                &&& st2.values == match c.dest {
                    Some(d) => st.values.insert(d.key(), (st2.ops.len() - 1) as usize),
                    None => st.values,
                }
                &&& match operand_code(defs, st.values, st.ops, c.function->Operand_0) {
                    Ok(a1) => match type_code(defs, Seq::empty(), a1, c.function_ty) {
                        Ok(a2) => operands_code(defs, st.values, a2, c.arguments@, 0)
                            == Ok::<Seq<Op>, ConvertError>(st2.ops.drop_last()),
                        Err(_) => false,
                    },
                    Err(_) => false,
                }
            },
            Err(_) => true,
        },
{
    if let Ok(st2) = instr_step(defs, st, i) {
        let c = i->Call_0;
        if let Callee::Operand(f) = c.function {
            if let Ok(a1) = operand_code(defs, st.values, st.ops, f) {
                if let Ok(a2) = type_code(defs, Seq::empty(), a1, c.function_ty) {
                    if let Ok(a3) = operands_code(defs, st.values, a2, c.arguments@, 0) {
                        assert(st2.ops.drop_last() =~= a3);
                    }
                }
            }
        }
    }
}

/// Converting a return with a value makes the value, then a return of it;
/// a return without one is a void return.
pub proof fn law_return(defs: Defs, st: CtxState, t: Terminator)
    ensures
        match (t, term_step(defs, st, t)) {
            (Terminator::Ret(r), Ok(st2)) => match r.return_operand {
                Some(o) => st2.ops.len() > 0 && st2.ops.last() == Op::BuildRet
                    && operand_code(defs, st.values, st.ops, o) == Ok::<Seq<Op>, ConvertError>(st2.ops.drop_last()),
                None => st2.ops == st.ops.push(Op::BuildRetVoid),
            },
            _ => true,
        },
{
    if let (Terminator::Ret(r), Ok(st2)) = (t, term_step(defs, st, t)) {
        if let Some(o) = r.return_operand {
            if let Ok(a1) = operand_code(defs, st.values, st.ops, o) {
                assert(st2.ops.drop_last() =~= a1);
            }
        }
    }
}

/// Where the incoming pairs of a phi stand: for each pair from the `i`-th
/// on, in order, a position `q` holding the block made for the pair's
/// block name, right after the operations that make the pair's value,
/// which follow the previous pair's block.
#[verifier::rlimit(50)]
pub proof fn lemma_incoming_positions(
    defs: Defs,
    values: Map<NameKey, usize>,
    bbs: Map<NameKey, usize>,
    acc: Seq<Op>,
    inc: Seq<(Operand, Name)>,
    i: int,
) -> (qs: Seq<int>)
    requires
        0 <= i <= inc.len(),
    ensures
        match incoming_code(defs, values, bbs, acc, inc, i) {
            Ok(a) => {
                &&& acc.len() <= a.len()
                &&& a.subrange(0, acc.len() as int) == acc
                &&& qs.len() == inc.len() - i
                &&& forall|k: int| 0 <= k < qs.len() ==> acc.len() <= #[trigger] qs[k] < a.len()
                    && a[qs[k]] == Op::Value(bbs[inc[i + k].1.key()])
                    && operand_code(defs, values, a.subrange(0, if k == 0 { acc.len() as int } else { qs[k - 1] + 1 }), inc[i + k].0)
                        == Ok::<Seq<Op>, ConvertError>(a.subrange(0, qs[k]))
                &&& qs.len() > 0 ==> qs[qs.len() - 1] == a.len() - 1
            },
            Err(_) => true,
        },
    decreases inc.len() - i,
{
    if i < inc.len() {
        lemma_operand_prefix(defs, values, acc, inc[i].0);
        if let Ok(a1) = operand_code(defs, values, acc, inc[i].0) {
            if bbs.contains_key(inc[i].1.key()) {
                let a2 = a1.push(Op::Value(bbs[inc[i].1.key()]));
                let rest = lemma_incoming_positions(defs, values, bbs, a2, inc, i + 1);
                if let Ok(a) = incoming_code(defs, values, bbs, a2, inc, i + 1) {
                    let q0 = a1.len() as int;
                    let qs = seq![q0] + rest;
                    assert(a.subrange(0, a1.len() as int) =~= a1) by {
                        assert forall|j: int| 0 <= j < a1.len() implies a.subrange(0, a1.len() as int)[j] == a1[j] by {
                            assert(a.subrange(0, a2.len() as int)[j] == a2[j]);
                        }
                    }
                    assert(a.subrange(0, acc.len() as int) =~= acc) by {
                        assert forall|j: int| 0 <= j < acc.len() implies a.subrange(0, acc.len() as int)[j] == acc[j] by {
                            assert(a.subrange(0, a1.len() as int)[j] == a1[j]);
                            assert(a1.subrange(0, acc.len() as int)[j] == acc[j]);
                        }
                    }
                    assert(a.subrange(0, a2.len() as int)[q0] == a2[q0]);
                    assert forall|k: int| 0 <= k < qs.len() implies acc.len() <= #[trigger] qs[k] < a.len()
                        && a[qs[k]] == Op::Value(bbs[inc[i + k].1.key()])
                        && operand_code(defs, values, a.subrange(0, if k == 0 { acc.len() as int } else { qs[k - 1] + 1 }), inc[i + k].0)
                            == Ok::<Seq<Op>, ConvertError>(a.subrange(0, qs[k])) by {
                        if k > 0 {
                            assert(qs[k] == rest[k - 1]);
                            assert(i + 1 + (k - 1) == i + k);
                            if k == 1 {
                                assert(a.subrange(0, a2.len() as int) == a2);
                            } else {
                                assert(qs[k - 1] == rest[k - 2]);
                            }
                        }
                    }
                    if rest.len() == 0 {
                        assert(a.len() == a2.len());
                    }
                    qs
                } else {
                    Seq::empty()
                }
            } else {
                Seq::empty()
            }
        } else {
            Seq::empty()
        }
    } else {
        assert(acc.subrange(0, acc.len() as int) =~= acc);
        Seq::empty()
    }
}

/// The operations that make an operand are appended to those before them.
proof fn lemma_operand_prefix(defs: Defs, values: Map<NameKey, usize>, acc: Seq<Op>, o: Operand)
    ensures
        operand_code(defs, values, acc, o) matches Ok(a) ==> acc.len() <= a.len() && a.subrange(0, acc.len() as int) == acc,
{
    match o {
        Operand::ConstantOperand(c) => {
            lemma_const_code_extends(defs, values, acc, c);
            if let Ok(a) = const_code(defs, values, acc, c) {
                assert(a.subrange(0, acc.len() as int) =~= acc);
            }
        },
        Operand::LocalOperand { name, ty: _ } => {
            if values.contains_key(name.key()) {
                assert(acc.push(Op::Value(values[name.key()])).subrange(0, acc.len() as int) =~= acc);
            }
        },
        _ => {},
    }
}

/// Adding a phi's incoming pairs pairs each value with the block made for
/// the block it comes from: the pairs stand in order, each value's
/// operations directly followed by its block, and then the pairs are added,
/// all of them, to the phi bound to the phi's name.
pub proof fn law_phi_incoming(defs: Defs, st: CtxState, p: Phi) -> (qs: Seq<int>)
    ensures
        match phi_fill_step(defs, st, p) {
            Ok(st2) => {
                &&& phi_handle(st, p.dest) is Some
                &&& st2.ops.len() > st.ops.len()
                &&& st2.ops.last() == Op::AddIncoming { phi: st.values[p.dest.key()], count: p.incoming_values.len() }
                &&& qs.len() == p.incoming_values@.len()
                &&& forall|k: int| 0 <= k < qs.len() ==> st.ops.len() <= #[trigger] qs[k] < st2.ops.len() - 1
                    && st2.ops[qs[k]] == Op::Value(st.bbs[p.incoming_values@[k].1.key()])
                    && operand_code(defs, st.values, st2.ops.subrange(0, if k == 0 { st.ops.len() as int } else { qs[k - 1] + 1 }), p.incoming_values@[k].0)
                        == Ok::<Seq<Op>, ConvertError>(st2.ops.subrange(0, qs[k]))
                &&& qs.len() > 0 ==> qs[qs.len() - 1] == st2.ops.len() - 2
            },
            Err(_) => true,
        },
{
    let qs = lemma_incoming_positions(defs, st.values, st.bbs, st.ops, p.incoming_values@, 0);
    if let Ok(st2) = phi_fill_step(defs, st, p) {
        if let Ok(a) = incoming_code(defs, st.values, st.bbs, st.ops, p.incoming_values@, 0) {
            let n = p.incoming_values.len();
            assert(st2.ops == a.push(Op::AddIncoming { phi: st.values[p.dest.key()], count: n }));
            assert forall|k: int| 0 <= k < qs.len() implies st.ops.len() <= #[trigger] qs[k] < st2.ops.len() - 1
                && st2.ops[qs[k]] == Op::Value(st.bbs[p.incoming_values@[k].1.key()])
                && operand_code(defs, st.values, st2.ops.subrange(0, if k == 0 { st.ops.len() as int } else { qs[k - 1] + 1 }), p.incoming_values@[k].0)
                    == Ok::<Seq<Op>, ConvertError>(st2.ops.subrange(0, qs[k])) by {
                assert(0 + k == k);
                let lo = if k == 0 { st.ops.len() as int } else { qs[k - 1] + 1 };
                assert(st2.ops.subrange(0, lo) =~= a.subrange(0, lo));
                assert(st2.ops.subrange(0, qs[k]) =~= a.subrange(0, qs[k]));
            }
        }
    }
    qs
}

// ---------------------------------------------------------------------------
// Parameters, blocks and globals

/// Taking a function's parameters from the `i`-th on appends, in order,
/// one operation per parameter that takes the parameter of that index from
/// function `f`; afterwards each parameter's name stands for an operation
/// that takes a parameter of `f` of the same name (the last one, where
/// names repeat), and every other name keeps its value.
pub proof fn law_params_taken(st: CtxState, f: usize, ps: Seq<Parameter>, i: int)
    requires
        0 <= i <= ps.len(),
        ps.len() <= u32::MAX,
        st.ops.len() + (ps.len() - i) <= usize::MAX,
    ensures
        ({
            let r = params_step(st, f, ps, i);
            &&& r.ops.len() == st.ops.len() + (ps.len() - i)
            &&& r.ops.subrange(0, st.ops.len() as int) == st.ops
            &&& forall|k: int| i <= k < ps.len() ==> #[trigger] r.ops[st.ops.len() + (k - i)]
                == Op::GetParam { function: f, index: k as u32 }
            &&& forall|k: int| i <= k < ps.len() ==> {
                let p = #[trigger] r.values[ps[k].name.key()];
                &&& r.values.contains_key(ps[k].name.key())
                &&& st.ops.len() <= p < r.ops.len()
                &&& r.ops[p as int] matches Op::GetParam { function, index } && function == f && index < ps.len()
                    && ps[index as int].name.key() == ps[k].name.key()
            }
            &&& forall|key: NameKey| #![trigger r.values.contains_key(key)] #![trigger r.values[key]]
                (forall|k: int| i <= k < ps.len() ==> #[trigger] ps[k].name.key() != key)
                ==> (r.values.contains_key(key) == st.values.contains_key(key) && r.values[key] == st.values[key])
            &&& r.bbs == st.bbs
        }),
    decreases ps.len() - i,
{
    if i < ps.len() {
        let h = st.ops.len() as usize;
        let st1 = CtxState {
            ops: st.ops.push(Op::GetParam { function: f, index: i as u32 }),
            values: st.values.insert(ps[i].name.key(), h),
            bbs: st.bbs,
        };
        law_params_taken(st1, f, ps, i + 1);
        let r = params_step(st, f, ps, i);
        assert(r == params_step(st1, f, ps, i + 1));
        assert(r.ops.subrange(0, st.ops.len() as int) =~= st.ops) by {
            assert forall|j: int| 0 <= j < st.ops.len() implies r.ops.subrange(0, st.ops.len() as int)[j] == st.ops[j] by {
                assert(r.ops.subrange(0, st1.ops.len() as int)[j] == st1.ops[j]);
            }
        }
        let n = st.ops.len() as int;
        assert(h as int == n);
        assert(r.ops[n] == Op::GetParam { function: f, index: i as u32 }) by {
            assert(r.ops.subrange(0, st1.ops.len() as int)[n] == st1.ops[n]);
        }
        assert forall|k: int| i <= k < ps.len() implies #[trigger] r.ops[st.ops.len() + (k - i)]
            == Op::GetParam { function: f, index: k as u32 } by {
            if k > i {
                assert(st1.ops.len() + (k - (i + 1)) == st.ops.len() + (k - i));
            }
        }
        assert forall|k: int| i <= k < ps.len() implies {
            let p = #[trigger] r.values[ps[k].name.key()];
            &&& r.values.contains_key(ps[k].name.key())
            &&& st.ops.len() <= p < r.ops.len()
            &&& r.ops[p as int] matches Op::GetParam { function, index } && function == f && index < ps.len()
                && ps[index as int].name.key() == ps[k].name.key()
        } by {
            if k == i {
                if exists|j: int| i + 1 <= j < ps.len() && #[trigger] ps[j].name.key() == ps[i].name.key() {
                    let j = choose|j: int| i + 1 <= j < ps.len() && #[trigger] ps[j].name.key() == ps[i].name.key();
                    assert(r.values[ps[j].name.key()] == r.values[ps[k].name.key()]);
                } else {
                    assert(r.values[ps[i].name.key()] == st1.values[ps[i].name.key()]);
                    assert((i as u32) as int == i);
                }
            }
        }
        assert forall|key: NameKey| (forall|k: int| i <= k < ps.len() ==> #[trigger] ps[k].name.key() != key)
            implies (r.values.contains_key(key) == st.values.contains_key(key) && r.values[key] == st.values[key]) by {
            assert(ps[i].name.key() != key);
            assert forall|k: int| i + 1 <= k < ps.len() implies #[trigger] ps[k].name.key() != key by {}
            assert(r.values.contains_key(key) == st1.values.contains_key(key));
            assert(r.values[key] == st1.values[key]);
        }
    } else {
        assert(st.ops.subrange(0, st.ops.len() as int) =~= st.ops);
    }
}

/// Making a function's blocks from the `i`-th on appends, in order, one
/// operation per block that appends a block of that name to function `f`;
/// afterwards each block's name stands for an operation that appends a
/// block of `f` of the same name, and every other block name keeps its
/// block; value names are unchanged.
pub proof fn law_blocks_made(st: CtxState, f: usize, bbs: Seq<BasicBlock>, i: int)
    requires
        0 <= i <= bbs.len(),
        st.ops.len() + (bbs.len() - i) <= usize::MAX,
    ensures
        ({
            let r = blocks_step(st, f, bbs, i);
            &&& r.ops.len() == st.ops.len() + (bbs.len() - i)
            &&& r.ops.subrange(0, st.ops.len() as int) == st.ops
            &&& forall|k: int| i <= k < bbs.len() ==> #[trigger] r.ops[st.ops.len() + (k - i)]
                == Op::AppendBasicBlock { function: f, name: bbs[k].name }
            &&& forall|k: int| i <= k < bbs.len() ==> {
                let p = #[trigger] r.bbs[bbs[k].name.key()];
                &&& r.bbs.contains_key(bbs[k].name.key())
                &&& st.ops.len() <= p < r.ops.len()
                &&& r.ops[p as int] matches Op::AppendBasicBlock { function, name } && function == f
                    && name.key() == bbs[k].name.key()
            }
            &&& forall|key: NameKey| #![trigger r.bbs.contains_key(key)] #![trigger r.bbs[key]]
                (forall|k: int| i <= k < bbs.len() ==> #[trigger] bbs[k].name.key() != key)
                ==> (r.bbs.contains_key(key) == st.bbs.contains_key(key) && r.bbs[key] == st.bbs[key])
            &&& r.values == st.values
        }),
    decreases bbs.len() - i,
{
    if i < bbs.len() {
        let h = st.ops.len() as usize;
        let st1 = CtxState {
            ops: st.ops.push(Op::AppendBasicBlock { function: f, name: bbs[i].name }),
            values: st.values,
            bbs: st.bbs.insert(bbs[i].name.key(), h),
        };
        law_blocks_made(st1, f, bbs, i + 1);
        let r = blocks_step(st, f, bbs, i);
        assert(r == blocks_step(st1, f, bbs, i + 1));
        assert(r.ops.subrange(0, st.ops.len() as int) =~= st.ops) by {
            assert forall|j: int| 0 <= j < st.ops.len() implies r.ops.subrange(0, st.ops.len() as int)[j] == st.ops[j] by {
                assert(r.ops.subrange(0, st1.ops.len() as int)[j] == st1.ops[j]);
            }
        }
        let n = st.ops.len() as int;
        assert(h as int == n);
        assert(r.ops[n] == Op::AppendBasicBlock { function: f, name: bbs[i].name }) by {
            assert(r.ops.subrange(0, st1.ops.len() as int)[n] == st1.ops[n]);
        }
        assert forall|k: int| i <= k < bbs.len() implies #[trigger] r.ops[st.ops.len() + (k - i)]
            == Op::AppendBasicBlock { function: f, name: bbs[k].name } by {
            if k > i {
                assert(st1.ops.len() + (k - (i + 1)) == st.ops.len() + (k - i));
            }
        }
        assert forall|k: int| i <= k < bbs.len() implies {
            let p = #[trigger] r.bbs[bbs[k].name.key()];
            &&& r.bbs.contains_key(bbs[k].name.key())
            &&& st.ops.len() <= p < r.ops.len()
            &&& r.ops[p as int] matches Op::AppendBasicBlock { function, name } && function == f
                && name.key() == bbs[k].name.key()
        } by {
            if k == i {
                if exists|j: int| i + 1 <= j < bbs.len() && #[trigger] bbs[j].name.key() == bbs[i].name.key() {
                    let j = choose|j: int| i + 1 <= j < bbs.len() && #[trigger] bbs[j].name.key() == bbs[i].name.key();
                    assert(r.bbs[bbs[j].name.key()] == r.bbs[bbs[k].name.key()]);
                } else {
                    assert(r.bbs[bbs[i].name.key()] == st1.bbs[bbs[i].name.key()]);
                }
            }
        }
        assert forall|key: NameKey| (forall|k: int| i <= k < bbs.len() ==> #[trigger] bbs[k].name.key() != key)
            implies (r.bbs.contains_key(key) == st.bbs.contains_key(key) && r.bbs[key] == st.bbs[key]) by {
            assert(bbs[i].name.key() != key);
            assert forall|k: int| i + 1 <= k < bbs.len() implies #[trigger] bbs[k].name.key() != key by {}
            assert(r.bbs.contains_key(key) == st1.bbs.contains_key(key));
            assert(r.bbs[key] == st1.bbs[key]);
        }
    } else {
        assert(st.ops.subrange(0, st.ops.len() as int) =~= st.ops);
    }
}

/// Adding a global variable makes its value type (that of its initializer,
/// or `i8` without one), then adds a global of its name, bound to it, and
/// sets on it, in order, its linkage, its visibility, its constness, its
/// alignment (only when it has one) and its section (only when it has
/// one); nothing else is added.
pub proof fn law_global_declaration(defs: Defs, st: CtxState, g: GlobalVariable)
    ensures
        match global_decl_step(defs, st, g) {
            Ok(st2) => st2.ops.len() <= usize::MAX ==> {
                let h = st2.values[g.name.key()] as int;
                let extra = (if g.alignment > 0 { 1int } else { 0int }) + (if g.section is Some { 1int } else { 0int });
                &&& st2.ops.len() == h + 4 + extra
                &&& st2.ops[h] == Op::AddGlobal(g.name)
                &&& match g.initializer {
                    Some(init) => type_of_code(defs, st.ops, init) == Ok::<Seq<Op>, ConvertError>(st2.ops.subrange(0, h)),
                    None => st2.ops.subrange(0, h) == st.ops.push(Op::IntType(8)),
                }
                &&& st2.ops[h + 1] matches Op::SetLinkage { target, linkage } && target == h
                    && c_linkage_traits(linkage) == linkage_traits(g.linkage)
                &&& st2.ops[h + 2] matches Op::SetVisibility { target, visibility } && target == h
                    && c_visibility_traits(visibility) == visibility_traits(g.visibility)
                &&& st2.ops[h + 3] == Op::SetGlobalConstant { target: h as usize, is_constant: g.is_constant }
                &&& g.alignment > 0 ==> st2.ops[h + 4] == Op::SetAlignment { target: h as usize, alignment: g.alignment }
                &&& g.section is Some ==> st2.ops.last() == Op::SetSection { target: h as usize, section: g.section->Some_0 }
                &&& st2.values == st.values.insert(g.name.key(), h as usize)
                &&& st2.bbs == st.bbs
            },
            Err(_) => true,
        },
{
    reveal(global_decl_step);
    let ty = match g.initializer {
        Some(init) => type_of_code(defs, st.ops, init),
        None => Ok(st.ops.push(Op::IntType(8))),
    };
    if let Ok(a1) = ty {
        let h = a1.len() as usize;
        let a2 = attrs(a1.push(Op::AddGlobal(g.name)), h, g.linkage, g.visibility).push(
            Op::SetGlobalConstant { target: h, is_constant: g.is_constant },
        );
        let a3 = if g.alignment > 0 { a2.push(Op::SetAlignment { target: h, alignment: g.alignment }) } else { a2 };
        let a4 = match g.section {
            Some(s) => a3.push(Op::SetSection { target: h, section: s }),
            None => a3,
        };
        if a4.len() <= usize::MAX {
            assert(h as int == a1.len());
            assert(a4.subrange(0, a1.len() as int) =~= a1);
            assert(a4[a1.len() as int] == Op::AddGlobal(g.name));
        }
    }
}

// ---------------------------------------------------------------------------
// Functions and their attributes

/// Attributes, each with the place it is added at.
pub open spec fn placed(place: AttrPlace, attrs: Seq<Attribute>) -> Seq<(AttrPlace, Attribute)> {
    attrs.map_values(|a: Attribute| (place, a))
}

/// The attributes of the parameters `ps[j..]`, parameter by parameter, each
/// placed at its own parameter's index.
pub open spec fn param_attr_list(ps: Seq<Parameter>, j: int) -> Seq<(AttrPlace, Attribute)>
    decreases ps.len() - j,
{
    if 0 <= j < ps.len() {
        placed(AttrPlace::Param(j as u32), ps[j].attributes@) + param_attr_list(ps, j + 1)
    } else {
        Seq::empty()
    }
}

/// The operations that add placed attributes to function `h`, in order.
pub open spec fn attribute_additions(h: usize, list: Seq<(AttrPlace, Attribute)>) -> Seq<Op> {
    list.map_values(|x: (AttrPlace, Attribute)| Op::AddAttribute { target: h, place: x.0, attribute: x.1 })
}

proof fn lemma_additions_concat(h: usize, x: Seq<(AttrPlace, Attribute)>, y: Seq<(AttrPlace, Attribute)>)
    ensures
        attribute_additions(h, x + y) == attribute_additions(h, x) + attribute_additions(h, y),
{
    assert(attribute_additions(h, x + y) =~= attribute_additions(h, x) + attribute_additions(h, y));
}

/// Adding attributes at one place appends one addition per attribute, in
/// order, each to function `h` at that place.
pub proof fn law_attributes_at_place(acc: Seq<Op>, h: usize, place: AttrPlace, attrs: Seq<Attribute>, i: int)
    requires
        0 <= i <= attrs.len(),
    ensures
        attr_ops(acc, h, place, attrs, i) == acc + attribute_additions(h, placed(place, attrs.subrange(i, attrs.len() as int))),
    decreases attrs.len() - i,
{
    if i < attrs.len() {
        let op = Op::AddAttribute { target: h, place, attribute: attrs[i] };
        law_attributes_at_place(acc.push(op), h, place, attrs, i + 1);
        assert(acc.push(op) + attribute_additions(h, placed(place, attrs.subrange(i + 1, attrs.len() as int)))
            =~= acc + attribute_additions(h, placed(place, attrs.subrange(i, attrs.len() as int))));
    } else {
        assert(acc + attribute_additions(h, placed(place, attrs.subrange(i, attrs.len() as int))) =~= acc);
    }
}

/// Adding the parameters' attributes adds each parameter's attributes, in
/// parameter order, at that parameter's index.
pub proof fn law_parameter_attributes(acc: Seq<Op>, h: usize, ps: Seq<Parameter>, j: int)
    requires
        0 <= j <= ps.len(),
    ensures
        param_attr_ops(acc, h, ps, j) == acc + attribute_additions(h, param_attr_list(ps, j)),
    decreases ps.len() - j,
{
    if j < ps.len() {
        let at = ps[j].attributes@;
        law_attributes_at_place(acc, h, AttrPlace::Param(j as u32), at, 0);
        assert(at.subrange(0, at.len() as int) =~= at);
        let a1 = attr_ops(acc, h, AttrPlace::Param(j as u32), at, 0);
        law_parameter_attributes(a1, h, ps, j + 1);
        lemma_additions_concat(h, placed(AttrPlace::Param(j as u32), at), param_attr_list(ps, j + 1));
        assert(a1 + attribute_additions(h, param_attr_list(ps, j + 1)) =~= acc + attribute_additions(h, param_attr_list(ps, j)));
    } else {
        assert(acc + attribute_additions(h, param_attr_list(ps, j)) =~= acc);
    }
}

/// Adding a function's attributes adds its own attributes at the function,
/// then its result's at the result, then each parameter's at that
/// parameter, all to function `h` and in order.
pub proof fn law_function_attributes(acc: Seq<Op>, h: usize, fa: Seq<Attribute>, ra: Seq<Attribute>, ps: Seq<Parameter>)
    ensures
        fn_attr_ops(acc, h, fa, ra, ps) == acc + attribute_additions(
            h,
            placed(AttrPlace::Function, fa) + placed(AttrPlace::Return, ra) + param_attr_list(ps, 0),
        ),
{
    law_attributes_at_place(acc, h, AttrPlace::Function, fa, 0);
    assert(fa.subrange(0, fa.len() as int) =~= fa);
    let a1 = attr_ops(acc, h, AttrPlace::Function, fa, 0);
    law_attributes_at_place(a1, h, AttrPlace::Return, ra, 0);
    assert(ra.subrange(0, ra.len() as int) =~= ra);
    let a2 = attr_ops(a1, h, AttrPlace::Return, ra, 0);
    law_parameter_attributes(a2, h, ps, 0);
    lemma_additions_concat(h, placed(AttrPlace::Function, fa) + placed(AttrPlace::Return, ra), param_attr_list(ps, 0));
    lemma_additions_concat(h, placed(AttrPlace::Function, fa), placed(AttrPlace::Return, ra));
    assert(fn_attr_ops(acc, h, fa, ra, ps) =~= acc + attribute_additions(
        h,
        placed(AttrPlace::Function, fa) + placed(AttrPlace::Return, ra) + param_attr_list(ps, 0),
    ));
}

/// What adding a function (with or without a body) does, once its type is
/// made (`a1`): it adds a function of its name at handle `a1.len()`, bound
/// to its name, sets on it its linkage, its visibility and (when it has one)
/// its garbage collector, then adds its attributes.
pub open spec fn function_added(
    st: CtxState,
    st2: CtxState,
    a1: Seq<Op>,
    name: String,
    l: Linkage,
    v: Visibility,
    gc: Option<String>,
    fa: Seq<Attribute>,
    ra: Seq<Attribute>,
    ps: Seq<Parameter>,
) -> bool {
    let h = a1.len() as int;
    let g = if gc is Some { 1int } else { 0int };
    &&& st2.ops.len() >= h + 3 + g
    &&& st2.ops.subrange(0, h) == a1
    &&& st2.ops[h] == Op::AddFunction(name)
    &&& st2.values == st.values.insert(NameKey::Text(name@), h as usize)
    &&& st2.bbs == st.bbs
    &&& st2.ops[h + 1] matches Op::SetLinkage { target, linkage } && target == h && c_linkage_traits(linkage) == linkage_traits(l)
    &&& st2.ops[h + 2] matches Op::SetVisibility { target, visibility } && target == h
        && c_visibility_traits(visibility) == visibility_traits(v)
    &&& gc is Some ==> st2.ops[h + 3] == Op::SetGC { target: h as usize, name: gc->Some_0 }
    &&& st2.ops.subrange(h + 3 + g, st2.ops.len() as int) == attribute_additions(
        h as usize,
        placed(AttrPlace::Function, fa) + placed(AttrPlace::Return, ra) + param_attr_list(ps, 0),
    )
}

proof fn lemma_function_added(
    st: CtxState,
    a1: Seq<Op>,
    name: String,
    l: Linkage,
    v: Visibility,
    gc: Option<String>,
    fa: Seq<Attribute>,
    ra: Seq<Attribute>,
    ps: Seq<Parameter>,
)
    ensures
        with_fn_attrs(fn_header(st, a1, a1.len() as usize, name, l, v, gc), a1.len() as usize, fa, ra, ps).ops.len() > a1.len(),
        a1.len() <= usize::MAX ==> function_added(
            st,
            with_fn_attrs(fn_header(st, a1, a1.len() as usize, name, l, v, gc), a1.len() as usize, fa, ra, ps),
            a1,
            name,
            l,
            v,
            gc,
            fa,
            ra,
            ps,
        ),
{
    let h = a1.len() as usize;
    let st1 = fn_header(st, a1, h, name, l, v, gc);
    law_function_attributes(st1.ops, h, fa, ra, ps);
    if a1.len() <= usize::MAX {
        let st2 = with_fn_attrs(st1, h, fa, ra, ps);
        let list = placed(AttrPlace::Function, fa) + placed(AttrPlace::Return, ra) + param_attr_list(ps, 0);
        assert(st2.ops == st1.ops + attribute_additions(h, list));
        assert(st2.ops.subrange(0, h as int) =~= a1) by {
            assert forall|j: int| 0 <= j < h implies st2.ops.subrange(0, h as int)[j] == a1[j] by {
                assert(st2.ops[j] == st1.ops[j]);
            }
        }
        assert(st2.ops.subrange(st1.ops.len() as int, st2.ops.len() as int) =~= attribute_additions(h, list));
    }
}

/// Converting a function declaration makes its type (its result type,
/// then its parameters' types in order, then a function type with as many
/// parameters and the same variadicity), then adds it as `function_added`
/// says; a function with a body is added the same way.
pub proof fn law_function_declaration(defs: Defs, st: CtxState, d: FunctionDeclaration, f: Function)
    ensures
        match decl_step(defs, st, d) {
            Ok(st2) => st2.ops.len() <= usize::MAX ==> match fn_type_code(defs, st.ops, d.return_type, param_types(d.parameters@), d.is_var_arg) {
                Ok(a1) => {
                    &&& a1.len() > 0
                    &&& a1.last() == Op::FunctionType { param_count: d.parameters@.len() as usize, is_var_arg: d.is_var_arg }
                    &&& function_added(st, st2, a1, d.name, d.linkage, d.visibility, d.garbage_collector_name,
                        d.function_attributes@, d.return_attributes@, d.parameters@)
                },
                Err(_) => false,
            },
            Err(_) => true,
        },
        match fn_decl_step(defs, st, f) {
            Ok(st2) => st2.ops.len() <= usize::MAX ==> match fn_type_code(defs, st.ops, f.return_type, param_types(f.parameters@), f.is_var_arg) {
                Ok(a1) => {
                    &&& a1.len() > 0
                    &&& a1.last() == Op::FunctionType { param_count: f.parameters@.len() as usize, is_var_arg: f.is_var_arg }
                    &&& function_added(st, st2, a1, f.name, f.linkage, f.visibility, f.garbage_collector_name,
                        f.function_attributes@, f.return_attributes@, f.parameters@)
                },
                Err(_) => false,
            },
            Err(_) => true,
        },
{
    reveal(decl_step);
    if let Ok(a1) = fn_type_code(defs, st.ops, d.return_type, param_types(d.parameters@), d.is_var_arg) {
        lemma_function_added(st, a1, d.name, d.linkage, d.visibility, d.garbage_collector_name,
            d.function_attributes@, d.return_attributes@, d.parameters@);
    }
    if let Ok(a1) = fn_type_code(defs, st.ops, f.return_type, param_types(f.parameters@), f.is_var_arg) {
        lemma_function_added(st, a1, f.name, f.linkage, f.visibility, f.garbage_collector_name,
            f.function_attributes@, f.return_attributes@, f.parameters@);
    }
}

// ---------------------------------------------------------------------------
// Elements in order, and constant values

proof fn lemma_prefix_of_extends(a: Seq<Op>, b: Seq<Op>, c: Seq<Op>)
    requires
        extends(b, a),
        c.len() >= b.len(),
        c.subrange(0, b.len() as int) == b,
    ensures
        c.subrange(0, a.len() as int) == a,
{
    assert forall|j: int| 0 <= j < a.len() implies c.subrange(0, a.len() as int)[j] == a[j] by {
        assert(c.subrange(0, b.len() as int)[j] == b[j]);
    }
    assert(c.subrange(0, a.len() as int) =~= a);
}

/// The elements of an aggregate constant are made in order: the `k`-th
/// element's operations run from where the previous element's ended (the
/// first from the end of `acc`) to position `es[k]`, and the last ends the
/// program.
pub proof fn law_constants_in_order(defs: Defs, values: Map<NameKey, usize>, acc: Seq<Op>, cs: Seq<Constant>, i: int) -> (es: Seq<int>)
    requires
        0 <= i <= cs.len(),
    ensures
        consts_code(defs, values, acc, cs, i) matches Ok(a) ==> {
            &&& a.len() >= acc.len()
            &&& a.subrange(0, acc.len() as int) == acc
            &&& es.len() == cs.len() - i
            &&& forall|k: int| 0 <= k < es.len() ==> acc.len() <= #[trigger] es[k] <= a.len()
                && const_code(defs, values, a.subrange(0, if k == 0 { acc.len() as int } else { es[k - 1] }), cs[i + k])
                    == Ok::<Seq<Op>, ConvertError>(a.subrange(0, es[k]))
            &&& es.len() == 0 ==> a == acc
            &&& es.len() > 0 ==> es[es.len() - 1] == a.len()
        },
    decreases cs.len() - i,
{
    if i < cs.len() {
        lemma_const_code_extends(defs, values, acc, cs[i]);
        if let Ok(a1) = const_code(defs, values, acc, cs[i]) {
            let rest = law_constants_in_order(defs, values, a1, cs, i + 1);
            if let Ok(a) = consts_code(defs, values, a1, cs, i + 1) {
                let es = seq![a1.len() as int] + rest;
                lemma_prefix_of_extends(acc, a1, a);
                assert forall|k: int| 0 <= k < es.len() implies acc.len() <= #[trigger] es[k] <= a.len()
                    && const_code(defs, values, a.subrange(0, if k == 0 { acc.len() as int } else { es[k - 1] }), cs[i + k])
                        == Ok::<Seq<Op>, ConvertError>(a.subrange(0, es[k])) by {
                    if k > 0 {
                        assert(es[k] == rest[k - 1]);
                        assert(i + 1 + (k - 1) == i + k);
                        if k > 1 {
                            assert(es[k - 1] == rest[k - 2]);
                        }
                    }
                }
                if rest.len() == 0 {
                    assert(a == a1);
                }
                es
            } else {
                Seq::empty()
            }
        } else {
            Seq::empty()
        }
    } else {
        assert(acc.subrange(0, acc.len() as int) =~= acc);
        Seq::empty()
    }
}

/// The field types of a struct type, and the parameter types of a function
/// type, are made in order: the `k`-th type's operations run from where the
/// previous one's ended (the first from the end of `acc`) to position
/// `es[k]`, and the last ends the program.
pub proof fn law_types_in_order(defs: Defs, stack: Seq<usize>, acc: Seq<Op>, ts: Seq<Type>, i: int) -> (es: Seq<int>)
    requires
        0 <= i <= ts.len(),
    ensures
        types_code(defs, stack, acc, ts, i) matches Ok(a) ==> {
            &&& a.len() >= acc.len()
            &&& a.subrange(0, acc.len() as int) == acc
            &&& es.len() == ts.len() - i
            &&& forall|k: int| 0 <= k < es.len() ==> acc.len() <= #[trigger] es[k] <= a.len()
                && type_code(defs, stack, a.subrange(0, if k == 0 { acc.len() as int } else { es[k - 1] }), ts[i + k])
                    == Ok::<Seq<Op>, ConvertError>(a.subrange(0, es[k]))
            &&& es.len() == 0 ==> a == acc
            &&& es.len() > 0 ==> es[es.len() - 1] == a.len()
        },
    decreases ts.len() - i,
{
    if i < ts.len() {
        lemma_type_code_extends(defs, stack, acc, ts[i]);
        if let Ok(a1) = type_code(defs, stack, acc, ts[i]) {
            let rest = law_types_in_order(defs, stack, a1, ts, i + 1);
            if let Ok(a) = types_code(defs, stack, a1, ts, i + 1) {
                let es = seq![a1.len() as int] + rest;
                lemma_prefix_of_extends(acc, a1, a);
                assert forall|k: int| 0 <= k < es.len() implies acc.len() <= #[trigger] es[k] <= a.len()
                    && type_code(defs, stack, a.subrange(0, if k == 0 { acc.len() as int } else { es[k - 1] }), ts[i + k])
                        == Ok::<Seq<Op>, ConvertError>(a.subrange(0, es[k])) by {
                    if k > 0 {
                        assert(es[k] == rest[k - 1]);
                        assert(i + 1 + (k - 1) == i + k);
                        if k > 1 {
                            assert(es[k - 1] == rest[k - 2]);
                        }
                    }
                }
                if rest.len() == 0 {
                    assert(a == a1);
                }
                es
            } else {
                Seq::empty()
            }
        } else {
            Seq::empty()
        }
    } else {
        assert(acc.subrange(0, acc.len() as int) =~= acc);
        Seq::empty()
    }
}

/// A simple constant is made as its own value on its own type: an integer
/// as its value on the integer type of its width; a single or double as
/// its bit pattern on the float or double type; null and zero as the null
/// value, undef as undef and poison as poison, each on the converted type;
/// `none` as the null token.
pub proof fn law_constant_value(defs: Defs, values: Map<NameKey, usize>, acc: Seq<Op>, c: Constant)
    ensures
        match c {
            Constant::Int { bits, value } => const_code(defs, values, acc, c)
                == Ok::<Seq<Op>, ConvertError>(acc.push(Op::IntType(bits)).push(Op::ConstInt(value))),
            Constant::Float(Float::Single(b)) => const_code(defs, values, acc, c)
                == Ok::<Seq<Op>, ConvertError>(acc.push(Op::FloatType).push(Op::ConstSingle(b))),
            Constant::Float(Float::Double(b)) => const_code(defs, values, acc, c)
                == Ok::<Seq<Op>, ConvertError>(acc.push(Op::DoubleType).push(Op::ConstDouble(b))),
            Constant::Null(t) => const_code(defs, values, acc, c) == match type_code(defs, Seq::empty(), acc, t) {
                Ok(a1) => Ok::<Seq<Op>, ConvertError>(a1.push(Op::ConstNull)),
                Err(e) => Err(e),
            },
            Constant::AggregateZero(t) => const_code(defs, values, acc, c) == match type_code(defs, Seq::empty(), acc, t) {
                Ok(a1) => Ok::<Seq<Op>, ConvertError>(a1.push(Op::ConstNull)),
                Err(e) => Err(e),
            },
            Constant::Undef(t) => const_code(defs, values, acc, c) == match type_code(defs, Seq::empty(), acc, t) {
                Ok(a1) => Ok::<Seq<Op>, ConvertError>(a1.push(Op::GetUndef)),
                Err(e) => Err(e),
            },
            Constant::Poison(t) => const_code(defs, values, acc, c) == match type_code(defs, Seq::empty(), acc, t) {
                Ok(a1) => Ok::<Seq<Op>, ConvertError>(a1.push(Op::GetPoison)),
                Err(e) => Err(e),
            },
            Constant::TokenNone => const_code(defs, values, acc, c)
                == Ok::<Seq<Op>, ConvertError>(acc.push(Op::TokenType).push(Op::ConstNull)),
            _ => true,
        },
{
}

} // verus!
