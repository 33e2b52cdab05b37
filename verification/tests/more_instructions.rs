use llvm_ir::context::ToLLVMContext;
use llvm_ir::ir::{
    AtomicRMW, Atomicity, BinaryOp, Callee, Cast, CmpXchg, Constant, ExtractElement, ExtractValue, FCmp, FPPredicate,
    FPType, Fence, IndirectBr, InsertElement, InsertValue, Instruction, Invoke, MemoryOrdering, Name, Operand,
    RMWBinOp, Select, ShuffleVector, SynchronizationScope, Terminator, Type, Types, UnaryOp,
};
use llvm_ir::llvm_codes::{LlvmAtomicOrdering, LlvmAtomicRMWBinOp, LlvmRealPredicate};
use llvm_ir::plan::{BinaryOpcode, CastOpcode, ConvertError, Op};

fn nm(s: &str) -> Name {
    Name::Name(Box::new(s.to_string()))
}

fn no_types() -> Types {
    Types { named_structs: vec![] }
}

fn i32t() -> Type {
    Type::IntegerType { bits: 32 }
}

fn local(s: &str) -> Operand {
    Operand::LocalOperand { name: nm(s), ty: i32t() }
}

fn int_op(value: u64) -> Operand {
    Operand::ConstantOperand(Constant::Int { bits: 32, value })
}

/// A context in which `%a` is the value of operation 0 and blocks `%ok` and
/// `%bad` are the blocks of operations 1 and 2.
fn ctx_with_a() -> ToLLVMContext {
    let mut ctx = ToLLVMContext::new("m");
    ctx.ops.push(Op::IntType(32));
    ctx.ops.push(Op::IntType(32));
    ctx.ops.push(Op::IntType(32));
    ctx.insert_value(nm("a"), 0);
    ctx.insert_bb(nm("ok"), 1);
    ctx.insert_bb(nm("bad"), 2);
    ctx
}

fn binary(a: &str, b: &str, dest: &str) -> BinaryOp {
    BinaryOp { operand0: local(a), operand1: local(b), dest: nm(dest) }
}

#[test]
fn every_two_operand_instruction_is_built_with_its_opcode() {
    let cases: Vec<(Instruction, BinaryOpcode)> = vec![
        (Instruction::URem(binary("a", "a", "x")), BinaryOpcode::URem),
        (Instruction::SRem(binary("a", "a", "x")), BinaryOpcode::SRem),
        (Instruction::And(binary("a", "a", "x")), BinaryOpcode::And),
        (Instruction::Or(binary("a", "a", "x")), BinaryOpcode::Or),
        (Instruction::Xor(binary("a", "a", "x")), BinaryOpcode::Xor),
        (Instruction::Shl(binary("a", "a", "x")), BinaryOpcode::Shl),
        (Instruction::LShr(binary("a", "a", "x")), BinaryOpcode::LShr),
        (Instruction::AShr(binary("a", "a", "x")), BinaryOpcode::AShr),
        (Instruction::FAdd(binary("a", "a", "x")), BinaryOpcode::FAdd),
        (Instruction::FSub(binary("a", "a", "x")), BinaryOpcode::FSub),
        (Instruction::FMul(binary("a", "a", "x")), BinaryOpcode::FMul),
        (Instruction::FDiv(binary("a", "a", "x")), BinaryOpcode::FDiv),
        (Instruction::FRem(binary("a", "a", "x")), BinaryOpcode::FRem),
    ];
    for (instr, opcode) in cases {
        let mut ctx = ctx_with_a();
        instr.to_llvm(&mut ctx, &no_types()).unwrap();
        assert_eq!(&ctx.ops[3..], &[Op::Value(0), Op::Value(0), Op::BuildBinary { opcode, name: nm("x") }][..]);
        assert_eq!(ctx.get_or_insert_value(&nm("x")), Some(5));
    }
}

#[test]
fn one_operand_instructions() {
    let mut ctx = ctx_with_a();
    Instruction::FNeg(UnaryOp { operand: local("a"), dest: nm("n") }).to_llvm(&mut ctx, &no_types()).unwrap();
    Instruction::Freeze(UnaryOp { operand: local("n"), dest: nm("f") }).to_llvm(&mut ctx, &no_types()).unwrap();
    assert_eq!(&ctx.ops[3..], &[Op::Value(0), Op::BuildFNeg(nm("n")), Op::Value(4), Op::BuildFreeze(nm("f"))][..]);
    assert_eq!(ctx.get_or_insert_value(&nm("f")), Some(6));
    let r = Instruction::FNeg(UnaryOp { operand: local("zz"), dest: nm("g") }).to_llvm(&mut ctx, &no_types());
    assert_eq!(r, Err(ConvertError::LocalOperandNotFound(nm("zz"))));
}

#[test]
fn conversions_take_the_operand_then_the_target_type() {
    let cases: Vec<(fn(Cast) -> Instruction, CastOpcode)> = vec![
        (Instruction::Trunc, CastOpcode::Trunc),
        (Instruction::ZExt, CastOpcode::ZExt),
        (Instruction::SExt, CastOpcode::SExt),
        (Instruction::FPTrunc, CastOpcode::FPTrunc),
        (Instruction::FPExt, CastOpcode::FPExt),
        (Instruction::FPToUI, CastOpcode::FPToUI),
        (Instruction::FPToSI, CastOpcode::FPToSI),
        (Instruction::UIToFP, CastOpcode::UIToFP),
        (Instruction::SIToFP, CastOpcode::SIToFP),
        (Instruction::PtrToInt, CastOpcode::PtrToInt),
        (Instruction::IntToPtr, CastOpcode::IntToPtr),
        (Instruction::BitCast, CastOpcode::BitCast),
        (Instruction::AddrSpaceCast, CastOpcode::AddrSpaceCast),
    ];
    for (make, opcode) in cases {
        let mut ctx = ctx_with_a();
        let c = Cast { operand: local("a"), to_type: Type::FPType(FPType::Double), dest: nm("c") };
        make(c).to_llvm(&mut ctx, &no_types()).unwrap();
        assert_eq!(&ctx.ops[3..], &[Op::Value(0), Op::DoubleType, Op::BuildCast { opcode, name: nm("c") }][..]);
        assert_eq!(ctx.get_or_insert_value(&nm("c")), Some(5));
    }
    let mut ctx = ctx_with_a();
    let bad = Cast { operand: local("a"), to_type: Type::TargetExtType, dest: nm("c") };
    assert_eq!(Instruction::ZExt(bad).to_llvm(&mut ctx, &no_types()), Err(ConvertError::TargetExtTypeUnsupported));
}

#[test]
fn float_comparison_and_select() {
    let mut ctx = ctx_with_a();
    Instruction::FCmp(FCmp { predicate: FPPredicate::ULE, operand0: local("a"), operand1: int_op(3), dest: nm("c") })
        .to_llvm(&mut ctx, &no_types())
        .unwrap();
    Instruction::Select(Select {
        condition: local("c"),
        true_value: local("a"),
        false_value: int_op(9),
        dest: nm("s"),
    })
    .to_llvm(&mut ctx, &no_types())
    .unwrap();
    assert_eq!(
        &ctx.ops[3..],
        &[
            Op::Value(0),
            Op::IntType(32),
            Op::ConstInt(3),
            Op::BuildFCmp { predicate: LlvmRealPredicate::LLVMRealULE, name: nm("c") },
            Op::Value(6),
            Op::Value(0),
            Op::IntType(32),
            Op::ConstInt(9),
            Op::BuildSelect(nm("s")),
        ][..]
    );
    assert_eq!(ctx.get_or_insert_value(&nm("s")), Some(11));
}

#[test]
fn float_predicates_map_one_to_one() {
    assert_eq!(FPPredicate::False.to_llvm(), LlvmRealPredicate::LLVMRealPredicateFalse);
    assert_eq!(FPPredicate::OEQ.to_llvm(), LlvmRealPredicate::LLVMRealOEQ);
    assert_eq!(FPPredicate::ONE.to_llvm(), LlvmRealPredicate::LLVMRealONE);
    assert_eq!(FPPredicate::UNO.to_llvm(), LlvmRealPredicate::LLVMRealUNO);
    assert_eq!(FPPredicate::UNE.to_llvm(), LlvmRealPredicate::LLVMRealUNE);
    assert_eq!(FPPredicate::True.to_llvm(), LlvmRealPredicate::LLVMRealPredicateTrue);
}

#[test]
fn atomic_codes_map_one_to_one() {
    assert_eq!(MemoryOrdering::NotAtomic.to_llvm(), LlvmAtomicOrdering::LLVMAtomicOrderingNotAtomic);
    assert_eq!(MemoryOrdering::Monotonic.to_llvm(), LlvmAtomicOrdering::LLVMAtomicOrderingMonotonic);
    assert_eq!(MemoryOrdering::AcquireRelease.to_llvm(), LlvmAtomicOrdering::LLVMAtomicOrderingAcquireRelease);
    assert_eq!(
        MemoryOrdering::SequentiallyConsistent.to_llvm(),
        LlvmAtomicOrdering::LLVMAtomicOrderingSequentiallyConsistent
    );
    assert_eq!(RMWBinOp::Xchg.to_llvm(), LlvmAtomicRMWBinOp::LLVMAtomicRMWBinOpXchg);
    assert_eq!(RMWBinOp::Nand.to_llvm(), LlvmAtomicRMWBinOp::LLVMAtomicRMWBinOpNand);
    assert_eq!(RMWBinOp::UMin.to_llvm(), LlvmAtomicRMWBinOp::LLVMAtomicRMWBinOpUMin);
    assert_eq!(RMWBinOp::FSub.to_llvm(), LlvmAtomicRMWBinOp::LLVMAtomicRMWBinOpFSub);
}

#[test]
fn vector_element_instructions() {
    let mut ctx = ctx_with_a();
    Instruction::ExtractElement(ExtractElement { vector: local("a"), index: int_op(1), dest: nm("e") })
        .to_llvm(&mut ctx, &no_types())
        .unwrap();
    Instruction::InsertElement(InsertElement { vector: local("a"), element: local("e"), index: int_op(0), dest: nm("i") })
        .to_llvm(&mut ctx, &no_types())
        .unwrap();
    Instruction::ShuffleVector(ShuffleVector {
        operand0: local("a"),
        operand1: local("i"),
        dest: nm("s"),
        mask: Constant::AggregateZero(Type::VectorType { element_type: Box::new(i32t()), num_elements: 2, scalable: false }),
    })
    .to_llvm(&mut ctx, &no_types())
    .unwrap();
    assert_eq!(
        &ctx.ops[3..],
        &[
            Op::Value(0),
            Op::IntType(32),
            Op::ConstInt(1),
            Op::BuildExtractElement(nm("e")),
            Op::Value(0),
            Op::Value(6),
            Op::IntType(32),
            Op::ConstInt(0),
            Op::BuildInsertElement(nm("i")),
            Op::Value(0),
            Op::Value(11),
            Op::IntType(32),
            Op::VectorType(2),
            Op::ConstNull,
            Op::BuildShuffleVector(nm("s")),
        ][..]
    );
    assert_eq!(ctx.get_or_insert_value(&nm("s")), Some(17));
}

#[test]
fn extractvalue_reads_one_index_at_a_time() {
    let mut ctx = ctx_with_a();
    Instruction::ExtractValue(ExtractValue { aggregate: local("a"), indices: vec![4], dest: nm("x") })
        .to_llvm(&mut ctx, &no_types())
        .unwrap();
    assert_eq!(&ctx.ops[3..], &[Op::Value(0), Op::BuildExtractValue { index: 4, name: Some(nm("x")) }][..]);
    assert_eq!(ctx.get_or_insert_value(&nm("x")), Some(4));

    let mut ctx = ctx_with_a();
    Instruction::ExtractValue(ExtractValue { aggregate: local("a"), indices: vec![1, 2], dest: nm("y") })
        .to_llvm(&mut ctx, &no_types())
        .unwrap();
    assert_eq!(
        &ctx.ops[3..],
        &[
            Op::Value(0),
            Op::BuildExtractValue { index: 1, name: None },
            Op::Value(4),
            Op::BuildExtractValue { index: 2, name: Some(nm("y")) },
        ][..]
    );
    assert_eq!(ctx.get_or_insert_value(&nm("y")), Some(6));

    let r = Instruction::ExtractValue(ExtractValue { aggregate: local("a"), indices: vec![], dest: nm("z") })
        .to_llvm(&mut ctx, &no_types());
    assert_eq!(r, Err(ConvertError::AggregateIndicesEmpty));
}

#[test]
fn insertvalue_at_a_nested_path_reads_then_rebuilds() {
    let mut ctx = ctx_with_a();
    Instruction::InsertValue(InsertValue { aggregate: local("a"), element: int_op(7), indices: vec![3], dest: nm("x") })
        .to_llvm(&mut ctx, &no_types())
        .unwrap();
    assert_eq!(
        &ctx.ops[3..],
        &[Op::Value(0), Op::IntType(32), Op::ConstInt(7), Op::BuildInsertValue { index: 3, name: Some(nm("x")) }][..]
    );
    assert_eq!(ctx.get_or_insert_value(&nm("x")), Some(6));

    let mut ctx = ctx_with_a();
    Instruction::InsertValue(InsertValue { aggregate: local("a"), element: int_op(7), indices: vec![1, 2], dest: nm("y") })
        .to_llvm(&mut ctx, &no_types())
        .unwrap();
    assert_eq!(
        &ctx.ops[3..],
        &[
            Op::Value(0),
            Op::Value(0),
            Op::BuildExtractValue { index: 1, name: None },
            Op::Value(5),
            Op::IntType(32),
            Op::ConstInt(7),
            Op::BuildInsertValue { index: 2, name: None },
            Op::Value(9),
            Op::BuildInsertValue { index: 1, name: Some(nm("y")) },
        ][..]
    );
    assert_eq!(ctx.get_or_insert_value(&nm("y")), Some(11));

    let r = Instruction::InsertValue(InsertValue { aggregate: local("a"), element: int_op(7), indices: vec![], dest: nm("z") })
        .to_llvm(&mut ctx, &no_types());
    assert_eq!(r, Err(ConvertError::AggregateIndicesEmpty));
    let r = Instruction::InsertValue(InsertValue { aggregate: local("q"), element: int_op(7), indices: vec![0, 0], dest: nm("z") })
        .to_llvm(&mut ctx, &no_types());
    assert_eq!(r, Err(ConvertError::LocalOperandNotFound(nm("q"))));
}

#[test]
fn atomic_instructions() {
    let mut ctx = ctx_with_a();
    let seq_cst = Atomicity { synch_scope: SynchronizationScope::System, mem_ordering: MemoryOrdering::SequentiallyConsistent };
    let single = Atomicity { synch_scope: SynchronizationScope::SingleThread, mem_ordering: MemoryOrdering::Acquire };
    Instruction::Fence(Fence { atomicity: single }).to_llvm(&mut ctx, &no_types()).unwrap();
    Instruction::CmpXchg(CmpXchg {
        address: local("a"),
        expected: int_op(0),
        replacement: int_op(1),
        dest: nm("c"),
        volatile: true,
        atomicity: seq_cst,
        failure_memory_ordering: MemoryOrdering::Monotonic,
        weak: false,
    })
    .to_llvm(&mut ctx, &no_types())
    .unwrap();
    Instruction::AtomicRMW(AtomicRMW {
        operation: RMWBinOp::Max,
        address: local("a"),
        value: int_op(5),
        dest: nm("r"),
        volatile: false,
        atomicity: single,
    })
    .to_llvm(&mut ctx, &no_types())
    .unwrap();
    assert_eq!(
        &ctx.ops[3..],
        &[
            Op::BuildFence { ordering: LlvmAtomicOrdering::LLVMAtomicOrderingAcquire, single_thread: true },
            Op::Value(0),
            Op::IntType(32),
            Op::ConstInt(0),
            Op::IntType(32),
            Op::ConstInt(1),
            Op::BuildCmpXchg {
                success: LlvmAtomicOrdering::LLVMAtomicOrderingSequentiallyConsistent,
                failure: LlvmAtomicOrdering::LLVMAtomicOrderingMonotonic,
                single_thread: false,
                weak: false,
                volatile: true,
                name: nm("c"),
            },
            Op::Value(0),
            Op::IntType(32),
            Op::ConstInt(5),
            Op::BuildAtomicRMW {
                operation: LlvmAtomicRMWBinOp::LLVMAtomicRMWBinOpMax,
                ordering: LlvmAtomicOrdering::LLVMAtomicOrderingAcquire,
                single_thread: true,
                volatile: false,
                name: nm("r"),
            },
        ][..]
    );
    assert_eq!(ctx.get_or_insert_value(&nm("c")), Some(9));
    assert_eq!(ctx.get_or_insert_value(&nm("r")), Some(13));
}

#[test]
fn exception_handling_instructions_are_refused() {
    let mut ctx = ctx_with_a();
    for instr in [Instruction::VAArg, Instruction::LandingPad, Instruction::CatchPad, Instruction::CleanupPad] {
        assert_eq!(instr.to_llvm(&mut ctx, &no_types()), Err(ConvertError::InstructionUnsupported));
    }
    for term in [Terminator::CleanupRet, Terminator::CatchRet, Terminator::CatchSwitch, Terminator::CallBr] {
        assert_eq!(term.to_llvm(&mut ctx, &no_types()), Err(ConvertError::TerminatorUnsupported));
    }
    assert_eq!(ctx.ops.len(), 3);
}

#[test]
fn indirect_branch_lists_its_destinations() {
    let mut ctx = ctx_with_a();
    Terminator::IndirectBr(IndirectBr { operand: local("a"), possible_dests: vec![nm("ok"), nm("bad"), nm("ok")] })
        .to_llvm(&mut ctx, &no_types())
        .unwrap();
    assert_eq!(
        &ctx.ops[3..],
        &[
            Op::Value(0),
            Op::BuildIndirectBr { dest_count: 3 },
            Op::AddDestination { indirect_br: 4, block: 1 },
            Op::AddDestination { indirect_br: 4, block: 2 },
            Op::AddDestination { indirect_br: 4, block: 1 },
        ][..]
    );
    let r = Terminator::IndirectBr(IndirectBr { operand: local("a"), possible_dests: vec![nm("ok"), nm("gone")] })
        .to_llvm(&mut ctx, &no_types());
    assert_eq!(r, Err(ConvertError::TargetBlockNotFound(nm("gone"))));
}

#[test]
fn invoke_is_a_call_that_continues_in_two_blocks() {
    let fn_ty = Type::FuncType { result_type: Box::new(i32t()), param_types: vec![i32t()], is_var_arg: false };
    let mut ctx = ctx_with_a();
    Terminator::Invoke(Invoke {
        function: Callee::Operand(local("a")),
        function_ty: fn_ty,
        arguments: vec![int_op(2)],
        result: nm("r"),
        return_label: nm("ok"),
        exception_label: nm("bad"),
    })
    .to_llvm(&mut ctx, &no_types())
    .unwrap();
    assert_eq!(
        &ctx.ops[3..],
        &[
            Op::Value(0),
            Op::IntType(32),
            Op::IntType(32),
            Op::FunctionType { param_count: 1, is_var_arg: false },
            Op::IntType(32),
            Op::ConstInt(2),
            Op::BuildInvoke { arg_count: 1, then_block: 1, catch_block: 2, name: nm("r") },
        ][..]
    );
    assert_eq!(ctx.get_or_insert_value(&nm("r")), Some(9));

    let unwinds_nowhere = Invoke {
        function: Callee::Operand(local("a")),
        function_ty: i32t(),
        arguments: vec![],
        result: nm("s"),
        return_label: nm("ok"),
        exception_label: nm("lpad"),
    };
    assert_eq!(
        Terminator::Invoke(unwinds_nowhere).to_llvm(&mut ctx, &no_types()),
        Err(ConvertError::TargetBlockNotFound(nm("lpad")))
    );
    let inline = Invoke {
        function: Callee::InlineAssembly { ty: i32t() },
        function_ty: i32t(),
        arguments: vec![],
        result: nm("t"),
        return_label: nm("ok"),
        exception_label: nm("bad"),
    };
    assert_eq!(Terminator::Invoke(inline).to_llvm(&mut ctx, &no_types()), Err(ConvertError::InlineAsmCallUnsupported));
}

#[test]
fn an_instruction_binds_only_its_result() {
    let mut ctx = ctx_with_a();
    ctx.insert_value(nm("b"), 1);
    Instruction::Mul(binary("a", "b", "b")).to_llvm(&mut ctx, &no_types()).unwrap();
    assert_eq!(ctx.get_or_insert_value(&nm("a")), Some(0));
    assert_eq!(ctx.get_or_insert_value(&nm("b")), Some(5));
    assert_eq!(ctx.get_bb(&nm("ok")), Some(1));
    assert_eq!(ctx.get_bb(&nm("bad")), Some(2));
    let seq_cst = Atomicity { synch_scope: SynchronizationScope::System, mem_ordering: MemoryOrdering::SequentiallyConsistent };
    Instruction::Fence(Fence { atomicity: seq_cst }).to_llvm(&mut ctx, &no_types()).unwrap();
    Terminator::Resume(llvm_ir::ir::Resume { operand: local("b") }).to_llvm(&mut ctx, &no_types()).unwrap();
    assert_eq!(ctx.get_or_insert_value(&nm("a")), Some(0));
    assert_eq!(ctx.get_or_insert_value(&nm("b")), Some(5));
    assert_eq!(ctx.get_bb(&nm("ok")), Some(1));
}
