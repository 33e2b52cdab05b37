use llvm_ir::context::ToLLVMContext;
use llvm_ir::ir::{
    FPPredicate, Alloca, BasicBlock, BinaryOp, Br, Call, Callee, CondBr, Constant, FPType, Float, GetElementPtr,
    GlobalIFunc, ICmp, Instruction, IntPredicate, Linkage, Load, Name, NamedStructDef, Operand,
    Phi, Resume, Ret, Store, Switch, Terminator, Type, Types, Visibility,
};
use llvm_ir::llvm_codes::{LlvmIntPredicate, LlvmLinkage, LlvmRealPredicate, LlvmVisibility};
use llvm_ir::plan::{BinaryOpcode, CastOpcode, ConvertError, Op};

fn nm(s: &str) -> Name {
    Name::Name(Box::new(s.to_string()))
}

fn no_types() -> Types {
    Types { named_structs: vec![] }
}

fn i32t() -> Type {
    Type::IntegerType { bits: 32 }
}

fn local(s: &str) -> Operand {
    Operand::LocalOperand { name: nm(s), ty: i32t() }
}

/// A context in which `%a` is the value of operation 0 and block `%bb` is
/// the block of operation 1.
fn ctx_with_a_and_bb() -> ToLLVMContext {
    let mut ctx = ToLLVMContext::new("m");
    ctx.ops.push(Op::IntType(32));
    ctx.ops.push(Op::IntType(32));
    ctx.insert_value(nm("a"), 0);
    ctx.insert_bb(nm("bb"), 1);
    ctx
}

#[test]
fn context_lookups_give_back_what_was_inserted() {
    let mut ctx = ToLLVMContext::new("m");
    assert_eq!(ctx.module_name, "m");
    assert_eq!(ctx.get_or_insert_value(&nm("x")), None);
    ctx.insert_value(nm("x"), 4);
    ctx.insert_value(Name::Number(2), 9);
    assert_eq!(ctx.get_or_insert_value(&nm("x")), Some(4));
    assert_eq!(ctx.get_or_insert_value(&Name::Number(2)), Some(9));
    assert_eq!(ctx.get_or_insert_value(&nm("2")), None);
    ctx.insert_value(nm("x"), 5);
    assert_eq!(ctx.get_or_insert_value(&nm("x")), Some(5));
    assert_eq!(ctx.get_bb(&nm("x")), None);
    ctx.insert_bb(nm("x"), 7);
    assert_eq!(ctx.get_bb(&nm("x")), Some(7));
    assert_eq!(ctx.get_or_insert_value(&nm("x")), Some(5));
    assert!(ctx.ops.is_empty());
}

#[test]
fn name_text_forms() {
    assert_eq!(nm("entry").text(), "%entry");
    assert_eq!(Name::Number(0).text(), "%0");
    assert_eq!(Name::Number(42).text(), "%42");
    assert_eq!(Name::Number(1230).text(), "%1230");
    assert_eq!(nm("").text(), "%");
}

#[test]
fn built_names_keep_the_name() {
    assert_eq!(nm("x").llvm_name(), "x");
    assert_eq!(nm("entry").llvm_name(), "entry");
    assert_eq!(Name::Number(7).llvm_name(), "");
}

#[test]
fn name_identity() {
    assert!(nm("a").same_as(&nm("a")));
    assert!(!nm("a").same_as(&nm("b")));
    assert!(!nm("1").same_as(&Name::Number(1)));
    assert_eq!(nm("q").clone_name(), nm("q"));
}

#[test]
fn linkage_visibility_and_predicate_codes() {
    assert_eq!(Linkage::Private.to_llvm(), LlvmLinkage::LLVMPrivateLinkage);
    assert_eq!(Linkage::LinkOnceODR.to_llvm(), LlvmLinkage::LLVMLinkOnceODRLinkage);
    assert_eq!(Linkage::GhostLinkage.to_llvm(), LlvmLinkage::LLVMGhostLinkage);
    assert_eq!(Linkage::LinkerPrivateWeak.to_llvm(), LlvmLinkage::LLVMLinkerPrivateWeakLinkage);
    assert_eq!(Visibility::Protected.to_llvm(), LlvmVisibility::LLVMProtectedVisibility);
    assert_eq!(IntPredicate::SLT.to_llvm(), LlvmIntPredicate::LLVMIntSLT);
    assert_eq!(IntPredicate::UGE.to_llvm(), LlvmIntPredicate::LLVMIntUGE);
}

#[test]
fn type_conversions() {
    let mut ctx = ToLLVMContext::new("t");
    let t = Type::FuncType {
        result_type: Box::new(Type::VoidType),
        param_types: vec![
            Type::PointerType { addr_space: 1 },
            Type::FPType(FPType::X86_FP80),
            Type::VectorType { element_type: Box::new(Type::FPType(FPType::Half)), num_elements: 4, scalable: false },
            Type::ArrayType { element_type: Box::new(i32t()), num_elements: 3 },
            Type::StructType { element_types: vec![Type::LabelType, Type::TokenType], is_packed: true },
        ],
        is_var_arg: true,
    };
    t.to_llvm_type(&mut ctx, &no_types()).unwrap();
    assert_eq!(
        ctx.ops,
        vec![
            Op::VoidType,
            Op::PointerType(1),
            Op::X86FP80Type,
            Op::HalfType,
            Op::VectorType(4),
            Op::IntType(32),
            Op::ArrayType(3),
            Op::LabelType,
            Op::TokenType,
            Op::StructType { element_count: 2, is_packed: true },
            Op::FunctionType { param_count: 5, is_var_arg: true },
        ]
    );
}

#[test]
fn scalable_vectors_keep_their_flag() {
    let mut ctx = ToLLVMContext::new("t");
    Type::VectorType { element_type: Box::new(i32t()), num_elements: 4, scalable: true }
        .to_llvm_type(&mut ctx, &no_types())
        .unwrap();
    Type::VectorType { element_type: Box::new(i32t()), num_elements: 4, scalable: false }
        .to_llvm_type(&mut ctx, &no_types())
        .unwrap();
    assert_eq!(
        ctx.ops,
        vec![Op::IntType(32), Op::ScalableVectorType(4), Op::IntType(32), Op::VectorType(4)]
    );
}

#[test]
fn array_length_is_truncated_to_32_bits() {
    let mut ctx = ToLLVMContext::new("t");
    let t = Type::ArrayType { element_type: Box::new(i32t()), num_elements: (1usize << 32) + 5 };
    t.to_llvm_type(&mut ctx, &no_types()).unwrap();
    assert_eq!(ctx.ops, vec![Op::IntType(32), Op::ArrayType(5)]);
}

#[test]
fn target_ext_type_is_refused() {
    let mut ctx = ToLLVMContext::new("t");
    let t = Type::StructType { element_types: vec![i32t(), Type::TargetExtType], is_packed: false };
    assert_eq!(t.to_llvm_type(&mut ctx, &no_types()), Err(ConvertError::TargetExtTypeUnsupported));
}

#[test]
fn named_structs_expand_nested_and_opaque() {
    let types = Types {
        named_structs: vec![
            ("inner".to_string(), NamedStructDef::Defined(Type::StructType { element_types: vec![i32t()], is_packed: false })),
            ("opaque".to_string(), NamedStructDef::Opaque),
            (
                "outer".to_string(),
                NamedStructDef::Defined(Type::StructType {
                    element_types: vec![
                        Type::NamedStructType { name: "inner".to_string() },
                        Type::NamedStructType { name: "opaque".to_string() },
                        Type::NamedStructType { name: "unknown".to_string() },
                    ],
                    is_packed: true,
                }),
            ),
        ],
    };
    let mut ctx = ToLLVMContext::new("t");
    Type::NamedStructType { name: "outer".to_string() }.to_llvm_type(&mut ctx, &types).unwrap();
    assert_eq!(
        ctx.ops,
        vec![
            Op::NamedStruct("outer".to_string()),
            Op::NamedStruct("inner".to_string()),
            Op::IntType(32),
            Op::SetStructBody { element_count: 1, is_packed: false },
            Op::NamedStruct("opaque".to_string()),
            Op::NamedStruct("unknown".to_string()),
            Op::SetStructBody { element_count: 3, is_packed: true },
        ]
    );
}

#[test]
fn named_struct_is_made_once() {
    let types = Types {
        named_structs: vec![(
            "pair".to_string(),
            NamedStructDef::Defined(Type::StructType { element_types: vec![i32t(), i32t()], is_packed: false }),
        )],
    };
    let mut ctx = ToLLVMContext::new("t");
    let t = Type::NamedStructType { name: "pair".to_string() };
    t.to_llvm_type(&mut ctx, &types).unwrap();
    t.to_llvm_type(&mut ctx, &types).unwrap();
    let c = Constant::Struct {
        name: Some("pair".to_string()),
        values: vec![Constant::Int { bits: 32, value: 1 }, Constant::Int { bits: 32, value: 2 }],
        is_packed: false,
    };
    c.to_llvm(&mut ctx, &types).unwrap();
    assert_eq!(
        ctx.ops,
        vec![
            Op::NamedStruct("pair".to_string()),
            Op::IntType(32),
            Op::IntType(32),
            Op::SetStructBody { element_count: 2, is_packed: false },
            Op::Value(0),
            Op::Value(0),
            Op::IntType(32),
            Op::ConstInt(1),
            Op::IntType(32),
            Op::ConstInt(2),
            Op::ConstNamedStruct { element_count: 2 },
        ]
    );
}

#[test]
fn recursive_named_structs_refer_to_themselves() {
    let types = Types {
        named_structs: vec![
            ("a".to_string(), NamedStructDef::Defined(Type::StructType { element_types: vec![Type::NamedStructType { name: "b".to_string() }], is_packed: false })),
            ("b".to_string(), NamedStructDef::Defined(Type::StructType { element_types: vec![Type::NamedStructType { name: "a".to_string() }], is_packed: false })),
        ],
    };
    let mut ctx = ToLLVMContext::new("t");
    Type::NamedStructType { name: "a".to_string() }.to_llvm_type(&mut ctx, &types).unwrap();
    assert_eq!(
        ctx.ops,
        vec![
            Op::NamedStruct("a".to_string()),
            Op::NamedStruct("b".to_string()),
            Op::Value(0),
            Op::SetStructBody { element_count: 1, is_packed: false },
            Op::SetStructBody { element_count: 1, is_packed: false },
        ]
    );
}

#[test]
fn constants() {
    let mut ctx = ctx_with_a_and_bb();
    ctx.insert_value(nm("g"), 1);
    let c = Constant::Struct {
        name: None,
        values: vec![
            Constant::Null(Type::PointerType { addr_space: 0 }),
            Constant::AggregateZero(Type::ArrayType { element_type: Box::new(i32t()), num_elements: 2 }),
            Constant::Undef(Type::FPType(FPType::Single)),
            Constant::GlobalReference { name: nm("g"), ty: Type::PointerType { addr_space: 0 } },
            Constant::Float(Float::BFloat),
            Constant::Float(Float::Single(1.5f32.to_bits())),
            Constant::Float(Float::Double((-2.0f64).to_bits())),
        ],
        is_packed: false,
    };
    c.to_llvm(&mut ctx, &no_types()).unwrap();
    assert_eq!(
        &ctx.ops[2..],
        &[
            Op::PointerType(0),
            Op::ConstNull,
            Op::IntType(32),
            Op::ArrayType(2),
            Op::ConstNull,
            Op::FloatType,
            Op::GetUndef,
            Op::Value(1),
            Op::BFloatType,
            Op::ConstNull,
            Op::FloatType,
            Op::ConstSingle(0x3fc0_0000),
            Op::DoubleType,
            Op::ConstDouble(0xc000_0000_0000_0000),
            Op::ConstStruct { element_count: 7, is_packed: false },
        ][..]
    );
}

#[test]
fn poison_and_token_none_constants() {
    let mut ctx = ToLLVMContext::new("c");
    Constant::Poison(i32t()).to_llvm(&mut ctx, &no_types()).unwrap();
    Constant::TokenNone.to_llvm(&mut ctx, &no_types()).unwrap();
    assert_eq!(ctx.ops, vec![Op::IntType(32), Op::GetPoison, Op::TokenType, Op::ConstNull]);
    assert_eq!(
        Constant::GlobalReference { name: nm("g"), ty: i32t() }.to_llvm(&mut ctx, &no_types()),
        Err(ConvertError::GlobalReferenceNotFound(nm("g")))
    );
}

fn small_int(bits: u32, value: u64) -> Box<Constant> {
    Box::new(Constant::Int { bits, value })
}

#[test]
fn constant_expressions() {
    let mut ctx = ToLLVMContext::new("c");
    ctx.ops.push(Op::IntType(8));
    ctx.insert_value(nm("g"), 0);
    let g = || Box::new(Constant::GlobalReference { name: nm("g"), ty: Type::PointerType { addr_space: 0 } });
    let exprs = vec![
        Constant::Binary { opcode: BinaryOpcode::Add, operand0: small_int(32, 2), operand1: small_int(32, 3) },
        Constant::Cast { opcode: CastOpcode::PtrToInt, operand: g(), to_type: Type::IntegerType { bits: 64 } },
        Constant::ICmp { predicate: IntPredicate::ULT, operand0: small_int(8, 1), operand1: small_int(8, 2) },
        Constant::FCmp {
            predicate: FPPredicate::OLT,
            operand0: Box::new(Constant::Float(Float::Double(0))),
            operand1: Box::new(Constant::Float(Float::Double(0))),
        },
        Constant::Select { condition: small_int(1, 1), true_value: small_int(16, 4), false_value: small_int(16, 5) },
        Constant::GetElementPtr { address: g(), indices: vec![Constant::Int { bits: 64, value: 1 }], in_bounds: true, source_element_type: i32t() },
    ];
    for e in &exprs {
        e.to_llvm(&mut ctx, &no_types()).unwrap();
    }
    assert_eq!(
        &ctx.ops[1..],
        &[
            Op::IntType(32),
            Op::ConstInt(2),
            Op::IntType(32),
            Op::ConstInt(3),
            Op::ConstBinary(BinaryOpcode::Add),
            Op::Value(0),
            Op::IntType(64),
            Op::ConstCast(CastOpcode::PtrToInt),
            Op::IntType(8),
            Op::ConstInt(1),
            Op::IntType(8),
            Op::ConstInt(2),
            Op::ConstICmp(LlvmIntPredicate::LLVMIntULT),
            Op::DoubleType,
            Op::ConstDouble(0),
            Op::DoubleType,
            Op::ConstDouble(0),
            Op::ConstFCmp(LlvmRealPredicate::LLVMRealOLT),
            Op::IntType(1),
            Op::ConstInt(1),
            Op::IntType(16),
            Op::ConstInt(4),
            Op::IntType(16),
            Op::ConstInt(5),
            Op::ConstSelect,
            Op::Value(0),
            Op::IntType(64),
            Op::ConstInt(1),
            Op::IntType(32),
            Op::ConstGEP { index_count: 1, in_bounds: true },
        ][..]
    );
    let n = ctx.ops.len();
    let bad = Constant::Binary {
        opcode: BinaryOpcode::Add,
        operand0: small_int(32, 1),
        operand1: Box::new(Constant::GlobalReference { name: nm("missing"), ty: i32t() }),
    };
    assert_eq!(bad.to_llvm(&mut ctx, &no_types()), Err(ConvertError::GlobalReferenceNotFound(nm("missing"))));
    assert_eq!(ctx.ops.len(), n);
}

#[test]
fn vector_constant_expressions() {
    let mut ctx = ToLLVMContext::new("c");
    let v = || Box::new(Constant::Vector(vec![Constant::Int { bits: 8, value: 1 }, Constant::Int { bits: 8, value: 2 }]));
    Constant::ExtractElement { vector: v(), index: small_int(32, 1) }.to_llvm(&mut ctx, &no_types()).unwrap();
    Constant::InsertElement { vector: v(), element: small_int(8, 9), index: small_int(32, 0) }
        .to_llvm(&mut ctx, &no_types())
        .unwrap();
    let mask = Box::new(Constant::Vector(vec![Constant::Int { bits: 32, value: 0 }]));
    Constant::ShuffleVector { operand0: v(), operand1: v(), mask }.to_llvm(&mut ctx, &no_types()).unwrap();
    let vector_ops = || vec![Op::IntType(8), Op::ConstInt(1), Op::IntType(8), Op::ConstInt(2), Op::ConstVector { element_count: 2 }];
    let mut expected: Vec<Op> = Vec::new();
    expected.extend(vector_ops());
    expected.extend(vec![Op::IntType(32), Op::ConstInt(1), Op::ConstExtractElement]);
    expected.extend(vector_ops());
    expected.extend(vec![Op::IntType(8), Op::ConstInt(9), Op::IntType(32), Op::ConstInt(0), Op::ConstInsertElement]);
    expected.extend(vector_ops());
    expected.extend(vector_ops());
    expected.extend(vec![Op::IntType(32), Op::ConstInt(0), Op::ConstVector { element_count: 1 }, Op::ConstShuffleVector]);
    assert_eq!(ctx.ops, expected);
}

#[test]
fn aggregate_field_constants() {
    let mut ctx = ToLLVMContext::new("c");
    let agg = || Box::new(Constant::AggregateZero(Type::ArrayType { element_type: Box::new(i32t()), num_elements: 2 }));
    Constant::ExtractValue { aggregate: agg(), indices: vec![1] }.to_llvm(&mut ctx, &no_types()).unwrap();
    let n = ctx.ops.len();
    assert_eq!(ctx.ops[n - 1], Op::ConstExtractValue(1));
    Constant::InsertValue { aggregate: agg(), element: small_int(32, 5), indices: vec![0, 1] }
        .to_llvm(&mut ctx, &no_types())
        .unwrap();
    let tail = &ctx.ops[n..];
    assert_eq!(tail.iter().filter(|op| **op == Op::ConstExtractValue(0)).count(), 1);
    assert_eq!(&tail[tail.len() - 2..], &[Op::ConstInsertValue(1), Op::ConstInsertValue(0)][..]);
    assert_eq!(
        Constant::InsertValue { aggregate: agg(), element: small_int(32, 5), indices: vec![] }.to_llvm(&mut ctx, &no_types()),
        Err(ConvertError::AggregateIndicesEmpty)
    );
}

#[test]
fn block_address_of_a_made_block() {
    let mut ctx = ToLLVMContext::new("c");
    ctx.ops.push(Op::AddFunction("f".to_string()));
    ctx.insert_value(nm("f"), 0);
    ctx.ops.push(Op::AppendBasicBlock { function: 0, name: nm("bb") });
    let types = no_types();
    Constant::BlockAddress { function: nm("f"), block: nm("bb") }.to_llvm(&mut ctx, &types).unwrap();
    assert_eq!(&ctx.ops[2..], &[Op::Value(0), Op::Value(1), Op::ConstBlockAddress][..]);
    assert_eq!(
        Constant::BlockAddress { function: nm("f"), block: nm("other") }.to_llvm(&mut ctx, &types),
        Err(ConvertError::TargetBlockNotFound(nm("other")))
    );
    assert_eq!(
        Constant::BlockAddress { function: nm("g"), block: nm("bb") }.to_llvm(&mut ctx, &types),
        Err(ConvertError::GlobalReferenceNotFound(nm("g")))
    );
    assert_eq!(ctx.ops.len(), 5);
}

#[test]
fn operands() {
    let mut ctx = ctx_with_a_and_bb();
    local("a").to_llvm(&mut ctx, &no_types()).unwrap();
    Operand::ConstantOperand(Constant::Int { bits: 1, value: 1 }).to_llvm(&mut ctx, &no_types()).unwrap();
    assert_eq!(&ctx.ops[2..], &[Op::Value(0), Op::IntType(1), Op::ConstInt(1)][..]);
    assert_eq!(Operand::MetadataOperand.to_llvm(&mut ctx, &no_types()), Err(ConvertError::MetadataOperandUnsupported));
    assert_eq!(local("b").to_llvm(&mut ctx, &no_types()), Err(ConvertError::LocalOperandNotFound(nm("b"))));
}

#[test]
fn memory_and_comparison_instructions() {
    let mut ctx = ctx_with_a_and_bb();
    let types = no_types();
    Instruction::Alloca(Alloca { allocated_type: i32t(), dest: nm("p") }).to_llvm(&mut ctx, &types).unwrap();
    Instruction::Store(Store { address: local("p"), value: local("a") }).to_llvm(&mut ctx, &types).unwrap();
    Instruction::Load(Load { address: local("p"), loaded_ty: i32t(), dest: nm("v") }).to_llvm(&mut ctx, &types).unwrap();
    Instruction::GetElementPtr(GetElementPtr {
        address: local("p"),
        indices: vec![local("v")],
        dest: nm("q"),
        source_element_type: i32t(),
    })
    .to_llvm(&mut ctx, &types)
    .unwrap();
    Instruction::ICmp(ICmp { predicate: IntPredicate::EQ, operand0: local("v"), operand1: local("a"), dest: nm("c") })
        .to_llvm(&mut ctx, &types)
        .unwrap();
    assert_eq!(
        &ctx.ops[2..],
        &[
            Op::IntType(32),
            Op::BuildAlloca(nm("p")),
            Op::Value(0),
            Op::Value(3),
            Op::BuildStore,
            Op::Value(3),
            Op::IntType(32),
            Op::BuildLoad(nm("v")),
            Op::Value(3),
            Op::Value(9),
            Op::IntType(32),
            Op::BuildGEP { index_count: 1, name: nm("q") },
            Op::Value(9),
            Op::Value(0),
            Op::BuildICmp { predicate: LlvmIntPredicate::LLVMIntEQ, name: nm("c") },
        ][..]
    );
    assert_eq!(ctx.get_or_insert_value(&nm("c")), Some(16));
}

#[test]
fn phi_and_its_incoming_blocks() {
    let mut ctx = ctx_with_a_and_bb();
    let types = no_types();
    let phi = Instruction::Phi(Phi {
        incoming_values: vec![(local("a"), nm("bb")), (Operand::ConstantOperand(Constant::Int { bits: 32, value: 0 }), nm("bb"))],
        dest: nm("x"),
        to_type: i32t(),
    });
    phi.to_llvm(&mut ctx, &types).unwrap();
    assert_eq!(&ctx.ops[2..], &[Op::IntType(32), Op::BuildPhi(nm("x"))][..]);
    let bb = BasicBlock { name: nm("bb"), instrs: vec![phi], term: Terminator::Unreachable };
    bb.fill_phis(&mut ctx, &types).unwrap();
    assert_eq!(
        &ctx.ops[2..],
        &[
            Op::IntType(32),
            Op::BuildPhi(nm("x")),
            Op::Value(0),
            Op::Value(1),
            Op::IntType(32),
            Op::ConstInt(0),
            Op::Value(1),
            Op::AddIncoming { phi: 3, count: 2 },
        ][..]
    );
    assert_eq!(ctx.get_or_insert_value(&nm("x")), Some(3));
    let bad = Instruction::Phi(Phi { incoming_values: vec![(local("x"), nm("nope"))], dest: nm("y"), to_type: i32t() });
    bad.to_llvm(&mut ctx, &types).unwrap();
    let bb = BasicBlock { name: nm("bb"), instrs: vec![bad], term: Terminator::Unreachable };
    assert_eq!(bb.fill_phis(&mut ctx, &types), Err(ConvertError::TargetBlockNotFound(nm("nope"))));
}

#[test]
fn phi_may_use_its_own_value() {
    let mut ctx = ctx_with_a_and_bb();
    let types = no_types();
    let phi = Instruction::Phi(Phi { incoming_values: vec![(local("x"), nm("bb"))], dest: nm("x"), to_type: i32t() });
    phi.to_llvm(&mut ctx, &types).unwrap();
    let bb = BasicBlock { name: nm("bb"), instrs: vec![phi], term: Terminator::Unreachable };
    bb.fill_phis(&mut ctx, &types).unwrap();
    assert_eq!(
        &ctx.ops[2..],
        &[Op::IntType(32), Op::BuildPhi(nm("x")), Op::Value(3), Op::Value(1), Op::AddIncoming { phi: 3, count: 1 }][..]
    );
}

#[test]
fn incoming_pairs_need_a_built_phi() {
    let mut ctx = ctx_with_a_and_bb();
    let types = no_types();
    let phi = Instruction::Phi(Phi { incoming_values: vec![(local("a"), nm("bb"))], dest: nm("a"), to_type: i32t() });
    let bb = BasicBlock { name: nm("bb"), instrs: vec![phi], term: Terminator::Unreachable };
    assert_eq!(bb.fill_phis(&mut ctx, &types), Err(ConvertError::LocalOperandNotFound(nm("a"))));
    assert_eq!(ctx.ops.len(), 2);
}

#[test]
fn failed_instruction_and_block_bind_nothing() {
    let mut ctx = ctx_with_a_and_bb();
    let types = no_types();
    let add = Instruction::Add(BinaryOp { operand0: local("a"), operand1: local("missing"), dest: nm("s") });
    assert_eq!(add.to_llvm(&mut ctx, &types), Err(ConvertError::LocalOperandNotFound(nm("missing"))));
    assert_eq!(ctx.get_or_insert_value(&nm("s")), None);
    let bb = BasicBlock {
        name: nm("bb"),
        instrs: vec![
            Instruction::Add(BinaryOp { operand0: local("a"), operand1: local("a"), dest: nm("t") }),
            Instruction::VAArg,
        ],
        term: Terminator::Unreachable,
    };
    assert_eq!(bb.to_llvm(&mut ctx, &types), Err(ConvertError::InstructionUnsupported));
    assert_eq!(ctx.get_or_insert_value(&nm("t")), None);
    assert_eq!(ctx.get_or_insert_value(&nm("a")), Some(0));
    assert_eq!(ctx.get_bb(&nm("bb")), Some(1));
    let bad_term = BasicBlock {
        name: nm("bb"),
        instrs: vec![Instruction::Add(BinaryOp { operand0: local("a"), operand1: local("a"), dest: nm("u") })],
        term: Terminator::Br(Br { dest: nm("nowhere") }),
    };
    assert_eq!(bad_term.to_llvm(&mut ctx, &types), Err(ConvertError::TargetBlockNotFound(nm("nowhere"))));
    assert_eq!(ctx.get_or_insert_value(&nm("u")), None);
}

#[test]
fn calls() {
    let mut ctx = ctx_with_a_and_bb();
    let call = Call {
        function: Callee::Operand(local("a")),
        function_ty: Type::FuncType { result_type: Box::new(Type::VoidType), param_types: vec![], is_var_arg: false },
        arguments: vec![],
        dest: None,
    };
    Instruction::Call(call).to_llvm(&mut ctx, &no_types()).unwrap();
    assert_eq!(
        &ctx.ops[2..],
        &[Op::Value(0), Op::VoidType, Op::FunctionType { param_count: 0, is_var_arg: false }, Op::BuildCall { arg_count: 0, name: None }][..]
    );
    let inline = Call {
        function: Callee::InlineAssembly { ty: i32t() },
        function_ty: i32t(),
        arguments: vec![],
        dest: Some(nm("r")),
    };
    assert_eq!(Instruction::Call(inline).to_llvm(&mut ctx, &no_types()), Err(ConvertError::InlineAsmCallUnsupported));
    let sub = Instruction::Sub(BinaryOp { operand0: local("a"), operand1: local("missing"), dest: nm("d") });
    assert_eq!(sub.to_llvm(&mut ctx, &no_types()), Err(ConvertError::LocalOperandNotFound(nm("missing"))));
}

#[test]
fn terminators() {
    let mut ctx = ctx_with_a_and_bb();
    let types = no_types();
    Terminator::Br(Br { dest: nm("bb") }).to_llvm(&mut ctx, &types).unwrap();
    Terminator::CondBr(CondBr { condition: local("a"), true_dest: nm("bb"), false_dest: nm("bb") }).to_llvm(&mut ctx, &types).unwrap();
    Terminator::Ret(Ret { return_operand: None }).to_llvm(&mut ctx, &types).unwrap();
    Terminator::Unreachable.to_llvm(&mut ctx, &types).unwrap();
    Terminator::Switch(Switch {
        operand: local("a"),
        dests: vec![(Constant::Int { bits: 32, value: 1 }, nm("bb"))],
        default_dest: nm("bb"),
    })
    .to_llvm(&mut ctx, &types)
    .unwrap();
    assert_eq!(
        &ctx.ops[2..],
        &[
            Op::BuildBr(1),
            Op::Value(0),
            Op::BuildCondBr { then_block: 1, else_block: 1 },
            Op::BuildRetVoid,
            Op::BuildUnreachable,
            Op::Value(0),
            Op::BuildSwitch { default_block: 1, case_count: 1 },
            Op::IntType(32),
            Op::ConstInt(1),
            Op::AddCase { switch: 8, block: 1 },
        ][..]
    );
    assert_eq!(
        Terminator::Br(Br { dest: nm("other") }).to_llvm(&mut ctx, &types),
        Err(ConvertError::TargetBlockNotFound(nm("other")))
    );
    assert_eq!(
        Terminator::CondBr(CondBr { condition: local("a"), true_dest: nm("bb"), false_dest: nm("f") }).to_llvm(&mut ctx, &types),
        Err(ConvertError::TargetBlockNotFound(nm("f")))
    );
    assert_eq!(Terminator::CatchRet.to_llvm(&mut ctx, &types), Err(ConvertError::TerminatorUnsupported));
    Terminator::Resume(Resume { operand: local("a") }).to_llvm(&mut ctx, &types).unwrap();
    let n = ctx.ops.len();
    assert_eq!(&ctx.ops[n - 2..], &[Op::Value(0), Op::BuildResume][..]);
}

#[test]
fn block_without_made_block_is_refused() {
    let mut ctx = ToLLVMContext::new("b");
    let bb = BasicBlock { name: nm("lost"), instrs: vec![], term: Terminator::Unreachable };
    assert_eq!(bb.to_llvm(&mut ctx, &no_types()), Err(ConvertError::BasicBlockNotFound(nm("lost"))));
}

#[test]
fn ifunc_never_converts() {
    let mut ctx = ctx_with_a_and_bb();
    let f = GlobalIFunc { name: nm("i"), linkage: Linkage::External, visibility: Visibility::Default, ty: i32t() };
    assert_eq!(f.to_llvm(&mut ctx, &no_types()), Err(ConvertError::GlobalIFuncUnsupported));
    assert_eq!(ctx.ops.len(), 2);
}
