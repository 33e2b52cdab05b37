use llvm_ir::ir::{
    Attribute, BasicBlock, BinaryOp, Br, Call, Callee, CondBr, Constant, DataLayout, Float, Function,
    FunctionDeclaration, GlobalAlias, GlobalIFunc, GlobalVariable, ICmp, Instruction, IntPredicate, Linkage, Module,
    Name, NamedStructDef, Operand, Parameter, Phi, Ret, Switch, Terminator, Type, Types, Visibility,
};
use llvm_ir::context::ToLLVMContext;
use llvm_ir::llvm_codes::{LlvmLinkage, LlvmVisibility};
use llvm_ir::plan::{AttrPlace, BinaryOpcode, ConvertError, Op};

fn nm(s: &str) -> Name {
    Name::Name(Box::new(s.to_string()))
}

fn i32t() -> Type {
    Type::IntegerType { bits: 32 }
}

fn local(s: &str) -> Operand {
    Operand::LocalOperand { name: nm(s), ty: i32t() }
}

fn int_const(bits: u32, value: u64) -> Operand {
    Operand::ConstantOperand(Constant::Int { bits, value })
}

fn empty_module(name: &str) -> Module {
    Module {
        name: name.to_string(),
        source_file_name: String::new(),
        data_layout: DataLayout { layout_str: String::new() },
        target_triple: None,
        functions: vec![],
        func_declarations: vec![],
        global_vars: vec![],
        global_aliases: vec![],
        global_ifuncs: vec![],
        inline_assembly: String::new(),
        types: Types { named_structs: vec![] },
    }
}

fn param(s: &str) -> Parameter {
    Parameter { name: nm(s), ty: i32t(), attributes: vec![] }
}

fn function(name: &str, params: Vec<Parameter>, blocks: Vec<BasicBlock>) -> Function {
    Function {
        name: name.to_string(),
        parameters: params,
        is_var_arg: false,
        return_type: i32t(),
        basic_blocks: blocks,
        linkage: Linkage::External,
        visibility: Visibility::Default,
        garbage_collector_name: None,
        function_attributes: vec![],
        return_attributes: vec![],
    }
}

fn ret(op: Operand) -> Terminator {
    Terminator::Ret(Ret { return_operand: Some(op) })
}

/// The module of `define i32 @add(i32 %a, i32 %b)` and of a `main` that
/// calls it.
fn add_and_main() -> Module {
    let mut m = empty_module("test");
    m.source_file_name = "test.c".to_string();
    let add = function(
        "add",
        vec![param("a"), param("b")],
        vec![BasicBlock {
            name: nm("entry"),
            instrs: vec![Instruction::Add(BinaryOp {
                operand0: local("a"),
                operand1: local("b"),
                dest: nm("sum"),
            })],
            term: ret(local("sum")),
        }],
    );
    let main = function(
        "main",
        vec![],
        vec![BasicBlock {
            name: nm("entry"),
            instrs: vec![Instruction::Call(Call {
                function: Callee::Operand(Operand::ConstantOperand(Constant::GlobalReference {
                    name: nm("add"),
                    ty: Type::PointerType { addr_space: 0 },
                })),
                function_ty: Type::FuncType {
                    result_type: Box::new(i32t()),
                    param_types: vec![i32t(), i32t()],
                    is_var_arg: false,
                },
                arguments: vec![int_const(32, 5), int_const(32, 3)],
                dest: Some(nm("result")),
            })],
            term: ret(local("result")),
        }],
    );
    m.functions = vec![add, main];
    m
}

#[test]
fn plan_of_add_and_main() {
    let plan = add_and_main().to_llvm_module().unwrap();
    assert_eq!(plan.module_name, "test");
    let ext = LlvmLinkage::LLVMExternalLinkage;
    let def = LlvmVisibility::LLVMDefaultVisibility;
    let expected = vec![
        Op::SetSourceFileName("test.c".to_string()),
        // every function is added first
        Op::IntType(32),
        Op::IntType(32),
        Op::IntType(32),
        Op::FunctionType { param_count: 2, is_var_arg: false },
        Op::AddFunction("add".to_string()),
        Op::SetLinkage { target: 5, linkage: ext },
        Op::SetVisibility { target: 5, visibility: def },
        Op::IntType(32),
        Op::FunctionType { param_count: 0, is_var_arg: false },
        Op::AddFunction("main".to_string()),
        Op::SetLinkage { target: 10, linkage: ext },
        Op::SetVisibility { target: 10, visibility: def },
        // the body of add
        Op::AppendBasicBlock { function: 5, name: nm("entry") },
        Op::GetParam { function: 5, index: 0 },
        Op::GetParam { function: 5, index: 1 },
        Op::PositionAtEnd(13),
        Op::Value(14),
        Op::Value(15),
        Op::BuildBinary { opcode: BinaryOpcode::Add, name: nm("sum") },
        Op::Value(19),
        Op::BuildRet,
        // the body of main
        Op::AppendBasicBlock { function: 10, name: nm("entry") },
        Op::PositionAtEnd(22),
        Op::Value(5),
        Op::IntType(32),
        Op::IntType(32),
        Op::IntType(32),
        Op::FunctionType { param_count: 2, is_var_arg: false },
        Op::IntType(32),
        Op::ConstInt(5),
        Op::IntType(32),
        Op::ConstInt(3),
        Op::BuildCall { arg_count: 2, name: Some(nm("result")) },
        Op::Value(33),
        Op::BuildRet,
    ];
    assert_eq!(plan.ops, expected);
}

#[test]
fn plan_declares_each_function_once() {
    let mut m = add_and_main();
    m.func_declarations = vec![FunctionDeclaration {
        name: "printf".to_string(),
        parameters: vec![Parameter { name: Name::Number(0), ty: Type::PointerType { addr_space: 0 }, attributes: vec![] }],
        is_var_arg: true,
        return_type: i32t(),
        linkage: Linkage::External,
        visibility: Visibility::Default,
        garbage_collector_name: None,
        function_attributes: vec![],
        return_attributes: vec![],
    }];
    let plan = m.to_llvm_module().unwrap();
    let names: Vec<&String> = plan
        .ops
        .iter()
        .filter_map(|op| match op {
            Op::AddFunction(n) => Some(n),
            _ => None,
        })
        .collect();
    assert_eq!(names, vec!["printf", "add", "main"]);
    let blocks = plan.ops.iter().filter(|op| matches!(op, Op::AppendBasicBlock { .. })).count();
    assert_eq!(blocks, 2);
    let params = plan.ops.iter().filter(|op| matches!(op, Op::GetParam { .. })).count();
    assert_eq!(params, 2);
    assert!(plan.ops.contains(&Op::FunctionType { param_count: 1, is_var_arg: true }));
}

#[test]
fn metadata_is_set_first() {
    let mut m = empty_module("meta");
    m.source_file_name = "a.c".to_string();
    m.data_layout.layout_str = "e-m:e".to_string();
    m.target_triple = Some("x86_64-pc-linux-gnu".to_string());
    m.inline_assembly = "nop".to_string();
    let plan = m.to_llvm_module().unwrap();
    assert_eq!(
        plan.ops,
        vec![
            Op::SetSourceFileName("a.c".to_string()),
            Op::SetDataLayout("e-m:e".to_string()),
            Op::SetTarget("x86_64-pc-linux-gnu".to_string()),
            Op::SetInlineAsm("nop".to_string()),
        ]
    );
}

#[test]
fn empty_source_file_name_is_still_set() {
    let plan = empty_module("nothing").to_llvm_module().unwrap();
    assert_eq!(plan.ops, vec![Op::SetSourceFileName(String::new())]);
    assert_eq!(plan.module_name, "nothing");
}

#[test]
fn global_with_initializer() {
    let mut m = empty_module("g");
    m.global_vars = vec![GlobalVariable {
        name: nm("message"),
        linkage: Linkage::Private,
        visibility: Visibility::Default,
        is_constant: true,
        ty: Type::PointerType { addr_space: 0 },
        initializer: Some(Constant::Array {
            element_type: Type::IntegerType { bits: 8 },
            elements: vec![
                Constant::Int { bits: 8, value: 72 },
                Constant::Int { bits: 8, value: 105 },
            ],
        }),
        section: Some(".rodata".to_string()),
        alignment: 1,
    }];
    let plan = m.to_llvm_module().unwrap();
    assert_eq!(
        plan.ops,
        vec![
            Op::SetSourceFileName(String::new()),
            Op::IntType(8),
            Op::ArrayType(2),
            Op::AddGlobal(nm("message")),
            Op::SetLinkage { target: 3, linkage: LlvmLinkage::LLVMPrivateLinkage },
            Op::SetVisibility { target: 3, visibility: LlvmVisibility::LLVMDefaultVisibility },
            Op::SetGlobalConstant { target: 3, is_constant: true },
            Op::SetAlignment { target: 3, alignment: 1 },
            Op::SetSection { target: 3, section: ".rodata".to_string() },
            Op::IntType(8),
            Op::IntType(8),
            Op::ConstInt(72),
            Op::IntType(8),
            Op::ConstInt(105),
            Op::ConstArray { element_count: 2 },
            Op::SetInitializer { target: 3 },
        ]
    );
}

#[test]
fn global_without_initializer_is_i8() {
    let mut m = empty_module("g");
    m.global_vars = vec![GlobalVariable {
        name: Name::Number(3),
        linkage: Linkage::External,
        visibility: Visibility::Hidden,
        is_constant: false,
        ty: Type::PointerType { addr_space: 0 },
        initializer: None,
        section: None,
        alignment: 0,
    }];
    let plan = m.to_llvm_module().unwrap();
    assert_eq!(
        plan.ops,
        vec![
            Op::SetSourceFileName(String::new()),
            Op::IntType(8),
            Op::AddGlobal(Name::Number(3)),
            Op::SetLinkage { target: 2, linkage: LlvmLinkage::LLVMExternalLinkage },
            Op::SetVisibility { target: 2, visibility: LlvmVisibility::LLVMHiddenVisibility },
            Op::SetGlobalConstant { target: 2, is_constant: false },
        ]
    );
}

#[test]
fn alias_refers_to_its_global() {
    let mut m = empty_module("a");
    m.global_vars = vec![GlobalVariable {
        name: nm("x"),
        linkage: Linkage::External,
        visibility: Visibility::Default,
        is_constant: false,
        ty: Type::PointerType { addr_space: 0 },
        initializer: Some(Constant::Int { bits: 32, value: 7 }),
        section: None,
        alignment: 4,
    }];
    m.global_aliases = vec![GlobalAlias {
        name: nm("y"),
        aliasee: Constant::GlobalReference { name: nm("x"), ty: Type::PointerType { addr_space: 0 } },
        linkage: Linkage::External,
        visibility: Visibility::Default,
        ty: Type::PointerType { addr_space: 0 },
    }];
    let plan = m.to_llvm_module().unwrap();
    assert_eq!(
        &plan.ops[7..],
        &[
            Op::PointerType(0),
            Op::Value(2),
            Op::AddAlias(nm("y")),
            Op::SetLinkage { target: 9, linkage: LlvmLinkage::LLVMExternalLinkage },
            Op::SetVisibility { target: 9, visibility: LlvmVisibility::LLVMDefaultVisibility },
            Op::IntType(32),
            Op::ConstInt(7),
            Op::SetInitializer { target: 2 },
        ][..]
    );
}

#[test]
fn ifunc_refuses_module() {
    let mut m = add_and_main();
    m.global_ifuncs = vec![GlobalIFunc {
        name: nm("resolver"),
        linkage: Linkage::External,
        visibility: Visibility::Default,
        ty: Type::PointerType { addr_space: 0 },
    }];
    assert_eq!(m.to_llvm_module(), Err(ConvertError::GlobalIFuncUnsupported));
}

#[test]
fn global_reference_to_later_function_resolves() {
    let mut m = add_and_main();
    m.global_vars = vec![GlobalVariable {
        name: nm("fp"),
        linkage: Linkage::External,
        visibility: Visibility::Default,
        is_constant: false,
        ty: Type::PointerType { addr_space: 0 },
        initializer: Some(Constant::GlobalReference { name: nm("main"), ty: Type::PointerType { addr_space: 0 } }),
        section: None,
        alignment: 0,
    }];
    let plan = m.to_llvm_module().unwrap();
    let main_at = plan.ops.iter().position(|op| *op == Op::AddFunction("main".to_string())).unwrap();
    let init_at = plan.ops.iter().position(|op| *op == Op::SetInitializer { target: 2 }).unwrap();
    assert!(main_at < init_at);
    assert_eq!(plan.ops[init_at - 1], Op::Value(main_at));
}

#[test]
fn global_initializer_may_name_a_later_global() {
    let mut m = empty_module("fwd");
    let g = |name: &str, init: Constant| GlobalVariable {
        name: nm(name),
        linkage: Linkage::External,
        visibility: Visibility::Default,
        is_constant: false,
        ty: Type::PointerType { addr_space: 0 },
        initializer: Some(init),
        section: None,
        alignment: 0,
    };
    m.global_vars = vec![
        g("p", Constant::GlobalReference { name: nm("q"), ty: Type::PointerType { addr_space: 0 } }),
        g("q", Constant::Int { bits: 32, value: 0 }),
    ];
    let plan = m.to_llvm_module().unwrap();
    assert_eq!(
        &plan.ops[1..],
        &[
            Op::PointerType(0),
            Op::AddGlobal(nm("p")),
            Op::SetLinkage { target: 2, linkage: LlvmLinkage::LLVMExternalLinkage },
            Op::SetVisibility { target: 2, visibility: LlvmVisibility::LLVMDefaultVisibility },
            Op::SetGlobalConstant { target: 2, is_constant: false },
            Op::IntType(32),
            Op::AddGlobal(nm("q")),
            Op::SetLinkage { target: 7, linkage: LlvmLinkage::LLVMExternalLinkage },
            Op::SetVisibility { target: 7, visibility: LlvmVisibility::LLVMDefaultVisibility },
            Op::SetGlobalConstant { target: 7, is_constant: false },
            Op::Value(7),
            Op::SetInitializer { target: 2 },
            Op::IntType(32),
            Op::ConstInt(0),
            Op::SetInitializer { target: 7 },
        ][..]
    );
}

#[test]
fn call_to_later_function_resolves() {
    let mut m = add_and_main();
    m.functions.reverse();
    let plan = m.to_llvm_module().unwrap();
    let add_at = plan.ops.iter().position(|op| *op == Op::AddFunction("add".to_string())).unwrap();
    let call_at = plan.ops.iter().position(|op| matches!(op, Op::BuildCall { .. })).unwrap();
    assert!(add_at < call_at);
    assert!(plan.ops.contains(&Op::Value(add_at)));
}

#[test]
fn empty_vector_initializer_is_refused() {
    let mut m = empty_module("v");
    m.global_vars = vec![GlobalVariable {
        name: nm("v"),
        linkage: Linkage::External,
        visibility: Visibility::Default,
        is_constant: false,
        ty: Type::PointerType { addr_space: 0 },
        initializer: Some(Constant::Vector(vec![])),
        section: None,
        alignment: 0,
    }];
    assert_eq!(m.to_llvm_module(), Err(ConvertError::EmptyVectorType));
}

#[test]
fn vector_initializer_type_is_from_first_element() {
    let mut m = empty_module("v");
    m.global_vars = vec![GlobalVariable {
        name: nm("v"),
        linkage: Linkage::External,
        visibility: Visibility::Default,
        is_constant: false,
        ty: Type::PointerType { addr_space: 0 },
        initializer: Some(Constant::Vector(vec![Constant::Float(Float::Double(0)), Constant::Float(Float::Double(1))])),
        section: None,
        alignment: 0,
    }];
    let plan = m.to_llvm_module().unwrap();
    assert_eq!(plan.ops[1], Op::DoubleType);
    assert_eq!(plan.ops[2], Op::VectorType(2));
    assert_eq!(plan.ops[3], Op::AddGlobal(nm("v")));
    assert_eq!(
        &plan.ops[7..11],
        &[Op::DoubleType, Op::ConstDouble(0), Op::DoubleType, Op::ConstDouble(1)][..]
    );
    assert_eq!(plan.ops[11], Op::ConstVector { element_count: 2 });
}

#[test]
fn function_without_blocks_is_only_declared() {
    let mut m = empty_module("d");
    let mut f = function("ext", vec![param("a")], vec![]);
    f.garbage_collector_name = Some("shadow-stack".to_string());
    m.functions = vec![f];
    let plan = m.to_llvm_module().unwrap();
    assert_eq!(
        plan.ops,
        vec![
            Op::SetSourceFileName(String::new()),
            Op::IntType(32),
            Op::IntType(32),
            Op::FunctionType { param_count: 1, is_var_arg: false },
            Op::AddFunction("ext".to_string()),
            Op::SetLinkage { target: 4, linkage: LlvmLinkage::LLVMExternalLinkage },
            Op::SetVisibility { target: 4, visibility: LlvmVisibility::LLVMDefaultVisibility },
            Op::SetGC { target: 4, name: "shadow-stack".to_string() },
        ]
    );
}

#[test]
fn function_and_parameter_attributes_are_added() {
    let mut m = empty_module("attrs");
    let mut p = param("a");
    p.attributes = vec![Attribute::Enum { kind: "noundef".to_string(), value: 0 }];
    let mut f = function("f", vec![p], vec![]);
    f.function_attributes = vec![
        Attribute::Enum { kind: "nounwind".to_string(), value: 0 },
        Attribute::Str { kind: "frame-pointer".to_string(), value: "all".to_string() },
    ];
    f.return_attributes = vec![Attribute::Enum { kind: "dereferenceable".to_string(), value: 8 }];
    m.functions = vec![f];
    let plan = m.to_llvm_module().unwrap();
    assert_eq!(
        &plan.ops[4..],
        &[
            Op::AddFunction("f".to_string()),
            Op::SetLinkage { target: 4, linkage: LlvmLinkage::LLVMExternalLinkage },
            Op::SetVisibility { target: 4, visibility: LlvmVisibility::LLVMDefaultVisibility },
            Op::AddAttribute {
                target: 4,
                place: AttrPlace::Function,
                attribute: Attribute::Enum { kind: "nounwind".to_string(), value: 0 },
            },
            Op::AddAttribute {
                target: 4,
                place: AttrPlace::Function,
                attribute: Attribute::Str { kind: "frame-pointer".to_string(), value: "all".to_string() },
            },
            Op::AddAttribute {
                target: 4,
                place: AttrPlace::Return,
                attribute: Attribute::Enum { kind: "dereferenceable".to_string(), value: 8 },
            },
            Op::AddAttribute {
                target: 4,
                place: AttrPlace::Param(0),
                attribute: Attribute::Enum { kind: "noundef".to_string(), value: 0 },
            },
        ][..]
    );
}

#[test]
fn named_struct_global_uses_its_definition() {
    let mut m = empty_module("s");
    m.types = Types {
        named_structs: vec![(
            "pair".to_string(),
            NamedStructDef::Defined(Type::StructType { element_types: vec![i32t(), i32t()], is_packed: false }),
        )],
    };
    m.global_vars = vec![GlobalVariable {
        name: nm("p"),
        linkage: Linkage::Internal,
        visibility: Visibility::Default,
        is_constant: false,
        ty: Type::PointerType { addr_space: 0 },
        initializer: Some(Constant::Struct {
            name: Some("pair".to_string()),
            values: vec![Constant::Int { bits: 32, value: 1 }, Constant::Int { bits: 32, value: 2 }],
            is_packed: false,
        }),
        section: None,
        alignment: 0,
    }];
    let plan = m.to_llvm_module().unwrap();
    assert_eq!(
        plan.ops,
        vec![
            Op::SetSourceFileName(String::new()),
            Op::NamedStruct("pair".to_string()),
            Op::IntType(32),
            Op::IntType(32),
            Op::SetStructBody { element_count: 2, is_packed: false },
            Op::AddGlobal(nm("p")),
            Op::SetLinkage { target: 5, linkage: LlvmLinkage::LLVMInternalLinkage },
            Op::SetVisibility { target: 5, visibility: LlvmVisibility::LLVMDefaultVisibility },
            Op::SetGlobalConstant { target: 5, is_constant: false },
            Op::Value(1),
            Op::IntType(32),
            Op::ConstInt(1),
            Op::IntType(32),
            Op::ConstInt(2),
            Op::ConstNamedStruct { element_count: 2 },
            Op::SetInitializer { target: 5 },
        ]
    );
}

#[test]
fn undefined_local_operand_is_refused() {
    let mut m = empty_module("u");
    m.functions = vec![function(
        "f",
        vec![],
        vec![BasicBlock { name: nm("entry"), instrs: vec![], term: ret(local("nowhere")) }],
    )];
    assert_eq!(m.to_llvm_module(), Err(ConvertError::LocalOperandNotFound(nm("nowhere"))));
}

#[test]
fn unsupported_instruction_is_refused() {
    let mut m = empty_module("u");
    m.functions = vec![function(
        "f",
        vec![param("a")],
        vec![BasicBlock {
            name: nm("entry"),
            instrs: vec![
                Instruction::Xor(BinaryOp { operand0: local("a"), operand1: local("a"), dest: nm("x") }),
                Instruction::VAArg,
            ],
            term: ret(local("a")),
        }],
    )];
    assert_eq!(m.to_llvm_module(), Err(ConvertError::InstructionUnsupported));
}

/// The handles an operation refers to.
fn refs(op: &Op) -> Vec<usize> {
    match op {
        Op::Value(h) => vec![*h],
        Op::SetLinkage { target, .. }
        | Op::SetVisibility { target, .. }
        | Op::SetGlobalConstant { target, .. }
        | Op::SetInitializer { target }
        | Op::SetAlignment { target, .. }
        | Op::SetSection { target, .. }
        | Op::SetGC { target, .. }
        | Op::AddAttribute { target, .. } => vec![*target],
        Op::AppendBasicBlock { function, .. } | Op::GetParam { function, .. } => vec![*function],
        Op::PositionAtEnd(b) | Op::BuildBr(b) => vec![*b],
        Op::AddIncoming { phi, .. } => vec![*phi],
        Op::BuildCondBr { then_block, else_block } => vec![*then_block, *else_block],
        Op::BuildSwitch { default_block, .. } => vec![*default_block],
        Op::AddCase { switch, block } => vec![*switch, *block],
        Op::AddDestination { indirect_br, block } => vec![*indirect_br, *block],
        Op::BuildInvoke { then_block, catch_block, .. } => vec![*then_block, *catch_block],
        _ => vec![],
    }
}

fn refers_backward(ops: &[Op]) -> bool {
    ops.iter().enumerate().all(|(i, op)| refs(op).iter().all(|h| *h < i))
}

/// A loop whose exit block merges, with a phi, values from the blocks
/// before it, then switches on the result.
fn looping_function() -> Function {
    function(
        "count",
        vec![param("n")],
        vec![
            BasicBlock { name: nm("entry"), instrs: vec![], term: Terminator::Br(Br { dest: nm("loop") }) },
            BasicBlock {
                name: nm("loop"),
                instrs: vec![
                    Instruction::Add(BinaryOp { operand0: local("n"), operand1: int_const(32, 1), dest: nm("next") }),
                    Instruction::ICmp(ICmp {
                        predicate: IntPredicate::SLT,
                        operand0: local("next"),
                        operand1: local("n"),
                        dest: nm("more"),
                    }),
                ],
                term: Terminator::CondBr(CondBr { condition: local("more"), true_dest: nm("loop"), false_dest: nm("exit") }),
            },
            BasicBlock {
                name: nm("exit"),
                instrs: vec![Instruction::Phi(Phi {
                    incoming_values: vec![(int_const(32, 0), nm("entry")), (local("next"), nm("loop"))],
                    dest: nm("r"),
                    to_type: i32t(),
                })],
                term: Terminator::Switch(Switch {
                    operand: local("r"),
                    dests: vec![(Constant::Int { bits: 32, value: 0 }, nm("entry"))],
                    default_dest: nm("exit"),
                }),
            },
        ],
    )
}

#[test]
fn plan_refers_only_to_earlier_operations() {
    let mut m = add_and_main();
    m.functions.push(looping_function());
    let plan = m.to_llvm_module().unwrap();
    assert!(refers_backward(&plan.ops));
    let phi_at = plan.ops.iter().position(|op| *op == Op::BuildPhi(nm("r"))).unwrap();
    assert!(plan.ops.iter().any(|op| *op == Op::AddIncoming { phi: phi_at, count: 2 }));
    assert!(!refers_backward(&[Op::IntType(1), Op::Value(1)]));
    assert!(refers_backward(&[Op::IntType(1), Op::Value(0)]));
}

/// `loop: %i = phi i32 [0, %entry], [%next, %loop]; %next = add i32 %i, 1`:
/// the loop header's phi takes a value that is defined after it.
fn loop_header_function() -> Function {
    function(
        "header",
        vec![param("n")],
        vec![
            BasicBlock { name: nm("entry"), instrs: vec![], term: Terminator::Br(Br { dest: nm("loop") }) },
            BasicBlock {
                name: nm("loop"),
                instrs: vec![
                    Instruction::Phi(Phi {
                        incoming_values: vec![(int_const(32, 0), nm("entry")), (local("next"), nm("loop"))],
                        dest: nm("i"),
                        to_type: i32t(),
                    }),
                    Instruction::Add(BinaryOp { operand0: local("i"), operand1: int_const(32, 1), dest: nm("next") }),
                    Instruction::ICmp(ICmp {
                        predicate: IntPredicate::SLT,
                        operand0: local("next"),
                        operand1: local("n"),
                        dest: nm("more"),
                    }),
                ],
                term: Terminator::CondBr(CondBr { condition: local("more"), true_dest: nm("loop"), false_dest: nm("exit") }),
            },
            BasicBlock { name: nm("exit"), instrs: vec![], term: ret(local("i")) },
        ],
    )
}

#[test]
fn loop_header_phi_takes_a_later_value() {
    let mut m = empty_module("loop");
    m.functions = vec![loop_header_function()];
    let plan = m.to_llvm_module().unwrap();
    let phi_at = plan.ops.iter().position(|op| *op == Op::BuildPhi(nm("i"))).unwrap();
    let next_at = plan
        .ops
        .iter()
        .position(|op| *op == Op::BuildBinary { opcode: BinaryOpcode::Add, name: nm("next") })
        .unwrap();
    let loop_at = plan.ops.iter().position(|op| *op == Op::AppendBasicBlock { function: 4, name: nm("loop") }).unwrap();
    let entry_at = plan.ops.iter().position(|op| *op == Op::AppendBasicBlock { function: 4, name: nm("entry") }).unwrap();
    assert!(phi_at < next_at);
    let n = plan.ops.len();
    assert_eq!(
        &plan.ops[n - 6..],
        &[
            Op::IntType(32),
            Op::ConstInt(0),
            Op::Value(entry_at),
            Op::Value(next_at),
            Op::Value(loop_at),
            Op::AddIncoming { phi: phi_at, count: 2 },
        ][..]
    );
    assert!(refers_backward(&plan.ops));
    assert!(replays(&plan.ops));
}

#[derive(Clone, Copy, Debug, PartialEq)]
enum Kind {
    Ty,
    Val,
    Block,
}

/// What an operation takes from the stack (deepest first), whether it
/// pushes its result, and the kind of its result.
fn signature(op: &Op) -> (Vec<Kind>, bool, Option<Kind>) {
    let n = |k: Kind, c: usize| vec![k; c];
    match op {
        Op::VoidType | Op::IntType(_) | Op::PointerType(_) | Op::HalfType | Op::BFloatType | Op::FloatType
        | Op::DoubleType | Op::FP128Type | Op::X86FP80Type | Op::PPCFP128Type | Op::NamedStruct(_) | Op::X86MMXType
        | Op::X86AMXType | Op::MetadataType | Op::LabelType | Op::TokenType => (vec![], true, Some(Kind::Ty)),
        Op::FunctionType { param_count, .. } => ([vec![Kind::Ty], n(Kind::Ty, *param_count)].concat(), true, Some(Kind::Ty)),
        Op::VectorType(_) | Op::ScalableVectorType(_) | Op::ArrayType(_) => (vec![Kind::Ty], true, Some(Kind::Ty)),
        Op::StructType { element_count, .. } => (n(Kind::Ty, *element_count), true, Some(Kind::Ty)),
        Op::SetStructBody { element_count, .. } => ([vec![Kind::Ty], n(Kind::Ty, *element_count)].concat(), true, Some(Kind::Ty)),
        Op::ConstInt(_) | Op::ConstNull | Op::ConstSingle(_) | Op::ConstDouble(_) | Op::GetUndef | Op::GetPoison => {
            (vec![Kind::Ty], true, Some(Kind::Val))
        },
        Op::ComparisonType | Op::ElementType | Op::FieldType(_) => (vec![Kind::Ty], true, Some(Kind::Ty)),
        Op::ConstExtractValue(_) => (vec![Kind::Val], true, Some(Kind::Val)),
        Op::ConstInsertValue(_) => (vec![Kind::Val, Kind::Val], true, Some(Kind::Val)),
        Op::ShuffleType => (vec![Kind::Ty, Kind::Ty], true, Some(Kind::Ty)),
        Op::ConstExtractElement => (vec![Kind::Val, Kind::Val], true, Some(Kind::Val)),
        Op::ConstInsertElement | Op::ConstShuffleVector => (vec![Kind::Val, Kind::Val, Kind::Val], true, Some(Kind::Val)),
        Op::ConstBinary(_) | Op::ConstICmp(_) | Op::ConstFCmp(_) => (vec![Kind::Val, Kind::Val], true, Some(Kind::Val)),
        Op::ConstStruct { element_count, .. } | Op::ConstVector { element_count } => {
            (n(Kind::Val, *element_count), true, Some(Kind::Val))
        },
        Op::ConstNamedStruct { element_count } | Op::ConstArray { element_count } => ([vec![Kind::Ty], n(Kind::Val, *element_count)].concat(), true, Some(Kind::Val)),
        Op::AddGlobal(_) | Op::AddFunction(_) => (vec![Kind::Ty], false, Some(Kind::Val)),
        Op::AddAlias(_) => (vec![Kind::Ty, Kind::Val], false, Some(Kind::Val)),
        Op::SetInitializer { .. } => (vec![Kind::Val], false, None),
        Op::AppendBasicBlock { .. } => (vec![], false, Some(Kind::Block)),
        Op::GetParam { .. } => (vec![], false, Some(Kind::Val)),
        Op::BuildBinary { .. } | Op::BuildICmp { .. } | Op::BuildStore => (vec![Kind::Val, Kind::Val], false, Some(Kind::Val)),
        Op::BuildCall { arg_count, .. } => ([vec![Kind::Val, Kind::Ty], n(Kind::Val, *arg_count)].concat(), false, Some(Kind::Val)),
        Op::BuildAlloca(_) | Op::BuildPhi(_) => (vec![Kind::Ty], false, Some(Kind::Val)),
        Op::BuildLoad(_) => (vec![Kind::Val, Kind::Ty], false, Some(Kind::Val)),
        Op::BuildGEP { index_count, .. } => ([vec![Kind::Val], n(Kind::Val, *index_count), vec![Kind::Ty]].concat(), false, Some(Kind::Val)),
        Op::AddIncoming { count, .. } => ([Kind::Val, Kind::Block].repeat(*count), false, None),
        Op::BuildRet | Op::BuildCondBr { .. } | Op::BuildSwitch { .. } => (vec![Kind::Val], false, Some(Kind::Val)),
        Op::BuildRetVoid | Op::BuildBr(_) => (vec![], false, Some(Kind::Val)),
        Op::AddCase { .. } => (vec![Kind::Val], false, None),
        Op::Value(_) => (vec![], true, None),
        _ => (vec![], false, None),
    }
}

/// Replays a program on kinds only: every operation must find its inputs
/// and every handle must name an earlier result of the right kind.
fn replays(ops: &[Op]) -> bool {
    let mut stack: Vec<Kind> = Vec::new();
    let mut made: Vec<Option<Kind>> = Vec::new();
    for (i, op) in ops.iter().enumerate() {
        let kind_of = |h: usize| if h < i { made[h] } else { None };
        let refs_ok = match op {
            Op::SetLinkage { target, .. }
            | Op::SetVisibility { target, .. }
            | Op::SetInitializer { target }
            | Op::AddAttribute { target, .. } => {
                kind_of(*target) == Some(Kind::Val)
            },
            Op::AppendBasicBlock { function, .. } | Op::GetParam { function, .. } => kind_of(*function) == Some(Kind::Val),
            Op::PositionAtEnd(b) | Op::BuildBr(b) => kind_of(*b) == Some(Kind::Block),
            Op::AddIncoming { phi, .. } => kind_of(*phi) == Some(Kind::Val),
            Op::BuildCondBr { then_block, else_block } => {
                kind_of(*then_block) == Some(Kind::Block) && kind_of(*else_block) == Some(Kind::Block)
            },
            Op::BuildSwitch { default_block, .. } => kind_of(*default_block) == Some(Kind::Block),
            Op::AddCase { switch, block } => kind_of(*switch) == Some(Kind::Val) && kind_of(*block) == Some(Kind::Block),
            _ => true,
        };
        if !refs_ok {
            return false;
        }
        let (takes, pushes, result) = signature(op);
        if stack.len() < takes.len() || stack[stack.len() - takes.len()..] != takes[..] {
            return false;
        }
        stack.truncate(stack.len() - takes.len());
        let result = match op {
            Op::Value(h) => match kind_of(*h) {
                Some(k) => Some(k),
                None => return false,
            },
            _ => result,
        };
        if pushes {
            stack.push(result.unwrap());
        }
        made.push(result);
    }
    stack.is_empty()
}

#[test]
fn plan_replays_without_a_fault() {
    let mut m = add_and_main();
    m.functions.push(looping_function());
    let plan = m.to_llvm_module().unwrap();
    assert!(replays(&plan.ops));
    let mut s = empty_module("s");
    s.types = Types {
        named_structs: vec![(
            "pair".to_string(),
            NamedStructDef::Defined(Type::StructType { element_types: vec![i32t(), i32t()], is_packed: false }),
        )],
    };
    s.global_vars = vec![GlobalVariable {
        name: nm("p"),
        linkage: Linkage::Internal,
        visibility: Visibility::Default,
        is_constant: false,
        ty: Type::PointerType { addr_space: 0 },
        initializer: Some(Constant::Struct {
            name: Some("pair".to_string()),
            values: vec![Constant::Int { bits: 32, value: 1 }, Constant::Int { bits: 32, value: 2 }],
            is_packed: false,
        }),
        section: None,
        alignment: 0,
    }];
    assert!(replays(&s.to_llvm_module().unwrap().ops));
    assert!(!replays(&[Op::IntType(32), Op::BuildRet]));
    assert!(!replays(&[Op::IntType(32)]));
    assert!(replays(&[Op::IntType(32), Op::AddFunction("f".to_string()), Op::GetParam { function: 1, index: 0 }]));
}

fn declaration(name: &str, return_type: Type) -> FunctionDeclaration {
    FunctionDeclaration {
        name: name.to_string(),
        parameters: vec![param("a")],
        is_var_arg: false,
        return_type,
        linkage: Linkage::External,
        visibility: Visibility::Default,
        garbage_collector_name: None,
        function_attributes: vec![],
        return_attributes: vec![],
    }
}

fn global(name: &str, initializer: Option<Constant>) -> GlobalVariable {
    GlobalVariable {
        name: nm(name),
        linkage: Linkage::External,
        visibility: Visibility::Default,
        is_constant: false,
        ty: Type::PointerType { addr_space: 0 },
        initializer,
        section: None,
        alignment: 0,
    }
}

#[test]
fn first_failing_item_in_order_gives_the_error() {
    let mut m = empty_module("order");
    m.global_vars = vec![global(
        "p",
        Some(Constant::GlobalReference { name: nm("nowhere"), ty: Type::PointerType { addr_space: 0 } }),
    )];
    m.func_declarations = vec![declaration("ext", Type::TargetExtType)];
    assert_eq!(m.to_llvm_module(), Err(ConvertError::GlobalReferenceNotFound(nm("nowhere"))));
    m.global_vars[0].initializer = Some(Constant::Int { bits: 32, value: 0 });
    assert_eq!(m.to_llvm_module(), Err(ConvertError::TargetExtTypeUnsupported));
}

#[test]
fn function_body_error_comes_before_a_later_alias_error() {
    let mut m = empty_module("order");
    m.functions = vec![function(
        "f",
        vec![],
        vec![BasicBlock { name: nm("entry"), instrs: vec![], term: ret(local("nowhere")) }],
    )];
    m.global_aliases = vec![GlobalAlias {
        name: nm("a"),
        aliasee: Constant::GlobalReference { name: nm("f"), ty: Type::PointerType { addr_space: 0 } },
        linkage: Linkage::External,
        visibility: Visibility::Default,
        ty: Type::TargetExtType,
    }];
    assert_eq!(m.to_llvm_module(), Err(ConvertError::LocalOperandNotFound(nm("nowhere"))));
    m.functions.clear();
    assert_eq!(m.to_llvm_module(), Err(ConvertError::TargetExtTypeUnsupported));
}

#[test]
fn failed_declarations_add_nothing() {
    let types = Types { named_structs: vec![] };
    let mut ctx = ToLLVMContext::new("m");
    ctx.ops.push(Op::IntType(1));
    let mut d = declaration("ext", i32t());
    d.parameters = vec![Parameter { name: nm("x"), ty: Type::TargetExtType, attributes: vec![] }];
    assert_eq!(d.to_llvm(&mut ctx, &types), Err(ConvertError::TargetExtTypeUnsupported));
    assert_eq!(ctx.ops, vec![Op::IntType(1)]);
    assert_eq!(ctx.get_or_insert_value(&nm("ext")), None);
    let alias = GlobalAlias {
        name: nm("a"),
        aliasee: Constant::GlobalReference { name: nm("nowhere"), ty: Type::PointerType { addr_space: 0 } },
        linkage: Linkage::External,
        visibility: Visibility::Default,
        ty: Type::PointerType { addr_space: 0 },
    };
    assert_eq!(alias.to_llvm(&mut ctx, &types), Err(ConvertError::GlobalReferenceNotFound(nm("nowhere"))));
    assert_eq!(ctx.ops, vec![Op::IntType(1)]);
    let g = global("g", Some(Constant::GlobalReference { name: nm("nowhere"), ty: Type::PointerType { addr_space: 0 } }));
    assert_eq!(g.to_llvm(&mut ctx, &types), Err(ConvertError::GlobalReferenceNotFound(nm("nowhere"))));
    assert_eq!(ctx.ops, vec![Op::IntType(1)]);
    assert_eq!(ctx.get_or_insert_value(&nm("g")), None);
    let bb = BasicBlock { name: nm("lost"), instrs: vec![], term: Terminator::Unreachable };
    assert_eq!(bb.to_llvm(&mut ctx, &types), Err(ConvertError::BasicBlockNotFound(nm("lost"))));
    assert_eq!(ctx.ops, vec![Op::IntType(1)]);
}

#[test]
fn comparison_initializer_has_a_boolean_type() {
    let mut m = empty_module("c");
    m.global_vars = vec![global(
        "b",
        Some(Constant::ICmp {
            predicate: IntPredicate::EQ,
            operand0: Box::new(Constant::Int { bits: 32, value: 1 }),
            operand1: Box::new(Constant::Int { bits: 32, value: 1 }),
        }),
    )];
    let plan = m.to_llvm_module().unwrap();
    assert_eq!(&plan.ops[1..4], &[Op::IntType(32), Op::ComparisonType, Op::AddGlobal(nm("b"))][..]);
    assert!(replays(&plan.ops));
}

#[test]
fn shuffle_initializer_takes_the_mask_length() {
    let mut m = empty_module("c");
    let v = || Box::new(Constant::Vector(vec![Constant::Int { bits: 8, value: 1 }, Constant::Int { bits: 8, value: 2 }]));
    let mask = Box::new(Constant::Vector(vec![
        Constant::Int { bits: 32, value: 0 },
        Constant::Int { bits: 32, value: 3 },
        Constant::Int { bits: 32, value: 1 },
    ]));
    m.global_vars = vec![global("s", Some(Constant::ShuffleVector { operand0: v(), operand1: v(), mask }))];
    let plan = m.to_llvm_module().unwrap();
    assert_eq!(
        &plan.ops[1..7],
        &[Op::IntType(8), Op::VectorType(2), Op::IntType(32), Op::VectorType(3), Op::ShuffleType, Op::AddGlobal(nm("s"))][..]
    );
    assert!(refers_backward(&plan.ops));
    assert!(replays(&plan.ops));
}

#[test]
fn aggregate_field_initializers() {
    let mut m = empty_module("c");
    let inner = || Constant::Struct {
        name: None,
        values: vec![Constant::Int { bits: 8, value: 1 }, Constant::Int { bits: 16, value: 2 }],
        is_packed: false,
    };
    let outer = || Box::new(Constant::Struct { name: None, values: vec![inner(), Constant::Int { bits: 32, value: 3 }], is_packed: false });
    m.global_vars = vec![
        global("e", Some(Constant::ExtractValue { aggregate: outer(), indices: vec![0, 1] })),
        global("i", Some(Constant::InsertValue { aggregate: outer(), element: Box::new(Constant::Int { bits: 16, value: 7 }), indices: vec![0, 1] })),
    ];
    let plan = m.to_llvm_module().unwrap();
    assert!(plan.ops.contains(&Op::FieldType(1)));
    assert!(plan.ops.contains(&Op::ConstInsertValue(0)));
    assert!(plan.ops.contains(&Op::ConstInsertValue(1)));
    assert!(refers_backward(&plan.ops));
    assert!(replays(&plan.ops));
    let mut bad = empty_module("c");
    bad.global_vars = vec![global("x", Some(Constant::ExtractValue { aggregate: outer(), indices: vec![] }))];
    assert_eq!(bad.to_llvm_module().err(), Some(ConvertError::AggregateIndicesEmpty));
}
