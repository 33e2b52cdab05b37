//! The in-memory model of an LLVM IR module that the conversion reads.
//!
//! Only what the conversion looks at is kept: a floating-point constant, for
//! instance, is known by its format and, where the module holds it, its bit
//! pattern.

use vstd::prelude::*;
use crate::plan::{BinaryOpcode, CastOpcode};

verus! {

/// The name of a local or global value, or of a basic block: either a text
/// name or a number (an unnamed value).
#[derive(Debug, PartialEq)]
pub enum Name {
    Name(Box<String>),
    Number(usize),
}

/// What identifies a name: names with the same text, or the same number,
/// denote the same value.
pub enum NameKey {
    Text(Seq<char>),
    Number(usize),
}

impl Name {
    /// The key under which this name is looked up.
    pub open spec fn key(self) -> NameKey {
        match self {
            Name::Name(s) => NameKey::Text(s@),
            Name::Number(n) => NameKey::Number(n),
        }
    }

    /// A copy of this name.
    pub fn clone_name(&self) -> (r: Name)
        ensures
            r == *self,
    {
        match self {
            Name::Name(s) => Name::Name(Box::new((**s).clone())),
            Name::Number(n) => Name::Number(*n),
        }
    }

    /// Whether two names denote the same value.
    pub fn same_as(&self, other: &Name) -> (r: bool)
        ensures
            r == (self.key() == other.key()),
    {
        match (self, other) {
            (Name::Name(a), Name::Name(b)) => {
                let r = **a == **b;
                r
            },
            (Name::Number(a), Name::Number(b)) => *a == *b,
            _ => false,
        }
    }
}

/// Linkage of a global value.
#[derive(Clone, Copy, Debug, PartialEq, Eq, Structural)]
pub enum Linkage {
    Private,
    Internal,
    External,
    ExternalWeak,
    AvailableExternally,
    LinkOnceAny,
    LinkOnceODR,
    LinkOnceODRAutoHide,
    WeakAny,
    WeakODR,
    Common,
    Appending,
    DLLImport,
    DLLExport,
    GhostLinkage,
    LinkerPrivate,
    LinkerPrivateWeak,
}

/// Visibility of a global value.
#[derive(Clone, Copy, Debug, PartialEq, Eq, Structural)]
pub enum Visibility {
    Default,
    Hidden,
    Protected,
}

/// Predicate of an integer comparison.
#[derive(Clone, Copy, Debug, PartialEq, Eq, Structural)]
pub enum IntPredicate {
    EQ,
    NE,
    UGT,
    UGE,
    ULT,
    ULE,
    SGT,
    SGE,
    SLT,
    SLE,
}

/// Predicate of a floating-point comparison.
#[derive(Clone, Copy, Debug, PartialEq, Eq, Structural)]
pub enum FPPredicate {
    False,
    OEQ,
    OGT,
    OGE,
    OLT,
    OLE,
    ONE,
    ORD,
    UNO,
    UEQ,
    UGT,
    UGE,
    ULT,
    ULE,
    UNE,
    True,
}

/// Ordering constraint of an atomic memory access.
#[derive(Clone, Copy, Debug, PartialEq, Eq, Structural)]
pub enum MemoryOrdering {
    Unordered,
    Monotonic,
    Acquire,
    Release,
    AcquireRelease,
    SequentiallyConsistent,
    NotAtomic,
}

/// The threads an atomic access synchronizes with.
#[derive(Clone, Copy, Debug, PartialEq, Eq, Structural)]
pub enum SynchronizationScope {
    SingleThread,
    System,
}

/// The ordering and scope of an atomic access.
#[derive(Clone, Copy, Debug, PartialEq, Eq, Structural)]
pub struct Atomicity {
    pub synch_scope: SynchronizationScope,
    pub mem_ordering: MemoryOrdering,
}

/// The operation of an atomic read-modify-write.
#[derive(Clone, Copy, Debug, PartialEq, Eq, Structural)]
pub enum RMWBinOp {
    Xchg,
    Add,
    Sub,
    And,
    Nand,
    Or,
    Xor,
    Max,
    Min,
    UMax,
    UMin,
    FAdd,
    FSub,
}

/// Floating-point formats.
#[allow(non_camel_case_types)]
#[derive(Clone, Copy, Debug, PartialEq, Eq, Structural)]
pub enum FPType {
    Half,
    BFloat,
    Single,
    Double,
    FP128,
    X86_FP80,
    PPC_FP128,
}

/// A floating-point constant. Its value is kept, as its IEEE bit pattern,
/// for the single and double formats; for the other formats the module does
/// not hold the value.
#[allow(non_camel_case_types)]
#[derive(Clone, Copy, Debug, PartialEq, Eq, Structural)]
pub enum Float {
    Half,
    BFloat,
    Single(u32),
    Double(u64),
    Quadruple,
    X86_FP80,
    PPC_FP128,
}

/// The format of a floating-point constant.
pub open spec fn float_format(f: Float) -> FPType {
    match f {
        Float::Half => FPType::Half,
        Float::BFloat => FPType::BFloat,
        Float::Single(_) => FPType::Single,
        Float::Double(_) => FPType::Double,
        Float::Quadruple => FPType::FP128,
        Float::X86_FP80 => FPType::X86_FP80,
        Float::PPC_FP128 => FPType::PPC_FP128,
    }
}

impl Float {
    /// The format of this constant.
    pub fn format(&self) -> (r: FPType)
        ensures
            r == float_format(*self),
    {
        match self {
            Float::Half => FPType::Half,
            Float::BFloat => FPType::BFloat,
            Float::Single(_) => FPType::Single,
            Float::Double(_) => FPType::Double,
            Float::Quadruple => FPType::FP128,
            Float::X86_FP80 => FPType::X86_FP80,
            Float::PPC_FP128 => FPType::PPC_FP128,
        }
    }
}

/// An LLVM type (pointers are opaque and carry only their address space).
#[allow(non_camel_case_types)]
#[derive(Debug)]
pub enum Type {
    VoidType,
    IntegerType { bits: u32 },
    PointerType { addr_space: u32 },
    FPType(FPType),
    FuncType { result_type: Box<Type>, param_types: Vec<Type>, is_var_arg: bool },
    VectorType { element_type: Box<Type>, num_elements: usize, scalable: bool },
    ArrayType { element_type: Box<Type>, num_elements: usize },
    StructType { element_types: Vec<Type>, is_packed: bool },
    NamedStructType { name: String },
    X86_MMXType,
    X86_AMXType,
    MetadataType,
    LabelType,
    TokenType,
    TargetExtType,
}

/// The definition of a named struct type.
#[derive(Debug)]
pub enum NamedStructDef {
    Opaque,
    Defined(Type),
}

/// The module's named struct definitions, by name. Where a name occurs more
/// than once, its first definition is the one that counts.
#[derive(Debug)]
pub struct Types {
    pub named_structs: Vec<(String, NamedStructDef)>,
}

/// A constant.
#[derive(Debug)]
pub enum Constant {
    Int { bits: u32, value: u64 },
    Float(Float),
    Null(Type),
    AggregateZero(Type),
    Struct { name: Option<String>, values: Vec<Constant>, is_packed: bool },
    Array { element_type: Type, elements: Vec<Constant> },
    Vector(Vec<Constant>),
    Undef(Type),
    Poison(Type),
    /// The address of a basic block of a function.
    BlockAddress { function: Name, block: Name },
    TokenNone,
    GlobalReference { name: Name, ty: Type },
    /// A two-operand arithmetic or bitwise expression.
    Binary { opcode: BinaryOpcode, operand0: Box<Constant>, operand1: Box<Constant> },
    /// A conversion of a constant to another type.
    Cast { opcode: CastOpcode, operand: Box<Constant>, to_type: Type },
    ICmp { predicate: IntPredicate, operand0: Box<Constant>, operand1: Box<Constant> },
    FCmp { predicate: FPPredicate, operand0: Box<Constant>, operand1: Box<Constant> },
    Select { condition: Box<Constant>, true_value: Box<Constant>, false_value: Box<Constant> },
    /// An address computed from a base address and indices, stepping
    /// through values of `source_element_type`.
    GetElementPtr { address: Box<Constant>, indices: Vec<Constant>, in_bounds: bool, source_element_type: Type },
    /// The element of a vector at an index.
    ExtractElement { vector: Box<Constant>, index: Box<Constant> },
    /// A vector with the element at an index replaced.
    InsertElement { vector: Box<Constant>, element: Box<Constant>, index: Box<Constant> },
    /// A vector of elements picked from two vectors by a mask.
    ShuffleVector { operand0: Box<Constant>, operand1: Box<Constant>, mask: Box<Constant> },
    /// The field of an aggregate at a path of indices.
    ExtractValue { aggregate: Box<Constant>, indices: Vec<u32> },
    /// An aggregate with the field at a path of indices replaced.
    InsertValue { aggregate: Box<Constant>, element: Box<Constant>, indices: Vec<u32> },
}

/// An instruction operand.
#[derive(Debug)]
pub enum Operand {
    LocalOperand { name: Name, ty: Type },
    ConstantOperand(Constant),
    MetadataOperand,
}

/// The operands and result of a two-operand instruction.
#[derive(Debug)]
pub struct BinaryOp {
    pub operand0: Operand,
    pub operand1: Operand,
    pub dest: Name,
}

/// What a call calls: inline assembly, or a function given by an operand.
#[derive(Debug)]
pub enum Callee {
    InlineAssembly { ty: Type },
    Operand(Operand),
}

#[derive(Debug)]
pub struct Call {
    pub function: Callee,
    pub function_ty: Type,
    pub arguments: Vec<Operand>,
    pub dest: Option<Name>,
}

#[derive(Debug)]
pub struct Alloca {
    pub allocated_type: Type,
    pub dest: Name,
}

#[derive(Debug)]
pub struct Load {
    pub address: Operand,
    pub loaded_ty: Type,
    pub dest: Name,
}

#[derive(Debug)]
pub struct Store {
    pub address: Operand,
    pub value: Operand,
}

#[derive(Debug)]
pub struct GetElementPtr {
    pub address: Operand,
    pub indices: Vec<Operand>,
    pub dest: Name,
    pub source_element_type: Type,
}

#[derive(Debug)]
pub struct ICmp {
    pub predicate: IntPredicate,
    pub operand0: Operand,
    pub operand1: Operand,
    pub dest: Name,
}

#[derive(Debug)]
pub struct Phi {
    pub incoming_values: Vec<(Operand, Name)>,
    pub dest: Name,
    pub to_type: Type,
}

/// The operand and result of a one-operand instruction.
#[derive(Debug)]
pub struct UnaryOp {
    pub operand: Operand,
    pub dest: Name,
}

/// A conversion of a value to another type.
#[derive(Debug)]
pub struct Cast {
    pub operand: Operand,
    pub to_type: Type,
    pub dest: Name,
}

#[derive(Debug)]
pub struct FCmp {
    pub predicate: FPPredicate,
    pub operand0: Operand,
    pub operand1: Operand,
    pub dest: Name,
}

#[derive(Debug)]
pub struct ExtractElement {
    pub vector: Operand,
    pub index: Operand,
    pub dest: Name,
}

#[derive(Debug)]
pub struct InsertElement {
    pub vector: Operand,
    pub element: Operand,
    pub index: Operand,
    pub dest: Name,
}

#[derive(Debug)]
pub struct ShuffleVector {
    pub operand0: Operand,
    pub operand1: Operand,
    pub dest: Name,
    pub mask: Constant,
}

/// Reads the field at a path of indices in an aggregate value.
#[derive(Debug)]
pub struct ExtractValue {
    pub aggregate: Operand,
    pub indices: Vec<u32>,
    pub dest: Name,
}

/// Replaces the field at a path of indices in an aggregate value.
#[derive(Debug)]
pub struct InsertValue {
    pub aggregate: Operand,
    pub element: Operand,
    pub indices: Vec<u32>,
    pub dest: Name,
}

#[derive(Debug)]
pub struct Fence {
    pub atomicity: Atomicity,
}

#[derive(Debug)]
pub struct CmpXchg {
    pub address: Operand,
    pub expected: Operand,
    pub replacement: Operand,
    pub dest: Name,
    pub volatile: bool,
    /// The ordering on success, and the scope.
    pub atomicity: Atomicity,
    pub failure_memory_ordering: MemoryOrdering,
    pub weak: bool,
}

#[derive(Debug)]
pub struct AtomicRMW {
    pub operation: RMWBinOp,
    pub address: Operand,
    pub value: Operand,
    pub dest: Name,
    pub volatile: bool,
    pub atomicity: Atomicity,
}

#[derive(Debug)]
pub struct Select {
    pub condition: Operand,
    pub true_value: Operand,
    pub false_value: Operand,
    pub dest: Name,
}

/// A non-terminator instruction.
#[derive(Debug)]
pub enum Instruction {
    Add(BinaryOp),
    Sub(BinaryOp),
    Mul(BinaryOp),
    UDiv(BinaryOp),
    SDiv(BinaryOp),
    URem(BinaryOp),
    SRem(BinaryOp),
    And(BinaryOp),
    Or(BinaryOp),
    Xor(BinaryOp),
    Shl(BinaryOp),
    LShr(BinaryOp),
    AShr(BinaryOp),
    FAdd(BinaryOp),
    FSub(BinaryOp),
    FMul(BinaryOp),
    FDiv(BinaryOp),
    FRem(BinaryOp),
    FNeg(UnaryOp),
    ExtractElement(ExtractElement),
    InsertElement(InsertElement),
    ShuffleVector(ShuffleVector),
    ExtractValue(ExtractValue),
    InsertValue(InsertValue),
    Alloca(Alloca),
    Load(Load),
    Store(Store),
    Fence(Fence),
    CmpXchg(CmpXchg),
    AtomicRMW(AtomicRMW),
    GetElementPtr(GetElementPtr),
    Trunc(Cast),
    ZExt(Cast),
    SExt(Cast),
    FPTrunc(Cast),
    FPExt(Cast),
    FPToUI(Cast),
    FPToSI(Cast),
    UIToFP(Cast),
    SIToFP(Cast),
    PtrToInt(Cast),
    IntToPtr(Cast),
    BitCast(Cast),
    AddrSpaceCast(Cast),
    ICmp(ICmp),
    FCmp(FCmp),
    Phi(Phi),
    Select(Select),
    Freeze(UnaryOp),
    Call(Call),
    VAArg,
    LandingPad,
    CatchPad,
    CleanupPad,
}

#[derive(Debug)]
pub struct Ret {
    pub return_operand: Option<Operand>,
}

#[derive(Debug)]
pub struct Br {
    pub dest: Name,
}

#[derive(Debug)]
pub struct CondBr {
    pub condition: Operand,
    pub true_dest: Name,
    pub false_dest: Name,
}

#[derive(Debug)]
pub struct Switch {
    pub operand: Operand,
    pub dests: Vec<(Constant, Name)>,
    pub default_dest: Name,
}

#[derive(Debug)]
pub struct IndirectBr {
    pub operand: Operand,
    pub possible_dests: Vec<Name>,
}

#[derive(Debug)]
pub struct Invoke {
    pub function: Callee,
    pub function_ty: Type,
    pub arguments: Vec<Operand>,
    pub result: Name,
    pub return_label: Name,
    pub exception_label: Name,
}

#[derive(Debug)]
pub struct Resume {
    pub operand: Operand,
}

/// The instruction that ends a basic block.
#[derive(Debug)]
pub enum Terminator {
    Ret(Ret),
    Br(Br),
    CondBr(CondBr),
    Switch(Switch),
    IndirectBr(IndirectBr),
    Invoke(Invoke),
    Resume(Resume),
    Unreachable,
    CleanupRet,
    CatchRet,
    CatchSwitch,
    CallBr,
}

#[derive(Debug)]
pub struct BasicBlock {
    pub name: Name,
    pub instrs: Vec<Instruction>,
    pub term: Terminator,
}

#[derive(Debug)]
pub struct Parameter {
    pub name: Name,
    pub ty: Type,
    pub attributes: Vec<Attribute>,
}

/// An attribute of a function, of its result or of one of its parameters,
/// as LLVM names it: an attribute known by its name (such as `nounwind` or
/// `noundef`), with its integer argument where it takes one (0 otherwise),
/// or a string attribute with its value.
#[derive(Debug, PartialEq)]
pub enum Attribute {
    Enum { kind: String, value: u64 },
    Str { kind: String, value: String },
}

impl Attribute {
    /// A copy of this attribute.
    pub fn clone_attr(&self) -> (r: Attribute)
        ensures
            r == *self,
    {
        match self {
            Attribute::Enum { kind, value } => Attribute::Enum { kind: kind.clone(), value: *value },
            Attribute::Str { kind, value } => Attribute::Str { kind: kind.clone(), value: value.clone() },
        }
    }
}

/// A function with a body.
#[derive(Debug)]
pub struct Function {
    pub name: String,
    pub parameters: Vec<Parameter>,
    pub is_var_arg: bool,
    pub return_type: Type,
    pub basic_blocks: Vec<BasicBlock>,
    pub linkage: Linkage,
    pub visibility: Visibility,
    pub garbage_collector_name: Option<String>,
    pub function_attributes: Vec<Attribute>,
    pub return_attributes: Vec<Attribute>,
}

/// A function declared but not defined in the module.
#[derive(Debug)]
pub struct FunctionDeclaration {
    pub name: String,
    pub parameters: Vec<Parameter>,
    pub is_var_arg: bool,
    pub return_type: Type,
    pub linkage: Linkage,
    pub visibility: Visibility,
    pub garbage_collector_name: Option<String>,
    pub function_attributes: Vec<Attribute>,
    pub return_attributes: Vec<Attribute>,
}

#[derive(Debug)]
pub struct GlobalVariable {
    pub name: Name,
    pub linkage: Linkage,
    pub visibility: Visibility,
    pub is_constant: bool,
    pub ty: Type,
    pub initializer: Option<Constant>,
    pub section: Option<String>,
    pub alignment: u32,
}

#[derive(Debug)]
pub struct GlobalAlias {
    pub name: Name,
    pub aliasee: Constant,
    pub linkage: Linkage,
    pub visibility: Visibility,
    pub ty: Type,
}

#[derive(Debug)]
pub struct GlobalIFunc {
    pub name: Name,
    pub linkage: Linkage,
    pub visibility: Visibility,
    pub ty: Type,
}

#[derive(Debug)]
pub struct DataLayout {
    pub layout_str: String,
}

/// A module.
#[derive(Debug)]
pub struct Module {
    pub name: String,
    pub source_file_name: String,
    pub data_layout: DataLayout,
    pub target_triple: Option<String>,
    pub functions: Vec<Function>,
    pub func_declarations: Vec<FunctionDeclaration>,
    pub global_vars: Vec<GlobalVariable>,
    pub global_aliases: Vec<GlobalAlias>,
    pub global_ifuncs: Vec<GlobalIFunc>,
    pub inline_assembly: String,
    pub types: Types,
}

} // verus!
