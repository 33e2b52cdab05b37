//! The construction program that a conversion produces, and its errors.
//!
//! A program is a sequence of operations for the LLVM C API, replayed in
//! order against one LLVM context, module and instruction builder. Each
//! operation makes at most one C API call (a few make two, as noted), and its
//! result is remembered under the operation's position in the sequence: that
//! position is the operation's handle, by which a later operation refers to
//! it.
//!
//! Operations of the first group (types and constants) work on a stack of
//! pending results: each takes its inputs from the top of the stack and
//! pushes its result. The inputs of an operation are always listed before it,
//! in the order in which the C call takes them. Operations of the second
//! group take their inputs from the stack too, and leave nothing on it.

use vstd::prelude::*;
use crate::ir::{Attribute, Name, NameKey};
use crate::llvm_codes::{LlvmAtomicOrdering, LlvmAtomicRMWBinOp, LlvmIntPredicate, LlvmLinkage, LlvmRealPredicate, LlvmVisibility};

verus! {

/// The two-operand arithmetic and bitwise instructions.
#[derive(Clone, Copy, Debug, PartialEq, Eq, Structural)]
pub enum BinaryOpcode {
    Add,
    Sub,
    Mul,
    UDiv,
    SDiv,
    URem,
    SRem,
    And,
    Or,
    Xor,
    Shl,
    LShr,
    AShr,
    FAdd,
    FSub,
    FMul,
    FDiv,
    FRem,
}

/// The conversion instructions.
#[derive(Clone, Copy, Debug, PartialEq, Eq, Structural)]
pub enum CastOpcode {
    Trunc,
    ZExt,
    SExt,
    FPTrunc,
    FPExt,
    FPToUI,
    FPToSI,
    UIToFP,
    SIToFP,
    PtrToInt,
    IntToPtr,
    BitCast,
    AddrSpaceCast,
}

/// Where an attribute is added: to a function, to its result, or to its
/// parameter at a position (counted from 0).
#[derive(Clone, Copy, Debug, PartialEq, Eq, Structural)]
pub enum AttrPlace {
    Function,
    Return,
    Param(u32),
}

/// One operation of a construction program.
#[derive(Debug, PartialEq)]
pub enum Op {
    // Types; each pushes the type it makes.
    VoidType,
    IntType(u32),
    /// An (opaque) pointer type in the given address space.
    PointerType(u32),
    HalfType,
    BFloatType,
    FloatType,
    DoubleType,
    FP128Type,
    X86FP80Type,
    PPCFP128Type,
    /// Pops the parameter types, then the result type.
    FunctionType { param_count: usize, is_var_arg: bool },
    /// Pops the element type; a vector of that many elements.
    VectorType(u32),
    /// Pops the element type; a scalable vector, of that many elements
    /// times a factor known only when the program runs.
    ScalableVectorType(u32),
    /// Pops the element type.
    ArrayType(u32),
    /// Pops the element types.
    StructType { element_count: usize, is_packed: bool },
    /// Creates a new named struct type, with no body yet. A program makes
    /// each named struct once; later uses push it again with `Value`.
    NamedStruct(String),
    /// Pops the element types and sets them as the body of the named struct
    /// that is then on top of the stack (and stays there).
    SetStructBody { element_count: usize, is_packed: bool },
    X86MMXType,
    X86AMXType,
    MetadataType,
    LabelType,
    TokenType,
    // Constants; each pushes the constant it makes.
    /// Pops an integer type; the constant is zero-extended.
    ConstInt(u64),
    /// Pops a type; its null (all-zero) value.
    ConstNull,
    /// Pops a single-precision type; the constant with this bit pattern.
    ConstSingle(u32),
    /// Pops a double-precision type; the constant with this bit pattern.
    ConstDouble(u64),
    /// Pops a type; its undefined value.
    GetUndef,
    /// Pops a type; its poison value.
    GetPoison,
    /// Pops the right operand, then the left one; a constant expression.
    ConstBinary(BinaryOpcode),
    /// Pops the target type, then the operand; a constant conversion.
    ConstCast(CastOpcode),
    /// Pops the right operand, then the left one; a constant comparison.
    ConstICmp(LlvmIntPredicate),
    /// Pops the right operand, then the left one; a constant comparison.
    ConstFCmp(LlvmRealPredicate),
    /// Pops the value if false, the value if true, then the condition.
    ConstSelect,
    /// Pops the source element type, then the indices, then the address; a
    /// constant address computation.
    ConstGEP { index_count: usize, in_bounds: bool },
    /// Pops the block, then its function; the address of the block.
    ConstBlockAddress,
    /// Pops the index, then the vector.
    ConstExtractElement,
    /// Pops the index, the element, then the vector.
    ConstInsertElement,
    /// Pops the mask, the second vector, then the first.
    ConstShuffleVector,
    /// Pops an aggregate; the field at one index of it.
    ConstExtractValue(u32),
    /// Pops the element, then the aggregate; the aggregate with the field at
    /// one index replaced.
    ConstInsertValue(u32),
    /// Pops a vector type; pushes the type of its elements.
    ElementType,
    /// Pops an aggregate type; pushes the type of its field at one index.
    FieldType(u32),
    /// Pops the mask's type, then the first vector's type; pushes the type
    /// of a shuffle of them: a vector as long as the mask, of the first
    /// vector's element type.
    ShuffleType,
    /// Pops the type of the operands of a comparison; pushes the type of its
    /// result: `i1`, or a vector of as many `i1` for a vector type.
    ComparisonType,
    /// Pops the field values, then the named struct type; a constant of
    /// that type.
    ConstNamedStruct { element_count: usize },
    /// Pops the field values.
    ConstStruct { element_count: usize, is_packed: bool },
    /// Pops the elements, then the element type.
    ConstArray { element_count: usize },
    /// Pops the elements.
    ConstVector { element_count: usize },
    /// Pushes the value, basic block or named struct type made by the
    /// operation with that handle.
    Value(usize),
    // Module-level operations.
    SetSourceFileName(String),
    SetDataLayout(String),
    SetTarget(String),
    SetInlineAsm(String),
    /// Pops the value type; adds a global variable, named by the name as it
    /// is (`Name::llvm_name`).
    AddGlobal(Name),
    SetLinkage { target: usize, linkage: LlvmLinkage },
    SetVisibility { target: usize, visibility: LlvmVisibility },
    SetGlobalConstant { target: usize, is_constant: bool },
    /// Pops the initializer.
    SetInitializer { target: usize },
    SetAlignment { target: usize, alignment: u32 },
    SetSection { target: usize, section: String },
    /// Pops the aliasee, then the alias's type; adds an alias in address
    /// space 0, named by the name as it is.
    AddAlias(Name),
    /// Pops the function type; adds a function of that name.
    AddFunction(String),
    SetGC { target: usize, name: String },
    /// Adds an attribute to a function, its result or one of its parameters.
    AddAttribute { target: usize, place: AttrPlace, attribute: Attribute },
    /// Appends a basic block, named by the name as it is, to a function.
    AppendBasicBlock { function: usize, name: Name },
    /// The parameter of a function at the given position.
    GetParam { function: usize, index: u32 },
    /// Moves the builder to the end of a basic block.
    PositionAtEnd(usize),
    // Instructions, inserted at the builder's position; the names of their
    // results are the names as they are (`Name::llvm_name`; an unnamed
    // result gets the empty name).
    /// Pops the right operand, then the left one.
    BuildBinary { opcode: BinaryOpcode, name: Name },
    /// Pops the arguments, then the function type, then the callee; an
    /// unnamed result gets the empty name.
    BuildCall { arg_count: usize, name: Option<Name> },
    /// Pops the allocated type.
    BuildAlloca(Name),
    /// Pops the loaded type, then the address.
    BuildLoad(Name),
    /// Pops the address, then the stored value.
    BuildStore,
    /// Pops the source element type, then the indices, then the address.
    BuildGEP { index_count: usize, name: Name },
    /// Pops the right operand, then the left one.
    BuildICmp { predicate: LlvmIntPredicate, name: Name },
    /// Pops the operand.
    BuildFNeg(Name),
    /// Pops the operand.
    BuildFreeze(Name),
    /// Pops the target type, then the operand.
    BuildCast { opcode: CastOpcode, name: Name },
    /// Pops the right operand, then the left one.
    BuildFCmp { predicate: LlvmRealPredicate, name: Name },
    /// Pops the value if false, the value if true, then the condition.
    BuildSelect(Name),
    /// Pops the index, then the vector.
    BuildExtractElement(Name),
    /// Pops the index, the element, then the vector.
    BuildInsertElement(Name),
    /// Pops the mask, the second vector, then the first.
    BuildShuffleVector(Name),
    /// Pops the aggregate; reads the field at one index. A step of a longer
    /// path of indices has no name.
    BuildExtractValue { index: u32, name: Option<Name> },
    /// Pops the element, then the aggregate; replaces the field at one index.
    /// A step of a longer path of indices has no name.
    BuildInsertValue { index: u32, name: Option<Name> },
    BuildFence { ordering: LlvmAtomicOrdering, single_thread: bool },
    /// Pops the replacement, the expected value, then the address; then sets
    /// the instruction's volatility, weakness and name (four C calls).
    BuildCmpXchg {
        success: LlvmAtomicOrdering,
        failure: LlvmAtomicOrdering,
        single_thread: bool,
        weak: bool,
        volatile: bool,
        name: Name,
    },
    /// Pops the value, then the address; then sets the instruction's
    /// volatility and name (three C calls).
    BuildAtomicRMW {
        operation: LlvmAtomicRMWBinOp,
        ordering: LlvmAtomicOrdering,
        single_thread: bool,
        volatile: bool,
        name: Name,
    },
    /// Pops the type of the phi.
    BuildPhi(Name),
    /// Pops `count` pairs of incoming value and block (each pair value first)
    /// and adds them to the phi.
    AddIncoming { phi: usize, count: usize },
    /// Pops the returned value.
    BuildRet,
    BuildRetVoid,
    BuildBr(usize),
    /// Pops the condition.
    BuildCondBr { then_block: usize, else_block: usize },
    /// Pops the switched-on value.
    BuildSwitch { default_block: usize, case_count: usize },
    /// Pops the case value.
    AddCase { switch: usize, block: usize },
    /// Pops the address.
    BuildIndirectBr { dest_count: usize },
    AddDestination { indirect_br: usize, block: usize },
    /// Pops the arguments, then the function type, then the callee.
    BuildInvoke { arg_count: usize, then_block: usize, catch_block: usize, name: Name },
    /// Pops the exception value.
    BuildResume,
    BuildUnreachable,
}

/// Why a module (or a part of it) cannot be converted.
#[derive(Debug, PartialEq)]
pub enum ConvertError {
    /// A target extension type.
    TargetExtTypeUnsupported,
    /// Named struct definitions that nest more deeply than there are
    /// definitions (expanding them would never end). A struct being expanded
    /// has already been made, and a use of it inside its own body refers to
    /// it, so a recursive definition is not refused.
    NamedStructCycle(String),
    /// The type of an empty vector constant was asked for; such a type has
    /// no element type.
    EmptyVectorType,
    /// An indirect function (ifunc).
    GlobalIFuncUnsupported,
    /// A reference to a global that was not converted before.
    GlobalReferenceNotFound(Name),
    /// A local operand whose value was not converted before.
    LocalOperandNotFound(Name),
    /// A metadata operand.
    MetadataOperandUnsupported,
    /// A call or invoke of inline assembly.
    InlineAsmCallUnsupported,
    /// An extractvalue or insertvalue with no index.
    AggregateIndicesEmpty,
    /// A kind of instruction that is not converted.
    InstructionUnsupported,
    /// A kind of terminator that is not converted.
    TerminatorUnsupported,
    /// The basic block being converted has no block made for it.
    BasicBlockNotFound(Name),
    /// A branch, switch case, phi or block address refers to a block that has
    /// not been made.
    TargetBlockNotFound(Name),
}

impl ConvertError {
    /// A copy of this error.
    pub fn copy(&self) -> (r: ConvertError)
        ensures
            r == *self,
    {
        match self {
            ConvertError::TargetExtTypeUnsupported => ConvertError::TargetExtTypeUnsupported,
            ConvertError::NamedStructCycle(n) => ConvertError::NamedStructCycle(n.clone()),
            ConvertError::EmptyVectorType => ConvertError::EmptyVectorType,
            ConvertError::GlobalIFuncUnsupported => ConvertError::GlobalIFuncUnsupported,
            ConvertError::GlobalReferenceNotFound(n) => ConvertError::GlobalReferenceNotFound(n.clone_name()),
            ConvertError::LocalOperandNotFound(n) => ConvertError::LocalOperandNotFound(n.clone_name()),
            ConvertError::MetadataOperandUnsupported => ConvertError::MetadataOperandUnsupported,
            ConvertError::InlineAsmCallUnsupported => ConvertError::InlineAsmCallUnsupported,
            ConvertError::AggregateIndicesEmpty => ConvertError::AggregateIndicesEmpty,
            ConvertError::InstructionUnsupported => ConvertError::InstructionUnsupported,
            ConvertError::TerminatorUnsupported => ConvertError::TerminatorUnsupported,
            ConvertError::BasicBlockNotFound(n) => ConvertError::BasicBlockNotFound(n.clone_name()),
            ConvertError::TargetBlockNotFound(n) => ConvertError::TargetBlockNotFound(n.clone_name()),
        }
    }
}

/// Program `b` begins with program `a`: it is `a` with operations appended.
pub open spec fn extends(b: Seq<Op>, a: Seq<Op>) -> bool {
    a.len() <= b.len() && forall|j: int| 0 <= j < a.len() ==> #[trigger] b[j] == a[j]
}

/// The state of a conversion in progress: the operations emitted so far and
/// the values and blocks made for names.
pub struct CtxState {
    pub ops: Seq<Op>,
    pub values: Map<NameKey, usize>,
    pub bbs: Map<NameKey, usize>,
}

} // verus!
