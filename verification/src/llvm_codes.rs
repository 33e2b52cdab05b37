//! The LLVM C API's enumerations for linkage, visibility, comparison
//! predicates and atomic accesses, and the mapping of the module's own
//! enumerations into them.

use vstd::prelude::*;
use crate::ir::{FPPredicate, IntPredicate, Linkage, MemoryOrdering, RMWBinOp, Visibility};

verus! {

/// The C API's linkage kinds (`LLVMLinkage`), variant for variant.
#[derive(Clone, Copy, Debug, PartialEq, Eq, Structural)]
pub enum LlvmLinkage {
    LLVMExternalLinkage,
    LLVMAvailableExternallyLinkage,
    LLVMLinkOnceAnyLinkage,
    LLVMLinkOnceODRLinkage,
    LLVMLinkOnceODRAutoHideLinkage,
    LLVMWeakAnyLinkage,
    LLVMWeakODRLinkage,
    LLVMAppendingLinkage,
    LLVMInternalLinkage,
    LLVMPrivateLinkage,
    LLVMDLLImportLinkage,
    LLVMDLLExportLinkage,
    LLVMExternalWeakLinkage,
    LLVMGhostLinkage,
    LLVMCommonLinkage,
    LLVMLinkerPrivateLinkage,
    LLVMLinkerPrivateWeakLinkage,
}

/// The C API's visibility kinds (`LLVMVisibility`).
#[derive(Clone, Copy, Debug, PartialEq, Eq, Structural)]
pub enum LlvmVisibility {
    LLVMDefaultVisibility,
    LLVMHiddenVisibility,
    LLVMProtectedVisibility,
}

/// The C API's integer predicates (`LLVMIntPredicate`).
#[derive(Clone, Copy, Debug, PartialEq, Eq, Structural)]
pub enum LlvmIntPredicate {
    LLVMIntEQ,
    LLVMIntNE,
    LLVMIntUGT,
    LLVMIntUGE,
    LLVMIntULT,
    LLVMIntULE,
    LLVMIntSGT,
    LLVMIntSGE,
    LLVMIntSLT,
    LLVMIntSLE,
}

/// The C API's floating-point predicates (`LLVMRealPredicate`).
#[derive(Clone, Copy, Debug, PartialEq, Eq, Structural)]
pub enum LlvmRealPredicate {
    LLVMRealPredicateFalse,
    LLVMRealOEQ,
    LLVMRealOGT,
    LLVMRealOGE,
    LLVMRealOLT,
    LLVMRealOLE,
    LLVMRealONE,
    LLVMRealORD,
    LLVMRealUNO,
    LLVMRealUEQ,
    LLVMRealUGT,
    LLVMRealUGE,
    LLVMRealULT,
    LLVMRealULE,
    LLVMRealUNE,
    LLVMRealPredicateTrue,
}

/// The C API's atomic orderings (`LLVMAtomicOrdering`).
#[derive(Clone, Copy, Debug, PartialEq, Eq, Structural)]
pub enum LlvmAtomicOrdering {
    LLVMAtomicOrderingNotAtomic,
    LLVMAtomicOrderingUnordered,
    LLVMAtomicOrderingMonotonic,
    LLVMAtomicOrderingAcquire,
    LLVMAtomicOrderingRelease,
    LLVMAtomicOrderingAcquireRelease,
    LLVMAtomicOrderingSequentiallyConsistent,
}

/// The C API's read-modify-write operations (`LLVMAtomicRMWBinOp`).
#[derive(Clone, Copy, Debug, PartialEq, Eq, Structural)]
pub enum LlvmAtomicRMWBinOp {
    LLVMAtomicRMWBinOpXchg,
    LLVMAtomicRMWBinOpAdd,
    LLVMAtomicRMWBinOpSub,
    LLVMAtomicRMWBinOpAnd,
    LLVMAtomicRMWBinOpNand,
    LLVMAtomicRMWBinOpOr,
    LLVMAtomicRMWBinOpXor,
    LLVMAtomicRMWBinOpMax,
    LLVMAtomicRMWBinOpMin,
    LLVMAtomicRMWBinOpUMax,
    LLVMAtomicRMWBinOpUMin,
    LLVMAtomicRMWBinOpFAdd,
    LLVMAtomicRMWBinOpFSub,
}

/// The C API linkage that stands for a module linkage.
pub open spec fn linkage_code(l: Linkage) -> LlvmLinkage {
    match l {
        Linkage::Private => LlvmLinkage::LLVMPrivateLinkage,
        Linkage::Internal => LlvmLinkage::LLVMInternalLinkage,
        Linkage::AvailableExternally => LlvmLinkage::LLVMAvailableExternallyLinkage,
        Linkage::LinkOnceAny => LlvmLinkage::LLVMLinkOnceAnyLinkage,
        Linkage::LinkOnceODR => LlvmLinkage::LLVMLinkOnceODRLinkage,
        Linkage::WeakAny => LlvmLinkage::LLVMWeakAnyLinkage,
        Linkage::WeakODR => LlvmLinkage::LLVMWeakODRLinkage,
        Linkage::Appending => LlvmLinkage::LLVMAppendingLinkage,
        Linkage::Common => LlvmLinkage::LLVMCommonLinkage,
        Linkage::ExternalWeak => LlvmLinkage::LLVMExternalWeakLinkage,
        Linkage::External => LlvmLinkage::LLVMExternalLinkage,
        Linkage::LinkOnceODRAutoHide => LlvmLinkage::LLVMLinkOnceODRAutoHideLinkage,
        Linkage::DLLImport => LlvmLinkage::LLVMDLLImportLinkage,
        Linkage::DLLExport => LlvmLinkage::LLVMDLLExportLinkage,
        Linkage::GhostLinkage => LlvmLinkage::LLVMGhostLinkage,
        Linkage::LinkerPrivate => LlvmLinkage::LLVMLinkerPrivateLinkage,
        Linkage::LinkerPrivateWeak => LlvmLinkage::LLVMLinkerPrivateWeakLinkage,
    }
}

/// The C API visibility that stands for a module visibility.
pub open spec fn visibility_code(v: Visibility) -> LlvmVisibility {
    match v {
        Visibility::Default => LlvmVisibility::LLVMDefaultVisibility,
        Visibility::Hidden => LlvmVisibility::LLVMHiddenVisibility,
        Visibility::Protected => LlvmVisibility::LLVMProtectedVisibility,
    }
}

/// The C API predicate that stands for a module integer predicate.
pub open spec fn int_predicate_code(p: IntPredicate) -> LlvmIntPredicate {
    match p {
        IntPredicate::EQ => LlvmIntPredicate::LLVMIntEQ,
        IntPredicate::NE => LlvmIntPredicate::LLVMIntNE,
        IntPredicate::UGT => LlvmIntPredicate::LLVMIntUGT,
        IntPredicate::UGE => LlvmIntPredicate::LLVMIntUGE,
        IntPredicate::ULT => LlvmIntPredicate::LLVMIntULT,
        IntPredicate::ULE => LlvmIntPredicate::LLVMIntULE,
        IntPredicate::SGT => LlvmIntPredicate::LLVMIntSGT,
        IntPredicate::SGE => LlvmIntPredicate::LLVMIntSGE,
        IntPredicate::SLT => LlvmIntPredicate::LLVMIntSLT,
        IntPredicate::SLE => LlvmIntPredicate::LLVMIntSLE,
    }
}

/// The C API predicate that stands for a module floating-point predicate.
pub open spec fn real_predicate_code(p: FPPredicate) -> LlvmRealPredicate {
    match p {
        FPPredicate::False => LlvmRealPredicate::LLVMRealPredicateFalse,
        FPPredicate::OEQ => LlvmRealPredicate::LLVMRealOEQ,
        FPPredicate::OGT => LlvmRealPredicate::LLVMRealOGT,
        FPPredicate::OGE => LlvmRealPredicate::LLVMRealOGE,
        FPPredicate::OLT => LlvmRealPredicate::LLVMRealOLT,
        FPPredicate::OLE => LlvmRealPredicate::LLVMRealOLE,
        FPPredicate::ONE => LlvmRealPredicate::LLVMRealONE,
        FPPredicate::ORD => LlvmRealPredicate::LLVMRealORD,
        FPPredicate::UNO => LlvmRealPredicate::LLVMRealUNO,
        FPPredicate::UEQ => LlvmRealPredicate::LLVMRealUEQ,
        FPPredicate::UGT => LlvmRealPredicate::LLVMRealUGT,
        FPPredicate::UGE => LlvmRealPredicate::LLVMRealUGE,
        FPPredicate::ULT => LlvmRealPredicate::LLVMRealULT,
        FPPredicate::ULE => LlvmRealPredicate::LLVMRealULE,
        FPPredicate::UNE => LlvmRealPredicate::LLVMRealUNE,
        FPPredicate::True => LlvmRealPredicate::LLVMRealPredicateTrue,
    }
}

/// The C API ordering that stands for a module memory ordering.
pub open spec fn ordering_code(o: MemoryOrdering) -> LlvmAtomicOrdering {
    match o {
        MemoryOrdering::NotAtomic => LlvmAtomicOrdering::LLVMAtomicOrderingNotAtomic,
        MemoryOrdering::Unordered => LlvmAtomicOrdering::LLVMAtomicOrderingUnordered,
        MemoryOrdering::Monotonic => LlvmAtomicOrdering::LLVMAtomicOrderingMonotonic,
        MemoryOrdering::Acquire => LlvmAtomicOrdering::LLVMAtomicOrderingAcquire,
        MemoryOrdering::Release => LlvmAtomicOrdering::LLVMAtomicOrderingRelease,
        MemoryOrdering::AcquireRelease => LlvmAtomicOrdering::LLVMAtomicOrderingAcquireRelease,
        MemoryOrdering::SequentiallyConsistent => LlvmAtomicOrdering::LLVMAtomicOrderingSequentiallyConsistent,
    }
}

/// The C API operation that stands for a module read-modify-write operation.
pub open spec fn rmw_code(op: RMWBinOp) -> LlvmAtomicRMWBinOp {
    match op {
        RMWBinOp::Xchg => LlvmAtomicRMWBinOp::LLVMAtomicRMWBinOpXchg,
        RMWBinOp::Add => LlvmAtomicRMWBinOp::LLVMAtomicRMWBinOpAdd,
        RMWBinOp::Sub => LlvmAtomicRMWBinOp::LLVMAtomicRMWBinOpSub,
        RMWBinOp::And => LlvmAtomicRMWBinOp::LLVMAtomicRMWBinOpAnd,
        RMWBinOp::Nand => LlvmAtomicRMWBinOp::LLVMAtomicRMWBinOpNand,
        RMWBinOp::Or => LlvmAtomicRMWBinOp::LLVMAtomicRMWBinOpOr,
        RMWBinOp::Xor => LlvmAtomicRMWBinOp::LLVMAtomicRMWBinOpXor,
        RMWBinOp::Max => LlvmAtomicRMWBinOp::LLVMAtomicRMWBinOpMax,
        RMWBinOp::Min => LlvmAtomicRMWBinOp::LLVMAtomicRMWBinOpMin,
        RMWBinOp::UMax => LlvmAtomicRMWBinOp::LLVMAtomicRMWBinOpUMax,
        RMWBinOp::UMin => LlvmAtomicRMWBinOp::LLVMAtomicRMWBinOpUMin,
        RMWBinOp::FAdd => LlvmAtomicRMWBinOp::LLVMAtomicRMWBinOpFAdd,
        RMWBinOp::FSub => LlvmAtomicRMWBinOp::LLVMAtomicRMWBinOpFSub,
    }
}

impl Linkage {
    /// The C API linkage for this linkage.
    pub fn to_llvm(&self) -> (r: LlvmLinkage)
        ensures
            r == linkage_code(*self),
    {
        match self {
            Linkage::Private => LlvmLinkage::LLVMPrivateLinkage,
            Linkage::Internal => LlvmLinkage::LLVMInternalLinkage,
            Linkage::AvailableExternally => LlvmLinkage::LLVMAvailableExternallyLinkage,
            Linkage::LinkOnceAny => LlvmLinkage::LLVMLinkOnceAnyLinkage,
            Linkage::LinkOnceODR => LlvmLinkage::LLVMLinkOnceODRLinkage,
            Linkage::WeakAny => LlvmLinkage::LLVMWeakAnyLinkage,
            Linkage::WeakODR => LlvmLinkage::LLVMWeakODRLinkage,
            Linkage::Appending => LlvmLinkage::LLVMAppendingLinkage,
            Linkage::Common => LlvmLinkage::LLVMCommonLinkage,
            Linkage::ExternalWeak => LlvmLinkage::LLVMExternalWeakLinkage,
            Linkage::External => LlvmLinkage::LLVMExternalLinkage,
            Linkage::LinkOnceODRAutoHide => LlvmLinkage::LLVMLinkOnceODRAutoHideLinkage,
            Linkage::DLLImport => LlvmLinkage::LLVMDLLImportLinkage,
            Linkage::DLLExport => LlvmLinkage::LLVMDLLExportLinkage,
            Linkage::GhostLinkage => LlvmLinkage::LLVMGhostLinkage,
            Linkage::LinkerPrivate => LlvmLinkage::LLVMLinkerPrivateLinkage,
            Linkage::LinkerPrivateWeak => LlvmLinkage::LLVMLinkerPrivateWeakLinkage,
        }
    }
}

impl Visibility {
    /// The C API visibility for this visibility.
    pub fn to_llvm(&self) -> (r: LlvmVisibility)
        ensures
            r == visibility_code(*self),
    {
        match self {
            Visibility::Default => LlvmVisibility::LLVMDefaultVisibility,
            Visibility::Hidden => LlvmVisibility::LLVMHiddenVisibility,
            Visibility::Protected => LlvmVisibility::LLVMProtectedVisibility,
        }
    }
}

impl IntPredicate {
    /// The C API predicate for this predicate.
    pub fn to_llvm(&self) -> (r: LlvmIntPredicate)
        ensures
            r == int_predicate_code(*self),
    {
        match self {
            IntPredicate::EQ => LlvmIntPredicate::LLVMIntEQ,
            IntPredicate::NE => LlvmIntPredicate::LLVMIntNE,
            IntPredicate::UGT => LlvmIntPredicate::LLVMIntUGT,
            IntPredicate::UGE => LlvmIntPredicate::LLVMIntUGE,
            IntPredicate::ULT => LlvmIntPredicate::LLVMIntULT,
            IntPredicate::ULE => LlvmIntPredicate::LLVMIntULE,
            IntPredicate::SGT => LlvmIntPredicate::LLVMIntSGT,
            IntPredicate::SGE => LlvmIntPredicate::LLVMIntSGE,
            IntPredicate::SLT => LlvmIntPredicate::LLVMIntSLT,
            IntPredicate::SLE => LlvmIntPredicate::LLVMIntSLE,
        }
    }
}

impl FPPredicate {
    /// The C API predicate for this predicate.
    pub fn to_llvm(&self) -> (r: LlvmRealPredicate)
        ensures
            r == real_predicate_code(*self),
    {
        match self {
            FPPredicate::False => LlvmRealPredicate::LLVMRealPredicateFalse,
            FPPredicate::OEQ => LlvmRealPredicate::LLVMRealOEQ,
            FPPredicate::OGT => LlvmRealPredicate::LLVMRealOGT,
            FPPredicate::OGE => LlvmRealPredicate::LLVMRealOGE,
            FPPredicate::OLT => LlvmRealPredicate::LLVMRealOLT,
            FPPredicate::OLE => LlvmRealPredicate::LLVMRealOLE,
            FPPredicate::ONE => LlvmRealPredicate::LLVMRealONE,
            FPPredicate::ORD => LlvmRealPredicate::LLVMRealORD,
            FPPredicate::UNO => LlvmRealPredicate::LLVMRealUNO,
            FPPredicate::UEQ => LlvmRealPredicate::LLVMRealUEQ,
            FPPredicate::UGT => LlvmRealPredicate::LLVMRealUGT,
            FPPredicate::UGE => LlvmRealPredicate::LLVMRealUGE,
            FPPredicate::ULT => LlvmRealPredicate::LLVMRealULT,
            FPPredicate::ULE => LlvmRealPredicate::LLVMRealULE,
            FPPredicate::UNE => LlvmRealPredicate::LLVMRealUNE,
            FPPredicate::True => LlvmRealPredicate::LLVMRealPredicateTrue,
        }
    }
}

impl MemoryOrdering {
    /// The C API ordering for this ordering.
    pub fn to_llvm(&self) -> (r: LlvmAtomicOrdering)
        ensures
            r == ordering_code(*self),
    {
        match self {
            MemoryOrdering::NotAtomic => LlvmAtomicOrdering::LLVMAtomicOrderingNotAtomic,
            MemoryOrdering::Unordered => LlvmAtomicOrdering::LLVMAtomicOrderingUnordered,
            MemoryOrdering::Monotonic => LlvmAtomicOrdering::LLVMAtomicOrderingMonotonic,
            MemoryOrdering::Acquire => LlvmAtomicOrdering::LLVMAtomicOrderingAcquire,
            MemoryOrdering::Release => LlvmAtomicOrdering::LLVMAtomicOrderingRelease,
            MemoryOrdering::AcquireRelease => LlvmAtomicOrdering::LLVMAtomicOrderingAcquireRelease,
            MemoryOrdering::SequentiallyConsistent => LlvmAtomicOrdering::LLVMAtomicOrderingSequentiallyConsistent,
        }
    }
}

impl RMWBinOp {
    /// The C API operation for this operation.
    pub fn to_llvm(&self) -> (r: LlvmAtomicRMWBinOp)
        ensures
            r == rmw_code(*self),
    {
        match self {
            RMWBinOp::Xchg => LlvmAtomicRMWBinOp::LLVMAtomicRMWBinOpXchg,
            RMWBinOp::Add => LlvmAtomicRMWBinOp::LLVMAtomicRMWBinOpAdd,
            RMWBinOp::Sub => LlvmAtomicRMWBinOp::LLVMAtomicRMWBinOpSub,
            RMWBinOp::And => LlvmAtomicRMWBinOp::LLVMAtomicRMWBinOpAnd,
            RMWBinOp::Nand => LlvmAtomicRMWBinOp::LLVMAtomicRMWBinOpNand,
            RMWBinOp::Or => LlvmAtomicRMWBinOp::LLVMAtomicRMWBinOpOr,
            RMWBinOp::Xor => LlvmAtomicRMWBinOp::LLVMAtomicRMWBinOpXor,
            RMWBinOp::Max => LlvmAtomicRMWBinOp::LLVMAtomicRMWBinOpMax,
            RMWBinOp::Min => LlvmAtomicRMWBinOp::LLVMAtomicRMWBinOpMin,
            RMWBinOp::UMax => LlvmAtomicRMWBinOp::LLVMAtomicRMWBinOpUMax,
            RMWBinOp::UMin => LlvmAtomicRMWBinOp::LLVMAtomicRMWBinOpUMin,
            RMWBinOp::FAdd => LlvmAtomicRMWBinOp::LLVMAtomicRMWBinOpFAdd,
            RMWBinOp::FSub => LlvmAtomicRMWBinOp::LLVMAtomicRMWBinOpFSub,
        }
    }
}

/// Distinct linkages are given distinct C API linkages: no linkage is lost
/// in the mapping.
pub proof fn linkage_code_injective(a: Linkage, b: Linkage)
    ensures
        linkage_code(a) == linkage_code(b) ==> a == b,
{
}

/// Distinct visibilities are given distinct C API visibilities.
pub proof fn visibility_code_injective(a: Visibility, b: Visibility)
    ensures
        visibility_code(a) == visibility_code(b) ==> a == b,
{
}

/// Distinct integer predicates are given distinct C API predicates.
pub proof fn int_predicate_code_injective(a: IntPredicate, b: IntPredicate)
    ensures
        int_predicate_code(a) == int_predicate_code(b) ==> a == b,
{
}

/// Distinct floating-point predicates are given distinct C API predicates.
pub proof fn real_predicate_code_injective(a: FPPredicate, b: FPPredicate)
    ensures
        real_predicate_code(a) == real_predicate_code(b) ==> a == b,
{
}

/// Distinct memory orderings are given distinct C API orderings.
pub proof fn ordering_code_injective(a: MemoryOrdering, b: MemoryOrdering)
    ensures
        ordering_code(a) == ordering_code(b) ==> a == b,
{
}

/// Distinct read-modify-write operations are given distinct C API operations.
pub proof fn rmw_code_injective(a: RMWBinOp, b: RMWBinOp)
    ensures
        rmw_code(a) == rmw_code(b) ==> a == b,
{
}

} // verus!
