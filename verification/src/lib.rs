//! Converts an in-memory LLVM IR module into a construction program for the
//! LLVM C API: a flat sequence of build operations that, replayed in order,
//! recreate the module (its globals, functions, basic blocks and instructions).
//!
//! Every decision of the conversion (what is built, in which order, which
//! names resolve to which earlier values, and which inputs are refused) is
//! made here and verified; replaying the operations against LLVM is the only
//! part left to the caller.

pub mod ir;
pub mod llvm_codes;
pub mod name_map;
pub mod plan;
pub mod context;
pub mod types_conv;
pub mod const_conv;
pub mod body_conv;
pub mod module_conv;
pub mod display;
pub mod laws;
pub mod handles;
pub mod bindings;
pub mod stack;
pub mod meaning;
