//! Conversion of globals, functions and whole modules.

use vstd::prelude::*;
use crate::body_conv::{bb_step, instrs_phis_step};
use crate::const_conv::{const_code, emit_const, emit_type_of, type_of_code};
use crate::context::{empty_state, ToLLVMContext};
use crate::ir::{
    BasicBlock, Function, FunctionDeclaration, GlobalAlias, GlobalIFunc, GlobalVariable, Linkage,
    Attribute, Module, Name, NameKey, Parameter, Type, Types, Visibility,
};
use crate::llvm_codes::{linkage_code, visibility_code};
use crate::plan::{extends, AttrPlace, ConvertError, CtxState, Op};
use crate::handles::{plan_refers_backward, refers_backward};
use crate::laws::{marks, module_marks, plan_declares_module};
use crate::stack::{plan_replays, replays};
use crate::types_conv::{emit_type_top, fn_type_code, type_code, types_code, Defs};

verus! {

/// A construction program for a module, with the module's name.
#[derive(Debug, PartialEq)]
pub struct BuildPlan {
    pub module_name: String,
    pub ops: Vec<Op>,
}

/// The operations that set the linkage and visibility of global `h`.
pub open spec fn attrs(acc: Seq<Op>, h: usize, l: Linkage, v: Visibility) -> Seq<Op> {
    acc.push(Op::SetLinkage { target: h, linkage: linkage_code(l) }).push(
        Op::SetVisibility { target: h, visibility: visibility_code(v) },
    )
}

/// Adding a global variable, without its initializer: its value type is
/// that of its initializer, or `i8` when it has none; its name is bound to
/// it.
#[verifier::opaque]
pub open spec fn global_decl_step(defs: Defs, st: CtxState, g: GlobalVariable) -> Result<CtxState, ConvertError> {
    let ty = match g.initializer {
        Some(init) => type_of_code(defs, st.ops, init),
        None => Ok(st.ops.push(Op::IntType(8))),
    };
    match ty {
        Ok(a1) => {
            let h = a1.len() as usize;
            let a2 = attrs(a1.push(Op::AddGlobal(g.name)), h, g.linkage, g.visibility).push(
                Op::SetGlobalConstant { target: h, is_constant: g.is_constant },
            );
            let a3 = if g.alignment > 0 {
                a2.push(Op::SetAlignment { target: h, alignment: g.alignment })
            } else {
                a2
            };
            let a4 = match g.section {
                Some(s) => a3.push(Op::SetSection { target: h, section: s }),
                None => a3,
            };
            Ok(CtxState { ops: a4, values: st.values.insert(g.name.key(), h), bbs: st.bbs })
        },
        Err(e) => Err(e),
    }
}

/// The global variable added for a name: the handle bound to the name,
/// where the operation there adds a global variable.
pub open spec fn global_handle(st: CtxState, n: Name) -> Option<usize> {
    if st.values.contains_key(n.key()) && st.values[n.key()] < st.ops.len()
        && st.ops[st.values[n.key()] as int] is AddGlobal {
        Some(st.values[n.key()])
    } else {
        None
    }
}

/// Setting the initializer of a global variable that was added, if it has
/// one; its constant may refer to any global value added so far.
#[verifier::opaque]
pub open spec fn global_init_step(defs: Defs, st: CtxState, g: GlobalVariable) -> Result<CtxState, ConvertError> {
    match g.initializer {
        Some(init) => match global_handle(st, g.name) {
            Some(h) => match const_code(defs, st.values, st.ops, init) {
                Ok(a) => Ok(CtxState { ops: a.push(Op::SetInitializer { target: h }), ..st }),
                Err(e) => Err(e),
            },
            None => Err(ConvertError::GlobalReferenceNotFound(g.name)),
        },
        None => Ok(st),
    }
}

/// Converting a global variable: adding it, then setting its initializer.
pub open spec fn global_step(defs: Defs, st: CtxState, g: GlobalVariable) -> Result<CtxState, ConvertError> {
    match global_decl_step(defs, st, g) {
        Ok(st1) => global_init_step(defs, st1, g),
        Err(e) => Err(e),
    }
}

/// Converting an alias.
#[verifier::opaque]
pub open spec fn alias_step(defs: Defs, st: CtxState, a: GlobalAlias) -> Result<CtxState, ConvertError> {
    match type_code(defs, Seq::empty(), st.ops, a.ty) {
        Ok(a1) => match const_code(defs, st.values, a1, a.aliasee) {
            Ok(a2) => {
                let h = a2.len() as usize;
                Ok(CtxState {
                    ops: attrs(a2.push(Op::AddAlias(a.name)), h, a.linkage, a.visibility),
                    values: st.values.insert(a.name.key(), h),
                    bbs: st.bbs,
                })
            },
            Err(e) => Err(e),
        },
        Err(e) => Err(e),
    }
}

/// The types of parameters.
pub open spec fn param_types(ps: Seq<Parameter>) -> Seq<Type> {
    ps.map_values(|p: Parameter| p.ty)
}

/// The state after adding a function at handle `h`, once its type has been
/// made (`a1`): the function's name is bound to it.
pub open spec fn fn_header(st: CtxState, a1: Seq<Op>, h: usize, name: String, l: Linkage, v: Visibility, gc: Option<String>) -> CtxState {
    let a2 = attrs(a1.push(Op::AddFunction(name)), h, l, v);
    let a3 = match gc {
        Some(g) => a2.push(Op::SetGC { target: h, name: g }),
        None => a2,
    };
    CtxState { ops: a3, values: st.values.insert(NameKey::Text(name@), h), bbs: st.bbs }
}

/// The operations that add the attributes `attrs[i..]`, in order, at
/// `place` of function `h`.
pub open spec fn attr_ops(acc: Seq<Op>, h: usize, place: AttrPlace, attrs: Seq<Attribute>, i: int) -> Seq<Op>
    decreases attrs.len() - i,
{
    if 0 <= i < attrs.len() {
        attr_ops(acc.push(Op::AddAttribute { target: h, place, attribute: attrs[i] }), h, place, attrs, i + 1)
    } else {
        acc
    }
}

/// The operations that add the attributes of the parameters `ps[j..]` of
/// function `h`, parameter by parameter.
pub open spec fn param_attr_ops(acc: Seq<Op>, h: usize, ps: Seq<Parameter>, j: int) -> Seq<Op>
    decreases ps.len() - j,
{
    if 0 <= j < ps.len() {
        param_attr_ops(attr_ops(acc, h, AttrPlace::Param(j as u32), ps[j].attributes@, 0), h, ps, j + 1)
    } else {
        acc
    }
}

/// The operations that add the attributes of function `h`: its own, then
/// those of its result, then those of each parameter.
pub open spec fn fn_attr_ops(acc: Seq<Op>, h: usize, fa: Seq<Attribute>, ra: Seq<Attribute>, ps: Seq<Parameter>) -> Seq<Op> {
    param_attr_ops(attr_ops(attr_ops(acc, h, AttrPlace::Function, fa, 0), h, AttrPlace::Return, ra, 0), h, ps, 0)
}

/// The state after adding the attributes of function `h`.
pub open spec fn with_fn_attrs(st: CtxState, h: usize, fa: Seq<Attribute>, ra: Seq<Attribute>, ps: Seq<Parameter>) -> CtxState {
    CtxState { ops: fn_attr_ops(st.ops, h, fa, ra, ps), ..st }
}

/// Converting a function declaration.
#[verifier::opaque]
pub open spec fn decl_step(defs: Defs, st: CtxState, d: FunctionDeclaration) -> Result<CtxState, ConvertError> {
    match fn_type_code(defs, st.ops, d.return_type, param_types(d.parameters@), d.is_var_arg) {
        Ok(a1) => Ok(with_fn_attrs(
            fn_header(st, a1, a1.len() as usize, d.name, d.linkage, d.visibility, d.garbage_collector_name),
            a1.len() as usize,
            d.function_attributes@,
            d.return_attributes@,
            d.parameters@,
        )),
        Err(e) => Err(e),
    }
}

/// Making the blocks `bbs[i..]` of function `f`, each bound to its name.
pub open spec fn blocks_step(st: CtxState, f: usize, bbs: Seq<BasicBlock>, i: int) -> CtxState
    decreases bbs.len() - i,
{
    if 0 <= i < bbs.len() {
        let h = st.ops.len() as usize;
        blocks_step(
            CtxState {
                ops: st.ops.push(Op::AppendBasicBlock { function: f, name: bbs[i].name }),
                values: st.values,
                bbs: st.bbs.insert(bbs[i].name.key(), h),
            },
            f,
            bbs,
            i + 1,
        )
    } else {
        st
    }
}

/// Taking the parameters `ps[i..]` of function `f`, each bound to its name.
pub open spec fn params_step(st: CtxState, f: usize, ps: Seq<Parameter>, i: int) -> CtxState
    decreases ps.len() - i,
{
    if 0 <= i < ps.len() {
        let h = st.ops.len() as usize;
        params_step(
            CtxState {
                ops: st.ops.push(Op::GetParam { function: f, index: i as u32 }),
                values: st.values.insert(ps[i].name.key(), h),
                bbs: st.bbs,
            },
            f,
            ps,
            i + 1,
        )
    } else {
        st
    }
}

/// Filling the blocks `bbs[i..]`, in order.
pub open spec fn bodies_step(defs: Defs, st: CtxState, bbs: Seq<BasicBlock>, i: int) -> Result<CtxState, ConvertError>
    decreases bbs.len() - i,
{
    if 0 <= i < bbs.len() {
        match bb_step(defs, st, bbs[i]) {
            Ok(st1) => bodies_step(defs, st1, bbs, i + 1),
            Err(e) => Err(e),
        }
    } else {
        Ok(st)
    }
}

/// Adding the incoming pairs of the phis of the blocks `bbs[i..]`, in order.
pub open spec fn phis_step(defs: Defs, st: CtxState, bbs: Seq<BasicBlock>, i: int) -> Result<CtxState, ConvertError>
    decreases bbs.len() - i,
{
    if 0 <= i < bbs.len() {
        match instrs_phis_step(defs, st, bbs[i].instrs@, 0) {
            Ok(st1) => phis_step(defs, st1, bbs, i + 1),
            Err(e) => Err(e),
        }
    } else {
        Ok(st)
    }
}

/// The handle at which a function is added: right after the operations
/// that make its type.
pub open spec fn function_handle(defs: Defs, acc: Seq<Op>, f: Function) -> int {
    match fn_type_code(defs, acc, f.return_type, param_types(f.parameters@), f.is_var_arg) {
        Ok(a1) => a1.len() as int,
        Err(_) => -1,
    }
}

/// Adding a function that has a body, as a declaration is added.
pub open spec fn fn_decl_step(defs: Defs, st: CtxState, f: Function) -> Result<CtxState, ConvertError> {
    match fn_type_code(defs, st.ops, f.return_type, param_types(f.parameters@), f.is_var_arg) {
        Ok(a1) => Ok(with_fn_attrs(
            fn_header(st, a1, a1.len() as usize, f.name, f.linkage, f.visibility, f.garbage_collector_name),
            a1.len() as usize,
            f.function_attributes@,
            f.return_attributes@,
            f.parameters@,
        )),
        Err(e) => Err(e),
    }
}

/// The function added for a name: the handle bound to the name, where the
/// operation there adds a function.
pub open spec fn fn_handle(st: CtxState, name: String) -> Option<usize> {
    let k = NameKey::Text(name@);
    if st.values.contains_key(k) && st.values[k] < st.ops.len() && st.ops[st.values[k] as int] is AddFunction {
        Some(st.values[k])
    } else {
        None
    }
}

/// Building the body of a function that was added, if it has basic blocks:
/// all of them are made first, then its parameters are taken, then the
/// blocks are filled in order, and last the incoming pairs of their phis
/// are added, when every value of the function is made.
#[verifier::opaque]
pub open spec fn fn_body_step(defs: Defs, st: CtxState, f: Function) -> Result<CtxState, ConvertError> {
    if f.basic_blocks.len() > 0 {
        match fn_handle(st, f.name) {
            Some(h) => {
                let st2 = blocks_step(st, h, f.basic_blocks@, 0);
                let st3 = params_step(st2, h, f.parameters@, 0);
                match bodies_step(defs, st3, f.basic_blocks@, 0) {
                    Ok(st4) => phis_step(defs, st4, f.basic_blocks@, 0),
                    Err(e) => Err(e),
                }
            },
            None => Err(ConvertError::GlobalReferenceNotFound(Name::Name(Box::new(f.name)))),
        }
    } else {
        Ok(st)
    }
}

/// Converting a function with a body: adding it, then building its body.
pub open spec fn function_step(defs: Defs, st: CtxState, f: Function) -> Result<CtxState, ConvertError> {
    match fn_decl_step(defs, st, f) {
        Ok(st1) => fn_body_step(defs, st1, f),
        Err(e) => Err(e),
    }
}

/// Adding the global variables `gs[i..]`, in order, without initializers.
pub open spec fn global_decls_step(defs: Defs, st: CtxState, gs: Seq<GlobalVariable>, i: int) -> Result<CtxState, ConvertError>
    decreases gs.len() - i,
{
    if 0 <= i < gs.len() {
        match global_decl_step(defs, st, gs[i]) {
            Ok(st1) => global_decls_step(defs, st1, gs, i + 1),
            Err(e) => Err(e),
        }
    } else {
        Ok(st)
    }
}

/// Adding the declared functions `ds[i..]`, in order.
pub open spec fn decls_step(defs: Defs, st: CtxState, ds: Seq<FunctionDeclaration>, i: int) -> Result<CtxState, ConvertError>
    decreases ds.len() - i,
{
    if 0 <= i < ds.len() {
        match decl_step(defs, st, ds[i]) {
            Ok(st1) => decls_step(defs, st1, ds, i + 1),
            Err(e) => Err(e),
        }
    } else {
        Ok(st)
    }
}

/// Adding the functions `fs[i..]`, in order, without their bodies.
pub open spec fn fn_decls_step(defs: Defs, st: CtxState, fs: Seq<Function>, i: int) -> Result<CtxState, ConvertError>
    decreases fs.len() - i,
{
    if 0 <= i < fs.len() {
        match fn_decl_step(defs, st, fs[i]) {
            Ok(st1) => fn_decls_step(defs, st1, fs, i + 1),
            Err(e) => Err(e),
        }
    } else {
        Ok(st)
    }
}

/// Setting the initializers of the global variables `gs[i..]`, in order.
pub open spec fn global_inits_step(defs: Defs, st: CtxState, gs: Seq<GlobalVariable>, i: int) -> Result<CtxState, ConvertError>
    decreases gs.len() - i,
{
    if 0 <= i < gs.len() {
        match global_init_step(defs, st, gs[i]) {
            Ok(st1) => global_inits_step(defs, st1, gs, i + 1),
            Err(e) => Err(e),
        }
    } else {
        Ok(st)
    }
}

/// Building the bodies of the functions `fs[i..]`, in order.
pub open spec fn fn_bodies_step(defs: Defs, st: CtxState, fs: Seq<Function>, i: int) -> Result<CtxState, ConvertError>
    decreases fs.len() - i,
{
    if 0 <= i < fs.len() {
        match fn_body_step(defs, st, fs[i]) {
            Ok(st1) => fn_bodies_step(defs, st1, fs, i + 1),
            Err(e) => Err(e),
        }
    } else {
        Ok(st)
    }
}

/// Adding the aliases `als[i..]`, in order.
pub open spec fn aliases_step(defs: Defs, st: CtxState, als: Seq<GlobalAlias>, i: int) -> Result<CtxState, ConvertError>
    decreases als.len() - i,
{
    if 0 <= i < als.len() {
        match alias_step(defs, st, als[i]) {
            Ok(st1) => aliases_step(defs, st1, als, i + 1),
            Err(e) => Err(e),
        }
    } else {
        Ok(st)
    }
}

/// The operations that set the module's source file name (always, since an
/// empty name differs from the one LLVM would otherwise give), then its data
/// layout, target triple and inline assembly, for those it has.
pub open spec fn metadata_ops(m: Module) -> Seq<Op> {
    let a1 = Seq::empty().push(Op::SetSourceFileName(m.source_file_name));
    let a2 = if m.data_layout.layout_str@.len() > 0 {
        a1.push(Op::SetDataLayout(m.data_layout.layout_str))
    } else {
        a1
    };
    let a3 = match m.target_triple {
        Some(t) => a2.push(Op::SetTarget(t)),
        None => a2,
    };
    if m.inline_assembly@.len() > 0 {
        a3.push(Op::SetInlineAsm(m.inline_assembly))
    } else {
        a3
    }
}

/// The state after adding every global value of a module, before any
/// initializer or body: its metadata, then its global variables, declared
/// functions, functions and aliases, in that order.
pub open spec fn module_decls(m: Module) -> Result<CtxState, ConvertError> {
    let defs = m.types.named_structs@;
    let st0 = CtxState { ops: metadata_ops(m), ..empty_state() };
    match global_decls_step(defs, st0, m.global_vars@, 0) {
        Ok(st1) => match decls_step(defs, st1, m.func_declarations@, 0) {
            Ok(st2) => match fn_decls_step(defs, st2, m.functions@, 0) {
                Ok(st3) => aliases_step(defs, st3, m.global_aliases@, 0),
                Err(e) => Err(e),
            },
            Err(e) => Err(e),
        },
        Err(e) => Err(e),
    }
}

/// Adding the global variables `items[i..]` one by one; one whose addition fails is left out, and
/// its error is recorded at its position in `errs` (`None` for one that is
/// added).
pub open spec fn try_global_decls(
    defs: Defs,
    st: CtxState,
    items: Seq<GlobalVariable>,
    i: int,
    errs: Seq<Option<ConvertError>>,
) -> (CtxState, Seq<Option<ConvertError>>)
    decreases items.len() - i,
{
    if 0 <= i < items.len() {
        match global_decl_step(defs, st, items[i]) {
            Ok(st1) => try_global_decls(defs, st1, items, i + 1, errs.push(None)),
            Err(e) => try_global_decls(defs, st, items, i + 1, errs.push(Some(e))),
        }
    } else {
        (st, errs)
    }
}

/// Adding the declared functions `items[i..]` one by one; one whose addition fails is left out, and
/// its error is recorded at its position in `errs` (`None` for one that is
/// added).
pub open spec fn try_decls(
    defs: Defs,
    st: CtxState,
    items: Seq<FunctionDeclaration>,
    i: int,
    errs: Seq<Option<ConvertError>>,
) -> (CtxState, Seq<Option<ConvertError>>)
    decreases items.len() - i,
{
    if 0 <= i < items.len() {
        match decl_step(defs, st, items[i]) {
            Ok(st1) => try_decls(defs, st1, items, i + 1, errs.push(None)),
            Err(e) => try_decls(defs, st, items, i + 1, errs.push(Some(e))),
        }
    } else {
        (st, errs)
    }
}

/// Adding the functions `items[i..]`, without their bodies, one by one; one whose addition fails is left out, and
/// its error is recorded at its position in `errs` (`None` for one that is
/// added).
pub open spec fn try_fn_decls(
    defs: Defs,
    st: CtxState,
    items: Seq<Function>,
    i: int,
    errs: Seq<Option<ConvertError>>,
) -> (CtxState, Seq<Option<ConvertError>>)
    decreases items.len() - i,
{
    if 0 <= i < items.len() {
        match fn_decl_step(defs, st, items[i]) {
            Ok(st1) => try_fn_decls(defs, st1, items, i + 1, errs.push(None)),
            Err(e) => try_fn_decls(defs, st, items, i + 1, errs.push(Some(e))),
        }
    } else {
        (st, errs)
    }
}

/// Adding the aliases `items[i..]` one by one; one whose addition fails is left out, and
/// its error is recorded at its position in `errs` (`None` for one that is
/// added).
pub open spec fn try_aliases(
    defs: Defs,
    st: CtxState,
    items: Seq<GlobalAlias>,
    i: int,
    errs: Seq<Option<ConvertError>>,
) -> (CtxState, Seq<Option<ConvertError>>)
    decreases items.len() - i,
{
    if 0 <= i < items.len() {
        match alias_step(defs, st, items[i]) {
            Ok(st1) => try_aliases(defs, st1, items, i + 1, errs.push(None)),
            Err(e) => try_aliases(defs, st, items, i + 1, errs.push(Some(e))),
        }
    } else {
        (st, errs)
    }
}

/// The first error recorded in `errs[i..]`, if any.
pub open spec fn first_some(errs: Seq<Option<ConvertError>>, i: int) -> Option<ConvertError>
    decreases errs.len() - i,
{
    if 0 <= i < errs.len() {
        match errs[i] {
            Some(e) => Some(e),
            None => first_some(errs, i + 1),
        }
    } else {
        None
    }
}

/// Setting the initializers of the global variables `gs[i..]` in order,
/// where `errs` holds the error of each one's addition: the first global
/// variable whose addition or initializer failed gives the error.
pub open spec fn first_init_error(defs: Defs, st: CtxState, gs: Seq<GlobalVariable>, errs: Seq<Option<ConvertError>>, i: int) -> Result<CtxState, ConvertError>
    decreases gs.len() - i,
{
    if 0 <= i < gs.len() {
        match errs[i] {
            Some(e) => Err(e),
            None => match global_init_step(defs, st, gs[i]) {
                Ok(st1) => first_init_error(defs, st1, gs, errs, i + 1),
                Err(e) => Err(e),
            },
        }
    } else {
        Ok(st)
    }
}

/// Building the bodies of the functions `fs[i..]` in order, where `errs`
/// holds the error of each one's addition: the first function whose
/// addition or body failed gives the error.
pub open spec fn first_body_error(defs: Defs, st: CtxState, fs: Seq<Function>, errs: Seq<Option<ConvertError>>, i: int) -> Result<CtxState, ConvertError>
    decreases fs.len() - i,
{
    if 0 <= i < fs.len() {
        match errs[i] {
            Some(e) => Err(e),
            None => match fn_body_step(defs, st, fs[i]) {
                Ok(st1) => first_body_error(defs, st1, fs, errs, i + 1),
                Err(e) => Err(e),
            },
        }
    } else {
        Ok(st)
    }
}

/// The error a module that cannot be converted is refused with: that of
/// the first item, in the module's order (global variables, declared
/// functions, functions, aliases, indirect functions), whose addition,
/// initializer or body fails, every other item having been added first
/// where it can be; if no such item fails, that of its indirect functions.
pub open spec fn first_error(m: Module) -> ConvertError {
    let defs = m.types.named_structs@;
    let st0 = CtxState { ops: metadata_ops(m), ..empty_state() };
    let g = try_global_decls(defs, st0, m.global_vars@, 0, Seq::empty());
    let d = try_decls(defs, g.0, m.func_declarations@, 0, Seq::empty());
    let f = try_fn_decls(defs, d.0, m.functions@, 0, Seq::empty());
    let a = try_aliases(defs, f.0, m.global_aliases@, 0, Seq::empty());
    match first_init_error(defs, a.0, m.global_vars@, g.1, 0) {
        Err(e) => e,
        Ok(st5) => match first_some(d.1, 0) {
            Some(e) => e,
            None => match first_body_error(defs, st5, m.functions@, f.1, 0) {
                Err(e) => e,
                Ok(_) => match first_some(a.1, 0) {
                    Some(e) => e,
                    None => ConvertError::GlobalIFuncUnsupported,
                },
            },
        },
    }
}

/// The construction program of a module: every global value is added
/// first (`module_decls`), so that an initializer or a body may refer to
/// any of them, wherever it stands in the module; then the initializers of
/// the global variables are set and the bodies of the functions built, in
/// the module's order. A module with an indirect function is refused. When
/// an addition fails, the module is refused with the error of the first
/// item, in the module's order, whose addition, initializer or body fails
/// (`first_error`).
pub open spec fn module_plan(m: Module) -> Result<Seq<Op>, ConvertError> {
    let defs = m.types.named_structs@;
    match module_decls(m) {
        Ok(st4) => match global_inits_step(defs, st4, m.global_vars@, 0) {
            Ok(st5) => match fn_bodies_step(defs, st5, m.functions@, 0) {
                Ok(st6) => {
                    if m.global_ifuncs.len() > 0 {
                        Err(ConvertError::GlobalIFuncUnsupported)
                    } else {
                        Ok(st6.ops)
                    }
                },
                Err(e) => Err(e),
            },
            Err(e) => Err(e),
        },
        Err(_) => Err(first_error(m)),
    }
}

fn push_attrs(ctx: &mut ToLLVMContext, h: usize, l: &Linkage, v: &Visibility)
    requires
        old(ctx).wf(),
    ensures
        extends(final(ctx).ops@, old(ctx).ops@),
        final(ctx).wf(),
        final(ctx).module_name == old(ctx).module_name,
        final(ctx).value_map == old(ctx).value_map,
        final(ctx).bb_map == old(ctx).bb_map,
        final(ctx).ops@ == attrs(old(ctx).ops@, h, *l, *v),
{
    let lc = l.to_llvm();
    let vc = v.to_llvm();
    ctx.ops.push(Op::SetLinkage { target: h, linkage: lc });
    ctx.ops.push(Op::SetVisibility { target: h, visibility: vc });
}

/// Appends the operations that make the function type with the given
/// result and parameters.
fn emit_fn_type(ctx: &mut ToLLVMContext, types: &Types, result: &Type, params: &Vec<Parameter>, is_var_arg: bool) -> (r: Result<(), ConvertError>)
    requires
        old(ctx).wf(),
    ensures
        extends(final(ctx).ops@, old(ctx).ops@),
        final(ctx).wf(),
        final(ctx).module_name == old(ctx).module_name,
        final(ctx).value_map == old(ctx).value_map,
        final(ctx).bb_map == old(ctx).bb_map,
        match r {
            Ok(_) => fn_type_code(types.named_structs@, old(ctx).ops@, *result, param_types(params@), is_var_arg) == Ok::<Seq<Op>, ConvertError>(final(ctx).ops@),
            Err(e) => fn_type_code(types.named_structs@, old(ctx).ops@, *result, param_types(params@), is_var_arg) == Err::<Seq<Op>, ConvertError>(e),
        },
{
    let defs = &types.named_structs;
    emit_type_top(defs, &mut ctx.ops, result)?;
    let ghost a1 = ctx.ops@;
    let ghost pts = param_types(params@);
    let mut i: usize = 0;
    while i < params.len()
        invariant
            extends(ctx.ops@, old(ctx).ops@),
            i <= params@.len(),
            pts == param_types(params@),
            pts.len() == params@.len(),
            defs@ == types.named_structs@,
            ctx.wf(),
            ctx.module_name == old(ctx).module_name,
            ctx.value_map == old(ctx).value_map,
            ctx.bb_map == old(ctx).bb_map,
            type_code(defs@, Seq::empty(), old(ctx).ops@, *result) == Ok::<Seq<Op>, ConvertError>(a1),
            types_code(defs@, Seq::empty(), a1, pts, 0) == types_code(defs@, Seq::empty(), ctx.ops@, pts, i as int),
        decreases params@.len() - i,
    {
        assert(pts[i as int] == params@[i as int].ty);
        let ghost ai = ctx.ops@;
        let r = emit_type_top(defs, &mut ctx.ops, &params[i].ty);
        if let Err(e) = r {
            assert(types_code(defs@, Seq::empty(), ai, pts, i as int) == Err::<Seq<Op>, ConvertError>(e));
            assert(types_code(defs@, Seq::empty(), a1, pts, 0) == Err::<Seq<Op>, ConvertError>(e));
            assert(fn_type_code(defs@, old(ctx).ops@, *result, pts, is_var_arg) == Err::<Seq<Op>, ConvertError>(e));
            return Err(e);
        }
        i = i + 1;
    }
    ctx.ops.push(Op::FunctionType { param_count: params.len(), is_var_arg });
    Ok(())
}

/// Appends the operations that add the attributes `attrs` at `place` of
/// function `h`.
fn push_attributes(ctx: &mut ToLLVMContext, h: usize, place: AttrPlace, attrs: &Vec<Attribute>)
    requires
        old(ctx).wf(),
    ensures
        extends(final(ctx).ops@, old(ctx).ops@),
        final(ctx).wf(),
        final(ctx).module_name == old(ctx).module_name,
        final(ctx).value_map == old(ctx).value_map,
        final(ctx).bb_map == old(ctx).bb_map,
        final(ctx).ops@ == attr_ops(old(ctx).ops@, h, place, attrs@, 0),
{
    let mut i: usize = 0;
    while i < attrs.len()
        invariant
            extends(ctx.ops@, old(ctx).ops@),
            i <= attrs@.len(),
            ctx.wf(),
            ctx.module_name == old(ctx).module_name,
            ctx.value_map == old(ctx).value_map,
            ctx.bb_map == old(ctx).bb_map,
            attr_ops(old(ctx).ops@, h, place, attrs@, 0) == attr_ops(ctx.ops@, h, place, attrs@, i as int),
        decreases attrs@.len() - i,
    {
        ctx.ops.push(Op::AddAttribute { target: h, place, attribute: attrs[i].clone_attr() });
        i = i + 1;
    }
}

/// Appends the operations that add the attributes of function `h`.
fn push_fn_attributes(ctx: &mut ToLLVMContext, h: usize, fa: &Vec<Attribute>, ra: &Vec<Attribute>, ps: &Vec<Parameter>)
    requires
        old(ctx).wf(),
    ensures
        extends(final(ctx).ops@, old(ctx).ops@),
        final(ctx).wf(),
        final(ctx).module_name == old(ctx).module_name,
        final(ctx).state() == with_fn_attrs(old(ctx).state(), h, fa@, ra@, ps@),
{
    push_attributes(ctx, h, AttrPlace::Function, fa);
    push_attributes(ctx, h, AttrPlace::Return, ra);
    let ghost a2 = ctx.ops@;
    let mut j: usize = 0;
    while j < ps.len()
        invariant
            extends(ctx.ops@, old(ctx).ops@),
            j <= ps@.len(),
            ctx.wf(),
            ctx.module_name == old(ctx).module_name,
            ctx.value_map == old(ctx).value_map,
            ctx.bb_map == old(ctx).bb_map,
            param_attr_ops(a2, h, ps@, 0) == param_attr_ops(ctx.ops@, h, ps@, j as int),
        decreases ps@.len() - j,
    {
        push_attributes(ctx, h, AttrPlace::Param(j as u32), &ps[j].attributes);
        j = j + 1;
    }
}

/// Adds a function (or declaration) whose type has just been made, with its
/// attributes, and binds its name.
fn add_function(
    ctx: &mut ToLLVMContext,
    name: &String,
    l: &Linkage,
    v: &Visibility,
    gc: &Option<String>,
    fa: &Vec<Attribute>,
    ra: &Vec<Attribute>,
    ps: &Vec<Parameter>,
) -> (h: usize)
    requires
        old(ctx).wf(),
    ensures
        extends(final(ctx).ops@, old(ctx).ops@),
        final(ctx).wf(),
        final(ctx).module_name == old(ctx).module_name,
        h == old(ctx).ops@.len(),
        final(ctx).state() == with_fn_attrs(fn_header(old(ctx).state(), old(ctx).ops@, h, *name, *l, *v, *gc), h, fa@, ra@, ps@),
{
    let h = ctx.ops.len();
    ctx.ops.push(Op::AddFunction(name.clone()));
    push_attrs(ctx, h, l, v);
    match gc {
        Some(g) => {
            ctx.ops.push(Op::SetGC { target: h, name: g.clone() });
        },
        None => {},
    }
    ctx.insert_value(Name::Name(Box::new(name.clone())), h);
    push_fn_attributes(ctx, h, fa, ra, ps);
    h
}

impl GlobalVariable {
    /// Appends to the context's program the operations that add this global
    /// variable, without its initializer, binds its name, and returns its
    /// handle.
    /// A failed conversion leaves the context as it was.
    pub fn declare(&self, ctx: &mut ToLLVMContext, types: &Types) -> (r: Result<usize, ConvertError>)
        requires
            old(ctx).wf(),
        ensures
            r is Err ==> final(ctx).ops@ == old(ctx).ops@,
            extends(final(ctx).ops@, old(ctx).ops@),
            final(ctx).wf(),
            final(ctx).module_name == old(ctx).module_name,
            r is Err ==> final(ctx).state().values == old(ctx).state().values,
            r is Err ==> final(ctx).state().bbs == old(ctx).state().bbs,
            match r {
                Ok(h) => global_decl_step(types.named_structs@, old(ctx).state(), *self) == Ok::<CtxState, ConvertError>(final(ctx).state())
                    && final(ctx).state().values[self.name.key()] == h
                    && h < final(ctx).ops@.len()
                    && final(ctx).ops@[h as int] == Op::AddGlobal(self.name),
                Err(e) => global_decl_step(types.named_structs@, old(ctx).state(), *self) == Err::<CtxState, ConvertError>(e),
            },
    {
        reveal(global_decl_step);
        let defs = &types.named_structs;
        let n = ctx.ops.len();
        match &self.initializer {
            Some(init) => {
                if let Err(e) = emit_type_of(defs, &mut ctx.ops, init) {
                    ctx.discard_from(n);
                    assert(ctx.ops@ =~= old(ctx).ops@);
                    return Err(e);
                }
            },
            None => {
                ctx.ops.push(Op::IntType(8));
            },
        }
        let h = ctx.ops.len();
        ctx.ops.push(Op::AddGlobal(self.name.clone_name()));
        push_attrs(ctx, h, &self.linkage, &self.visibility);
        ctx.ops.push(Op::SetGlobalConstant { target: h, is_constant: self.is_constant });
        if self.alignment > 0 {
            ctx.ops.push(Op::SetAlignment { target: h, alignment: self.alignment });
        }
        match &self.section {
            Some(s) => {
                ctx.ops.push(Op::SetSection { target: h, section: s.clone() });
            },
            None => {},
        }
        ctx.insert_value(self.name.clone_name(), h);
        Ok(h)
    }

    /// Appends to the context's program the operations that set this global
    /// variable's initializer, if it has one; the variable must have been
    /// added under its name. No name is bound.
    /// A failed conversion leaves the context as it was.
    pub fn set_initializer(&self, ctx: &mut ToLLVMContext, types: &Types) -> (r: Result<(), ConvertError>)
        requires
            old(ctx).wf(),
        ensures
            r is Err ==> final(ctx).ops@ == old(ctx).ops@,
            extends(final(ctx).ops@, old(ctx).ops@),
            final(ctx).wf(),
            final(ctx).module_name == old(ctx).module_name,
            final(ctx).state().values == old(ctx).state().values,
            final(ctx).state().bbs == old(ctx).state().bbs,
            match r {
                Ok(_) => global_init_step(types.named_structs@, old(ctx).state(), *self) == Ok::<CtxState, ConvertError>(final(ctx).state()),
                Err(e) => global_init_step(types.named_structs@, old(ctx).state(), *self) == Err::<CtxState, ConvertError>(e),
            },
    {
        reveal(global_init_step);
        match &self.initializer {
            Some(init) => {
                let h = match ctx.value_map.get(&self.name) {
                    Some(h) => h,
                    None => {
                        return Err(ConvertError::GlobalReferenceNotFound(self.name.clone_name()));
                    },
                };
                if h >= ctx.ops.len() {
                    return Err(ConvertError::GlobalReferenceNotFound(self.name.clone_name()));
                }
                let is_global = match &ctx.ops[h] {
                    Op::AddGlobal(_) => true,
                    _ => false,
                };
                if !is_global {
                    return Err(ConvertError::GlobalReferenceNotFound(self.name.clone_name()));
                }
                let n = ctx.ops.len();
                if let Err(e) = emit_const(&types.named_structs, &ctx.value_map, &mut ctx.ops, init) {
                    ctx.discard_from(n);
                    assert(ctx.ops@ =~= old(ctx).ops@);
                    return Err(e);
                }
                ctx.ops.push(Op::SetInitializer { target: h });
                Ok(())
            },
            None => Ok(()),
        }
    }

    /// Appends to the context's program the operations that add this global
    /// variable and set its initializer, binds its name, and returns its
    /// handle.
    /// A failed conversion leaves the context as it was.
    pub fn to_llvm(&self, ctx: &mut ToLLVMContext, types: &Types) -> (r: Result<usize, ConvertError>)
        requires
            old(ctx).wf(),
        ensures
            r is Err ==> final(ctx).ops@ == old(ctx).ops@,
            extends(final(ctx).ops@, old(ctx).ops@),
            final(ctx).wf(),
            final(ctx).module_name == old(ctx).module_name,
            r is Err ==> final(ctx).state().values == old(ctx).state().values,
            r is Err ==> final(ctx).state().bbs == old(ctx).state().bbs,
            match r {
                Ok(h) => global_step(types.named_structs@, old(ctx).state(), *self) == Ok::<CtxState, ConvertError>(final(ctx).state())
                    && final(ctx).state().values[self.name.key()] == h,
                Err(e) => global_step(types.named_structs@, old(ctx).state(), *self) == Err::<CtxState, ConvertError>(e),
            },
    {
        let n = ctx.ops.len();
        let saved = ctx.value_map.copy();
        let h = self.declare(ctx, types)?;
        proof { reveal(global_decl_step); }
        let ghost st1 = ctx.state();
        match self.set_initializer(ctx, types) {
            Ok(()) => {
                assert(ctx.state().values == st1.values);
                Ok(h)
            },
            Err(e) => {
                ctx.value_map = saved;
                ctx.discard_from(n);
                assert(ctx.ops@ =~= old(ctx).ops@);
                Err(e)
            },
        }
    }
}

impl GlobalAlias {
    /// Appends to the context's program the operations that add this alias,
    /// binds its name, and returns its handle.
    /// A failed conversion leaves the context as it was.
    pub fn to_llvm(&self, ctx: &mut ToLLVMContext, types: &Types) -> (r: Result<usize, ConvertError>)
        requires
            old(ctx).wf(),
        ensures
            r is Err ==> final(ctx).ops@ == old(ctx).ops@,
            extends(final(ctx).ops@, old(ctx).ops@),
            final(ctx).wf(),
            final(ctx).module_name == old(ctx).module_name,
            r is Err ==> final(ctx).state().values == old(ctx).state().values,
            r is Err ==> final(ctx).state().bbs == old(ctx).state().bbs,
            match r {
                Ok(h) => alias_step(types.named_structs@, old(ctx).state(), *self) == Ok::<CtxState, ConvertError>(final(ctx).state())
                    && final(ctx).state().values[self.name.key()] == h,
                Err(e) => alias_step(types.named_structs@, old(ctx).state(), *self) == Err::<CtxState, ConvertError>(e),
            },
    {
        reveal(alias_step);
        let defs = &types.named_structs;
        let n = ctx.ops.len();
        if let Err(e) = emit_type_top(defs, &mut ctx.ops, &self.ty) {
            ctx.discard_from(n);
            assert(ctx.ops@ =~= old(ctx).ops@);
            return Err(e);
        }
        if let Err(e) = emit_const(defs, &ctx.value_map, &mut ctx.ops, &self.aliasee) {
            ctx.discard_from(n);
            assert(ctx.ops@ =~= old(ctx).ops@);
            return Err(e);
        }
        let h = ctx.ops.len();
        ctx.ops.push(Op::AddAlias(self.name.clone_name()));
        push_attrs(ctx, h, &self.linkage, &self.visibility);
        ctx.insert_value(self.name.clone_name(), h);
        Ok(h)
    }
}

impl GlobalIFunc {
    /// Indirect functions are not converted: this always fails, and leaves
    /// the context as it was.
    pub fn to_llvm(&self, ctx: &mut ToLLVMContext, types: &Types) -> (r: Result<usize, ConvertError>)
        ensures
            extends(final(ctx).ops@, old(ctx).ops@),
            *final(ctx) == *old(ctx),
            r == Err::<usize, ConvertError>(ConvertError::GlobalIFuncUnsupported),
    {
        Err(ConvertError::GlobalIFuncUnsupported)
    }
}

impl FunctionDeclaration {
    /// Appends to the context's program the operations that declare this
    /// function, with its attributes and those of its result and
    /// parameters, binds its name, and returns its handle.
    /// A failed conversion leaves the context as it was.
    pub fn to_llvm(&self, ctx: &mut ToLLVMContext, types: &Types) -> (r: Result<usize, ConvertError>)
        requires
            old(ctx).wf(),
        ensures
            r is Err ==> final(ctx).ops@ == old(ctx).ops@,
            extends(final(ctx).ops@, old(ctx).ops@),
            final(ctx).wf(),
            final(ctx).module_name == old(ctx).module_name,
            r is Err ==> final(ctx).state().values == old(ctx).state().values,
            r is Err ==> final(ctx).state().bbs == old(ctx).state().bbs,
            match r {
                Ok(h) => decl_step(types.named_structs@, old(ctx).state(), *self) == Ok::<CtxState, ConvertError>(final(ctx).state())
                    && final(ctx).state().values[NameKey::Text(self.name@)] == h,
                Err(e) => decl_step(types.named_structs@, old(ctx).state(), *self) == Err::<CtxState, ConvertError>(e),
            },
    {
        reveal(decl_step);
        let n = ctx.ops.len();
        if let Err(e) = emit_fn_type(ctx, types, &self.return_type, &self.parameters, self.is_var_arg) {
            ctx.discard_from(n);
            assert(ctx.ops@ =~= old(ctx).ops@);
            return Err(e);
        }
        let h = add_function(
            ctx,
            &self.name,
            &self.linkage,
            &self.visibility,
            &self.garbage_collector_name,
            &self.function_attributes,
            &self.return_attributes,
            &self.parameters,
        );
        Ok(h)
    }
}

impl Function {
    /// Appends to the context's program the operations that add this
    /// function, with its attributes and those of its result and
    /// parameters but without its body, binds its name, and returns its
    /// handle.
    /// A failed conversion leaves the context as it was.
    pub fn declare(&self, ctx: &mut ToLLVMContext, types: &Types) -> (r: Result<usize, ConvertError>)
        requires
            old(ctx).wf(),
        ensures
            r is Err ==> final(ctx).ops@ == old(ctx).ops@,
            extends(final(ctx).ops@, old(ctx).ops@),
            final(ctx).wf(),
            final(ctx).module_name == old(ctx).module_name,
            r is Err ==> final(ctx).state().values == old(ctx).state().values,
            r is Err ==> final(ctx).state().bbs == old(ctx).state().bbs,
            match r {
                Ok(h) => fn_decl_step(types.named_structs@, old(ctx).state(), *self) == Ok::<CtxState, ConvertError>(final(ctx).state())
                    && h == function_handle(types.named_structs@, old(ctx).ops@, *self)
                    && final(ctx).state().values[NameKey::Text(self.name@)] == h,
                Err(e) => fn_decl_step(types.named_structs@, old(ctx).state(), *self) == Err::<CtxState, ConvertError>(e),
            },
    {
        let n = ctx.ops.len();
        if let Err(e) = emit_fn_type(ctx, types, &self.return_type, &self.parameters, self.is_var_arg) {
            ctx.discard_from(n);
            assert(ctx.ops@ =~= old(ctx).ops@);
            return Err(e);
        }
        let h = add_function(
            ctx,
            &self.name,
            &self.linkage,
            &self.visibility,
            &self.garbage_collector_name,
            &self.function_attributes,
            &self.return_attributes,
            &self.parameters,
        );
        Ok(h)
    }

    /// Appends to the context's program the operations that build this
    /// function's body, if it has basic blocks; the function must have been
    /// added under its name. Its blocks and parameters are bound to their
    /// names, and so are the results of its instructions.
    pub fn build_body(&self, ctx: &mut ToLLVMContext, types: &Types) -> (r: Result<(), ConvertError>)
        requires
            old(ctx).wf(),
        ensures
            extends(final(ctx).ops@, old(ctx).ops@),
            final(ctx).wf(),
            final(ctx).module_name == old(ctx).module_name,
            match r {
                Ok(_) => fn_body_step(types.named_structs@, old(ctx).state(), *self) == Ok::<CtxState, ConvertError>(final(ctx).state()),
                Err(e) => fn_body_step(types.named_structs@, old(ctx).state(), *self) == Err::<CtxState, ConvertError>(e),
            },
    {
        reveal(fn_body_step);
        if self.basic_blocks.len() == 0 {
            return Ok(());
        }
        let fname = Name::Name(Box::new(self.name.clone()));
        let f = match ctx.value_map.get(&fname) {
            Some(h) => h,
            None => {
                return Err(ConvertError::GlobalReferenceNotFound(fname));
            },
        };
        if f >= ctx.ops.len() {
            return Err(ConvertError::GlobalReferenceNotFound(fname));
        }
        let is_function = match &ctx.ops[f] {
            Op::AddFunction(_) => true,
            _ => false,
        };
        if !is_function {
            return Err(ConvertError::GlobalReferenceNotFound(fname));
        }
        let ghost st1 = ctx.state();
        let mut i: usize = 0;
        while i < self.basic_blocks.len()
            invariant
                extends(ctx.ops@, old(ctx).ops@),
                i <= self.basic_blocks@.len(),
                ctx.wf(),
                ctx.module_name == old(ctx).module_name,
                blocks_step(st1, f, self.basic_blocks@, 0) == blocks_step(ctx.state(), f, self.basic_blocks@, i as int),
            decreases self.basic_blocks@.len() - i,
        {
            let h = ctx.ops.len();
            ctx.ops.push(Op::AppendBasicBlock { function: f, name: self.basic_blocks[i].name.clone_name() });
            ctx.insert_bb(self.basic_blocks[i].name.clone_name(), h);
            i = i + 1;
        }
        let ghost st2 = ctx.state();
        assert(st2 == blocks_step(st1, f, self.basic_blocks@, 0));
        let mut j: usize = 0;
        while j < self.parameters.len()
            invariant
                extends(ctx.ops@, old(ctx).ops@),
                j <= self.parameters@.len(),
                ctx.wf(),
                ctx.module_name == old(ctx).module_name,
                params_step(st2, f, self.parameters@, 0) == params_step(ctx.state(), f, self.parameters@, j as int),
            decreases self.parameters@.len() - j,
        {
            let h = ctx.ops.len();
            ctx.ops.push(Op::GetParam { function: f, index: j as u32 });
            ctx.insert_value(self.parameters[j].name.clone_name(), h);
            j = j + 1;
        }
        let ghost st3 = ctx.state();
        assert(st3 == params_step(st2, f, self.parameters@, 0));
        let mut k: usize = 0;
        while k < self.basic_blocks.len()
            invariant
                extends(ctx.ops@, old(ctx).ops@),
                k <= self.basic_blocks@.len(),
                ctx.wf(),
                ctx.module_name == old(ctx).module_name,
                fn_body_step(types.named_structs@, old(ctx).state(), *self)
                    == (match bodies_step(types.named_structs@, st3, self.basic_blocks@, 0) {
                        Ok(st4) => phis_step(types.named_structs@, st4, self.basic_blocks@, 0),
                        Err(e) => Err(e),
                    }),
                bodies_step(types.named_structs@, st3, self.basic_blocks@, 0)
                    == bodies_step(types.named_structs@, ctx.state(), self.basic_blocks@, k as int),
            decreases self.basic_blocks@.len() - k,
        {
            let ghost stk = ctx.state();
            let r = self.basic_blocks[k].to_llvm(ctx, types);
            if let Err(e) = r {
                assert(bodies_step(types.named_structs@, stk, self.basic_blocks@, k as int) == Err::<CtxState, ConvertError>(e));
                return Err(e);
            }
            k = k + 1;
        }
        let ghost st4 = ctx.state();
        assert(bodies_step(types.named_structs@, st3, self.basic_blocks@, 0) == Ok::<CtxState, ConvertError>(st4));
        let mut q: usize = 0;
        while q < self.basic_blocks.len()
            invariant
                extends(ctx.ops@, old(ctx).ops@),
                q <= self.basic_blocks@.len(),
                ctx.wf(),
                ctx.module_name == old(ctx).module_name,
                fn_body_step(types.named_structs@, old(ctx).state(), *self)
                    == phis_step(types.named_structs@, st4, self.basic_blocks@, 0),
                phis_step(types.named_structs@, st4, self.basic_blocks@, 0)
                    == phis_step(types.named_structs@, ctx.state(), self.basic_blocks@, q as int),
            decreases self.basic_blocks@.len() - q,
        {
            let ghost stq = ctx.state();
            let r = self.basic_blocks[q].fill_phis(ctx, types);
            if let Err(e) = r {
                assert(phis_step(types.named_structs@, stq, self.basic_blocks@, q as int) == Err::<CtxState, ConvertError>(e));
                return Err(e);
            }
            q = q + 1;
        }
        Ok(())
    }

    /// Appends to the context's program the operations that add this
    /// function and build its body, and returns its handle. A function that
    /// fails to convert leaves the context as it was.
    pub fn to_llvm(&self, ctx: &mut ToLLVMContext, types: &Types) -> (r: Result<usize, ConvertError>)
        requires
            old(ctx).wf(),
        ensures
            r is Err ==> final(ctx).ops@ == old(ctx).ops@,
            r is Err ==> final(ctx).state().values == old(ctx).state().values,
            r is Err ==> final(ctx).state().bbs == old(ctx).state().bbs,
            extends(final(ctx).ops@, old(ctx).ops@),
            final(ctx).wf(),
            final(ctx).module_name == old(ctx).module_name,
            match r {
                Ok(h) => function_step(types.named_structs@, old(ctx).state(), *self) == Ok::<CtxState, ConvertError>(final(ctx).state())
                    && h == function_handle(types.named_structs@, old(ctx).ops@, *self),
                Err(e) => function_step(types.named_structs@, old(ctx).state(), *self) == Err::<CtxState, ConvertError>(e),
            },
    {
        let n = ctx.ops.len();
        let saved = ctx.value_map.copy();
        let saved_bbs = ctx.bb_map.copy();
        let h = self.declare(ctx, types)?;
        if let Err(e) = self.build_body(ctx, types) {
            ctx.value_map = saved;
            ctx.bb_map = saved_bbs;
            ctx.discard_from(n);
            assert(ctx.ops@ =~= old(ctx).ops@);
            return Err(e);
        }
        Ok(h)
    }
}

/// Adds the global variables, in order, without initializers.
fn declare_globals(ctx: &mut ToLLVMContext, types: &Types, items: &Vec<GlobalVariable>) -> (r: Result<(), ConvertError>)
    requires
        old(ctx).wf(),
    ensures
        extends(final(ctx).ops@, old(ctx).ops@),
        final(ctx).wf(),
        final(ctx).module_name == old(ctx).module_name,
        match r {
            Ok(_) => global_decls_step(types.named_structs@, old(ctx).state(), items@, 0) == Ok::<CtxState, ConvertError>(final(ctx).state()),
            Err(e) => global_decls_step(types.named_structs@, old(ctx).state(), items@, 0) == Err::<CtxState, ConvertError>(e),
        },
{
    let ghost defs = types.named_structs@;
    let mut i: usize = 0;
    while i < items.len()
        invariant
            extends(ctx.ops@, old(ctx).ops@),
            i <= items@.len(),
            ctx.wf(),
            ctx.module_name == old(ctx).module_name,
            defs == types.named_structs@,
            global_decls_step(defs, old(ctx).state(), items@, 0) == global_decls_step(defs, ctx.state(), items@, i as int),
        decreases items@.len() - i,
    {
        let ghost sti = ctx.state();
        let r = items[i].declare(ctx, types);
        if let Err(e) = r {
            assert(global_decls_step(defs, sti, items@, i as int) == Err::<CtxState, ConvertError>(e));
            return Err(e);
        }
        i = i + 1;
    }
    Ok(())
}

/// Adds the declared functions, in order.
fn declare_functions(ctx: &mut ToLLVMContext, types: &Types, items: &Vec<FunctionDeclaration>) -> (r: Result<(), ConvertError>)
    requires
        old(ctx).wf(),
    ensures
        extends(final(ctx).ops@, old(ctx).ops@),
        final(ctx).wf(),
        final(ctx).module_name == old(ctx).module_name,
        match r {
            Ok(_) => decls_step(types.named_structs@, old(ctx).state(), items@, 0) == Ok::<CtxState, ConvertError>(final(ctx).state()),
            Err(e) => decls_step(types.named_structs@, old(ctx).state(), items@, 0) == Err::<CtxState, ConvertError>(e),
        },
{
    let ghost defs = types.named_structs@;
    let mut i: usize = 0;
    while i < items.len()
        invariant
            extends(ctx.ops@, old(ctx).ops@),
            i <= items@.len(),
            ctx.wf(),
            ctx.module_name == old(ctx).module_name,
            defs == types.named_structs@,
            decls_step(defs, old(ctx).state(), items@, 0) == decls_step(defs, ctx.state(), items@, i as int),
        decreases items@.len() - i,
    {
        let ghost sti = ctx.state();
        let r = items[i].to_llvm(ctx, types);
        if let Err(e) = r {
            assert(decls_step(defs, sti, items@, i as int) == Err::<CtxState, ConvertError>(e));
            return Err(e);
        }
        i = i + 1;
    }
    Ok(())
}

/// Adds the functions that have bodies, in order, without the bodies.
fn declare_defined_functions(ctx: &mut ToLLVMContext, types: &Types, items: &Vec<Function>) -> (r: Result<(), ConvertError>)
    requires
        old(ctx).wf(),
    ensures
        extends(final(ctx).ops@, old(ctx).ops@),
        final(ctx).wf(),
        final(ctx).module_name == old(ctx).module_name,
        match r {
            Ok(_) => fn_decls_step(types.named_structs@, old(ctx).state(), items@, 0) == Ok::<CtxState, ConvertError>(final(ctx).state()),
            Err(e) => fn_decls_step(types.named_structs@, old(ctx).state(), items@, 0) == Err::<CtxState, ConvertError>(e),
        },
{
    let ghost defs = types.named_structs@;
    let mut i: usize = 0;
    while i < items.len()
        invariant
            extends(ctx.ops@, old(ctx).ops@),
            i <= items@.len(),
            ctx.wf(),
            ctx.module_name == old(ctx).module_name,
            defs == types.named_structs@,
            fn_decls_step(defs, old(ctx).state(), items@, 0) == fn_decls_step(defs, ctx.state(), items@, i as int),
        decreases items@.len() - i,
    {
        let ghost sti = ctx.state();
        let r = items[i].declare(ctx, types);
        if let Err(e) = r {
            assert(fn_decls_step(defs, sti, items@, i as int) == Err::<CtxState, ConvertError>(e));
            return Err(e);
        }
        i = i + 1;
    }
    Ok(())
}

/// Adds the aliases, in order.
fn add_aliases(ctx: &mut ToLLVMContext, types: &Types, items: &Vec<GlobalAlias>) -> (r: Result<(), ConvertError>)
    requires
        old(ctx).wf(),
    ensures
        extends(final(ctx).ops@, old(ctx).ops@),
        final(ctx).wf(),
        final(ctx).module_name == old(ctx).module_name,
        match r {
            Ok(_) => aliases_step(types.named_structs@, old(ctx).state(), items@, 0) == Ok::<CtxState, ConvertError>(final(ctx).state()),
            Err(e) => aliases_step(types.named_structs@, old(ctx).state(), items@, 0) == Err::<CtxState, ConvertError>(e),
        },
{
    let ghost defs = types.named_structs@;
    let mut i: usize = 0;
    while i < items.len()
        invariant
            extends(ctx.ops@, old(ctx).ops@),
            i <= items@.len(),
            ctx.wf(),
            ctx.module_name == old(ctx).module_name,
            defs == types.named_structs@,
            aliases_step(defs, old(ctx).state(), items@, 0) == aliases_step(defs, ctx.state(), items@, i as int),
        decreases items@.len() - i,
    {
        let ghost sti = ctx.state();
        let r = items[i].to_llvm(ctx, types);
        if let Err(e) = r {
            assert(aliases_step(defs, sti, items@, i as int) == Err::<CtxState, ConvertError>(e));
            return Err(e);
        }
        i = i + 1;
    }
    Ok(())
}

/// Sets the initializers of the global variables, in order.
fn set_initializers(ctx: &mut ToLLVMContext, types: &Types, items: &Vec<GlobalVariable>) -> (r: Result<(), ConvertError>)
    requires
        old(ctx).wf(),
    ensures
        extends(final(ctx).ops@, old(ctx).ops@),
        final(ctx).wf(),
        final(ctx).module_name == old(ctx).module_name,
        match r {
            Ok(_) => global_inits_step(types.named_structs@, old(ctx).state(), items@, 0) == Ok::<CtxState, ConvertError>(final(ctx).state()),
            Err(e) => global_inits_step(types.named_structs@, old(ctx).state(), items@, 0) == Err::<CtxState, ConvertError>(e),
        },
{
    let ghost defs = types.named_structs@;
    let mut i: usize = 0;
    while i < items.len()
        invariant
            extends(ctx.ops@, old(ctx).ops@),
            i <= items@.len(),
            ctx.wf(),
            ctx.module_name == old(ctx).module_name,
            defs == types.named_structs@,
            global_inits_step(defs, old(ctx).state(), items@, 0) == global_inits_step(defs, ctx.state(), items@, i as int),
        decreases items@.len() - i,
    {
        let ghost sti = ctx.state();
        let r = items[i].set_initializer(ctx, types);
        if let Err(e) = r {
            assert(global_inits_step(defs, sti, items@, i as int) == Err::<CtxState, ConvertError>(e));
            return Err(e);
        }
        i = i + 1;
    }
    Ok(())
}

/// Builds the bodies of the functions, in order.
fn build_bodies(ctx: &mut ToLLVMContext, types: &Types, items: &Vec<Function>) -> (r: Result<(), ConvertError>)
    requires
        old(ctx).wf(),
    ensures
        extends(final(ctx).ops@, old(ctx).ops@),
        final(ctx).wf(),
        final(ctx).module_name == old(ctx).module_name,
        match r {
            Ok(_) => fn_bodies_step(types.named_structs@, old(ctx).state(), items@, 0) == Ok::<CtxState, ConvertError>(final(ctx).state()),
            Err(e) => fn_bodies_step(types.named_structs@, old(ctx).state(), items@, 0) == Err::<CtxState, ConvertError>(e),
        },
{
    let ghost defs = types.named_structs@;
    let mut i: usize = 0;
    while i < items.len()
        invariant
            extends(ctx.ops@, old(ctx).ops@),
            i <= items@.len(),
            ctx.wf(),
            ctx.module_name == old(ctx).module_name,
            defs == types.named_structs@,
            fn_bodies_step(defs, old(ctx).state(), items@, 0) == fn_bodies_step(defs, ctx.state(), items@, i as int),
        decreases items@.len() - i,
    {
        let ghost sti = ctx.state();
        let r = items[i].build_body(ctx, types);
        if let Err(e) = r {
            assert(fn_bodies_step(defs, sti, items@, i as int) == Err::<CtxState, ConvertError>(e));
            return Err(e);
        }
        i = i + 1;
    }
    Ok(())
}

/// Adds the global variables, without initializers, one by one, leaving out each one whose addition fails;
/// returns, item by item, the error of each one's addition.
fn try_declare_globals(ctx: &mut ToLLVMContext, types: &Types, items: &Vec<GlobalVariable>) -> (errs: Vec<Option<ConvertError>>)
    requires
        old(ctx).wf(),
    ensures
        final(ctx).wf(),
        final(ctx).module_name == old(ctx).module_name,
        errs@.len() == items@.len(),
        (final(ctx).state(), errs@) == try_global_decls(types.named_structs@, old(ctx).state(), items@, 0, Seq::empty()),
{
    let ghost defs = types.named_structs@;
    let mut errs: Vec<Option<ConvertError>> = Vec::new();
    let mut i: usize = 0;
    while i < items.len()
        invariant
            i <= items@.len(),
            errs@.len() == i,
            ctx.wf(),
            ctx.module_name == old(ctx).module_name,
            defs == types.named_structs@,
            try_global_decls(defs, old(ctx).state(), items@, 0, Seq::empty())
                == try_global_decls(defs, ctx.state(), items@, i as int, errs@),
        decreases items@.len() - i,
    {
        let ghost sti = ctx.state();
        match items[i].declare(ctx, types) {
            Ok(_) => {
                errs.push(None);
            },
            Err(e) => {
                assert(ctx.state() == sti);
                errs.push(Some(e));
            },
        }
        i = i + 1;
    }
    errs
}

/// Adds the declared functions one by one, leaving out each one whose addition fails;
/// returns, item by item, the error of each one's addition.
fn try_declare_functions(ctx: &mut ToLLVMContext, types: &Types, items: &Vec<FunctionDeclaration>) -> (errs: Vec<Option<ConvertError>>)
    requires
        old(ctx).wf(),
    ensures
        final(ctx).wf(),
        final(ctx).module_name == old(ctx).module_name,
        errs@.len() == items@.len(),
        (final(ctx).state(), errs@) == try_decls(types.named_structs@, old(ctx).state(), items@, 0, Seq::empty()),
{
    let ghost defs = types.named_structs@;
    let mut errs: Vec<Option<ConvertError>> = Vec::new();
    let mut i: usize = 0;
    while i < items.len()
        invariant
            i <= items@.len(),
            errs@.len() == i,
            ctx.wf(),
            ctx.module_name == old(ctx).module_name,
            defs == types.named_structs@,
            try_decls(defs, old(ctx).state(), items@, 0, Seq::empty())
                == try_decls(defs, ctx.state(), items@, i as int, errs@),
        decreases items@.len() - i,
    {
        let ghost sti = ctx.state();
        match items[i].to_llvm(ctx, types) {
            Ok(_) => {
                errs.push(None);
            },
            Err(e) => {
                assert(ctx.state() == sti);
                errs.push(Some(e));
            },
        }
        i = i + 1;
    }
    errs
}

/// Adds the functions, without bodies, one by one, leaving out each one whose addition fails;
/// returns, item by item, the error of each one's addition.
fn try_declare_defined_functions(ctx: &mut ToLLVMContext, types: &Types, items: &Vec<Function>) -> (errs: Vec<Option<ConvertError>>)
    requires
        old(ctx).wf(),
    ensures
        final(ctx).wf(),
        final(ctx).module_name == old(ctx).module_name,
        errs@.len() == items@.len(),
        (final(ctx).state(), errs@) == try_fn_decls(types.named_structs@, old(ctx).state(), items@, 0, Seq::empty()),
{
    let ghost defs = types.named_structs@;
    let mut errs: Vec<Option<ConvertError>> = Vec::new();
    let mut i: usize = 0;
    while i < items.len()
        invariant
            i <= items@.len(),
            errs@.len() == i,
            ctx.wf(),
            ctx.module_name == old(ctx).module_name,
            defs == types.named_structs@,
            try_fn_decls(defs, old(ctx).state(), items@, 0, Seq::empty())
                == try_fn_decls(defs, ctx.state(), items@, i as int, errs@),
        decreases items@.len() - i,
    {
        let ghost sti = ctx.state();
        match items[i].declare(ctx, types) {
            Ok(_) => {
                errs.push(None);
            },
            Err(e) => {
                assert(ctx.state() == sti);
                errs.push(Some(e));
            },
        }
        i = i + 1;
    }
    errs
}

/// Adds the aliases one by one, leaving out each one whose addition fails;
/// returns, item by item, the error of each one's addition.
fn try_add_aliases(ctx: &mut ToLLVMContext, types: &Types, items: &Vec<GlobalAlias>) -> (errs: Vec<Option<ConvertError>>)
    requires
        old(ctx).wf(),
    ensures
        final(ctx).wf(),
        final(ctx).module_name == old(ctx).module_name,
        errs@.len() == items@.len(),
        (final(ctx).state(), errs@) == try_aliases(types.named_structs@, old(ctx).state(), items@, 0, Seq::empty()),
{
    let ghost defs = types.named_structs@;
    let mut errs: Vec<Option<ConvertError>> = Vec::new();
    let mut i: usize = 0;
    while i < items.len()
        invariant
            i <= items@.len(),
            errs@.len() == i,
            ctx.wf(),
            ctx.module_name == old(ctx).module_name,
            defs == types.named_structs@,
            try_aliases(defs, old(ctx).state(), items@, 0, Seq::empty())
                == try_aliases(defs, ctx.state(), items@, i as int, errs@),
        decreases items@.len() - i,
    {
        let ghost sti = ctx.state();
        match items[i].to_llvm(ctx, types) {
            Ok(_) => {
                errs.push(None);
            },
            Err(e) => {
                assert(ctx.state() == sti);
                errs.push(Some(e));
            },
        }
        i = i + 1;
    }
    errs
}

/// The first error recorded in `errs`, if any.
fn first_recorded(errs: &Vec<Option<ConvertError>>) -> (r: Option<ConvertError>)
    ensures
        r == first_some(errs@, 0),
{
    let mut i: usize = 0;
    while i < errs.len()
        invariant
            i <= errs@.len(),
            first_some(errs@, 0) == first_some(errs@, i as int),
        decreases errs@.len() - i,
    {
        match &errs[i] {
            Some(e) => {
                return Some(e.copy());
            },
            None => {},
        }
        i = i + 1;
    }
    None
}

/// Sets the initializers of the global variables in order, stopping at the
/// first one whose addition (as recorded in `errs`) or initializer failed.
fn first_failing_init(ctx: &mut ToLLVMContext, types: &Types, gs: &Vec<GlobalVariable>, errs: &Vec<Option<ConvertError>>) -> (r: Result<(), ConvertError>)
    requires
        old(ctx).wf(),
        errs@.len() == gs@.len(),
    ensures
        final(ctx).wf(),
        final(ctx).module_name == old(ctx).module_name,
        match r {
            Ok(_) => first_init_error(types.named_structs@, old(ctx).state(), gs@, errs@, 0) == Ok::<CtxState, ConvertError>(final(ctx).state()),
            Err(e) => first_init_error(types.named_structs@, old(ctx).state(), gs@, errs@, 0) == Err::<CtxState, ConvertError>(e),
        },
{
    let ghost defs = types.named_structs@;
    let mut i: usize = 0;
    while i < gs.len()
        invariant
            i <= gs@.len(),
            errs@.len() == gs@.len(),
            ctx.wf(),
            ctx.module_name == old(ctx).module_name,
            defs == types.named_structs@,
            first_init_error(defs, old(ctx).state(), gs@, errs@, 0) == first_init_error(defs, ctx.state(), gs@, errs@, i as int),
        decreases gs@.len() - i,
    {
        match &errs[i] {
            Some(e) => {
                return Err(e.copy());
            },
            None => {},
        }
        gs[i].set_initializer(ctx, types)?;
        i = i + 1;
    }
    Ok(())
}

/// Builds the bodies of the functions in order, stopping at the first one
/// whose addition (as recorded in `errs`) or body failed.
fn first_failing_body(ctx: &mut ToLLVMContext, types: &Types, fs: &Vec<Function>, errs: &Vec<Option<ConvertError>>) -> (r: Result<(), ConvertError>)
    requires
        old(ctx).wf(),
        errs@.len() == fs@.len(),
    ensures
        final(ctx).wf(),
        final(ctx).module_name == old(ctx).module_name,
        match r {
            Ok(_) => first_body_error(types.named_structs@, old(ctx).state(), fs@, errs@, 0) == Ok::<CtxState, ConvertError>(final(ctx).state()),
            Err(e) => first_body_error(types.named_structs@, old(ctx).state(), fs@, errs@, 0) == Err::<CtxState, ConvertError>(e),
        },
{
    let ghost defs = types.named_structs@;
    let mut i: usize = 0;
    while i < fs.len()
        invariant
            i <= fs@.len(),
            errs@.len() == fs@.len(),
            ctx.wf(),
            ctx.module_name == old(ctx).module_name,
            defs == types.named_structs@,
            first_body_error(defs, old(ctx).state(), fs@, errs@, 0) == first_body_error(defs, ctx.state(), fs@, errs@, i as int),
        decreases fs@.len() - i,
    {
        match &errs[i] {
            Some(e) => {
                return Err(e.copy());
            },
            None => {},
        }
        fs[i].build_body(ctx, types)?;
        i = i + 1;
    }
    Ok(())
}

impl Module {
    /// A context for this module with its settings made.
    fn start(&self) -> (ctx: ToLLVMContext)
        ensures
            ctx.wf(),
            ctx.module_name@ == self.name@,
            ctx.state() == (CtxState { ops: metadata_ops(*self), ..empty_state() }),
    {
        let mut ctx = ToLLVMContext::new(self.name.as_str());
        ctx.ops.push(Op::SetSourceFileName(self.source_file_name.clone()));
        if !self.data_layout.layout_str.as_str().is_empty() {
            ctx.ops.push(Op::SetDataLayout(self.data_layout.layout_str.clone()));
        }
        match &self.target_triple {
            Some(t) => {
                ctx.ops.push(Op::SetTarget(t.clone()));
            },
            None => {},
        }
        if !self.inline_assembly.as_str().is_empty() {
            ctx.ops.push(Op::SetInlineAsm(self.inline_assembly.clone()));
        }
        ctx
    }

    /// The error this module is refused with when one of its global values
    /// cannot be added: that of its first item, in order, whose addition,
    /// initializer or body fails.
    fn first_error(&self) -> (e: ConvertError)
        ensures
            e == first_error(*self),
    {
        let mut ctx = self.start();
        let ge = try_declare_globals(&mut ctx, &self.types, &self.global_vars);
        let de = try_declare_functions(&mut ctx, &self.types, &self.func_declarations);
        let fe = try_declare_defined_functions(&mut ctx, &self.types, &self.functions);
        let ae = try_add_aliases(&mut ctx, &self.types, &self.global_aliases);
        if let Err(e) = first_failing_init(&mut ctx, &self.types, &self.global_vars, &ge) {
            return e;
        }
        if let Some(e) = first_recorded(&de) {
            return e;
        }
        if let Err(e) = first_failing_body(&mut ctx, &self.types, &self.functions, &fe) {
            return e;
        }
        match first_recorded(&ae) {
            Some(e) => e,
            None => ConvertError::GlobalIFuncUnsupported,
        }
    }

    /// The construction program that rebuilds this module through the LLVM
    /// C API, or why the module cannot be converted.
    pub fn to_llvm_module(&self) -> (r: Result<BuildPlan, ConvertError>)
        ensures
            match r {
                Ok(p) => {
                    &&& module_plan(*self) == Ok::<Seq<Op>, ConvertError>(p.ops@)
                    &&& p.module_name@ == self.name@
                    &&& marks(p.ops@) == module_marks(*self)
                    &&& refers_backward(p.ops@)
                    &&& replays(p.ops@)
                },
                Err(e) => module_plan(*self) == Err::<Seq<Op>, ConvertError>(e),
            },
    {
        let mut ctx = self.start();
        let ghost st0 = ctx.state();
        let declared = match declare_globals(&mut ctx, &self.types, &self.global_vars) {
            Err(_) => false,
            Ok(()) => match declare_functions(&mut ctx, &self.types, &self.func_declarations) {
                Err(_) => false,
                Ok(()) => match declare_defined_functions(&mut ctx, &self.types, &self.functions) {
                    Err(_) => false,
                    Ok(()) => add_aliases(&mut ctx, &self.types, &self.global_aliases).is_ok(),
                },
            },
        };
        if !declared {
            assert(module_decls(*self) is Err);
            return Err(self.first_error());
        }
        let ghost st4 = ctx.state();
        assert(module_decls(*self) == Ok::<CtxState, ConvertError>(st4));
        set_initializers(&mut ctx, &self.types, &self.global_vars)?;
        build_bodies(&mut ctx, &self.types, &self.functions)?;
        if self.global_ifuncs.len() > 0 {
            self.global_ifuncs[0].to_llvm(&mut ctx, &self.types)?;
        }
        proof {
            plan_declares_module(*self);
            plan_refers_backward(*self);
            plan_replays(*self);
            assert(ctx.ops.len() == ctx.ops@.len());
        }
        Ok(BuildPlan { module_name: ctx.module_name, ops: ctx.ops })
    }
}

} // verus!
