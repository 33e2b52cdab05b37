//! The state of a conversion: the construction program emitted so far, and
//! the handles made for value names and for basic block names.

use vstd::prelude::*;
use vstd::string::StringExecFns;
use crate::ir::{Name, NameKey};
use crate::name_map::NameMap;
use crate::plan::{CtxState, Op};

verus! {

/// Context of a conversion. Names are bound to the handles of the operations
/// that made their values (`value_map`) or their basic blocks (`bb_map`).
pub struct ToLLVMContext {
    /// The name of the module under construction.
    pub module_name: String,
    /// The operations emitted so far.
    pub ops: Vec<Op>,
    pub value_map: NameMap,
    pub bb_map: NameMap,
}

/// The handle bound to a name in a map of names, if any.
pub open spec fn lookup(m: Map<NameKey, usize>, n: Name) -> Option<usize> {
    if m.contains_key(n.key()) {
        Some(m[n.key()])
    } else {
        None
    }
}

/// The state after binding a value name to a handle.
pub open spec fn with_value(st: CtxState, n: Name, h: usize) -> CtxState {
    CtxState { values: st.values.insert(n.key(), h), ..st }
}

/// The state after binding a basic block name to a handle.
pub open spec fn with_bb(st: CtxState, n: Name, h: usize) -> CtxState {
    CtxState { bbs: st.bbs.insert(n.key(), h), ..st }
}

/// The state after appending an operation.
pub open spec fn with_op(st: CtxState, op: Op) -> CtxState {
    CtxState { ops: st.ops.push(op), ..st }
}

/// The bindings of value names and of block names are the same in two
/// states (the operations may differ).
pub open spec fn keeps_bindings(a: CtxState, b: CtxState) -> bool {
    a.values == b.values && a.bbs == b.bbs
}

/// The state of a conversion that has done nothing yet.
pub open spec fn empty_state() -> CtxState {
    CtxState {
        ops: Seq::empty(),
        values: Map::empty(),
        bbs: Map::empty(),
    }
}

impl ToLLVMContext {
    pub open spec fn wf(&self) -> bool {
        self.value_map.wf() && self.bb_map.wf()
    }

    pub open spec fn state(&self) -> CtxState {
        CtxState { ops: self.ops@, values: self.value_map.view(), bbs: self.bb_map.view() }
    }

    /// A context for building a module of the given name, with nothing built
    /// yet.
    pub fn new(module_name: &str) -> (r: Self)
        ensures
            r.wf(),
            r.module_name@ == module_name@,
            r.state() == empty_state(),
    {
        ToLLVMContext {
            module_name: String::from_str(module_name),
            ops: Vec::new(),
            value_map: NameMap::new(),
            bb_map: NameMap::new(),
        }
    }

    /// The handle of the value made for a name, if one was made. Nothing is
    /// inserted.
    pub fn get_or_insert_value(&mut self, name: &Name) -> (r: Option<usize>)
        requires
            old(self).wf(),
        ensures
            *final(self) == *old(self),
            r == lookup(old(self).state().values, *name),
    {
        self.value_map.get(name)
    }

    /// Binds a value name to the handle of the value made for it.
    pub fn insert_value(&mut self, name: Name, value: usize)
        requires
            old(self).wf(),
        ensures
            final(self).wf(),
            final(self).module_name == old(self).module_name,
            final(self).state() == with_value(old(self).state(), name, value),
    {
        self.value_map.insert(name, value);
    }

    /// The handle of the basic block made for a name, if one was made.
    pub fn get_bb(&self, name: &Name) -> (r: Option<usize>)
        requires
            self.wf(),
        ensures
            r == lookup(self.state().bbs, *name),
    {
        self.bb_map.get(name)
    }

    /// Binds a basic block name to the handle of the block made for it.
    pub fn insert_bb(&mut self, name: Name, bb: usize)
        requires
            old(self).wf(),
        ensures
            final(self).wf(),
            final(self).module_name == old(self).module_name,
            final(self).state() == with_bb(old(self).state(), name, bb),
    {
        self.bb_map.insert(name, bb);
    }

    /// Removes the operations from position `n` on: a conversion that fails
    /// takes back what it appended.
    pub fn discard_from(&mut self, n: usize)
        requires
            old(self).wf(),
            n <= old(self).ops@.len(),
        ensures
            final(self).wf(),
            final(self).module_name == old(self).module_name,
            final(self).value_map == old(self).value_map,
            final(self).bb_map == old(self).bb_map,
            final(self).ops@ == old(self).ops@.subrange(0, n as int),
    {
        self.ops.truncate(n);
    }

    /// Appends an operation and returns its handle.
    pub fn push_op(&mut self, op: Op) -> (h: usize)
        requires
            old(self).wf(),
        ensures
            final(self).wf(),
            final(self).module_name == old(self).module_name,
            h == old(self).ops@.len(),
            final(self).state() == with_op(old(self).state(), op),
    {
        let h = self.ops.len();
        self.ops.push(op);
        h
    }
}

/// What a name lookup gives back after a binding: the bound handle for the
/// bound name, and what it gave before for every other name. The same holds
/// of basic block names (`with_bb`).
pub proof fn lookup_after_insert(st: CtxState, n: Name, h: usize, m: Name)
    ensures
        lookup(with_value(st, n, h).values, m) == (if m.key() == n.key() {
            Some(h)
        } else {
            lookup(st.values, m)
        }),
        lookup(with_bb(st, n, h).bbs, m) == (if m.key() == n.key() {
            Some(h)
        } else {
            lookup(st.bbs, m)
        }),
        with_value(st, n, h).bbs == st.bbs,
        with_bb(st, n, h).values == st.values,
{
}

} // verus!
