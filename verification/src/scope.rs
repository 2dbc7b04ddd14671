//! Native closure scopes: the chain of captured-variable maps that a closure
//! resolves free names through, ending at module globals.
//!
//! Scopes are shared between closures and mutated through any of them, so
//! they live in an arena and a `NativeClosureScope` is a handle to one. A
//! scope's parent is always created before it, so every chain is finite.

use vstd::prelude::*;
use indexmap::IndexMap;
use std::collections::HashMap;
use crate::value::Value;
use crate::ordmap::{
    name_map_entries, entry_lookup, entry_insert, entry_index, lemma_entry_index, name_map_get,
    name_map_insert, name_map_len, name_map_get_index, name_map_set_index,
};
use crate::text::str_equal;

verus! {

broadcast use vstd::std_specs::hash::group_hash_axioms;

/// A handle to a closure scope of a `ScopeArena`.
#[derive(Clone, Copy, Debug, PartialEq, Eq, Structural)]
pub struct NativeClosureScope {
    pub id: usize,
}

/// A handle to a globals map of a `ScopeArena` (module globals owned by the
/// VM rather than by the host).
#[derive(Clone, Copy, Debug, PartialEq, Eq, Structural)]
pub struct GlobalsRef {
    pub id: usize,
}

/// What a scope chain ends in.
#[derive(Clone, Copy, Debug, PartialEq, Eq, Structural)]
pub enum ClosureParent {
    /// No parent (top-level function without context)
    NoParent,
    /// Parent is another native closure scope (nested closures)
    Native(NativeClosureScope),
    /// Terminal: module globals held by the host, by host handle
    HostGlobals(u64),
    /// Terminal: module globals held by the arena
    Globals(GlobalsRef),
}

struct ScopeData {
    captured: IndexMap<String, Value>,
    parent: ClosureParent,
    letrec_names: Vec<String>,
}

/// All closure scopes and VM-owned globals maps.
pub struct ScopeArena {
    scopes: Vec<ScopeData>,
    globals: Vec<IndexMap<String, Value>>,
}

/// Outcome of a lookup that may have to continue in host-held globals.
#[derive(Clone, Copy, Debug, PartialEq, Eq, Structural)]
pub enum HostLookup {
    Found(Value),
    NotFound,
    /// The chain ends in host globals (by handle) without a binding before.
    AskHost(u64),
}

/// Outcome of an assignment that may have to continue in host-held globals.
#[derive(Clone, Copy, Debug, PartialEq, Eq, Structural)]
pub enum HostStore {
    Stored,
    NotFound,
    /// The name is bound nowhere before the host globals (by handle); the
    /// host stores it when it holds the name.
    AskHost(u64),
}

/// The names of entries whose value is not `Nil`, in order.
pub open spec fn bound_keys(entries: Seq<(Seq<char>, Value)>) -> Seq<Seq<char>>
    decreases entries.len(),
{
    if entries.len() == 0 {
        Seq::empty()
    } else {
        let prev = bound_keys(entries.drop_last());
        if entries.last().1 == Value::Nil { prev } else { prev.push(entries.last().0) }
    }
}

/// The names of all entries, in order.
pub open spec fn all_keys(entries: Seq<(Seq<char>, Value)>) -> Seq<Seq<char>> {
    entries.map_values(|e: (Seq<char>, Value)| e.0)
}

/// The names of `m` (all of them, or those not bound to `Nil`), in order.
fn map_keys(m: &IndexMap<String, Value>, skip_nil: bool) -> (r: Vec<String>)
    ensures
        r@.map_values(|s: String| s@) == (if skip_nil { bound_keys(name_map_entries(*m)) } else { all_keys(name_map_entries(*m)) }),
{
    let ghost e = name_map_entries(*m);
    let n = name_map_len(m);
    let mut out: Vec<String> = Vec::new();
    let mut i: usize = 0;
    while i < n
        invariant
            n == e.len(),
            e == name_map_entries(*m),
            i <= n,
            out@.map_values(|s: String| s@) == (if skip_nil { bound_keys(e.subrange(0, i as int)) } else { all_keys(e.subrange(0, i as int)) }),
        decreases n - i,
    {
        let ghost before = out@.map_values(|s: String| s@);
        match name_map_get_index(m, i) {
            Some((k, v)) => {
                let keep = !(skip_nil && v.is_nil());
                if keep {
                    out.push(k);
                }
                proof {
                    assert(e.subrange(0, i + 1).drop_last() =~= e.subrange(0, i as int));
                    assert(e.subrange(0, i + 1).last() == e[i as int]);
                    if keep {
                        assert(out@.map_values(|s: String| s@) =~= before.push(e[i as int].0));
                    } else {
                        assert(out@.map_values(|s: String| s@) =~= before);
                    }
                    assert(all_keys(e.subrange(0, i + 1)) =~= all_keys(e.subrange(0, i as int)).push(e[i as int].0));
                }
            },
            None => {},
        }
        i = i + 1;
    }
    proof {
        assert(e.subrange(0, n as int) =~= e);
    }
    out
}

impl ScopeArena {
    pub closed spec fn num_scopes(&self) -> nat {
        self.scopes@.len()
    }

    pub closed spec fn num_globals(&self) -> nat {
        self.globals@.len()
    }

    /// Captured entries of scope `i`.
    pub closed spec fn captured(&self, i: int) -> Seq<(Seq<char>, Value)> {
        name_map_entries(self.scopes@[i].captured)
    }

    /// Parent of scope `i`.
    pub closed spec fn parent(&self, i: int) -> ClosureParent {
        self.scopes@[i].parent
    }

    /// Names bound by letrec in scope `i`.
    pub closed spec fn letrec(&self, i: int) -> Seq<Seq<char>> {
        self.scopes@[i].letrec_names@.map_values(|s: String| s@)
    }

    /// Entries of globals map `g`.
    pub closed spec fn globals_entries(&self, g: int) -> Seq<(Seq<char>, Value)> {
        name_map_entries(self.globals@[g])
    }

    /// A parent reference is valid in an arena of `n` scopes for a scope at
    /// index `i`: native parents come earlier, globals exist.
    pub open spec fn parent_ok(&self, p: ClosureParent, i: int) -> bool {
        match p {
            ClosureParent::Native(s) => (s.id as int) < i,
            ClosureParent::Globals(g) => (g.id as int) < self.num_globals(),
            _ => true,
        }
    }

    /// Every scope's parent is valid.
    pub open spec fn wf(&self) -> bool {
        forall|i: int| 0 <= i < self.num_scopes() ==> self.parent_ok(#[trigger] self.parent(i), i)
    }

    /// The scope handle refers to a scope of this arena.
    pub open spec fn has(&self, s: NativeClosureScope) -> bool {
        (s.id as int) < self.num_scopes()
    }

    /// Name resolution through the captured maps of scope `i` and its
    /// ancestors: a captured binding that is not `Nil` wins; a chain ending in
    /// arena globals yields their binding; one ending in host globals or
    /// nothing yields `None`.
    pub open spec fn spec_resolve(&self, i: int, name: Seq<char>) -> Option<Value>
        decreases i,
    {
        let c = entry_lookup(self.captured(i), name);
        if c.is_some() && c.unwrap() != Value::Nil {
            c
        } else {
            match self.parent(i) {
                ClosureParent::Native(p) => if 0 <= p.id < i { self.spec_resolve(p.id as int, name) } else { None },
                ClosureParent::Globals(g) => entry_lookup(self.globals_entries(g.id as int), name),
                _ => None,
            }
        }
    }

    /// Resolution through the captured maps only, stopping before any
    /// globals terminal.
    pub open spec fn spec_resolve_captured(&self, i: int, name: Seq<char>) -> Option<Value>
        decreases i,
    {
        let c = entry_lookup(self.captured(i), name);
        if c.is_some() && c.unwrap() != Value::Nil {
            c
        } else {
            match self.parent(i) {
                ClosureParent::Native(p) => if 0 <= p.id < i { self.spec_resolve_captured(p.id as int, name) } else { None },
                _ => None,
            }
        }
    }

    /// Resolution that reports when the host globals must be asked.
    pub open spec fn spec_resolve_host(&self, i: int, name: Seq<char>) -> HostLookup
        decreases i,
    {
        let c = entry_lookup(self.captured(i), name);
        if c.is_some() && c.unwrap() != Value::Nil {
            HostLookup::Found(c.unwrap())
        } else {
            match self.parent(i) {
                ClosureParent::Native(p) => if 0 <= p.id < i { self.spec_resolve_host(p.id as int, name) } else { HostLookup::NotFound },
                ClosureParent::Globals(g) => match entry_lookup(self.globals_entries(g.id as int), name) {
                    Some(v) => HostLookup::Found(v),
                    None => HostLookup::NotFound,
                },
                ClosureParent::HostGlobals(h) => HostLookup::AskHost(h),
                ClosureParent::NoParent => HostLookup::NotFound,
            }
        }
    }

    /// The scope whose captured map holds `name` first on the chain from `i`
    /// (a `Nil` binding counts), if any.
    pub open spec fn spec_binding_scope(&self, i: int, name: Seq<char>) -> Option<int>
        decreases i,
    {
        if entry_lookup(self.captured(i), name).is_some() {
            Some(i)
        } else {
            match self.parent(i) {
                ClosureParent::Native(p) => if 0 <= p.id < i { self.spec_binding_scope(p.id as int, name) } else { None },
                _ => None,
            }
        }
    }

    /// When resolution from scope `i` finds `name`, a scope on the chain
    /// binds it, or the chain ends at arena globals that hold it.
    pub proof fn lemma_found_is_bound(&self, i: int, name: Seq<char>)
        requires
            self.spec_resolve_host(i, name) is Found,
        ensures
            self.spec_binding_scope(i, name) is Some || (self.spec_terminal(i) matches ClosureParent::Globals(g)
                && entry_lookup(self.globals_entries(g.id as int), name) is Some),
        decreases i,
    {
        if entry_lookup(self.captured(i), name).is_none() {
            match self.parent(i) {
                ClosureParent::Native(p) => {
                    if 0 <= p.id < i {
                        self.lemma_found_is_bound(p.id as int, name);
                    }
                },
                _ => {},
            }
        }
    }

    /// The names the closure chain from scope `i` binds: each scope's names
    /// not bound to `Nil`, then those of the arena globals that end the
    /// chain (all of them).
    pub open spec fn chain_keys(&self, i: int) -> Seq<Seq<char>>
        decreases i,
    {
        let own = bound_keys(self.captured(i));
        match self.parent(i) {
            ClosureParent::Native(p) => if 0 <= p.id < i { own + self.chain_keys(p.id as int) } else { own },
            ClosureParent::Globals(g) => own + all_keys(self.globals_entries(g.id as int)),
            _ => own,
        }
    }

    /// The terminal reached from scope `i` by following native parents.
    pub open spec fn spec_terminal(&self, i: int) -> ClosureParent
        decreases i,
    {
        match self.parent(i) {
            ClosureParent::Native(p) => if 0 <= p.id < i { self.spec_terminal(p.id as int) } else { ClosureParent::NoParent },
            other => other,
        }
    }

    /// An empty arena.
    pub fn new() -> (r: ScopeArena)
        ensures
            r.wf(),
            r.num_scopes() == 0,
            r.num_globals() == 0,
    {
        ScopeArena { scopes: Vec::new(), globals: Vec::new() }
    }

    /// Adds a globals map owned by the arena.
    pub fn new_globals(&mut self, map: IndexMap<String, Value>) -> (r: GlobalsRef)
        requires
            old(self).wf(),
        ensures
            final(self).wf(),
            r.id == old(self).num_globals(),
            final(self).num_globals() == old(self).num_globals() + 1,
            final(self).globals_entries(r.id as int) == name_map_entries(map),
            forall|g: int| 0 <= g < old(self).num_globals() ==> final(self).globals_entries(g) == old(self).globals_entries(g),
            final(self).num_scopes() == old(self).num_scopes(),
            forall|i: int| 0 <= i < old(self).num_scopes() ==> final(self).captured(i) == old(self).captured(i)
                && final(self).parent(i) == old(self).parent(i) && final(self).letrec(i) == old(self).letrec(i),
    {
        let id = self.globals.len();
        self.globals.push(map);
        assert forall|i: int| 0 <= i < self.num_scopes() implies self.parent_ok(#[trigger] self.parent(i), i) by {
            assert(old(self).parent_ok(old(self).parent(i), i));
        }
        GlobalsRef { id }
    }

    /// The binding of `name` in globals map `g`.
    pub fn globals_get(&self, g: GlobalsRef, name: &str) -> (r: Option<Value>)
        requires
            (g.id as int) < self.num_globals(),
        ensures
            r == entry_lookup(self.globals_entries(g.id as int), name@),
    {
        name_map_get(&self.globals[g.id], name)
    }

    /// Binds `name` in globals map `g`; returns the previous binding.
    pub fn globals_insert(&mut self, g: GlobalsRef, name: String, value: Value) -> (r: Option<Value>)
        requires
            old(self).wf(),
            (g.id as int) < old(self).num_globals(),
        ensures
            final(self).wf(),
            r == entry_lookup(old(self).globals_entries(g.id as int), name@),
            final(self).globals_entries(g.id as int) == entry_insert(old(self).globals_entries(g.id as int), name@, value),
            final(self).num_globals() == old(self).num_globals(),
            forall|h: int| 0 <= h < old(self).num_globals() && h != g.id ==> final(self).globals_entries(h) == old(self).globals_entries(h),
            final(self).num_scopes() == old(self).num_scopes(),
            forall|i: int| 0 <= i < old(self).num_scopes() ==> final(self).captured(i) == old(self).captured(i)
                && final(self).parent(i) == old(self).parent(i) && final(self).letrec(i) == old(self).letrec(i),
    {
        let mut map = crate::ordmap::name_map_new();
        std::mem::swap(&mut self.globals[g.id], &mut map);
        let r = name_map_insert(&mut map, name, value);
        self.globals.set(g.id, map);
        assert forall|i: int| 0 <= i < self.num_scopes() implies self.parent_ok(#[trigger] self.parent(i), i) by {
            assert(old(self).parent_ok(old(self).parent(i), i));
        }
        r
    }
}

impl NativeClosureScope {
    /// Creates a scope with the given captured bindings and parent.
    pub fn new(arena: &mut ScopeArena, captured: IndexMap<String, Value>, parent: ClosureParent) -> (r: Self)
        requires
            old(arena).wf(),
            old(arena).parent_ok(parent, old(arena).num_scopes() as int),
        ensures
            final(arena).wf(),
            r.id == old(arena).num_scopes(),
            final(arena).num_scopes() == old(arena).num_scopes() + 1,
            final(arena).captured(r.id as int) == name_map_entries(captured),
            final(arena).parent(r.id as int) == parent,
            final(arena).letrec(r.id as int) == Seq::<Seq<char>>::empty(),
            final(arena).num_globals() == old(arena).num_globals(),
            forall|g: int| 0 <= g < old(arena).num_globals() ==> final(arena).globals_entries(g) == old(arena).globals_entries(g),
            forall|i: int| 0 <= i < old(arena).num_scopes() ==> final(arena).captured(i) == old(arena).captured(i)
                && final(arena).parent(i) == old(arena).parent(i) && final(arena).letrec(i) == old(arena).letrec(i),
    {
        let id = arena.scopes.len();
        arena.scopes.push(ScopeData { captured, parent, letrec_names: Vec::new() });
        let r = NativeClosureScope { id };
        assert(arena.letrec(r.id as int) =~= Seq::<Seq<char>>::empty());
        assert forall|i: int| 0 <= i < arena.num_scopes() implies arena.parent_ok(#[trigger] arena.parent(i), i) by {
            if i < old(arena).num_scopes() {
                assert(old(arena).parent_ok(old(arena).parent(i), i));
            }
        }
        r
    }

    /// A scope whose parent is another native scope.
    pub fn with_native_parent(
        arena: &mut ScopeArena,
        captured: IndexMap<String, Value>,
        parent: NativeClosureScope,
    ) -> (r: Self)
        requires
            old(arena).wf(),
            old(arena).has(parent),
        ensures
            final(arena).wf(),
            r.id == old(arena).num_scopes(),
            final(arena).num_scopes() == old(arena).num_scopes() + 1,
            final(arena).captured(r.id as int) == name_map_entries(captured),
            final(arena).parent(r.id as int) == ClosureParent::Native(parent),
            forall|i: int| 0 <= i < old(arena).num_scopes() ==> final(arena).captured(i) == old(arena).captured(i)
                && final(arena).parent(i) == old(arena).parent(i) && final(arena).letrec(i) == old(arena).letrec(i),
    {
        NativeClosureScope::new(arena, captured, ClosureParent::Native(parent))
    }

    /// A scope whose chain ends in host-held module globals.
    pub fn with_py_globals(arena: &mut ScopeArena, captured: IndexMap<String, Value>, globals: u64) -> (r: Self)
        requires
            old(arena).wf(),
        ensures
            final(arena).wf(),
            r.id == old(arena).num_scopes(),
            final(arena).num_scopes() == old(arena).num_scopes() + 1,
            final(arena).captured(r.id as int) == name_map_entries(captured),
            final(arena).parent(r.id as int) == ClosureParent::HostGlobals(globals),
            forall|i: int| 0 <= i < old(arena).num_scopes() ==> final(arena).captured(i) == old(arena).captured(i)
                && final(arena).parent(i) == old(arena).parent(i) && final(arena).letrec(i) == old(arena).letrec(i),
    {
        NativeClosureScope::new(arena, captured, ClosureParent::HostGlobals(globals))
    }

    /// A scope without parent.
    pub fn without_parent(arena: &mut ScopeArena, captured: IndexMap<String, Value>) -> (r: Self)
        requires
            old(arena).wf(),
        ensures
            final(arena).wf(),
            r.id == old(arena).num_scopes(),
            final(arena).num_scopes() == old(arena).num_scopes() + 1,
            final(arena).captured(r.id as int) == name_map_entries(captured),
            final(arena).parent(r.id as int) == ClosureParent::NoParent,
            forall|i: int| 0 <= i < old(arena).num_scopes() ==> final(arena).captured(i) == old(arena).captured(i)
                && final(arena).parent(i) == old(arena).parent(i) && final(arena).letrec(i) == old(arena).letrec(i),
    {
        NativeClosureScope::new(arena, captured, ClosureParent::NoParent)
    }

    /// A scope whose chain ends in arena-owned globals.
    pub fn with_rust_globals(arena: &mut ScopeArena, captured: IndexMap<String, Value>, globals: GlobalsRef) -> (r: Self)
        requires
            old(arena).wf(),
            (globals.id as int) < old(arena).num_globals(),
        ensures
            final(arena).wf(),
            r.id == old(arena).num_scopes(),
            final(arena).num_scopes() == old(arena).num_scopes() + 1,
            final(arena).captured(r.id as int) == name_map_entries(captured),
            final(arena).parent(r.id as int) == ClosureParent::Globals(globals),
            forall|i: int| 0 <= i < old(arena).num_scopes() ==> final(arena).captured(i) == old(arena).captured(i)
                && final(arena).parent(i) == old(arena).parent(i) && final(arena).letrec(i) == old(arena).letrec(i),
    {
        NativeClosureScope::new(arena, captured, ClosureParent::Globals(globals))
    }

    /// Identity comparison (same underlying scope).
    pub fn ptr_eq(&self, other: &Self) -> (r: bool)
        ensures
            r == (self.id == other.id),
    {
        self.id == other.id
    }

    /// Binds `name` directly in this scope's captured map (letrec binding),
    /// whatever the parent chain holds, and marks it as a letrec entry.
    pub fn insert_captured(&self, arena: &mut ScopeArena, name: &str, value: Value)
        requires
            old(arena).wf(),
            old(arena).has(*self),
        ensures
            final(arena).wf(),
            final(arena).num_scopes() == old(arena).num_scopes(),
            final(arena).num_globals() == old(arena).num_globals(),
            final(arena).captured(self.id as int) == entry_insert(old(arena).captured(self.id as int), name@, value),
            final(arena).letrec(self.id as int) == old(arena).letrec(self.id as int).push(name@),
            final(arena).parent(self.id as int) == old(arena).parent(self.id as int),
            forall|i: int| 0 <= i < old(arena).num_scopes() && i != self.id ==> final(arena).captured(i) == old(arena).captured(i)
                && final(arena).parent(i) == old(arena).parent(i) && final(arena).letrec(i) == old(arena).letrec(i),
            forall|g: int| 0 <= g < old(arena).num_globals() ==> final(arena).globals_entries(g) == old(arena).globals_entries(g),
    {
        let mut data = ScopeData {
            captured: crate::ordmap::name_map_new(),
            parent: ClosureParent::NoParent,
            letrec_names: Vec::new(),
        };
        std::mem::swap(&mut arena.scopes[self.id], &mut data);
        name_map_insert(&mut data.captured, name.to_owned(), value);
        data.letrec_names.push(name.to_owned());
        arena.scopes.set(self.id, data);
        assert(arena.letrec(self.id as int) =~= old(arena).letrec(self.id as int).push(name@));
        assert forall|i: int| 0 <= i < arena.num_scopes() implies arena.parent_ok(#[trigger] arena.parent(i), i) by {
            assert(old(arena).parent_ok(old(arena).parent(i), i));
        }
    }

    /// Whether `name` was bound in this scope by letrec.
    pub fn is_letrec_entry(&self, arena: &ScopeArena, name: &str) -> (r: bool)
        requires
            arena.has(*self),
        ensures
            r == arena.letrec(self.id as int).contains(name@),
    {
        let names = &arena.scopes[self.id].letrec_names;
        let mut i: usize = 0;
        while i < names.len()
            invariant
                i <= names@.len(),
                names@ == arena.scopes@[self.id as int].letrec_names@,
                forall|j: int| 0 <= j < i ==> names@[j]@ != name@,
            decreases names@.len() - i,
        {
            if str_equal(names[i].as_str(), name) {
                assert(arena.letrec(self.id as int)[i as int] == name@);
                return true;
            }
            i = i + 1;
        }
        assert(!arena.letrec(self.id as int).contains(name@)) by {
            if arena.letrec(self.id as int).contains(name@) {
                let j = choose|j: int| 0 <= j < arena.letrec(self.id as int).len() && arena.letrec(self.id as int)[j] == name@;
                assert(names@[j]@ == name@);
            }
        }
        false
    }

    /// The names the closure chain from this scope binds (`chain_keys`).
    pub fn chain_names(&self, arena: &ScopeArena) -> (r: Vec<String>)
        requires
            arena.wf(),
            arena.has(*self),
        ensures
            r@.map_values(|s: String| s@) == arena.chain_keys(self.id as int),
        decreases self.id,
    {
        let mut out = map_keys(&arena.scopes[self.id].captured, true);
        let ghost own = out@.map_values(|s: String| s@);
        proof {
            assert(arena.parent_ok(arena.parent(self.id as int), self.id as int));
        }
        match arena.scopes[self.id].parent {
            ClosureParent::Native(p) => {
                let mut rest = p.chain_names(arena);
                let ghost rv = rest@.map_values(|s: String| s@);
                out.append(&mut rest);
                assert(out@.map_values(|s: String| s@) =~= own + rv);
            },
            ClosureParent::Globals(g) => {
                let mut rest = map_keys(&arena.globals[g.id], false);
                let ghost rv = rest@.map_values(|s: String| s@);
                out.append(&mut rest);
                assert(out@.map_values(|s: String| s@) =~= own + rv);
            },
            _ => {},
        }
        out
    }

    /// All captured entries of this scope (not of its ancestors), in order.
    pub fn captured_entries(&self, arena: &ScopeArena) -> (r: Vec<(String, Value)>)
        requires
            arena.has(*self),
        ensures
            r@.map_values(|p: (String, Value)| (p.0@, p.1)) == arena.captured(self.id as int),
    {
        let m = &arena.scopes[self.id].captured;
        let n = name_map_len(m);
        let mut out: Vec<(String, Value)> = Vec::new();
        let mut i: usize = 0;
        while i < n
            invariant
                i <= n,
                n == name_map_entries(*m).len(),
                *m == arena.scopes@[self.id as int].captured,
                out@.map_values(|p: (String, Value)| (p.0@, p.1)) == name_map_entries(*m).subrange(0, i as int),
            decreases n - i,
        {
            let ghost before = out@;
            match name_map_get_index(m, i) {
                Some(p) => {
                    assert(p.0@ == name_map_entries(*m)[i as int].0 && p.1 == name_map_entries(*m)[i as int].1);
                    out.push(p);
                    assert(out@.map_values(|p: (String, Value)| (p.0@, p.1)) =~= before.map_values(
                        |p: (String, Value)| (p.0@, p.1),
                    ).push(name_map_entries(*m)[i as int]));
                },
                None => {},
            }
            i = i + 1;
            assert(out@.map_values(|p: (String, Value)| (p.0@, p.1)) =~= name_map_entries(*m).subrange(0, i as int));
        }
        assert(name_map_entries(*m).subrange(0, n as int) =~= name_map_entries(*m));
        out
    }

    /// Resolves `name` through this scope's chain without the host: `None`
    /// when unbound or when only host globals could bind it.
    pub fn resolve(&self, arena: &ScopeArena, name: &str) -> (r: Option<Value>)
        requires
            arena.wf(),
            arena.has(*self),
        ensures
            r == arena.spec_resolve(self.id as int, name@),
        decreases self.id,
    {
        let c = name_map_get(&arena.scopes[self.id].captured, name);
        match c {
            Some(v) => {
                if !v.is_nil() {
                    return Some(v);
                }
            },
            None => {},
        }
        proof {
            assert(arena.parent_ok(arena.parent(self.id as int), self.id as int));
        }
        match arena.scopes[self.id].parent {
            ClosureParent::Native(p) => p.resolve(arena, name),
            ClosureParent::Globals(g) => arena.globals_get(g, name),
            _ => None,
        }
    }

    /// Resolves `name` through the captured maps of this scope and every
    /// enclosing closure, stopping before the globals terminal.
    pub fn resolve_captured_chain(&self, arena: &ScopeArena, name: &str) -> (r: Option<Value>)
        requires
            arena.wf(),
            arena.has(*self),
        ensures
            r == arena.spec_resolve_captured(self.id as int, name@),
        decreases self.id,
    {
        let c = name_map_get(&arena.scopes[self.id].captured, name);
        match c {
            Some(v) => {
                if !v.is_nil() {
                    return Some(v);
                }
            },
            None => {},
        }
        proof {
            assert(arena.parent_ok(arena.parent(self.id as int), self.id as int));
        }
        match arena.scopes[self.id].parent {
            ClosureParent::Native(p) => p.resolve_captured_chain(arena, name),
            _ => None,
        }
    }

    /// Resolves `name`, reporting when the host-held globals must be asked.
    pub fn resolve_with_host(&self, arena: &ScopeArena, name: &str) -> (r: HostLookup)
        requires
            arena.wf(),
            arena.has(*self),
        ensures
            r == arena.spec_resolve_host(self.id as int, name@),
        decreases self.id,
    {
        let c = name_map_get(&arena.scopes[self.id].captured, name);
        match c {
            Some(v) => {
                if !v.is_nil() {
                    return HostLookup::Found(v);
                }
            },
            None => {},
        }
        proof {
            assert(arena.parent_ok(arena.parent(self.id as int), self.id as int));
        }
        match arena.scopes[self.id].parent {
            ClosureParent::Native(p) => p.resolve_with_host(arena, name),
            ClosureParent::Globals(g) => match arena.globals_get(g, name) {
                Some(v) => HostLookup::Found(v),
                None => HostLookup::NotFound,
            },
            ClosureParent::HostGlobals(h) => HostLookup::AskHost(h),
            ClosureParent::NoParent => HostLookup::NotFound,
        }
    }

    /// Assigns `name` in the first scope of the chain that binds it (a `Nil`
    /// binding counts), else in arena globals that bind it; reports when the
    /// host-held globals must be asked. Nothing is created.
    pub fn set_with_host(&self, arena: &mut ScopeArena, name: &str, value: Value) -> (r: HostStore)
        requires
            old(arena).wf(),
            old(arena).has(*self),
        ensures
            final(arena).wf(),
            final(arena).num_scopes() == old(arena).num_scopes(),
            final(arena).num_globals() == old(arena).num_globals(),
            forall|i: int| 0 <= i < old(arena).num_scopes() ==> final(arena).parent(i) == old(arena).parent(i)
                && final(arena).letrec(i) == old(arena).letrec(i),
            match old(arena).spec_binding_scope(self.id as int, name@) {
                Some(b) => r == HostStore::Stored
                    && final(arena).captured(b) == entry_insert(old(arena).captured(b), name@, value)
                    && (forall|i: int| 0 <= i < old(arena).num_scopes() && i != b ==> final(arena).captured(i) == old(arena).captured(i))
                    && (forall|g: int| 0 <= g < old(arena).num_globals() ==> final(arena).globals_entries(g) == old(arena).globals_entries(g)),
                None => (forall|i: int| 0 <= i < old(arena).num_scopes() ==> final(arena).captured(i) == old(arena).captured(i))
                    && match old(arena).spec_terminal(self.id as int) {
                        ClosureParent::Globals(g) => if entry_lookup(old(arena).globals_entries(g.id as int), name@).is_some() {
                            r == HostStore::Stored
                                && final(arena).globals_entries(g.id as int) == entry_insert(old(arena).globals_entries(g.id as int), name@, value)
                                && (forall|h: int| 0 <= h < old(arena).num_globals() && h != g.id ==> final(arena).globals_entries(h) == old(arena).globals_entries(h))
                        } else {
                            r == HostStore::NotFound
                                && (forall|h: int| 0 <= h < old(arena).num_globals() ==> final(arena).globals_entries(h) == old(arena).globals_entries(h))
                        },
                        ClosureParent::HostGlobals(h) => r == HostStore::AskHost(h)
                            && (forall|k: int| 0 <= k < old(arena).num_globals() ==> final(arena).globals_entries(k) == old(arena).globals_entries(k)),
                        _ => r == HostStore::NotFound
                            && (forall|k: int| 0 <= k < old(arena).num_globals() ==> final(arena).globals_entries(k) == old(arena).globals_entries(k)),
                    },
            },
        decreases self.id,
    {
        let c = name_map_get(&arena.scopes[self.id].captured, name);
        if c.is_some() {
            let mut data = ScopeData {
                captured: crate::ordmap::name_map_new(),
                parent: ClosureParent::NoParent,
                letrec_names: Vec::new(),
            };
            std::mem::swap(&mut arena.scopes[self.id], &mut data);
            name_map_insert(&mut data.captured, name.to_owned(), value);
            arena.scopes.set(self.id, data);
            assert forall|i: int| 0 <= i < arena.num_scopes() implies arena.parent_ok(#[trigger] arena.parent(i), i) by {
                assert(old(arena).parent_ok(old(arena).parent(i), i));
            }
            return HostStore::Stored;
        }
        proof {
            assert(arena.parent_ok(arena.parent(self.id as int), self.id as int));
        }
        match arena.scopes[self.id].parent {
            ClosureParent::Native(p) => p.set_with_host(arena, name, value),
            ClosureParent::Globals(g) => {
                if arena.globals_get(g, name).is_some() {
                    arena.globals_insert(g, name.to_owned(), value);
                    HostStore::Stored
                } else {
                    HostStore::NotFound
                }
            },
            ClosureParent::HostGlobals(h) => HostStore::AskHost(h),
            ClosureParent::NoParent => HostStore::NotFound,
        }
    }

    /// Replaces, in this scope's captured map only, each symbol found in
    /// `remap` by its image.
    pub fn remap_symbols(&self, arena: &mut ScopeArena, remap: &HashMap<u32, u32>)
        requires
            old(arena).wf(),
            old(arena).has(*self),
        ensures
            final(arena).wf(),
            final(arena).num_scopes() == old(arena).num_scopes(),
            final(arena).num_globals() == old(arena).num_globals(),
            final(arena).captured(self.id as int) == old(arena).captured(self.id as int).map_values(
                |p: (Seq<char>, Value)| (p.0, remapped_symbol(p.1, remap@)),
            ),
            final(arena).parent(self.id as int) == old(arena).parent(self.id as int),
            final(arena).letrec(self.id as int) == old(arena).letrec(self.id as int),
            forall|i: int| 0 <= i < old(arena).num_scopes() && i != self.id ==> final(arena).captured(i) == old(arena).captured(i)
                && final(arena).parent(i) == old(arena).parent(i) && final(arena).letrec(i) == old(arena).letrec(i),
            forall|g: int| 0 <= g < old(arena).num_globals() ==> final(arena).globals_entries(g) == old(arena).globals_entries(g),
    {
        let mut data = ScopeData {
            captured: crate::ordmap::name_map_new(),
            parent: ClosureParent::NoParent,
            letrec_names: Vec::new(),
        };
        std::mem::swap(&mut arena.scopes[self.id], &mut data);
        let ghost start = name_map_entries(data.captured);
        let n = name_map_len(&data.captured);
        let mut i: usize = 0;
        while i < n
            invariant
                arena.scopes@.len() == old(arena).scopes@.len(),
                forall|k: int| 0 <= k < arena.scopes@.len() && k != self.id ==> arena.scopes@[k] == old(arena).scopes@[k],
                arena.globals@ == old(arena).globals@,
                data.parent == old(arena).scopes@[self.id as int].parent,
                data.letrec_names@ == old(arena).scopes@[self.id as int].letrec_names@,
                self.id < arena.scopes@.len(),
                i <= n,
                n == start.len(),
                name_map_entries(data.captured).len() == n,
                forall|j: int| 0 <= j < n ==> #[trigger] name_map_entries(data.captured)[j] == (
                    if j < i { (start[j].0, remapped_symbol(start[j].1, remap@)) } else { start[j] }),
            decreases n - i,
        {
            match name_map_get_index(&data.captured, i) {
                Some((_, v)) => {
                    match v {
                        Value::Symbol(s) => {
                            match remap.get(&s) {
                                Some(t) => {
                                    name_map_set_index(&mut data.captured, i, Value::Symbol(*t));
                                },
                                None => {},
                            }
                        },
                        _ => {},
                    }
                },
                None => {},
            }
            i = i + 1;
        }
        assert(name_map_entries(data.captured) =~= start.map_values(
            |p: (Seq<char>, Value)| (p.0, remapped_symbol(p.1, remap@)),
        ));
        arena.scopes.set(self.id, data);
        assert forall|k: int| 0 <= k < arena.num_scopes() implies arena.parent_ok(#[trigger] arena.parent(k), k) by {
            assert(old(arena).parent_ok(old(arena).parent(k), k));
        }
    }

    /// Shifts, in this scope's captured map only, every function-table slot
    /// by `func_base` (after the table was appended at that offset).
    pub fn remap_vmfuncs(&self, arena: &mut ScopeArena, func_base: u32)
        requires
            old(arena).wf(),
            old(arena).has(*self),
            forall|j: int| 0 <= j < old(arena).captured(self.id as int).len() ==>
                func_shift_ok((#[trigger] old(arena).captured(self.id as int)[j]).1, func_base),
        ensures
            final(arena).wf(),
            final(arena).num_scopes() == old(arena).num_scopes(),
            final(arena).num_globals() == old(arena).num_globals(),
            final(arena).captured(self.id as int) == old(arena).captured(self.id as int).map_values(
                |p: (Seq<char>, Value)| (p.0, shifted_func(p.1, func_base)),
            ),
            final(arena).parent(self.id as int) == old(arena).parent(self.id as int),
            final(arena).letrec(self.id as int) == old(arena).letrec(self.id as int),
            forall|i: int| 0 <= i < old(arena).num_scopes() && i != self.id ==> final(arena).captured(i) == old(arena).captured(i)
                && final(arena).parent(i) == old(arena).parent(i) && final(arena).letrec(i) == old(arena).letrec(i),
            forall|g: int| 0 <= g < old(arena).num_globals() ==> final(arena).globals_entries(g) == old(arena).globals_entries(g),
    {
        if func_base == 0 {
            assert(old(arena).captured(self.id as int).map_values(
                |p: (Seq<char>, Value)| (p.0, shifted_func(p.1, func_base)),
            ) =~= old(arena).captured(self.id as int));
            return;
        }
        let mut data = ScopeData {
            captured: crate::ordmap::name_map_new(),
            parent: ClosureParent::NoParent,
            letrec_names: Vec::new(),
        };
        std::mem::swap(&mut arena.scopes[self.id], &mut data);
        let ghost start = name_map_entries(data.captured);
        assert(start == old(arena).captured(self.id as int));
        let n = name_map_len(&data.captured);
        let mut i: usize = 0;
        while i < n
            invariant
                arena.scopes@.len() == old(arena).scopes@.len(),
                forall|k: int| 0 <= k < arena.scopes@.len() && k != self.id ==> arena.scopes@[k] == old(arena).scopes@[k],
                arena.globals@ == old(arena).globals@,
                data.parent == old(arena).scopes@[self.id as int].parent,
                data.letrec_names@ == old(arena).scopes@[self.id as int].letrec_names@,
                self.id < arena.scopes@.len(),
                i <= n,
                n == start.len(),
                start == old(arena).captured(self.id as int),
                forall|j: int| 0 <= j < start.len() ==>
                    func_shift_ok((#[trigger] start[j]).1, func_base),
                name_map_entries(data.captured).len() == n,
                forall|j: int| 0 <= j < n ==> #[trigger] name_map_entries(data.captured)[j] == (
                    if j < i { (start[j].0, shifted_func(start[j].1, func_base)) } else { start[j] }),
            decreases n - i,
        {
            match name_map_get_index(&data.captured, i) {
                Some((_, v)) => {
                    match v {
                        Value::Func(f) => {
                            assert(start[i as int].1 == Value::Func(f));
                            name_map_set_index(&mut data.captured, i, Value::Func(f + func_base));
                        },
                        _ => {},
                    }
                },
                None => {},
            }
            i = i + 1;
        }
        assert(name_map_entries(data.captured) =~= start.map_values(
            |p: (Seq<char>, Value)| (p.0, shifted_func(p.1, func_base)),
        ));
        arena.scopes.set(self.id, data);
        assert forall|k: int| 0 <= k < arena.num_scopes() implies arena.parent_ok(#[trigger] arena.parent(k), k) by {
            assert(old(arena).parent_ok(old(arena).parent(k), k));
        }
    }
}

/// A symbol mapped through `remap` (other values unchanged).
pub open spec fn remapped_symbol(v: Value, remap: Map<u32, u32>) -> Value {
    match v {
        Value::Symbol(s) => if remap.contains_key(s) { Value::Symbol(remap[s]) } else { v },
        _ => v,
    }
}

/// A function slot can be shifted by `base` without overflow.
pub open spec fn func_shift_ok(v: Value, base: u32) -> bool {
    match v {
        Value::Func(f) => f + base <= u32::MAX,
        _ => true,
    }
}

/// A function slot shifted by `base` (other values unchanged).
pub open spec fn shifted_func(v: Value, base: u32) -> Value {
    match v {
        Value::Func(f) => Value::Func((f + base) as u32),
        _ => v,
    }
}

} // verus!
