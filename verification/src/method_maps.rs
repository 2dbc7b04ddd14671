//! The method maps of a struct or trait definition: which methods are
//! instance methods, which are static and which are abstract, each concrete
//! method's body closed over the defining frame.

use vstd::prelude::*;
use indexmap::IndexMap;
use crate::value::Value;
use crate::step::{slot_value, read_slot};
use crate::error::{VMError, ExceptionKind, ErrorView};
use crate::scope::{NativeClosureScope, ClosureParent};
use crate::ordmap::{name_map_new, name_map_insert, name_map_entries, entry_insert};
use crate::vm::{VM, FuncSlot};

verus! {

/// The variables a method body captures from the defining frame: each
/// (name, slot) pair in order binds the slot's value when it is not `Nil`,
/// except, at top level, names the host's globals bind (`host_bound`, by
/// pair), which the body reaches through the module scope instead.
pub open spec fn method_captures(
    pairs: Seq<(Seq<char>, usize)>,
    locals: Seq<Value>,
    host_bound: Seq<bool>,
    at_module: bool,
) -> Seq<(Seq<char>, Value)>
    decreases pairs.len(),
{
    if pairs.len() == 0 {
        Seq::empty()
    } else {
        let n = pairs.len() - 1;
        let prev = method_captures(pairs.drop_last(), locals, host_bound, at_module);
        let v = slot_value(locals, pairs.last().1 as int);
        if (at_module && n < host_bound.len() && host_bound[n]) || v == Value::Nil {
            prev
        } else {
            entry_insert(prev, pairs.last().0, v)
        }
    }
}

/// How many of the first `n` methods have a body.
pub open spec fn concrete_before(methods: Seq<(String, Option<u32>, bool)>, n: int) -> nat
    decreases n,
{
    if n <= 0 || n > methods.len() {
        0
    } else {
        concrete_before(methods, n - 1) + if methods[n - 1].1 is Some { 1nat } else { 0nat }
    }
}

/// The (name, function) entries of the first `n` methods with a body and
/// static flag `st`, in order (a later method of the same name replaces an
/// earlier one in its place); the `j`-th method with a body is function
/// `base + concrete_before(methods, j)`.
pub open spec fn method_entries(methods: Seq<(String, Option<u32>, bool)>, n: int, st: bool, base: int) -> Seq<(Seq<char>, Value)>
    decreases n,
{
    if n <= 0 || n > methods.len() {
        Seq::empty()
    } else {
        let prev = method_entries(methods, n - 1, st, base);
        let m = methods[n - 1];
        if m.1 is Some && m.2 == st {
            entry_insert(prev, m.0@, Value::Func((base + concrete_before(methods, n - 1)) as u32))
        } else {
            prev
        }
    }
}

/// The abstract methods: (name, static flag) of each method without a body.
pub open spec fn abstract_keys(methods: Seq<(String, Option<u32>, bool)>) -> Set<(Seq<char>, bool)> {
    Set::new(|k: (Seq<char>, bool)| exists|j: int| 0 <= j < methods.len() && methods[j].1 is None
        && #[trigger] methods[j].0@ == k.0 && methods[j].2 == k.1)
}

/// Whether a method's body is a function of the table (of length `n`).
pub open spec fn bodies_ok(methods: Seq<(String, Option<u32>, bool)>, n: int) -> bool {
    forall|j: int| 0 <= j < methods.len() ==> ((#[trigger] methods[j]).1 matches Some(p) ==> (p as int) < n)
}

/// The method maps of a definition.
#[derive(Debug)]
pub struct MethodMaps {
    /// Instance methods, by name, in order.
    pub instance: IndexMap<String, Value>,
    /// Static methods, by name, in order.
    pub statics: IndexMap<String, Value>,
    /// Abstract methods: name and whether it is static, each once.
    pub abstracts: Vec<(String, bool)>,
}

impl VM {
    /// What collecting the method maps of `methods` from this VM leads to
    /// (`r` and `post`): a body that is no function of the table raises
    /// `TypeError`; a table too full for the new functions raises
    /// `MemoryError`; else each method with a body becomes a new function,
    /// in order, closed over a new scope that captures the running frame's
    /// variables (`method_captures`) and is chained to the frame's scope or,
    /// at top level, to the module scope. Instance and static methods map
    /// names to their new functions; methods without a body are abstract.
    pub open spec fn methods_collected(
        &self,
        methods: Seq<(String, Option<u32>, bool)>,
        host_bound: Seq<bool>,
        r: Result<MethodMaps, VMError>,
        post: VM,
    ) -> bool {
        let nf = self.func_table@.len() as int;
        let ns = self.scopes.num_scopes() as int;
        let caps = method_captures(self.cur_code().slot_pairs(), self.frame.locals@, host_bound, self.frame.closure_scope is None);
        let parent = match self.frame.closure_scope {
            Some(c) => ClosureParent::Native(NativeClosureScope { id: c }),
            None => self.module_scope,
        };
        if !bodies_ok(methods, nf) {
            &&& r matches Err(e) && e.view() == ErrorView::Builtin(ExceptionKind::TypeError, "Expected CodeObject"@)
            &&& post == *self
        } else if nf + methods.len() >= u32::MAX {
            &&& r matches Err(e) && e.view() == ErrorView::Builtin(ExceptionKind::MemoryError, "function table exhausted"@)
            &&& post == *self
        } else {
            let k = concrete_before(methods, methods.len() as int);
            &&& r matches Ok(maps)
            &&& name_map_entries(maps.instance) == method_entries(methods, methods.len() as int, false, nf)
            &&& name_map_entries(maps.statics) == method_entries(methods, methods.len() as int, true, nf)
            &&& maps.abstracts@.map_values(|a: (String, bool)| (a.0@, a.1)).to_set() == abstract_keys(methods)
            &&& maps.abstracts@.map_values(|a: (String, bool)| (a.0@, a.1)).no_duplicates()
            &&& post == (VM { func_table: post.func_table, scopes: post.scopes, ..*self })
            &&& post.func_table@.len() == nf + k
            &&& post.func_table@.subrange(0, nf) == self.func_table@
            &&& post.scopes.num_scopes() == ns + k
            &&& post.scopes.num_globals() == self.scopes.num_globals()
            &&& forall|i: int| 0 <= i < ns ==> post.scopes.captured(i) == self.scopes.captured(i)
                && post.scopes.parent(i) == self.scopes.parent(i)
            &&& forall|j: int| 0 <= j < methods.len() ==> ((#[trigger] methods[j]).1 matches Some(p) ==> {
                let c = concrete_before(methods, j);
                &&& post.func_table@[nf + c] == (FuncSlot {
                    code: self.func_table@[p as int].code,
                    closure: Some(NativeClosureScope { id: (ns + c) as usize }),
                })
                &&& post.scopes.captured(ns + c) == caps
                &&& post.scopes.parent(ns + c) == parent
            })
        }
    }

    /// The variables a method body defined in the running frame captures.
    fn capture_map(&self, host_bound: &[bool]) -> (r: IndexMap<String, Value>)
        requires
            self.wf(),
            self.running,
        ensures
            name_map_entries(r) == method_captures(
                self.cur_code().slot_pairs(),
                self.frame.locals@,
                host_bound@,
                self.frame.closure_scope is None,
            ),
    {
        let cid = self.frame.code.unwrap();
        let mut captured = name_map_new();
        let n = self.codes[cid].slotmap.len();
        let at_module = self.frame.closure_scope.is_none();
        let ghost pairs = self.codes@[cid as int].slot_pairs();
        let mut i: usize = 0;
        while i < n
            invariant
                (cid as int) < self.codes@.len(),
                n == self.codes@[cid as int].slotmap@.len(),
                pairs == self.codes@[cid as int].slot_pairs(),
                at_module == self.frame.closure_scope is None,
                i <= n,
                name_map_entries(captured) == method_captures(pairs.subrange(0, i as int), self.frame.locals@, host_bound@, at_module),
            decreases n - i,
        {
            let slot = self.codes[cid].slotmap[i].1;
            let skip = at_module && i < host_bound.len() && host_bound[i];
            if !skip {
                let v = read_slot(&self.frame.locals, slot);
                if !v.is_nil() {
                    name_map_insert(&mut captured, self.codes[cid].slotmap[i].0.clone(), v);
                }
            }
            proof {
                assert(pairs.subrange(0, i + 1).drop_last() =~= pairs.subrange(0, i as int));
                assert(pairs[i as int] == (self.codes@[cid as int].slotmap@[i as int].0@, slot));
            }
            i = i + 1;
        }
        proof {
            assert(pairs.subrange(0, n as int) =~= pairs);
        }
        captured
    }

    /// Adds a function running the code of function `p`, closed over a new
    /// scope with the running frame's captures (`method_captures`) and
    /// parent `parent`; returns its index.
    fn add_closure_function(&mut self, p: u32, parent: ClosureParent, host_bound: &[bool]) -> (idx: usize)
        requires
            old(self).wf(),
            old(self).running,
            (p as int) < old(self).func_table@.len(),
            old(self).func_table@.len() < u32::MAX,
            parent == (match old(self).frame.closure_scope {
                Some(c) => ClosureParent::Native(NativeClosureScope { id: c }),
                None => old(self).module_scope,
            }),
        ensures
            final(self).wf(),
            *final(self) == (VM { func_table: final(self).func_table, scopes: final(self).scopes, ..*old(self) }),
            idx == old(self).func_table@.len(),
            final(self).func_table@ == old(self).func_table@.push(FuncSlot {
                code: old(self).func_table@[p as int].code,
                closure: Some(NativeClosureScope { id: old(self).scopes.num_scopes() as usize }),
            }),
            final(self).scopes.num_scopes() == old(self).scopes.num_scopes() + 1,
            final(self).scopes.num_globals() == old(self).scopes.num_globals(),
            forall|g: int| 0 <= g < old(self).scopes.num_globals() ==> final(self).scopes.globals_entries(g) == old(self).scopes.globals_entries(g),
            forall|i: int| 0 <= i < old(self).scopes.num_scopes() ==> final(self).scopes.captured(i) == old(self).scopes.captured(i)
                && final(self).scopes.parent(i) == old(self).scopes.parent(i),
            final(self).scopes.captured(old(self).scopes.num_scopes() as int) == method_captures(
                old(self).cur_code().slot_pairs(),
                old(self).frame.locals@,
                host_bound@,
                old(self).frame.closure_scope is None,
            ),
            final(self).scopes.parent(old(self).scopes.num_scopes() as int) == parent,
    {
        let caps_map = self.capture_map(host_bound);
        let scope = NativeClosureScope::new(&mut self.scopes, caps_map, parent);
        let code = self.func_table[p as usize].code;
        let idx = self.func_table.len();
        self.func_table.push(FuncSlot { code, closure: Some(scope) });
        proof {
            assert forall|i: int| 0 <= i < self.func_table@.len() implies {
                &&& ((#[trigger] self.func_table@[i]).code as int) < self.codes@.len()
                &&& (self.func_table@[i].closure matches Some(c) ==> self.scopes.has(c))
            } by {
                if i < self.func_table@.len() - 1 {
                    assert(self.func_table@[i] == old(self).func_table@[i]);
                }
            }
        }
        idx
    }

    /// Builds the instance, static and abstract method maps of a struct or
    /// trait definition from its methods, each (name, function standing for
    /// its compiled body or `None` for an abstract method, static flag),
    /// closing each body over the running frame; `host_bound` says, for each
    /// variable of the running code in slot-map order, whether the host's
    /// globals bind its name.
    #[verifier::rlimit(80)]
    pub fn collect_method_maps(&mut self, methods: &[(String, Option<u32>, bool)], host_bound: &[bool]) -> (r: Result<
        MethodMaps,
        VMError,
    >)
        requires
            old(self).wf(),
            old(self).running,
        ensures
            final(self).wf(),
            old(self).methods_collected(methods@, host_bound@, r, *final(self)),
    {
        let nf = self.func_table.len();
        let mut j: usize = 0;
        while j < methods.len()
            invariant
                j <= methods@.len(),
                nf == self.func_table@.len(),
                *self == *old(self),
                old(self).wf(),
                bodies_ok(methods@.subrange(0, j as int), nf as int),
            decreases methods@.len() - j,
        {
            match methods[j].1 {
                Some(p) => {
                    if (p as usize) >= nf {
                        proof {
                            assert(methods@[j as int].1 == Some(p));
                        }
                        return Err(VMError::TypeError(String::from_str("Expected CodeObject")));
                    }
                },
                None => {},
            }
            proof {
                assert forall|i: int| 0 <= i < j + 1 implies ((#[trigger] methods@.subrange(0, j + 1)[i]).1 matches Some(p) ==> (p as int) < nf) by {
                    if i < j {
                        assert(methods@.subrange(0, j + 1)[i] == methods@.subrange(0, j as int)[i]);
                    }
                }
            }
            j = j + 1;
        }
        proof {
            assert(methods@.subrange(0, methods@.len() as int) =~= methods@);
        }
        if nf >= u32::MAX as usize || methods.len() >= u32::MAX as usize - nf {
            return Err(VMError::MemoryLimitExceeded(String::from_str("function table exhausted")));
        }
        let ghost ns = self.scopes.num_scopes() as int;
        let ghost caps = method_captures(self.cur_code().slot_pairs(), self.frame.locals@, host_bound@, self.frame.closure_scope is None);
        let parent = match self.frame.closure_scope {
            Some(c) => ClosureParent::Native(NativeClosureScope { id: c }),
            None => self.module_scope,
        };
        let mut instance = name_map_new();
        let mut statics = name_map_new();
        let mut abstracts: Vec<(String, bool)> = Vec::new();
        let mut j: usize = 0;
        while j < methods.len()
            invariant
                j <= methods@.len(),
                nf == old(self).func_table@.len(),
                nf + methods@.len() < u32::MAX,
                bodies_ok(methods@, nf as int),
                ns == old(self).scopes.num_scopes(),
                old(self).wf(),
                old(self).running,
                self.wf(),
                *self == (VM { func_table: self.func_table, scopes: self.scopes, ..*old(self) }),
                caps == method_captures(old(self).cur_code().slot_pairs(), old(self).frame.locals@, host_bound@, old(self).frame.closure_scope is None),
                parent == (match old(self).frame.closure_scope {
                    Some(c) => ClosureParent::Native(NativeClosureScope { id: c }),
                    None => old(self).module_scope,
                }),
                self.func_table@.len() == nf + concrete_before(methods@, j as int),
                self.func_table@.subrange(0, nf as int) == old(self).func_table@,
                self.scopes.num_scopes() == ns + concrete_before(methods@, j as int),
                self.scopes.num_globals() == old(self).scopes.num_globals(),
                forall|g: int| 0 <= g < old(self).scopes.num_globals() ==> self.scopes.globals_entries(g) == old(self).scopes.globals_entries(g),
                forall|i: int| 0 <= i < ns ==> self.scopes.captured(i) == old(self).scopes.captured(i)
                    && self.scopes.parent(i) == old(self).scopes.parent(i),
                forall|jj: int| 0 <= jj < j ==> ((#[trigger] methods@[jj]).1 matches Some(p) ==> {
                    let c = concrete_before(methods@, jj);
                    &&& self.func_table@[nf + c] == (FuncSlot {
                        code: old(self).func_table@[p as int].code,
                        closure: Some(NativeClosureScope { id: (ns + c) as usize }),
                    })
                    &&& self.scopes.captured(ns + c) == caps
                    &&& self.scopes.parent(ns + c) == parent
                }),
                name_map_entries(instance) == method_entries(methods@, j as int, false, nf as int),
                name_map_entries(statics) == method_entries(methods@, j as int, true, nf as int),
                abstracts@.map_values(|a: (String, bool)| (a.0@, a.1)).to_set() == abstract_keys(methods@.subrange(0, j as int)),
                abstracts@.map_values(|a: (String, bool)| (a.0@, a.1)).no_duplicates(),
            decreases methods@.len() - j,
        {
            proof {
                lemma_concrete_bounded(methods@, j as int);
            }
            proof {
                lemma_abstract_step(methods@, j as int);
                assert(methods@.subrange(0, j + 1).drop_last() =~= methods@.subrange(0, j as int));
            }
            match methods[j].1 {
                None => {
                    let key_static = methods[j].2;
                    let ghost before = abstracts@.map_values(|a: (String, bool)| (a.0@, a.1));
                    if !contains_key(&abstracts, methods[j].0.as_str(), key_static) {
                        abstracts.push((methods[j].0.clone(), key_static));
                        proof {
                            let after = abstracts@.map_values(|a: (String, bool)| (a.0@, a.1));
                            assert(after =~= before.push((methods@[j as int].0@, key_static)));
                            lemma_push_set(before, (methods@[j as int].0@, key_static));
                        }
                    } else {
                        proof {
                            assert(before.to_set().insert((methods@[j as int].0@, key_static)) =~= before.to_set());
                        }
                    }
                },
                Some(p) => {
                    let ghost prev_ft = self.func_table@;
                    let ghost prev_sc = self.scopes;
                    let idx = self.add_closure_function(p, parent, host_bound);
                    if methods[j].2 {
                        name_map_insert(&mut statics, methods[j].0.clone(), Value::Func(idx as u32));
                    } else {
                        name_map_insert(&mut instance, methods[j].0.clone(), Value::Func(idx as u32));
                    }
                    proof {
                        let cj = concrete_before(methods@, j as int);
                        assert(concrete_before(methods@, j + 1) == cj + 1);
                        assert forall|jj: int| 0 <= jj < j + 1 implies ((#[trigger] methods@[jj]).1 matches Some(pp) ==> {
                            let c = concrete_before(methods@, jj);
                            &&& self.func_table@[nf + c] == (FuncSlot {
                                code: old(self).func_table@[pp as int].code,
                                closure: Some(NativeClosureScope { id: (ns + c) as usize }),
                            })
                            &&& self.scopes.captured(ns + c) == caps
                            &&& self.scopes.parent(ns + c) == parent
                        }) by {
                            if jj < j && methods@[jj].1 is Some {
                                lemma_concrete_mono(methods@, jj + 1, j as int);
                                let c = concrete_before(methods@, jj);
                                assert(self.func_table@[nf + c] == prev_ft[nf + c]);
                            }
                            if jj == j {
                                assert(prev_ft.len() == nf + cj);
                                assert(old(self).func_table@[p as int] == prev_ft[p as int]);
                            }
                        }
                        assert(self.func_table@.subrange(0, nf as int) =~= old(self).func_table@) by {
                            assert forall|i: int| 0 <= i < nf implies self.func_table@[i] == old(self).func_table@[i] by {
                                assert(self.func_table@[i] == self.func_table@.drop_last()[i]);
                            }
                        }
                    }
                },
            }
            j = j + 1;
        }
        proof {
            assert(methods@.subrange(0, methods@.len() as int) =~= methods@);
        }
        Ok(MethodMaps { instance, statics, abstracts })
    }
}

/// The abstract keys of one more method.
proof fn lemma_abstract_step(methods: Seq<(String, Option<u32>, bool)>, j: int)
    requires
        0 <= j < methods.len(),
    ensures
        abstract_keys(methods.subrange(0, j + 1)) == (if methods[j].1 is None {
            abstract_keys(methods.subrange(0, j)).insert((methods[j].0@, methods[j].2))
        } else {
            abstract_keys(methods.subrange(0, j))
        }),
{
    let a = methods.subrange(0, j);
    let b = methods.subrange(0, j + 1);
    let want = if methods[j].1 is None { abstract_keys(a).insert((methods[j].0@, methods[j].2)) } else { abstract_keys(a) };
    assert forall|x: (Seq<char>, bool)| abstract_keys(b).contains(x) <==> want.contains(x) by {
        if abstract_keys(b).contains(x) {
            let w = choose|w: int| 0 <= w < b.len() && b[w].1 is None && #[trigger] b[w].0@ == x.0 && b[w].2 == x.1;
            if w < j {
                assert(a[w] == b[w]);
                assert(abstract_keys(a).contains(x));
            }
        }
        if abstract_keys(a).contains(x) {
            let w = choose|w: int| 0 <= w < a.len() && a[w].1 is None && #[trigger] a[w].0@ == x.0 && a[w].2 == x.1;
            assert(b[w] == a[w]);
        }
        if methods[j].1 is None && x == (methods[j].0@, methods[j].2) {
            assert(b[j] == methods[j]);
        }
    }
    assert(abstract_keys(b) =~= want);
}

/// Pushing a key not yet present adds it to the set and keeps the keys
/// distinct.
proof fn lemma_push_set(s: Seq<(Seq<char>, bool)>, k: (Seq<char>, bool))
    requires
        !s.contains(k),
    ensures
        s.push(k).to_set() == s.to_set().insert(k),
        s.no_duplicates() ==> s.push(k).no_duplicates(),
{
    assert(s.push(k).to_set() =~= s.to_set().insert(k)) by {
        assert forall|x: (Seq<char>, bool)| s.push(k).to_set().contains(x) <==> s.to_set().insert(k).contains(x) by {
            if s.push(k).contains(x) {
                let i = choose|i: int| 0 <= i < s.push(k).len() && s.push(k)[i] == x;
                if i < s.len() {
                    assert(s[i] == x);
                }
            }
            if s.contains(x) {
                let i = choose|i: int| 0 <= i < s.len() && s[i] == x;
                assert(s.push(k)[i] == x);
            }
            if x == k {
                assert(s.push(k)[s.len() as int] == k);
            }
        }
    }
    if s.no_duplicates() {
        assert forall|i: int, l: int| 0 <= i < s.push(k).len() && 0 <= l < s.push(k).len() && i != l implies s.push(k)[i] != s.push(k)[l] by {
            if i < s.len() && l < s.len() {
            } else if i == s.len() {
                assert(s[l] == s.push(k)[l]);
            } else {
                assert(s[i] == s.push(k)[i]);
            }
        }
    }
}

/// The count of methods with a body does not shrink.
proof fn lemma_concrete_mono(methods: Seq<(String, Option<u32>, bool)>, a: int, b: int)
    requires
        0 <= a <= b <= methods.len(),
    ensures
        concrete_before(methods, a) <= concrete_before(methods, b),
    decreases b - a,
{
    if a < b {
        lemma_concrete_mono(methods, a, b - 1);
    }
}

/// At most `n` of the first `n` methods have a body.
proof fn lemma_concrete_bounded(methods: Seq<(String, Option<u32>, bool)>, n: int)
    requires
        0 <= n <= methods.len(),
    ensures
        concrete_before(methods, n) <= n,
    decreases n,
{
    if n > 0 {
        lemma_concrete_bounded(methods, n - 1);
    }
}

/// Whether `keys` holds (`name`, `st`).
fn contains_key(keys: &Vec<(String, bool)>, name: &str, st: bool) -> (r: bool)
    ensures
        r <==> keys@.map_values(|a: (String, bool)| (a.0@, a.1)).contains((name@, st)),
{
    let ghost v = keys@.map_values(|a: (String, bool)| (a.0@, a.1));
    let mut i: usize = 0;
    while i < keys.len()
        invariant
            i <= keys@.len(),
            v == keys@.map_values(|a: (String, bool)| (a.0@, a.1)),
            forall|k: int| 0 <= k < i ==> v[k] != (name@, st),
        decreases keys@.len() - i,
    {
        if keys[i].1 == st && crate::text::str_equal(keys[i].0.as_str(), name) {
            assert(v[i as int] == (name@, st));
            return true;
        }
        i = i + 1;
    }
    false
}

} // verus!
