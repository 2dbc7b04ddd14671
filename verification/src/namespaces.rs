//! The `globals()` and `locals()` intrinsics: the VM lists the bindings it
//! holds and the host builds the dict.

use vstd::prelude::*;
use indexmap::IndexMap;
use crate::value::Value;
use crate::scope::NativeClosureScope;
use crate::step::{HostRequest, Resume};
use crate::ordmap::{name_map_entries, name_map_get_index, name_map_len};
use crate::vm::{Outcome, VM};

verus! {

/// Of named bindings, those whose value is not `Nil`, in order.
pub open spec fn bound_entries(entries: Seq<(Seq<char>, Value)>) -> Seq<(Seq<char>, Value)>
    decreases entries.len(),
{
    if entries.len() == 0 {
        Seq::empty()
    } else {
        let prev = bound_entries(entries.drop_last());
        if entries.last().1 != Value::Nil { prev.push(entries.last()) } else { prev }
    }
}

/// The local slots paired with their names, as far as both reach.
pub open spec fn slot_entries(varnames: Seq<String>, locals: Seq<Value>) -> Seq<(Seq<char>, Value)> {
    let n = if varnames.len() <= locals.len() { varnames.len() } else { locals.len() };
    Seq::new(n, |i: int| (varnames[i]@, locals[i]))
}

/// Whether code of this name runs at module level.
pub open spec fn is_module_name(name: Seq<char>) -> bool {
    name == "<module>"@ || name == ""@
}

/// The view of named bindings held as strings.
pub open spec fn entries_view(v: Seq<(String, Value)>) -> Seq<(Seq<char>, Value)> {
    v.map_values(|p: (String, Value)| (p.0@, p.1))
}

/// All entries of a name map, in order.
fn map_entries(m: &IndexMap<String, Value>) -> (r: Vec<(String, Value)>)
    ensures
        entries_view(r@) == name_map_entries(*m),
{
    let n = name_map_len(m);
    let mut out: Vec<(String, Value)> = Vec::new();
    let mut i: usize = 0;
    while i < n
        invariant
            n == name_map_entries(*m).len(),
            i <= n,
            out@.len() == i,
            forall|j: int| 0 <= j < i ==> (#[trigger] out@[j]).0@ == name_map_entries(*m)[j].0
                && out@[j].1 == name_map_entries(*m)[j].1,
        decreases n - i,
    {
        match name_map_get_index(m, i) {
            Some(e) => out.push(e),
            None => {},
        }
        i = i + 1;
    }
    assert(entries_view(out@) =~= name_map_entries(*m));
    out
}

/// Appends the entries whose value is not `Nil`.
fn push_bound(out: &mut Vec<(String, Value)>, entries: Vec<(String, Value)>)
    ensures
        entries_view(final(out)@) == entries_view(old(out)@) + bound_entries(entries_view(entries@)),
{
    let ghost es = entries_view(entries@);
    let mut i: usize = 0;
    while i < entries.len()
        invariant
            i <= entries@.len(),
            es == entries_view(entries@),
            entries_view(out@) == entries_view(old(out)@) + bound_entries(es.subrange(0, i as int)),
        decreases entries@.len() - i,
    {
        let k = entries[i].0.clone();
        let v = entries[i].1;
        let ghost before = out@;
        assert(es.subrange(0, i + 1).drop_last() =~= es.subrange(0, i as int));
        assert(es.subrange(0, i + 1).last() == es[i as int]);
        if v != Value::Nil {
            out.push((k, v));
            assert(entries_view(out@) =~= entries_view(before).push(es[i as int]));
        }
        i = i + 1;
    }
    assert(es.subrange(0, entries@.len() as int) =~= es);
}

/// The local slots with their names, as far as both reach.
fn slot_pairs(varnames: &Vec<String>, locals: &Vec<Value>) -> (r: Vec<(String, Value)>)
    ensures
        entries_view(r@) == slot_entries(varnames@, locals@),
{
    let n = if varnames.len() <= locals.len() { varnames.len() } else { locals.len() };
    let mut out: Vec<(String, Value)> = Vec::new();
    let mut i: usize = 0;
    while i < n
        invariant
            n <= varnames@.len(),
            n <= locals@.len(),
            n == (if varnames@.len() <= locals@.len() { varnames@.len() } else { locals@.len() }),
            i <= n,
            out@.len() == i,
            forall|j: int| 0 <= j < i ==> (#[trigger] out@[j]).0@ == varnames@[j]@ && out@[j].1 == locals@[j],
        decreases n - i,
    {
        out.push((varnames[i].clone(), locals[i]));
        i = i + 1;
    }
    assert(entries_view(out@) =~= slot_entries(varnames@, locals@));
    out
}

impl VM {
    /// What `op_globals` leads to (`r` and `post`), from this VM.
    pub open spec fn globals_done(&self, r: Outcome, post: VM) -> bool {
        &&& (post.same_tables(*self))
        &&& (post.frame == self.frame)
        &&& (post.frame_stack == self.frame_stack)
        &&& (post.waiting == Some(Resume::Push))
        &&& (r is Host)
        &&& (r->Host_0 is NamedDict)
        &&& (entries_view(r->Host_0->NamedDict_0@) == name_map_entries(self.globals))
        &&& (r->Host_0->NamedDict_1)
    }

    /// `Globals`: asks the host for a dict of the module globals, in order,
    /// to which the host adds its own globals.
    pub fn op_globals(&mut self) -> (r: Outcome)
        requires
            old(self).wf(),
            old(self).running,
            old(self).waiting is None,
        ensures
            final(self).wf(),
            final(self).protocol(r),
            old(self).globals_done(r, *final(self)),
    {
        let pairs = map_entries(&self.globals);
        self.ask(HostRequest::NamedDict(pairs, true), Resume::Push)
    }

    /// What `op_locals` leads to (`r` and `post`), from this VM.
    pub open spec fn locals_done(&self, r: Outcome, post: VM) -> bool {
        &&& (post.same_tables(*self))
        &&& (post.frame == self.frame)
        &&& (post.frame_stack == self.frame_stack)
        &&& (post.waiting == Some(Resume::Push))
        &&& (r is Host)
        &&& (r->Host_0 is NamedDict)
        &&& (is_module_name(self.cur_code().name@) ==> {
                &&& entries_view(r->Host_0->NamedDict_0@) == name_map_entries(self.globals)
                &&& r->Host_0->NamedDict_1
            })
        &&& (!is_module_name(self.cur_code().name@) ==> {
                &&& entries_view(r->Host_0->NamedDict_0@) == bound_entries(
                    slot_entries(self.cur_code().varnames@, self.frame.locals@),
                ) + match self.frame.closure_scope {
                    Some(c) => bound_entries(self.scopes.captured(c as int)),
                    None => Seq::empty(),
                }
                &&& !r->Host_0->NamedDict_1
            })
    }

    /// `Locals`: at module level, as `Globals`; in a function, asks the host
    /// for a dict of the bound local slots, by name, followed by the bound
    /// variables its closure scope captured.
    pub fn op_locals(&mut self) -> (r: Outcome)
        requires
            old(self).wf(),
            old(self).running,
            old(self).waiting is None,
        ensures
            final(self).wf(),
            final(self).protocol(r),
            old(self).locals_done(r, *final(self)),
    {
        let cid = self.frame.code.unwrap();
        let name = self.codes[cid].name.as_str();
        let module = crate::text::str_equal(name, "") || crate::text::str_equal(name, "<module>");
        if module {
            return self.op_globals();
        }
        let mut pairs: Vec<(String, Value)> = Vec::new();
        assert(entries_view(pairs@) =~= Seq::empty());
        let slots = slot_pairs(&self.codes[cid].varnames, &self.frame.locals);
        push_bound(&mut pairs, slots);
        let ghost local_part = entries_view(pairs@);
        match self.frame.closure_scope {
            Some(c) => {
                let sc = NativeClosureScope { id: c };
                let captured = sc.captured_entries(&self.scopes);
                push_bound(&mut pairs, captured);
            },
            None => {
                assert(entries_view(pairs@) =~= local_part + Seq::empty());
            },
        }
        self.ask(HostRequest::NamedDict(pairs, false), Resume::Push)
    }
}

} // verus!
