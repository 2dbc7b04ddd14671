//! Module-level blocks: names bound inside such a block are block-local, so
//! when it ends, the module globals (the VM's and the host's) lose the names
//! of its slots that were not globals before it began.

use vstd::prelude::*;
use indexmap::IndexMap;
use crate::value::Value;
use crate::frame::{Instruction, OpCode};
use crate::step::{control_effect, HostRequest, Resume};
use crate::ordmap::{name_map_entries, name_map_get, name_map_swap_remove, entry_lookup, entry_swap_remove};
use crate::vm::{names_contain, Outcome, VM};

verus! {

/// The names of the slots from `start` on (none when `start` is past them).
pub open spec fn block_names(varnames: Seq<String>, start: int) -> Seq<Seq<char>> {
    let lo = if start <= varnames.len() { start } else { varnames.len() as int };
    varnames.subrange(lo, varnames.len() as int).map_values(|s: String| s@)
}

/// Of `names`, those that are module globals (`entries`) or that the host
/// reports bound (`flags[i]` is `true` for `names[i]`), in order.
pub open spec fn existing_names(
    names: Seq<Seq<char>>,
    entries: Seq<(Seq<char>, Value)>,
    flags: Seq<Value>,
) -> Seq<Seq<char>>
    decreases names.len(),
{
    if names.len() == 0 {
        Seq::empty()
    } else {
        let i = names.len() - 1;
        let prev = existing_names(names.drop_last(), entries, flags);
        if entry_lookup(entries, names[i]).is_some() || (i < flags.len() && flags[i] == Value::Bool(true)) {
            prev.push(names[i])
        } else {
            prev
        }
    }
}

/// Of `names`, those not kept (all of them without a snapshot), in order.
pub open spec fn dropped_names(names: Seq<Seq<char>>, kept: Option<Seq<Seq<char>>>) -> Seq<Seq<char>>
    decreases names.len(),
{
    if names.len() == 0 {
        Seq::empty()
    } else {
        let prev = dropped_names(names.drop_last(), kept);
        if kept matches Some(k) && k.contains(names.last()) {
            prev
        } else {
            prev.push(names.last())
        }
    }
}

/// Entries after removing each of `names` in turn.
pub open spec fn entries_without(entries: Seq<(Seq<char>, Value)>, names: Seq<Seq<char>>) -> Seq<(Seq<char>, Value)>
    decreases names.len(),
{
    if names.len() == 0 {
        entries
    } else {
        entry_swap_remove(entries_without(entries, names.drop_last()), names.last())
    }
}

/// The block snapshots, innermost last.
pub open spec fn snapshots(blocks: Seq<Vec<String>>) -> Seq<Seq<Seq<char>>> {
    blocks.map_values(|v: Vec<String>| v@.map_values(|s: String| s@))
}

/// The start of a module-level block from its instruction argument.
pub open spec fn block_start(arg: u32) -> int {
    (arg & 0x7FFF_FFFFu32) as int
}

/// The names of the slots from `start` on.
fn block_names_exec(varnames: &Vec<String>, start: usize) -> (r: Vec<String>)
    ensures
        r@.map_values(|s: String| s@) == block_names(varnames@, start as int),
{
    let lo = if start <= varnames.len() { start } else { varnames.len() };
    let ghost all = varnames@.map_values(|s: String| s@);
    let mut out: Vec<String> = Vec::new();
    let mut i: usize = lo;
    while i < varnames.len()
        invariant
            lo <= i <= varnames@.len(),
            all == varnames@.map_values(|s: String| s@),
            out@.len() == i - lo,
            forall|j: int| 0 <= j < out@.len() ==> (#[trigger] out@[j])@ == all[lo + j],
        decreases varnames@.len() - i,
    {
        out.push(varnames[i].clone());
        i = i + 1;
    }
    assert(out@.map_values(|s: String| s@) =~= block_names(varnames@, start as int));
    out
}

/// Of `names`, those that are module globals or that the host reports bound.
fn existing_exec(names: &Vec<String>, globals: &IndexMap<String, Value>, flags: &Vec<Value>) -> (r: Vec<String>)
    ensures
        r@.map_values(|s: String| s@) == existing_names(
            names@.map_values(|s: String| s@),
            name_map_entries(*globals),
            flags@,
        ),
{
    let ghost ns = names@.map_values(|s: String| s@);
    let ghost entries = name_map_entries(*globals);
    let mut out: Vec<String> = Vec::new();
    let mut i: usize = 0;
    while i < names.len()
        invariant
            i <= names@.len(),
            ns == names@.map_values(|s: String| s@),
            entries == name_map_entries(*globals),
            out@.map_values(|s: String| s@) == existing_names(ns.subrange(0, i as int), entries, flags@),
        decreases names@.len() - i,
    {
        let known = name_map_get(globals, names[i].as_str()).is_some();
        let reported = i < flags.len() && flags[i] == Value::Bool(true);
        let ghost before = out@;
        assert(ns.subrange(0, i + 1).drop_last() =~= ns.subrange(0, i as int));
        if known || reported {
            out.push(names[i].clone());
            assert(out@.map_values(|s: String| s@) =~= before.map_values(|s: String| s@).push(ns[i as int]));
        }
        i = i + 1;
    }
    assert(ns.subrange(0, names@.len() as int) =~= ns);
    out
}

/// Of `names`, those not in `kept` (all of them without a snapshot).
fn dropped_exec(names: &Vec<String>, kept: &Option<Vec<String>>) -> (r: Vec<String>)
    ensures
        r@.map_values(|s: String| s@) == dropped_names(
            names@.map_values(|s: String| s@),
            match kept {
                Some(k) => Some(k@.map_values(|s: String| s@)),
                None => None,
            },
        ),
{
    let ghost ns = names@.map_values(|s: String| s@);
    let ghost ks = match kept {
        Some(k) => Some(k@.map_values(|s: String| s@)),
        None => None,
    };
    let mut out: Vec<String> = Vec::new();
    let mut i: usize = 0;
    while i < names.len()
        invariant
            i <= names@.len(),
            ns == names@.map_values(|s: String| s@),
            ks == (match kept {
                Some(k) => Some(k@.map_values(|s: String| s@)),
                None => None,
            }),
            out@.map_values(|s: String| s@) == dropped_names(ns.subrange(0, i as int), ks),
        decreases names@.len() - i,
    {
        let keep = match kept {
            Some(k) => names_contain(k, names[i].as_str()),
            None => false,
        };
        let ghost before = out@;
        assert(ns.subrange(0, i + 1).drop_last() =~= ns.subrange(0, i as int));
        assert(ns.subrange(0, i + 1).last() == ns[i as int]);
        if !keep {
            out.push(names[i].clone());
            assert(out@.map_values(|s: String| s@) =~= before.map_values(|s: String| s@).push(ns[i as int]));
        }
        i = i + 1;
    }
    assert(ns.subrange(0, names@.len() as int) =~= ns);
    out
}

/// Removes each of `names` from the module globals.
fn remove_names(globals: &mut IndexMap<String, Value>, names: &Vec<String>)
    ensures
        name_map_entries(*final(globals)) == entries_without(
            name_map_entries(*old(globals)),
            names@.map_values(|s: String| s@),
        ),
{
    let ghost e0 = name_map_entries(*globals);
    let ghost ns = names@.map_values(|s: String| s@);
    let mut i: usize = 0;
    while i < names.len()
        invariant
            i <= names@.len(),
            ns == names@.map_values(|s: String| s@),
            name_map_entries(*globals) == entries_without(e0, ns.subrange(0, i as int)),
        decreases names@.len() - i,
    {
        name_map_swap_remove(globals, names[i].as_str());
        assert(ns.subrange(0, i + 1).drop_last() =~= ns.subrange(0, i as int));
        assert(ns.subrange(0, i + 1).last() == ns[i as int]);
        i = i + 1;
    }
    assert(ns.subrange(0, names@.len() as int) =~= ns);
}

impl VM {
    /// What `op_push_module_block` leads to (`r` and `post`), from this VM.
    pub open spec fn push_module_block_done(&self, arg: u32, r: Outcome, post: VM) -> bool {
        &&& (post.same_tables(*self))
        &&& (post.frame.state() == control_effect(
                self.frame.state(),
                Instruction { op: OpCode::PushBlock, arg },
                self.cur_code().constants@,
                self.tuples@,
            ).0)
        &&& (post.callers() == self.callers())
        &&& (block_names(self.cur_code().varnames@, block_start(arg)).len() == 0 ==> {
                &&& r is Running
                &&& snapshots(post.block_globals@) == snapshots(self.block_globals@).push(Seq::empty())
            })
        &&& (block_names(self.cur_code().varnames@, block_start(arg)).len() > 0 ==> {
                &&& r is Host
                &&& r->Host_0 is HasGlobals
                &&& r->Host_0->HasGlobals_0@.map_values(|s: String| s@) == block_names(self.cur_code().varnames@, block_start(arg))
                &&& post.waiting == Some(Resume::BlockSnapshot(block_start(arg) as usize))
                &&& post.block_globals == self.block_globals
            })
    }

    /// `PushBlock` of a module-level block (high bit of `arg` set): opens the
    /// block as any block does, and records which names of its slots were
    /// globals before it, asking the host which of them its globals bind.
    pub fn op_push_module_block(&mut self, arg: u32) -> (r: Outcome)
        requires
            old(self).wf(),
            old(self).running,
            old(self).waiting is None,
        ensures
            final(self).wf(),
            final(self).protocol(r),
            old(self).push_module_block_done(arg, r, *final(self)),
    {
        let cid = self.frame.code.unwrap();
        let start = (arg & 0x7FFF_FFFFu32) as usize;
        let at = if start <= self.frame.locals.len() { start } else { self.frame.locals.len() };
        self.frame.push_block(at);
        proof {
            assert(self.frame.state().blocks =~= old(self).frame.state().blocks.push(
                (at, old(self).frame.locals@.subrange(at as int, old(self).frame.locals@.len() as int)),
            ));
        }
        let names = block_names_exec(&self.codes[cid].varnames, start);
        if names.len() == 0 {
            let none: Vec<String> = Vec::new();
            assert(none@.map_values(|s: String| s@) =~= Seq::<Seq<char>>::empty());
            self.block_globals.push(none);
            assert(snapshots(self.block_globals@) =~= snapshots(old(self).block_globals@).push(Seq::empty()));
            Outcome::Running
        } else {
            self.ask(HostRequest::HasGlobals(names), Resume::BlockSnapshot(start))
        }
    }

    /// Records the snapshot of a module-level block from the host's answer:
    /// the names of the slots from `start` on that are module globals or
    /// that the host reported bound.
    pub(crate) fn record_block_snapshot(&mut self, start: usize, flags: &Vec<Value>) -> (r: Outcome)
        requires
            old(self).wf(),
            old(self).running,
            old(self).waiting is None,
        ensures
            final(self).wf(),
            final(self).protocol(r),
            final(self).same_tables(*old(self)),
            r is Running,
            final(self).frame == old(self).frame,
            final(self).frame_stack == old(self).frame_stack,
            snapshots(final(self).block_globals@) == snapshots(old(self).block_globals@).push(existing_names(
                block_names(old(self).cur_code().varnames@, start as int),
                name_map_entries(old(self).globals),
                flags@,
            )),
    {
        let cid = self.frame.code.unwrap();
        let names = block_names_exec(&self.codes[cid].varnames, start);
        let kept = existing_exec(&names, &self.globals, flags);
        self.block_globals.push(kept);
        assert(snapshots(self.block_globals@) =~= snapshots(old(self).block_globals@).push(existing_names(
            block_names(old(self).cur_code().varnames@, start as int),
            name_map_entries(old(self).globals),
            flags@,
        )));
        Outcome::Running
    }

    /// What `op_pop_module_block` leads to (`r` and `post`), from this VM.
    pub open spec fn pop_module_block_done(&self, r: Outcome, post: VM) -> bool {
        &&& (post.frame.state() == control_effect(
                self.frame.state(),
                Instruction { op: OpCode::PopBlock, arg: 1 },
                self.cur_code().constants@,
                self.tuples@,
            ).0)
        &&& (post.callers() == self.callers())
        &&& (post.tuples == self.tuples)
        &&& (post.scopes == self.scopes)
        &&& (post.func_table == self.func_table)
        &&& (self.frame.block_stack@.len() == 0 ==> {
                &&& r is Running
                &&& post.globals == self.globals
                &&& post.block_globals == self.block_globals
            })
        &&& (self.frame.block_stack@.len() > 0 ==> {
                let gone = dropped_names(
                    block_names(self.cur_code().varnames@, self.frame.block_stack@.last().0 as int),
                    if self.block_globals@.len() > 0 {
                        Some(snapshots(self.block_globals@).last())
                    } else {
                        None
                    },
                );
                &&& self.block_globals@.len() > 0 ==> snapshots(post.block_globals@) == snapshots(self.block_globals@).drop_last()
                &&& self.block_globals@.len() == 0 ==> post.block_globals@ == self.block_globals@
                &&& name_map_entries(post.globals) == entries_without(name_map_entries(self.globals), gone)
                &&& gone.len() == 0 ==> r is Running
                &&& gone.len() > 0 ==> (r is Host && r->Host_0 is DeleteGlobals
                    && r->Host_0->DeleteGlobals_0@.map_values(|s: String| s@) == gone
                    && post.waiting == Some(Resume::Ignore))
            })
    }

    /// `PopBlock 1`: closes a module-level block. The names of its slots that
    /// were not globals before it leave the module globals (and are removed
    /// from the host's globals), then the block closes as any block does.
    pub fn op_pop_module_block(&mut self) -> (r: Outcome)
        requires
            old(self).wf(),
            old(self).running,
            old(self).waiting is None,
        ensures
            final(self).wf(),
            final(self).protocol(r),
            final(self).codes == old(self).codes,
            old(self).pop_module_block_done(r, *final(self)),
    {
        let cid = self.frame.code.unwrap();
        let n = self.frame.block_stack.len();
        if n == 0 {
            self.frame.pop_block();
            return Outcome::Running;
        }
        let start = self.frame.block_stack[n - 1].0;
        let pre = self.block_globals.pop();
        proof {
            if old(self).block_globals@.len() > 0 {
                assert(snapshots(self.block_globals@) =~= snapshots(old(self).block_globals@).drop_last());
                assert(snapshots(old(self).block_globals@).last() == old(self).block_globals@.last()@.map_values(|s: String| s@));
            }
        }
        let names = block_names_exec(&self.codes[cid].varnames, start);
        let gone = dropped_exec(&names, &pre);
        remove_names(&mut self.globals, &gone);
        self.frame.pop_block();
        proof {
            assert(self.frame.state().blocks =~= old(self).frame.state().blocks.drop_last());
        }
        if gone.len() == 0 {
            Outcome::Running
        } else {
            self.ask(HostRequest::DeleteGlobals(gone), Resume::Ignore)
        }
    }
}

} // verus!
