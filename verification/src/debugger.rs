//! Debugger pauses: breakpoints by source position, `breakpoint()` calls,
//! and stepping into, over and out of calls.
//!
//! Before an instruction runs, the debugger decides whether to pause once it
//! has run; at a pause the host shows the position, the locals and the call
//! stack, and answers with the next step mode. The embedding program drives
//! the VM one instruction at a time while a debugger is attached.

use vstd::prelude::*;
use crate::value::Value;
use crate::frame::{Instruction, OpCode};
use crate::vm::VM;

verus! {

/// How the debugger goes on after a pause.
#[derive(Clone, Copy, Debug, PartialEq, Eq, Structural)]
pub enum DebugStepMode {
    /// No stepping; only breakpoints pause.
    Disabled,
    /// Run to the next breakpoint.
    Continue,
    /// Pause after every instruction.
    StepInto,
    /// Pause once back at the same call depth or shallower.
    StepOver,
    /// Pause once back at a shallower call depth.
    StepOut,
}

impl DebugStepMode {
    /// The mode a host's answer stands for: 1 continue, 2 step into, 3 step
    /// over, 4 step out, anything else disabled.
    pub open spec fn spec_from_i32(v: i32) -> DebugStepMode {
        if v == 1 {
            DebugStepMode::Continue
        } else if v == 2 {
            DebugStepMode::StepInto
        } else if v == 3 {
            DebugStepMode::StepOver
        } else if v == 4 {
            DebugStepMode::StepOut
        } else {
            DebugStepMode::Disabled
        }
    }

    pub fn from_i32(v: i32) -> (r: DebugStepMode)
        ensures
            r == DebugStepMode::spec_from_i32(v),
    {
        if v == 1 {
            DebugStepMode::Continue
        } else if v == 2 {
            DebugStepMode::StepInto
        } else if v == 3 {
            DebugStepMode::StepOver
        } else if v == 4 {
            DebugStepMode::StepOut
        } else {
            DebugStepMode::Disabled
        }
    }

    /// Whether this mode steps.
    pub open spec fn is_step(self) -> bool {
        self is StepInto || self is StepOver || self is StepOut
    }
}

/// The state of an attached (or detached) debugger.
#[derive(Debug)]
pub struct Debugger {
    /// Whether a debugger is attached.
    pub attached: bool,
    /// Source positions that pause.
    pub breakpoints: Vec<u32>,
    /// How the debugger goes on.
    pub step_mode: DebugStepMode,
    /// The call depth stepping over or out started from.
    pub step_depth: usize,
    /// The source position of the last pause, until the run moves on.
    pub last_paused: Option<u32>,
}

impl Debugger {
    /// A detached debugger with no breakpoints.
    pub fn new() -> (r: Debugger)
        ensures
            !r.attached,
            r.breakpoints@.len() == 0,
            r.step_mode == DebugStepMode::Disabled,
            r.step_depth == 0,
            r.last_paused is None,
    {
        Debugger {
            attached: false,
            breakpoints: Vec::new(),
            step_mode: DebugStepMode::Disabled,
            step_depth: 0,
            last_paused: None,
        }
    }

    /// Whether position `src` pauses.
    pub open spec fn is_breakpoint(&self, src: u32) -> bool {
        self.breakpoints@.contains(src)
    }

    /// Makes position `src` pause.
    pub fn set_breakpoint(&mut self, src: u32)
        ensures
            forall|x: u32| final(self).breakpoints@.contains(x) <==> (old(self).breakpoints@.contains(x) || x == src),
            final(self).attached == old(self).attached,
            final(self).step_mode == old(self).step_mode,
            final(self).step_depth == old(self).step_depth,
            final(self).last_paused == old(self).last_paused,
    {
        if !self.has_breakpoint(src) {
            self.breakpoints.push(src);
            proof {
                assert forall|x: u32| self.breakpoints@.contains(x) <==> (old(self).breakpoints@.contains(x) || x == src) by {
                    if old(self).breakpoints@.contains(x) {
                        let j = choose|j: int| 0 <= j < old(self).breakpoints@.len() && old(self).breakpoints@[j] == x;
                        assert(self.breakpoints@[j] == x);
                    }
                    if x == src {
                        assert(self.breakpoints@[old(self).breakpoints@.len() as int] == x);
                    }
                    if self.breakpoints@.contains(x) && x != src {
                        let j = choose|j: int| 0 <= j < self.breakpoints@.len() && self.breakpoints@[j] == x;
                        assert(old(self).breakpoints@[j] == x);
                    }
                }
            }
        }
    }

    /// Makes position `src` no longer pause.
    pub fn clear_breakpoint(&mut self, src: u32)
        ensures
            forall|x: u32| final(self).breakpoints@.contains(x) <==> (old(self).breakpoints@.contains(x) && x != src),
            final(self).attached == old(self).attached,
            final(self).step_mode == old(self).step_mode,
            final(self).step_depth == old(self).step_depth,
            final(self).last_paused == old(self).last_paused,
    {
        let mut kept: Vec<u32> = Vec::new();
        let mut i: usize = 0;
        while i < self.breakpoints.len()
            invariant
                i <= self.breakpoints@.len(),
                self.breakpoints == old(self).breakpoints,
                forall|j: int| #![trigger kept@[j]] 0 <= j < kept@.len() ==> kept@[j] != src && self.breakpoints@.contains(kept@[j]),
                forall|j: int| 0 <= j < i && self.breakpoints@[j] != src ==> kept@.contains(#[trigger] self.breakpoints@[j]),
            decreases self.breakpoints@.len() - i,
        {
            let b = self.breakpoints[i];
            let ghost before = kept@;
            if b != src {
                kept.push(b);
                proof {
                    assert(kept@[before.len() as int] == b);
                    assert(self.breakpoints@.contains(self.breakpoints@[i as int]));
                    assert forall|j: int| #![trigger kept@[j]] 0 <= j < kept@.len() implies kept@[j] != src
                        && self.breakpoints@.contains(kept@[j]) by {
                        if j < before.len() {
                            assert(kept@[j] == before[j]);
                        } else {
                            assert(kept@[j] == self.breakpoints@[i as int]);
                        }
                    }
                    assert forall|j: int| 0 <= j < i + 1 && self.breakpoints@[j] != src implies kept@.contains(
                        #[trigger] self.breakpoints@[j],
                    ) by {
                        if j < i {
                            let q = choose|q: int| 0 <= q < before.len() && before[q] == self.breakpoints@[j];
                            assert(kept@[q] == before[q]);
                        }
                    }
                }
            }
            i = i + 1;
        }
        let ghost bs = self.breakpoints@;
        self.breakpoints = kept;
        assert forall|x: u32| self.breakpoints@.contains(x) <==> (bs.contains(x) && x != src) by {
            if self.breakpoints@.contains(x) {
                let j = choose|j: int| 0 <= j < self.breakpoints@.len() && self.breakpoints@[j] == x;
                assert(kept@[j] == x);
            }
            if bs.contains(x) && x != src {
                let j = choose|j: int| 0 <= j < bs.len() && bs[j] == x;
                assert(kept@.contains(bs[j]));
            }
        }
    }

    /// Whether position `src` pauses.
    pub fn has_breakpoint(&self, src: u32) -> (r: bool)
        ensures
            r == self.is_breakpoint(src),
    {
        let mut i: usize = 0;
        while i < self.breakpoints.len()
            invariant
                i <= self.breakpoints@.len(),
                forall|j: int| 0 <= j < i ==> self.breakpoints@[j] != src,
            decreases self.breakpoints@.len() - i,
        {
            if self.breakpoints[i] == src {
                return true;
            }
            i = i + 1;
        }
        false
    }

    /// The last pause position once the run is at `src`: forgotten when the
    /// run has moved to another position.
    pub open spec fn moved_on(&self, src: u32) -> Option<u32> {
        if self.last_paused != Some(src) {
            None
        } else {
            self.last_paused
        }
    }

    /// Whether the instruction at position `src`, run at call depth `depth`
    /// (a `breakpoint()` call when `explicit`), is followed by a pause: an
    /// explicit breakpoint pauses; stepping into pauses after every
    /// instruction, stepping over at the starting depth or shallower,
    /// stepping out only shallower; otherwise a breakpoint position pauses.
    /// A breakpoint does not pause twice in a row at the same position.
    pub open spec fn pause_due(&self, src: u32, depth: usize, explicit: bool) -> bool {
        let last = self.moved_on(src);
        &&& self.attached
        &&& if explicit {
            last != Some(src)
        } else if self.step_mode.is_step() {
            match self.step_mode {
                DebugStepMode::StepInto => true,
                DebugStepMode::StepOver => depth <= self.step_depth,
                _ => depth < self.step_depth,
            }
        } else {
            self.is_breakpoint(src) && last != Some(src)
        }
    }

    /// Decides, before instruction `instr` at position `src` runs at call
    /// depth `depth`, whether to pause after it.
    pub fn before_instruction(&mut self, instr: Instruction, src: u32, depth: usize) -> (r: bool)
        ensures
            r == old(self).pause_due(src, depth, instr.op == OpCode::Breakpoint),
            old(self).attached ==> *final(self) == (Debugger { last_paused: old(self).moved_on(src), ..*old(self) }),
            !old(self).attached ==> *final(self) == *old(self),
    {
        if !self.attached {
            return false;
        }
        if self.last_paused != Some(src) {
            self.last_paused = None;
        }
        let explicit = match instr.op {
            OpCode::Breakpoint => true,
            _ => false,
        };
        if explicit {
            self.last_paused != Some(src)
        } else {
            match self.step_mode {
                DebugStepMode::StepInto => true,
                DebugStepMode::StepOver => depth <= self.step_depth,
                DebugStepMode::StepOut => depth < self.step_depth,
                _ => self.has_breakpoint(src) && self.last_paused != Some(src),
            }
        }
    }

    /// Records a pause at position `src`: stepping stops while the host
    /// shows it.
    pub fn paused(&mut self, src: u32)
        ensures
            *final(self) == (Debugger { last_paused: Some(src), step_mode: DebugStepMode::Disabled, ..*old(self) }),
    {
        self.last_paused = Some(src);
        self.step_mode = DebugStepMode::Disabled;
    }

    /// Goes on after a pause at call depth `depth` with the host's answer
    /// `action`: stepping over or out starts from that depth.
    pub fn resumed(&mut self, action: i32, depth: usize)
        ensures
            final(self).step_mode == DebugStepMode::spec_from_i32(action),
            final(self).step_depth == (if final(self).step_mode is StepOver || final(self).step_mode is StepOut {
                depth
            } else {
                old(self).step_depth
            }),
            final(self).attached == old(self).attached,
            final(self).breakpoints == old(self).breakpoints,
            final(self).last_paused == old(self).last_paused,
    {
        let mode = DebugStepMode::from_i32(action);
        self.step_mode = mode;
        match mode {
            DebugStepMode::StepOver | DebugStepMode::StepOut => {
                self.step_depth = depth;
            },
            _ => {},
        }
    }
}

impl VM {
    /// The instruction about to run and its source position, while code runs
    /// and its frame has one left.
    pub fn next_instruction(&self) -> (r: Option<(Instruction, u32)>)
        requires
            self.wf(),
        ensures
            self.running && self.frame.ip < self.cur_code().instructions@.len()
                ==> r == Some((self.fetched(), self.fetched_src())),
            !(self.running && self.frame.ip < self.cur_code().instructions@.len()) ==> r is None,
    {
        if !self.running {
            return None;
        }
        let cid = self.frame.code.unwrap();
        let code = &self.codes[cid];
        let ip = self.frame.ip;
        if ip < code.instructions.len() {
            let src = if ip < code.line_table.len() { code.line_table[ip] } else { 0 };
            Some((code.instructions[ip], src))
        } else {
            None
        }
    }

    /// The running frame's locals by name: each (name, slot) of its code's
    /// slot map, in order, whose slot the frame has, with the slot's value.
    pub fn frame_locals(&self) -> (r: Vec<(String, Value)>)
        requires
            self.wf(),
            self.running,
        ensures
            r@.map_values(|p: (String, Value)| (p.0@, p.1)) == named_slots(
                self.cur_code().slot_pairs(),
                self.frame.locals@,
            ),
    {
        let cid = self.frame.code.unwrap();
        let pairs = &self.codes[cid].slotmap;
        let locals = &self.frame.locals;
        let mut out: Vec<(String, Value)> = Vec::new();
        let mut i: usize = 0;
        let ghost sp = self.cur_code().slot_pairs();
        while i < pairs.len()
            invariant
                i <= pairs@.len(),
                sp == pairs@.map_values(|p: (String, usize)| (p.0@, p.1)),
                out@.map_values(|p: (String, Value)| (p.0@, p.1)) == named_slots(sp.subrange(0, i as int), locals@),
            decreases pairs@.len() - i,
        {
            let slot = pairs[i].1;
            proof {
                assert(sp.subrange(0, i + 1).drop_last() =~= sp.subrange(0, i as int));
                assert(sp.subrange(0, i + 1).last() == sp[i as int]);
            }
            if slot < locals.len() {
                let ghost before = out@;
                out.push((pairs[i].0.clone(), locals[slot]));
                proof {
                    assert(out@.map_values(|p: (String, Value)| (p.0@, p.1)) =~= before.map_values(
                        |p: (String, Value)| (p.0@, p.1),
                    ).push((sp[i as int].0, locals@[slot as int])));
                }
            }
            i = i + 1;
        }
        assert(sp.subrange(0, pairs@.len() as int) =~= sp);
        out
    }

    /// The calls in progress, outermost first: each call's name and source
    /// position.
    pub fn call_stack_snapshot(&self) -> (r: Vec<(String, u32)>)
        ensures
            r@.map_values(|p: (String, u32)| (p.0@, p.1)) == self.call_stack@.map_values(
                |c: crate::error::CallInfo| (c.name@, c.call_start_byte),
            ),
    {
        let mut out: Vec<(String, u32)> = Vec::new();
        let mut i: usize = 0;
        while i < self.call_stack.len()
            invariant
                i <= self.call_stack@.len(),
                out@.map_values(|p: (String, u32)| (p.0@, p.1)) == self.call_stack@.subrange(0, i as int).map_values(
                    |c: crate::error::CallInfo| (c.name@, c.call_start_byte),
                ),
            decreases self.call_stack@.len() - i,
        {
            let ghost before = out@;
            let name = self.call_stack[i].name.clone();
            out.push((name, self.call_stack[i].call_start_byte));
            proof {
                let f = |p: (String, u32)| (p.0@, p.1);
                let g = |c: crate::error::CallInfo| (c.name@, c.call_start_byte);
                assert(out@ =~= before.push((name, self.call_stack@[i as int].call_start_byte)));
                assert(self.call_stack@.subrange(0, i + 1) =~= self.call_stack@.subrange(0, i as int).push(self.call_stack@[i as int]));
                assert(out@.map_values(f) =~= before.map_values(f).push(f((name, self.call_stack@[i as int].call_start_byte))));
                assert(self.call_stack@.subrange(0, i + 1).map_values(g) =~= self.call_stack@.subrange(0, i as int).map_values(g).push(
                    g(self.call_stack@[i as int]),
                ));
            }
            i = i + 1;
        }
        assert(self.call_stack@.subrange(0, i as int) =~= self.call_stack@);
        out
    }
}

/// The (name, value) of each (name, slot) pair, in order, whose slot is
/// within `locals`.
pub open spec fn named_slots(pairs: Seq<(Seq<char>, usize)>, locals: Seq<Value>) -> Seq<(Seq<char>, Value)>
    decreases pairs.len(),
{
    if pairs.len() == 0 {
        Seq::empty()
    } else {
        let rest = named_slots(pairs.drop_last(), locals);
        let p = pairs.last();
        if (p.1 as int) < locals.len() {
            rest.push((p.0, locals[p.1 as int]))
        } else {
            rest
        }
    }
}

} // verus!
