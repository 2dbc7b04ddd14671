//! Method calls on a receiver (`CallMethod`): struct instances are served
//! by the VM, fields holding callables and VM methods alike; anything else
//! goes to the host.

use vstd::prelude::*;
use crate::value::Value;
use crate::frame::{FrameState, excess_of};
use crate::step::{HostRequest, HostView, Resume, pop_value};
use crate::error::{VMError, ErrorView, ExceptionKind};
use crate::text::{decimal, nat_digits, u64_to_decimal, concat3};
use crate::vm::{Outcome, VM, Effect, raised, carried, attr_text, attr_message, names_contain};
use crate::structs::{method_lookup, find_method, field_index_from};

verus! {

/// Bits of a `CallMethod` argument that hold the argument count.
pub const CALL_ARGS_MASK: u32 = 0xFF;

/// Shift of the method's name index in a `CallMethod` argument.
pub const CALL_ARGS_SHIFT: u32 = 8;

/// Message of the error for a struct instance index past the registry.
pub open spec fn invalid_instance_text(idx: int) -> Seq<char> {
    "invalid struct instance index "@ + decimal(idx)
}

impl VM {
    /// Calling method `name` of `obj` with arguments `args` from frame
    /// `cur`, with outcome `r` and VM `post` after it. For a struct
    /// instance: a field of that name is called without the receiver (a VM
    /// function in a new frame, another callable by the host); else a VM
    /// method runs with the receiver before the arguments; else a host
    /// method is called by the host; else it raises. A struct index past the
    /// registry raises. The host calls the method of any other value.
    pub open spec fn method_call_done(
        &self,
        obj: Value,
        name: Seq<char>,
        args: Seq<Value>,
        cur: FrameState,
        r: Outcome,
        post: VM,
    ) -> bool {
        let reg = self.struct_registry;
        let host = carried(Effect::Ask(HostView::CallMethod(obj, name, args), Resume::Push), cur, self.callers(), r, post);
        match obj {
            Value::Struct(idx) => if (idx as int) < reg.num_instances() {
                let t = reg.instance_type(idx as int) as int;
                let f = field_index_from(reg.type_fields(t), name, 0);
                if f >= 0 {
                    match reg.instance_fields(idx as int)[f] {
                        Value::Func(fid) => self.func_entered(fid, args, cur, r, post),
                        v => carried(Effect::Ask(HostView::Call(v, args), Resume::Push), cur, self.callers(), r, post),
                    }
                } else {
                    match method_lookup(reg.type_vm_methods(t), name) {
                        Some(m) => self.func_entered(m, seq![obj] + args, cur, r, post),
                        None => if reg.type_methods(t).contains(name) {
                            host
                        } else {
                            raised(
                                cur,
                                self.callers(),
                                ErrorView::Builtin(ExceptionKind::RuntimeError, attr_text(reg.name_of_type(t), name)),
                                r,
                                post,
                            )
                        },
                    }
                }
            } else {
                raised(
                    cur,
                    self.callers(),
                    ErrorView::Builtin(ExceptionKind::RuntimeError, invalid_instance_text(idx as int)),
                    r,
                    post,
                )
            },
            _ => host,
        }
    }

    /// What `op_call_method` leads to (`r` and `post`), from this VM.
    pub open spec fn call_method_done(&self, arg: u32, r: Outcome, post: VM) -> bool {
        &&& (({
                let n = (arg & CALL_ARGS_MASK) as int;
                let k = arg >> CALL_ARGS_SHIFT;
                let st = self.frame.stack@;
                let len = st.len() as int;
                match self.name_of(k) {
                    None => raised(self.frame.state(), self.callers(), self.bad_name(k), r, post),
                    Some(name) => if len <= n {
                        raised(self.frame.state(), self.callers(), ErrorView::StackUnderflow, r, post)
                    } else {
                        self.method_call_done(
                            st[len - n - 1],
                            name,
                            st.subrange(len - n, len),
                            FrameState { stack: st.subrange(0, len - n - 1), ..self.frame.state() },
                            r,
                            post,
                        )
                    },
                }
            }))
    }

    /// `CallMethod arg`: calls method `arg >> CALL_ARGS_SHIFT` (a name of the
    /// running code) of the receiver below the top `arg & CALL_ARGS_MASK`
    /// values, with those values as arguments.
    pub fn op_call_method(&mut self, arg: u32) -> (r: Outcome)
        requires
            old(self).wf(),
            old(self).running,
            old(self).waiting is None,
        ensures
            final(self).wf(),
            final(self).protocol(r),
            final(self).codes == old(self).codes,
            old(self).call_method_done(arg, r, *final(self)),
    {
        let cid = self.frame.code.unwrap();
        let n = (arg & CALL_ARGS_MASK) as usize;
        let name = match self.name_at(cid, arg >> CALL_ARGS_SHIFT) {
            Ok(s) => s,
            Err(e) => return self.raise(e),
        };
        let len = self.frame.stack.len();
        if n >= len {
            return self.raise(VMError::StackUnderflow);
        }
        let args = self.frame.stack.split_off(len - n);
        let obj = pop_value(&mut self.frame.stack);
        proof {
            let st = old(self).frame.stack@;
            assert(st.subrange(0, len - n as int).drop_last() =~= st.subrange(0, len - n as int - 1));
            assert(obj == st[len - n as int - 1]);
            assert(args@ == st.subrange(len - n as int, len as int));
            assert(self.frame.state() == FrameState { stack: st.subrange(0, len - n as int - 1), ..old(self).frame.state() });
        }
        match obj {
            Value::Struct(idx) => match self.struct_registry.instance(idx) {
                Some(inst) => {
                    proof {
                        self.struct_registry.lemma_instance(idx as int);
                    }
                    let ty = self.struct_registry.get_type(inst.type_id).unwrap();
                    match ty.field_index(name.as_str()) {
                        Some(f) => {
                            let v = inst.fields[f];
                            match v {
                                Value::Func(fid) => self.enter_function(fid, args),
                                _ => self.ask(HostRequest::Call(v, args), Resume::Push),
                            }
                        },
                        None => match find_method(&ty.vm_methods, name.as_str()) {
                            Some(m) => {
                                let mut all: Vec<Value> = Vec::new();
                                all.push(obj);
                                let mut rest = args;
                                all.append(&mut rest);
                                proof {
                                    assert(all@ =~= seq![obj] + args@);
                                }
                                self.enter_function(m, all)
                            },
                            None => {
                                if names_contain(&ty.methods, name.as_str()) {
                                    self.ask(HostRequest::CallMethod(obj, name, args), Resume::Push)
                                } else {
                                    let msg = attr_message(ty.name.as_str(), name.as_str());
                                    self.raise(VMError::RuntimeError(msg))
                                }
                            },
                        },
                    }
                },
                None => {
                    let d = u64_to_decimal(idx as u64);
                    let mut msg = "invalid struct instance index ".to_owned();
                    msg.append(d.as_str());
                    proof {
                        assert(decimal(idx as int) == nat_digits(idx as nat));
                    }
                    self.raise(VMError::RuntimeError(msg))
                },
            },
            _ => self.ask(HostRequest::CallMethod(obj, name, args), Resume::Push),
        }
    }

    /// Runs VM function `idx` with positional arguments `args` in a new
    /// frame, the running frame waiting below it.
    fn enter_function(&mut self, idx: u32, args: Vec<Value>) -> (r: Outcome)
        requires
            old(self).wf(),
            old(self).running,
            old(self).waiting is None,
        ensures
            final(self).wf(),
            final(self).protocol(r),
            final(self).codes == old(self).codes,
            old(self).func_entered(idx, args@, old(self).frame.state(), r, *final(self)),
    {
        if (idx as usize) >= self.func_table.len() {
            let a = u64_to_decimal(idx as u64);
            let b = u64_to_decimal(self.func_table.len() as u64);
            let m1 = concat3("invalid function index ", a.as_str(), " (table has ");
            let msg = concat3(m1.as_str(), b.as_str(), " entries)");
            proof {
                assert(decimal(idx as int) == nat_digits(idx as nat));
                assert(decimal(self.func_table@.len() as int) == nat_digits(self.func_table@.len() as nat));
            }
            return self.raise(VMError::RuntimeError(msg));
        }
        let ghost cur = self.frame.state();
        let slot = self.func_table[idx as usize];
        let nlocals = self.codes[slot.code].nlocals;
        let excess = excess_of(&self.codes[slot.code], args.as_slice());
        let mut nf = self.frame_pool.alloc_with_code(slot.code, nlocals);
        nf.bind_args(&self.codes[slot.code], args.as_slice(), &[]);
        nf.closure_scope = match slot.closure {
            Some(c) => Some(c.id),
            None => None,
        };
        std::mem::swap(&mut nf, &mut self.frame);
        self.frame_stack.push(nf);
        proof {
            assert forall|i: int| 0 <= i < self.frame_stack@.len() implies self.frame_ok(#[trigger] self.frame_stack@[i]) by {
                if i < self.frame_stack@.len() - 1 {
                    assert(self.frame_stack@[i] == old(self).frame_stack@[i]);
                }
            }
            assert(self.frame_stack@.last().state() == cur);
            assert(self.callers() =~= old(self).callers().push(cur));
        }
        if self.codes[slot.code].vararg_idx >= 0 {
            let v = self.codes[slot.code].vararg_idx as usize;
            return self.ask(HostRequest::Build(false, excess), Resume::StoreJump { slot: v, target: 0 });
        }
        Outcome::Running
    }
}

} // verus!
