//! Operators on struct instances: an operator method of the struct type that
//! is a VM function (`op_add`, `op_eq`, ...) runs in a new frame on the
//! operands; without one, two instances of one type compare equal field by
//! field.

use vstd::prelude::*;
use crate::value::Value;
use crate::frame::{OpCode, FrameState, nils, bind_positional};
use crate::step::{top, pop1, pop_value, write_slot, HostRequest, Resume};
use crate::structs::{method_lookup, find_method};
use crate::ops::{spec_eq_native, eq_without_python};
use crate::vm::{Outcome, VM};

verus! {

/// The method an operator instruction looks up on its struct operand.
pub open spec fn op_method(op: OpCode) -> Option<Seq<char>> {
    match op {
        OpCode::Add => Some("op_add"@),
        OpCode::Sub => Some("op_sub"@),
        OpCode::Mul => Some("op_mul"@),
        OpCode::Div => Some("op_div"@),
        OpCode::FloorDiv => Some("op_floordiv"@),
        OpCode::Mod => Some("op_mod"@),
        OpCode::Pow => Some("op_pow"@),
        OpCode::BAnd => Some("op_band"@),
        OpCode::BOr => Some("op_bor"@),
        OpCode::BXor => Some("op_bxor"@),
        OpCode::LShift => Some("op_lshift"@),
        OpCode::RShift => Some("op_rshift"@),
        OpCode::Lt => Some("op_lt"@),
        OpCode::Le => Some("op_le"@),
        OpCode::Gt => Some("op_gt"@),
        OpCode::Ge => Some("op_ge"@),
        OpCode::Eq => Some("op_eq"@),
        OpCode::Ne => Some("op_ne"@),
        OpCode::Neg => Some("op_neg"@),
        OpCode::Pos => Some("op_pos"@),
        OpCode::BNot => Some("op_bnot"@),
        OpCode::In => Some("op_in"@),
        OpCode::NotIn => Some("op_not_in"@),
        _ => None,
    }
}

/// The method tried on the right operand when the left one has none: the
/// same one, but the mirrored comparison for an ordering.
pub open spec fn reflected_method(op: OpCode) -> Option<Seq<char>> {
    match op {
        OpCode::Lt => Some("op_gt"@),
        OpCode::Le => Some("op_ge"@),
        OpCode::Gt => Some("op_lt"@),
        OpCode::Ge => Some("op_le"@),
        OpCode::Neg | OpCode::Pos | OpCode::BNot | OpCode::In | OpCode::NotIn => None,
        _ => op_method(op),
    }
}

/// Operators with one operand.
pub open spec fn is_unary_op(op: OpCode) -> bool {
    op == OpCode::Neg || op == OpCode::Pos || op == OpCode::BNot
}

/// Operators whose right operand is the container.
pub open spec fn is_membership_op(op: OpCode) -> bool {
    op == OpCode::In || op == OpCode::NotIn
}

/// Comparisons, which look for a method only when the left operand is a
/// struct instance.
pub open spec fn is_comparison_op(op: OpCode) -> bool {
    op == OpCode::Lt || op == OpCode::Le || op == OpCode::Gt || op == OpCode::Ge || op == OpCode::Eq
        || op == OpCode::Ne
}

/// How a field-by-field comparison ends from field `i` on.
pub enum FieldsEq {
    /// All remaining fields are equal.
    Equal,
    /// A field differs.
    Differ,
    /// Field `i` needs the host's comparison.
    AskAt(int),
}

/// Field-by-field comparison of `fa` and `fb` from field `i` on, as far as
/// the VM decides it.
pub open spec fn fields_eq_from(fa: Seq<Value>, fb: Seq<Value>, i: int) -> FieldsEq
    decreases fa.len() - i,
{
    if i < 0 || i >= fa.len() || i >= fb.len() {
        FieldsEq::Equal
    } else {
        match spec_eq_native(fa[i], fb[i]) {
            Some(true) => fields_eq_from(fa, fb, i + 1),
            Some(false) => FieldsEq::Differ,
            None => FieldsEq::AskAt(i),
        }
    }
}

impl VM {
    /// The VM method named `name` of the struct type of `v`.
    pub open spec fn vm_method(&self, v: Value, name: Seq<char>) -> Option<u32> {
        let reg = self.struct_registry;
        match v {
            Value::Struct(idx) => if (idx as int) < reg.num_instances() && (reg.instance_type(idx as int) as int) < reg.num_types() {
                match method_lookup(reg.type_vm_methods(reg.instance_type(idx as int) as int), name) {
                    Some(f) => if (f as int) < self.func_table@.len() { Some(f) } else { None },
                    None => None,
                }
            } else {
                None
            },
            _ => None,
        }
    }

    /// The method an operator instruction runs on the running frame's
    /// operands, with its arguments: unary operators on their operand;
    /// membership on the container (container, item); comparisons, when the
    /// left operand is a struct instance, on it (left, right), else the
    /// mirrored one on the right operand (right, left); other binary
    /// operators on the left operand, else on the right one (right, left).
    pub open spec fn overload(&self, op: OpCode) -> Option<(u32, Seq<Value>)> {
        let st = self.frame.stack@;
        let b = top(st);
        let a = top(pop1(st));
        match op_method(op) {
            None => None,
            Some(name) => if is_unary_op(op) {
                match self.vm_method(b, name) {
                    Some(f) => Some((f, seq![b])),
                    None => None,
                }
            } else if is_membership_op(op) {
                match self.vm_method(b, name) {
                    Some(f) => Some((f, seq![b, a])),
                    None => None,
                }
            } else if is_comparison_op(op) && !(a is Struct) {
                None
            } else {
                match self.vm_method(a, name) {
                    Some(f) => Some((f, seq![a, b])),
                    None => match self.vm_method(b, reflected_method(op).unwrap()) {
                        Some(f) => Some((f, seq![b, a])),
                        None => None,
                    },
                }
            },
        }
    }

    /// The VM after running method `f` on `args` from frame state `cur`:
    /// the frame waits and `f` runs in a new frame with the arguments in its
    /// first slots.
    pub open spec fn method_called(&self, f: u32, args: Seq<Value>, cur: FrameState, r: Outcome, post: VM) -> bool {
        let slot = self.func_table@[f as int];
        &&& r is Running
        &&& post.running
        &&& post.waiting is None
        &&& post.callers() == self.callers().push(cur)
        &&& post.frame.code == Some(slot.code)
        &&& post.frame.ip == 0
        &&& post.frame.stack@.len() == 0
        &&& post.frame.locals@ == bind_positional(
            nils(self.codes@[slot.code as int].nlocals as nat),
            args,
            args.len() as int,
        )
        &&& !post.frame.discard_return
        &&& post.frame.closure_scope == (match slot.closure {
            Some(c) => Some(c.id),
            None => None::<usize>,
        })
    }

    /// Whether an `Eq` or `Ne` compares two instances of one struct type
    /// field by field.
    pub open spec fn struct_eq_case(&self, op: OpCode) -> bool {
        let st = self.frame.stack@;
        &&& op == OpCode::Eq || op == OpCode::Ne
        &&& self.overload(op) is None
        &&& top(st) is Struct
        &&& top(pop1(st)) is Struct
    }

    /// Field-by-field comparison of instances `ia` and `ib` from field
    /// `from` on: instances of different types (or missing ones) differ.
    pub open spec fn instances_eq(&self, ia: u32, ib: u32, from: int) -> FieldsEq {
        let reg = self.struct_registry;
        if (ia as int) < reg.num_instances() && (ib as int) < reg.num_instances()
            && reg.instance_type(ia as int) == reg.instance_type(ib as int) {
            fields_eq_from(reg.instance_fields(ia as int), reg.instance_fields(ib as int), from)
        } else {
            FieldsEq::Differ
        }
    }

    /// The outcome of comparing instances `ia` and `ib` from field `from`
    /// on, from frame state `cur`: the result (negated for `!=`) is pushed,
    /// or the host is asked to compare the first field pair the VM cannot.
    pub open spec fn fields_compared(&self, ia: u32, ib: u32, from: int, negate: bool, cur: FrameState, r: Outcome, post: VM) -> bool {
        match self.instances_eq(ia, ib, from) {
            FieldsEq::Equal => r is Running && post.running && post.waiting is None
                && post.frame.state() == (FrameState { stack: cur.stack.push(Value::Bool(!negate)), ..cur }),
            FieldsEq::Differ => r is Running && post.running && post.waiting is None
                && post.frame.state() == (FrameState { stack: cur.stack.push(Value::Bool(negate)), ..cur }),
            FieldsEq::AskAt(i) => {
                &&& r == Outcome::Host(HostRequest::Equal(
                    self.struct_registry.instance_fields(ia as int)[i],
                    self.struct_registry.instance_fields(ib as int)[i],
                    false,
                ))
                &&& post.waiting == Some(Resume::FieldEq { a: ia, b: ib, next: (i + 1) as usize, negate })
                &&& post.frame.state() == cur
            },
        }
    }

    /// Compares instances `ia` and `ib` from field `from` on: pushes the
    /// result (negated for `!=`), or asks the host to compare the first
    /// field pair the VM cannot.
    pub(crate) fn compare_fields(&mut self, ia: u32, ib: u32, from: usize, negate: bool) -> (r: Outcome)
        requires
            old(self).wf(),
            old(self).running,
            old(self).waiting is None,
        ensures
            final(self).wf(),
            final(self).protocol(r),
            final(self).same_tables(*old(self)),
            final(self).callers() == old(self).callers(),
            old(self).fields_compared(ia, ib, from as int, negate, old(self).frame.state(), r, *final(self)),
    {
        let same = match (self.struct_registry.instance(ia), self.struct_registry.instance(ib)) {
            (Some(x), Some(y)) => x.type_id == y.type_id,
            _ => false,
        };
        if !same {
            self.frame.stack.push(Value::Bool(negate));
            return Outcome::Running;
        }
        let fa = &self.struct_registry.instance(ia).unwrap().fields;
        let fb = &self.struct_registry.instance(ib).unwrap().fields;
        let ghost sa = fa@;
        let ghost sb = fb@;
        assert(old(self).instances_eq(ia, ib, from as int) == fields_eq_from(sa, sb, from as int));
        let mut i: usize = from;
        while i < fa.len() && i < fb.len()
            invariant
                self.wf(),
                self.running,
                self.waiting is None,
                self.frame == old(self).frame,
                self.frame_stack == old(self).frame_stack,
                self.same_tables(*old(self)),
                sa == fa@,
                sb == fb@,
                sa == self.struct_registry.instance_fields(ia as int),
                sb == self.struct_registry.instance_fields(ib as int),
                from <= i,
                old(self).instances_eq(ia, ib, from as int) == fields_eq_from(sa, sb, from as int),
                fields_eq_from(sa, sb, from as int) == fields_eq_from(sa, sb, i as int),
            decreases fa@.len() - i,
        {
            match eq_without_python(fa[i], fb[i]) {
                Some(true) => {},
                Some(false) => {
                    self.frame.stack.push(Value::Bool(negate));
                    return Outcome::Running;
                },
                None => {
                    let x = fa[i];
                    let y = fb[i];
                    assert(fields_eq_from(sa, sb, i as int) == FieldsEq::AskAt(i as int));
                    assert(old(self).struct_registry.instance_fields(ia as int)[i as int] == x);
                    return self.ask(
                        HostRequest::Equal(x, y, false),
                        Resume::FieldEq { a: ia, b: ib, next: i + 1, negate },
                    );
                },
            }
            i = i + 1;
        }
        self.frame.stack.push(Value::Bool(!negate));
        Outcome::Running
    }

    /// The VM method named `name` of the struct type of `v`.
    pub fn find_vm_method(&self, v: Value, name: &str) -> (r: Option<u32>)
        requires
            self.struct_registry.wf(),
        ensures
            r == self.vm_method(v, name@),
    {
        match v {
            Value::Struct(idx) => match self.struct_registry.instance(idx) {
                Some(inst) => {
                    proof {
                        self.struct_registry.lemma_instance(idx as int);
                    }
                    match self.struct_registry.get_type(inst.type_id) {
                        Some(ty) => match find_method(&ty.vm_methods, name) {
                            Some(f) => if (f as usize) < self.func_table.len() { Some(f) } else { None },
                            None => None,
                        },
                        None => None,
                    }
                },
                None => None,
            },
            _ => None,
        }
    }

    /// The method an operator instruction runs, with its arguments.
    pub fn find_overload(&self, op: OpCode) -> (r: Option<(u32, Vec<Value>)>)
        requires
            self.struct_registry.wf(),
        ensures
            match r {
                Some((f, args)) => self.overload(op) == Some((f, args@)),
                None => self.overload(op) is None,
            },
    {
        let name = match op {
            OpCode::Add => "op_add",
            OpCode::Sub => "op_sub",
            OpCode::Mul => "op_mul",
            OpCode::Div => "op_div",
            OpCode::FloorDiv => "op_floordiv",
            OpCode::Mod => "op_mod",
            OpCode::Pow => "op_pow",
            OpCode::BAnd => "op_band",
            OpCode::BOr => "op_bor",
            OpCode::BXor => "op_bxor",
            OpCode::LShift => "op_lshift",
            OpCode::RShift => "op_rshift",
            OpCode::Lt => "op_lt",
            OpCode::Le => "op_le",
            OpCode::Gt => "op_gt",
            OpCode::Ge => "op_ge",
            OpCode::Eq => "op_eq",
            OpCode::Ne => "op_ne",
            OpCode::Neg => "op_neg",
            OpCode::Pos => "op_pos",
            OpCode::BNot => "op_bnot",
            OpCode::In => "op_in",
            OpCode::NotIn => "op_not_in",
            _ => return None,
        };
        let n = self.frame.stack.len();
        let b = if n > 0 { self.frame.stack[n - 1] } else { Value::Nil };
        let a = if n > 1 { self.frame.stack[n - 2] } else { Value::Nil };
        proof {
            let st = self.frame.stack@;
            if n > 1 {
                assert(pop1(st).last() == st[n - 2]);
            }
        }
        match op {
            OpCode::Neg | OpCode::Pos | OpCode::BNot => {
                return match self.find_vm_method(b, name) {
                    Some(f) => Some((f, vec![b])),
                    None => None,
                };
            },
            OpCode::In | OpCode::NotIn => {
                return match self.find_vm_method(b, name) {
                    Some(f) => Some((f, vec![b, a])),
                    None => None,
                };
            },
            OpCode::Lt | OpCode::Le | OpCode::Gt | OpCode::Ge | OpCode::Eq | OpCode::Ne => {
                match a {
                    Value::Struct(_) => {},
                    _ => return None,
                }
            },
            _ => {},
        }
        match self.find_vm_method(a, name) {
            Some(f) => return Some((f, vec![a, b])),
            None => {},
        }
        let mirrored = match op {
            OpCode::Lt => "op_gt",
            OpCode::Le => "op_ge",
            OpCode::Gt => "op_lt",
            OpCode::Ge => "op_le",
            _ => name,
        };
        match self.find_vm_method(b, mirrored) {
            Some(f) => Some((f, vec![b, a])),
            None => None,
        }
    }

    /// Pops `npop` operands and runs method `f` on `args` in a new frame.
    pub(crate) fn run_method(&mut self, f: u32, args: Vec<Value>, npop: usize) -> (r: Outcome)
        requires
            old(self).wf(),
            old(self).running,
            old(self).waiting is None,
            (f as int) < old(self).func_table@.len(),
            npop <= 2,
        ensures
            final(self).wf(),
            final(self).protocol(r),
            final(self).same_tables(*old(self)),
            old(self).method_called(
                f,
                args@,
                FrameState {
                    stack: if npop == 2 { pop1(pop1(old(self).frame.stack@)) } else if npop == 1 {
                        pop1(old(self).frame.stack@)
                    } else {
                        old(self).frame.stack@
                    },
                    ..old(self).frame.state()
                },
                r,
                *final(self),
            ),
    {
        if npop >= 1 {
            pop_value(&mut self.frame.stack);
        }
        if npop >= 2 {
            pop_value(&mut self.frame.stack);
        }
        let ghost cur = self.frame.state();
        let slot = self.func_table[f as usize];
        let nlocals = self.codes[slot.code].nlocals;
        let mut nf = self.frame_pool.alloc_with_code(slot.code, nlocals);
        write_args(&mut nf.locals, &args);
        nf.closure_scope = match slot.closure {
            Some(c) => Some(c.id),
            None => None,
        };
        std::mem::swap(&mut nf, &mut self.frame);
        self.frame_stack.push(nf);
        proof {
            assert forall|i: int| 0 <= i < self.frame_stack@.len() implies self.frame_ok(#[trigger] self.frame_stack@[i]) by {
                if i < self.frame_stack@.len() - 1 {
                    assert(self.frame_stack@[i] == old(self).frame_stack@[i]);
                }
            }
            assert(self.frame_stack@.last().state() == cur);
            assert(self.callers() =~= old(self).callers().push(cur));
        }
        Outcome::Running
    }
}

/// Writes the arguments into the first slots.
fn write_args(locals: &mut Vec<Value>, args: &Vec<Value>)
    ensures
        final(locals)@ == bind_positional(old(locals)@, args@, args@.len() as int),
{
    let mut i: usize = 0;
    while i < args.len()
        invariant
            i <= args@.len(),
            locals@ == bind_positional(old(locals)@, args@, i as int),
        decreases args@.len() - i,
    {
        write_slot(locals, i, args[i]);
        assert(locals@ =~= bind_positional(old(locals)@, args@, i + 1));
        i = i + 1;
    }
}

} // verus!
