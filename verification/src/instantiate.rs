//! Calling a struct type: the host object that stands for the type is
//! recognised by its handle, and the instance is built by the VM.

use vstd::prelude::*;
use crate::value::Value;
use crate::frame::{FrameState, nils};
use crate::step::{set_slot, pop_value};
use crate::error::{VMError, ErrorView, ExceptionKind};
use crate::text::{decimal, nat_digits, u64_to_decimal, concat3};
use crate::vm::{Outcome, VM, raised};
use crate::structs::{method_lookup, find_method, field_index_from};

verus! {

/// The type registered last for host object `h` among (handle, type id)
/// pairs, if any.
pub open spec fn handle_entry(entries: Seq<(u64, u32)>, h: u64) -> Option<u32>
    decreases entries.len(),
{
    if entries.len() == 0 {
        None
    } else if entries.last().0 == h {
        Some(entries.last().1)
    } else {
        handle_entry(entries.drop_last(), h)
    }
}

/// The default of field `i` (`None` past the list).
pub open spec fn default_at(defaults: Seq<Option<Value>>, i: int) -> Option<Value> {
    if 0 <= i < defaults.len() { defaults[i] } else { None }
}

/// How many of the first `n` fields have no default.
pub open spec fn required_count(defaults: Seq<Option<Value>>, n: int) -> int
    decreases n,
{
    if n <= 0 {
        0
    } else {
        required_count(defaults, n - 1) + if default_at(defaults, n - 1) is None { 1int } else { 0int }
    }
}

/// The field values of an instance built from `args`: the arguments, then
/// the defaults of the fields left (`Nil` for one without a default).
pub open spec fn filled_fields(args: Seq<Value>, defaults: Seq<Option<Value>>, nfields: int) -> Seq<Value> {
    args + Seq::new((nfields - args.len()) as nat, |i: int| match default_at(defaults, args.len() + i) {
        Some(v) => v,
        None => Value::Nil,
    })
}

/// Message of a call of struct type `name` with `k` required arguments
/// missing.
pub open spec fn missing_text(name: Seq<char>, k: int) -> Seq<char> {
    name + "() missing "@ + decimal(k) + " required argument(s)"@
}

/// Message of a call of struct type `name` with `given` arguments for
/// `nfields` fields.
pub open spec fn takes_text(name: Seq<char>, nfields: int, given: int) -> Seq<char> {
    name + "() takes "@ + decimal(nfields) + " argument(s) but "@ + decimal(given) + " were given"@
}

/// The `init` VM method among `methods`.
pub open spec fn init_of(methods: Seq<(Seq<char>, u32)>) -> Option<u32> {
    method_lookup(methods, "init"@)
}

/// Message when no further instance can be registered.
pub open spec fn instance_limit_text() -> Seq<char> {
    "too many struct instances"@
}

impl VM {
    /// The struct type host object `h` stands for, when it is registered.
    pub open spec fn struct_type_of(&self, h: u64) -> Option<int> {
        match handle_entry(self.struct_types@, h) {
            Some(t) => if (t as int) < self.struct_registry.num_types() { Some(t as int) } else { None },
            None => None,
        }
    }

    /// What calling struct type `t` with `args` leads to, from frame state
    /// `cur` (the callable and arguments already popped): too few or too
    /// many arguments raise a `TypeError`; else a new instance holds the
    /// arguments and the defaults of the fields left. With an `init` VM
    /// function, the instance is pushed and `init` runs on it in a new frame
    /// whose result is dropped; else the instance is pushed.
    pub open spec fn instantiated(&self, t: int, args: Seq<Value>, cur: FrameState, r: Outcome, post: VM) -> bool {
        let reg = self.struct_registry;
        let nf = reg.type_fields(t).len() as int;
        let defaults = reg.type_defaults(t);
        let min = required_count(defaults, nf);
        let name = reg.name_of_type(t);
        let n = args.len() as int;
        if n < min {
            raised(cur, self.callers(), ErrorView::Builtin(ExceptionKind::TypeError, missing_text(name, min - n)), r, post)
        } else if n > nf {
            raised(cur, self.callers(), ErrorView::Builtin(ExceptionKind::TypeError, takes_text(name, nf, n)), r, post)
        } else {
            self.instance_made(t, filled_fields(args, defaults, nf), cur, r, post)
        }
    }

    /// What making an instance of struct type `t` with field values
    /// `fields` leads to, from frame state `cur`: a new instance holds them;
    /// with an `init` VM function, the instance is pushed and `init` runs on
    /// it in a new frame whose result is dropped; else the instance is
    /// pushed. When no instance can be registered any more, that raises.
    pub open spec fn instance_made(&self, t: int, fields: Seq<Value>, cur: FrameState, r: Outcome, post: VM) -> bool {
        let reg = self.struct_registry;
        if reg.num_instances() >= u32::MAX {
            raised(cur, self.callers(), ErrorView::Builtin(ExceptionKind::RuntimeError, instance_limit_text()), r, post)
        } else {
            let idx = reg.num_instances() as int;
            let inst = Value::Struct(idx as u32);
            let pushed = FrameState { stack: cur.stack.push(inst), ..cur };
            &&& r is Running
            &&& post.running
            &&& post.waiting is None
            &&& post.struct_registry.num_instances() == idx + 1
            &&& post.struct_registry.instance_type(idx) == t as u32
            &&& post.struct_registry.instance_fields(idx) == fields
            &&& if init_of(reg.type_vm_methods(t)) is Some && (init_of(reg.type_vm_methods(t)).unwrap() as int) < self.func_table@.len() {
                    let slot = self.func_table@[init_of(reg.type_vm_methods(t)).unwrap() as int];
                    &&& post.callers() == self.callers().push(pushed)
                    &&& post.frame.code == Some(slot.code)
                    &&& post.frame.ip == 0
                    &&& post.frame.stack@.len() == 0
                    &&& post.frame.locals@ == set_slot(nils(self.codes@[slot.code as int].nlocals as nat), 0, inst)
                    &&& post.frame.discard_return
                    &&& post.frame.closure_scope == (match slot.closure {
                        Some(c) => Some(c.id),
                        None => None::<usize>,
                    })
            } else {
                post.frame.state() == pushed && post.callers() == self.callers()
            }
        }
    }

    /// Registers host object `h` as standing for struct type `type_id`.
    pub fn register_struct_handle(&mut self, h: u64, type_id: u32)
        requires
            old(self).wf(),
        ensures
            final(self).wf(),
            final(self).struct_types@ == old(self).struct_types@.push((h, type_id)),
            final(self).running == old(self).running,
            final(self).waiting == old(self).waiting,
            final(self).frame == old(self).frame,
            final(self).frame_stack == old(self).frame_stack,
            final(self).same_tables(*old(self)),
    {
        self.struct_types.push((h, type_id));
    }

    /// The struct type host object `h` stands for.
    pub fn find_struct_type(&self, h: u64) -> (r: Option<u32>)
        ensures
            r matches Some(t) ==> self.struct_type_of(h) == Some(t as int),
            r is None ==> self.struct_type_of(h) is None,
    {
        let mut i: usize = self.struct_types.len();
        assert(self.struct_types@.subrange(0, i as int) =~= self.struct_types@);
        while i > 0
            invariant
                i <= self.struct_types@.len(),
                handle_entry(self.struct_types@, h) == handle_entry(self.struct_types@.subrange(0, i as int), h),
            decreases i,
        {
            let (k, t) = self.struct_types[i - 1];
            let ghost pre = self.struct_types@.subrange(0, i as int);
            assert(pre.drop_last() =~= self.struct_types@.subrange(0, i - 1));
            if k == h {
                return if (t as usize) < self.struct_registry.num_types_exec() { Some(t) } else { None };
            }
            i = i - 1;
        }
        None
    }

    /// Calls struct type `t` with `args` from the running frame, whose
    /// callable and arguments are already popped.
    pub(crate) fn instantiate(&mut self, t: u32, args: Vec<Value>) -> (r: Outcome)
        requires
            old(self).wf(),
            old(self).running,
            old(self).waiting is None,
            (t as int) < old(self).struct_registry.num_types(),
        ensures
            final(self).wf(),
            final(self).protocol(r),
            final(self).codes == old(self).codes,
            old(self).instantiated(t as int, args@, old(self).frame.state(), r, *final(self)),
    {
        let ty = self.struct_registry.get_type(t).unwrap();
        let nf = ty.fields.len();
        let n = args.len();
        let min = count_required(&ty.defaults, nf);
        let name = ty.name.clone();
        let fields = if n <= nf { fill_fields(args, &ty.defaults, nf) } else { Vec::new() };
        if n < min {
            let k = u64_to_decimal((min - n) as u64);
            let msg = concat3(name.as_str(), "() missing ", k.as_str());
            let msg = concat3(msg.as_str(), " required argument(s)", "");
            proof {
                assert(decimal((min - n) as int) == nat_digits((min - n) as nat));
                assert(""@ == Seq::<char>::empty()) by {
                    reveal_strlit("");
                }
            }
            return self.raise(VMError::TypeError(msg));
        }
        if n > nf {
            let a = u64_to_decimal(nf as u64);
            let b = u64_to_decimal(n as u64);
            let m1 = concat3(name.as_str(), "() takes ", a.as_str());
            let m2 = concat3(m1.as_str(), " argument(s) but ", b.as_str());
            let msg = concat3(m2.as_str(), " were given", "");
            proof {
                assert(decimal(nf as int) == nat_digits(nf as nat));
                assert(decimal(n as int) == nat_digits(n as nat));
                assert(""@ == Seq::<char>::empty()) by {
                    reveal_strlit("");
                }
            }
            return self.raise(VMError::TypeError(msg));
        }
        self.finish_instance(t, fields)
    }

    /// Makes an instance of struct type `t` with field values `fields` in
    /// the running frame and runs its `init` VM method on it, if any.
    pub(crate) fn finish_instance(&mut self, t: u32, fields: Vec<Value>) -> (r: Outcome)
        requires
            old(self).wf(),
            old(self).running,
            old(self).waiting is None,
            (t as int) < old(self).struct_registry.num_types(),
            fields@.len() == old(self).struct_registry.type_fields(t as int).len(),
        ensures
            final(self).wf(),
            final(self).protocol(r),
            final(self).codes == old(self).codes,
            old(self).instance_made(t as int, fields@, old(self).frame.state(), r, *final(self)),
    {
        if self.struct_registry.num_instances_exec() >= u32::MAX as usize {
            return self.raise(VMError::RuntimeError(String::from_str("too many struct instances")));
        }
        let init = find_method(&self.struct_registry.get_type(t).unwrap().vm_methods, "init");
        let idx = self.struct_registry.create_instance(t, fields);
        let inst = Value::Struct(idx);
        let ghost pushed = FrameState { stack: self.frame.stack@.push(inst), ..self.frame.state() };
        self.frame.stack.push(inst);
        match init {
            Some(fid) => {
                if (fid as usize) < self.func_table.len() {
                    let slot = self.func_table[fid as usize];
                    let nlocals = self.codes[slot.code].nlocals;
                    let mut nf = self.frame_pool.alloc_with_code(slot.code, nlocals);
                    crate::step::write_slot(&mut nf.locals, 0, inst);
                    nf.discard_return = true;
                    nf.closure_scope = match slot.closure {
                        Some(c) => Some(c.id),
                        None => None,
                    };
                    std::mem::swap(&mut nf, &mut self.frame);
                    self.frame_stack.push(nf);
                    proof {
                        assert forall|i: int| 0 <= i < self.frame_stack@.len() implies self.frame_ok(#[trigger] self.frame_stack@[i]) by {
                            if i < self.frame_stack@.len() - 1 {
                                assert(self.frame_stack@[i] == old(self).frame_stack@[i]);
                            }
                        }
                        assert(self.frame_stack@.last().state() == pushed);
                        assert(self.callers() =~= old(self).callers().push(pushed));
                    }
                    return Outcome::Running;
                }
                Outcome::Running
            },
            None => Outcome::Running,
        }
    }
}

/// How many of the first `n` fields have no default.
fn count_required(defaults: &Vec<Option<Value>>, n: usize) -> (r: usize)
    ensures
        r as int == required_count(defaults@, n as int),
        r <= n,
{
    let mut c: usize = 0;
    let mut i: usize = 0;
    while i < n
        invariant
            i <= n,
            c <= i,
            c as int == required_count(defaults@, i as int),
        decreases n - i,
    {
        let required = if i < defaults.len() { defaults[i].is_none() } else { true };
        if required {
            c = c + 1;
        }
        i = i + 1;
    }
    c
}

/// The arguments followed by the defaults of the fields left.
fn fill_fields(args: Vec<Value>, defaults: &Vec<Option<Value>>, nfields: usize) -> (r: Vec<Value>)
    requires
        args@.len() <= nfields,
    ensures
        r@ == filled_fields(args@, defaults@, nfields as int),
        r@.len() == nfields,
{
    let ghost a0 = args@;
    let mut out = args;
    let mut i: usize = out.len();
    while i < nfields
        invariant
            a0.len() <= i <= nfields,
            out@.len() == i,
            out@ == filled_fields(a0, defaults@, nfields as int).subrange(0, i as int),
        decreases nfields - i,
    {
        let v = if i < defaults.len() {
            match defaults[i] {
                Some(d) => d,
                None => Value::Nil,
            }
        } else {
            Value::Nil
        };
        out.push(v);
        assert(out@ =~= filled_fields(a0, defaults@, nfields as int).subrange(0, i + 1));
        i = i + 1;
    }
    assert(out@ =~= filled_fields(a0, defaults@, nfields as int));
    out
}

/// Where placing keyword arguments ends.
pub enum KwPlace {
    /// The field values and which fields are given.
    Placed(Seq<Value>, Seq<bool>),
    /// A field is given twice; its name.
    Multiple(Seq<char>),
    /// A keyword names no field.
    Unexpected(Seq<char>),
    /// A keyword value has no name.
    NoName,
}

/// Places keyword values `kws[i..]` (named by `names`) into `fields`,
/// `filled` telling which fields are already given.
pub open spec fn place_kws(
    fields: Seq<Value>,
    filled: Seq<bool>,
    field_names: Seq<Seq<char>>,
    names: Seq<Seq<char>>,
    kws: Seq<Value>,
    i: int,
) -> KwPlace
    decreases kws.len() - i,
{
    if i < 0 || i >= kws.len() {
        KwPlace::Placed(fields, filled)
    } else if i >= names.len() {
        KwPlace::NoName
    } else {
        let idx = field_index_from(field_names, names[i], 0);
        if idx < 0 || idx >= fields.len() || idx >= filled.len() {
            KwPlace::Unexpected(names[i])
        } else if filled[idx] {
            KwPlace::Multiple(names[i])
        } else {
            place_kws(fields.update(idx, kws[i]), filled.update(idx, true), field_names, names, kws, i + 1)
        }
    }
}

/// The fields before keywords are placed: the positional arguments, then the
/// defaults (`Nil` for a field without one).
pub open spec fn positional_fields(args: Seq<Value>, defaults: Seq<Option<Value>>, nfields: int) -> Seq<Value> {
    Seq::new(nfields as nat, |i: int| if i < args.len() { args[i] } else {
        match default_at(defaults, i) {
            Some(v) => v,
            None => Value::Nil,
        }
    })
}

/// Which of `nfields` fields the first `n` positional arguments give.
pub open spec fn given_flags(nfields: int, n: int) -> Seq<bool> {
    Seq::new(nfields as nat, |i: int| i < n)
}

/// The first field from `i` on that is required, past the positional
/// arguments and still `Nil`, or -1.
pub open spec fn first_missing(fields: Seq<Value>, defaults: Seq<Option<Value>>, nargs: int, i: int) -> int
    decreases fields.len() - i,
{
    if i < 0 || i >= fields.len() {
        -1
    } else if default_at(defaults, i) is None && fields[i] == Value::Nil && i >= nargs {
        i
    } else {
        first_missing(fields, defaults, nargs, i + 1)
    }
}

/// Message of a field given twice.
pub open spec fn multiple_text(name: Seq<char>, field: Seq<char>) -> Seq<char> {
    name + "() got multiple values for argument '"@ + field + "'"@
}

/// Message of a keyword that names no field.
pub open spec fn unexpected_text(name: Seq<char>, field: Seq<char>) -> Seq<char> {
    name + "() got an unexpected keyword argument '"@ + field + "'"@
}

/// Message of a required field left out.
pub open spec fn missing_named_text(name: Seq<char>, field: Seq<char>) -> Seq<char> {
    name + "() missing required argument: '"@ + field + "'"@
}

/// Message of a keyword value without a name.
pub open spec fn no_name_text() -> Seq<char> {
    "IndexError: tuple index out of range"@
}

impl VM {
    /// What calling struct type `t` with positional `args` and keyword
    /// values `kws` named by `names` leads to, from frame state `cur`: more
    /// arguments than fields, a keyword naming no field or a field given
    /// twice, or a required field left out raise a `TypeError` (a value
    /// without a name a `RuntimeError`); else an instance is made of the
    /// fields so given.
    pub open spec fn instantiated_kw(
        &self,
        t: int,
        args: Seq<Value>,
        kws: Seq<Value>,
        names: Seq<Seq<char>>,
        cur: FrameState,
        r: Outcome,
        post: VM,
    ) -> bool {
        let reg = self.struct_registry;
        let nf = reg.type_fields(t).len() as int;
        let defaults = reg.type_defaults(t);
        let tname = reg.name_of_type(t);
        let n = args.len() as int;
        let type_error = |m: Seq<char>| raised(cur, self.callers(), ErrorView::Builtin(ExceptionKind::TypeError, m), r, post);
        if n > nf {
            type_error(takes_text(tname, nf, n))
        } else {
            match place_kws(
                positional_fields(args, defaults, nf),
                given_flags(nf, n),
                reg.type_fields(t),
                names,
                kws,
                0,
            ) {
                KwPlace::NoName => raised(cur, self.callers(), ErrorView::Builtin(ExceptionKind::RuntimeError, no_name_text()), r, post),
                KwPlace::Unexpected(k) => type_error(unexpected_text(tname, k)),
                KwPlace::Multiple(k) => type_error(multiple_text(tname, k)),
                KwPlace::Placed(fields, _) => {
                    let m = first_missing(fields, defaults, n, 0);
                    if m >= 0 {
                        type_error(missing_named_text(tname, reg.type_fields(t)[m]))
                    } else {
                        self.instance_made(t, fields, cur, r, post)
                    }
                },
            }
        }
    }

    /// Calls struct type `t` with positional `args` and keyword values
    /// `kws` named by `names` from the running frame, whose callable and
    /// arguments are already popped.
    pub(crate) fn instantiate_kw(&mut self, t: u32, args: Vec<Value>, kws: Vec<Value>, names: Vec<String>) -> (r: Outcome)
        requires
            old(self).wf(),
            old(self).running,
            old(self).waiting is None,
            (t as int) < old(self).struct_registry.num_types(),
        ensures
            final(self).wf(),
            final(self).protocol(r),
            final(self).codes == old(self).codes,
            old(self).instantiated_kw(
                t as int,
                args@,
                kws@,
                names@.map_values(|s: String| s@),
                old(self).frame.state(),
                r,
                *final(self),
            ),
    {
        let ty = self.struct_registry.get_type(t).unwrap();
        let nf = ty.fields.len();
        let n = args.len();
        let tname = ty.name.clone();
        let ghost fnames = ty.field_names();
        let ghost defaults = ty.defaults@;
        assert(fnames.len() == nf);
        if n > nf {
            let a = u64_to_decimal(nf as u64);
            let b = u64_to_decimal(n as u64);
            let m1 = concat3(tname.as_str(), "() takes ", a.as_str());
            let m2 = concat3(m1.as_str(), " argument(s) but ", b.as_str());
            let msg = concat3(m2.as_str(), " were given", "");
            proof {
                assert(decimal(nf as int) == nat_digits(nf as nat));
                assert(decimal(n as int) == nat_digits(n as nat));
                assert(""@ == Seq::<char>::empty()) by {
                    reveal_strlit("");
                }
            }
            return self.raise(VMError::TypeError(msg));
        }
        // Positional arguments, then defaults.
        let mut fields: Vec<Value> = Vec::new();
        let mut filled: Vec<bool> = Vec::new();
        let mut i: usize = 0;
        while i < nf
            invariant
                self.wf(),
                self.running,
                self.waiting is None,
                self.frame == old(self).frame,
                self.frame_stack == old(self).frame_stack,
                self.same_tables(*old(self)),
                self.codes == old(self).codes,
                fnames == old(self).struct_registry.type_fields(t as int),
                defaults == old(self).struct_registry.type_defaults(t as int),
                tname@ == old(self).struct_registry.name_of_type(t as int),
                i <= nf,
                n <= nf,
                nf == ty.fields@.len(),
                n == args@.len(),
                defaults == ty.defaults@,
                fields@ == positional_fields(args@, defaults, nf as int).subrange(0, i as int),
                filled@ == given_flags(nf as int, n as int).subrange(0, i as int),
            decreases nf - i,
        {
            let v = if i < n {
                args[i]
            } else if i < ty.defaults.len() {
                match ty.defaults[i] {
                    Some(d) => d,
                    None => Value::Nil,
                }
            } else {
                Value::Nil
            };
            fields.push(v);
            filled.push(i < n);
            assert(fields@ =~= positional_fields(args@, defaults, nf as int).subrange(0, i + 1));
            assert(filled@ =~= given_flags(nf as int, n as int).subrange(0, i + 1));
            i = i + 1;
        }
        assert(fields@ =~= positional_fields(args@, defaults, nf as int));
        assert(filled@ =~= given_flags(nf as int, n as int));
        // Keyword arguments, by name.
        let ghost nv = names@.map_values(|s: String| s@);
        let mut k: usize = 0;
        while k < kws.len()
            invariant
                self.wf(),
                self.running,
                self.waiting is None,
                self.frame == old(self).frame,
                self.frame_stack == old(self).frame_stack,
                self.same_tables(*old(self)),
                self.codes == old(self).codes,
                fnames == old(self).struct_registry.type_fields(t as int),
                defaults == old(self).struct_registry.type_defaults(t as int),
                tname@ == old(self).struct_registry.name_of_type(t as int),
                k <= kws@.len(),
                nf == ty.fields@.len(),
                fnames == ty.field_names(),
                nv == names@.map_values(|s: String| s@),
                fields@.len() == nf,
                filled@.len() == nf,
                n <= nf,
                n == args@.len(),
                place_kws(
                    positional_fields(args@, defaults, nf as int),
                    given_flags(nf as int, n as int),
                    fnames,
                    nv,
                    kws@,
                    0,
                ) == place_kws(fields@, filled@, fnames, nv, kws@, k as int),
            decreases kws@.len() - k,
        {
            if k >= names.len() {
                return self.raise(VMError::RuntimeError(String::from_str("IndexError: tuple index out of range")));
            }
            let key = names[k].as_str();
            match ty.field_index(key) {
                Some(idx) => {
                    if filled[idx] {
                        let m1 = concat3(tname.as_str(), "() got multiple values for argument '", key);
                        let msg = concat3(m1.as_str(), "'", "");
                        proof {
                            assert(""@ == Seq::<char>::empty()) by {
                                reveal_strlit("");
                            }
                        }
                        return self.raise(VMError::TypeError(msg));
                    }
                    fields.set(idx, kws[k]);
                    filled.set(idx, true);
                },
                None => {
                    let m1 = concat3(tname.as_str(), "() got an unexpected keyword argument '", key);
                    let msg = concat3(m1.as_str(), "'", "");
                    proof {
                        assert(""@ == Seq::<char>::empty()) by {
                            reveal_strlit("");
                        }
                    }
                    return self.raise(VMError::TypeError(msg));
                },
            }
            k = k + 1;
        }
        // Required fields left out.
        let ghost placed = fields@;
        let ghost pfilled = filled@;
        assert(place_kws(fields@, filled@, fnames, nv, kws@, kws@.len() as int) == KwPlace::Placed(placed, pfilled));
        let mut j: usize = 0;
        while j < nf
            invariant
                self.wf(),
                self.running,
                self.waiting is None,
                self.frame == old(self).frame,
                self.frame_stack == old(self).frame_stack,
                self.same_tables(*old(self)),
                self.codes == old(self).codes,
                fnames == old(self).struct_registry.type_fields(t as int),
                defaults == old(self).struct_registry.type_defaults(t as int),
                tname@ == old(self).struct_registry.name_of_type(t as int),
                j <= nf,
                nf == ty.fields@.len(),
                fields@ == placed,
                placed.len() == nf,
                n <= nf,
                n == args@.len(),
                nv == names@.map_values(|s: String| s@),
                place_kws(
                    positional_fields(args@, defaults, nf as int),
                    given_flags(nf as int, n as int),
                    fnames,
                    nv,
                    kws@,
                    0,
                ) == KwPlace::Placed(placed, pfilled),
                fnames == ty.field_names(),
                defaults == ty.defaults@,
                first_missing(placed, defaults, n as int, 0) == first_missing(placed, defaults, n as int, j as int),
            decreases nf - j,
        {
            let required = if j < ty.defaults.len() { ty.defaults[j].is_none() } else { true };
            if required && fields[j] == Value::Nil && j >= n {
                let m1 = concat3(tname.as_str(), "() missing required argument: '", ty.fields[j].as_str());
                let msg = concat3(m1.as_str(), "'", "");
                proof {
                    assert(""@ == Seq::<char>::empty()) by {
                        reveal_strlit("");
                    }
                }
                return self.raise(VMError::TypeError(msg));
            }
            j = j + 1;
        }
        self.finish_instance(t, fields)
    }
}

impl VM {
    /// Completes a keyword call of struct type `t` once the host gave the
    /// keyword names: pops the names, the keyword values, the positional
    /// arguments and the callable, and makes the instance.
    pub(crate) fn resume_struct_kw(&mut self, t: u32, nargs: usize, nkw: usize, names: Vec<String>) -> (r: Outcome)
        requires
            old(self).wf(),
            old(self).running,
            old(self).waiting is None,
        ensures
            final(self).wf(),
            final(self).protocol(r),
            final(self).codes == old(self).codes,
            old(self).frame.stack@.len() >= nargs + nkw + 2 && (t as int) < old(self).struct_registry.num_types() ==> {
                let st = old(self).frame.stack@;
                let len = st.len() - 1;
                old(self).instantiated_kw(
                    t as int,
                    st.subrange(len - nkw - nargs, len - nkw),
                    st.subrange(len - nkw, len),
                    names@.map_values(|s: String| s@),
                    FrameState { stack: st.subrange(0, len - nkw - nargs - 1), ..old(self).frame.state() },
                    r,
                    *final(self),
                )
            },
    {
        let depth = self.frame.stack.len();
        if !(nargs < depth && nkw < depth - nargs && depth - nargs - nkw >= 2)
            || (t as usize) >= self.struct_registry.num_types_exec() {
            return self.raise(VMError::StackUnderflow);
        }
        let ghost st = self.frame.stack@;
        pop_value(&mut self.frame.stack);
        let len = depth - 1;
        let kws = self.frame.stack.split_off(len - nkw);
        let args = self.frame.stack.split_off(len - nkw - nargs);
        pop_value(&mut self.frame.stack);
        proof {
            let l = len as int;
            assert(st.drop_last() =~= st.subrange(0, l));
            assert(kws@ =~= st.subrange(l - nkw, l));
            assert(args@ =~= st.subrange(l - nkw - nargs, l - nkw));
            assert(self.frame.stack@ =~= st.subrange(0, l - nkw - nargs - 1));
            assert(self.frame.state() == FrameState { stack: st.subrange(0, l - nkw - nargs - 1), ..old(self).frame.state() });
        }
        self.instantiate_kw(t, args, kws, names)
    }
}

} // verus!
