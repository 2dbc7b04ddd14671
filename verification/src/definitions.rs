//! Enum types defined by running code: the host reads the definition, the
//! VM registers the type and its variant symbols, the host makes the object
//! that stands for the type, and the type's name becomes a module global.

use vstd::prelude::*;
use crate::value::Value;
use crate::step::{slot_value, HostRequest, Resume};
use crate::error::{VMError, ErrorView, ExceptionKind};
use crate::enums::MAX_VARIANTS_PER_ENUM;
use crate::text::{decimal, nat_digits, u64_to_decimal, concat3};
use crate::ordmap::{name_map_insert, name_map_entries, entry_insert};
use crate::vm::{Outcome, VM, raised};

verus! {

/// Message of an enum definition with more variants than allowed.
pub open spec fn too_many_variants_text(name: Seq<char>, n: int) -> Seq<char> {
    "enum '"@ + name + "' has "@ + decimal(n) + " variants, max is "@ + decimal(MAX_VARIANTS_PER_ENUM as int)
}

/// Message of an enum definition the host could not read.
pub open spec fn bad_enum_text() -> Seq<char> {
    "MakeEnum: bad constant"@
}

impl VM {
    /// What `op_make_enum` leads to (`r` and `post`), from this VM.
    pub open spec fn make_enum_done(&self, k: u32, r: Outcome, post: VM) -> bool {
        &&& (post.same_tables(*self))
        &&& (post.frame == self.frame)
        &&& (post.frame_stack == self.frame_stack)
        &&& (r == Outcome::Host(HostRequest::EnumSpec(slot_value(self.cur_code().constants@, k as int))))
        &&& (post.waiting == Some(Resume::MakeEnum))
    }

    /// `MakeEnum k`: asks the host for the name and variant names of the
    /// enum definition in constant `k`.
    pub fn op_make_enum(&mut self, k: u32) -> (r: Outcome)
        requires
            old(self).wf(),
            old(self).running,
            old(self).waiting is None,
        ensures
            final(self).wf(),
            final(self).protocol(r),
            old(self).make_enum_done(k, r, *final(self)),
    {
        let cid = self.frame.code.unwrap();
        let consts = &self.codes[cid].constants;
        let c = if (k as usize) < consts.len() { consts[k as usize] } else { Value::Nil };
        self.ask(HostRequest::EnumSpec(c), Resume::MakeEnum)
    }

    /// What registering the enum the host read (`texts`: its name, then its
    /// variant names) leads to: without a name, with too many variants, or
    /// when the registry or the symbol table is full, it raises; else the
    /// type is registered and the host is asked for the object standing for
    /// it.
    pub open spec fn enum_defined(&self, texts: Seq<Seq<char>>, r: Outcome, post: VM) -> bool {
        &&& texts.len() == 0 ==> raised(
            self.frame.state(),
            self.callers(),
            ErrorView::Builtin(ExceptionKind::RuntimeError, bad_enum_text()),
            r,
            post,
        )
        &&& texts.len() > 0 && texts.len() - 1 > MAX_VARIANTS_PER_ENUM ==> raised(
            self.frame.state(),
            self.callers(),
            ErrorView::Builtin(ExceptionKind::RuntimeError, too_many_variants_text(texts[0], texts.len() - 1)),
            r,
            post,
        )
        &&& texts.len() > 0 && texts.len() - 1 <= MAX_VARIANTS_PER_ENUM && !(self.enum_registry.types().len() < u32::MAX
            && self.symbol_table@.len() + texts.len() - 1 < u32::MAX) ==> raised(
            self.frame.state(),
            self.callers(),
            ErrorView::Builtin(ExceptionKind::RuntimeError, "too many enum types"@),
            r,
            post,
        )
        &&& texts.len() > 0 && texts.len() - 1 <= MAX_VARIANTS_PER_ENUM
            && self.enum_registry.types().len() < u32::MAX
            && self.symbol_table@.len() + texts.len() - 1 < u32::MAX ==> {
            &&& r is Host
            &&& r->Host_0 is NewEnumType
            &&& r->Host_0->NewEnumType_0@ == texts[0]
            &&& r->Host_0->NewEnumType_1 == self.enum_registry.types().len()
            &&& r->Host_0->NewEnumType_2@.map_values(|s: String| s@) == texts.drop_first()
            &&& post.waiting == Some(Resume::EnumMarker(self.enum_registry.types().len() as u32))
            &&& post.enum_registry.types().len() == self.enum_registry.types().len() + 1
            &&& post.enum_registry.types().last().name@ == texts[0]
            &&& post.frame == self.frame
            &&& post.callers() == self.callers()
        }
    }

    /// What binding enum type `tid` to the host's object `marker` leads to:
    /// the object stands for the type, and the type's name becomes a module
    /// global holding it, also stored in the host's globals.
    pub open spec fn enum_bound(&self, tid: u32, marker: Value, r: Outcome, post: VM) -> bool {
        &&& (tid as int) < self.enum_registry.types().len() ==> {
            let name = self.enum_registry.types()[tid as int].name@;
            &&& post.frame == self.frame
            &&& post.callers() == self.callers()
            &&& name_map_entries(post.globals) == entry_insert(name_map_entries(self.globals), name, marker)
            &&& (marker matches Value::Obj(h) ==> post.enum_types@ == self.enum_types@.push((h, tid)))
            &&& r is Host
            &&& r->Host_0 is Store
            &&& r->Host_0->Store_0@ == name
            &&& r->Host_0->Store_1 == marker
            &&& post.waiting == Some(Resume::Ignore)
        }
        &&& (tid as int) >= self.enum_registry.types().len() ==> raised(
            self.frame.state(),
            self.callers(),
            ErrorView::Builtin(ExceptionKind::RuntimeError, bad_enum_text()),
            r,
            post,
        )
    }

    /// Registers the enum the host read (its name, then its variant names)
    /// and asks the host for the object standing for it.
    pub(crate) fn define_enum(&mut self, texts: Vec<String>) -> (r: Outcome)
        requires
            old(self).wf(),
            old(self).running,
            old(self).waiting is None,
        ensures
            final(self).wf(),
            final(self).protocol(r),
            final(self).codes == old(self).codes,
            old(self).enum_defined(texts@.map_values(|s: String| s@), r, *final(self)),
    {
        let n = texts.len();
        if n == 0 {
            return self.raise(VMError::RuntimeError(String::from_str("MakeEnum: bad constant")));
        }
        let name = texts[0].clone();
        let mut variants: Vec<String> = Vec::new();
        let mut i: usize = 1;
        while i < n
            invariant
                1 <= i <= n,
                n == texts@.len(),
                variants@.len() == i - 1,
                forall|j: int| 0 <= j < variants@.len() ==> (#[trigger] variants@[j])@ == texts@[j + 1]@,
            decreases n - i,
        {
            variants.push(texts[i].clone());
            i = i + 1;
        }
        assert(variants@.map_values(|s: String| s@) =~= texts@.drop_first().map_values(|s: String| s@));
        assert(texts@.map_values(|s: String| s@).drop_first() =~= texts@.drop_first().map_values(|s: String| s@));
        if variants.len() > MAX_VARIANTS_PER_ENUM {
            let a = concat3("enum '", name.as_str(), "' has ");
            let b = u64_to_decimal(variants.len() as u64);
            let c = concat3(a.as_str(), b.as_str(), " variants, max is ");
            let d = u64_to_decimal(MAX_VARIANTS_PER_ENUM as u64);
            let msg = concat3(c.as_str(), d.as_str(), "");
            proof {
                assert(decimal(variants@.len() as int) == nat_digits(variants@.len() as nat));
                assert(decimal(MAX_VARIANTS_PER_ENUM as int) == nat_digits(MAX_VARIANTS_PER_ENUM as nat));
                assert(""@ == Seq::<char>::empty()) by {
                    reveal_strlit("");
                }
            }
            return self.raise(VMError::RuntimeError(msg));
        }
        if self.enum_registry.num_types() >= u32::MAX as usize
            || self.symbol_table.len() >= u32::MAX as usize - variants.len() {
            return self.raise(VMError::RuntimeError(String::from_str("too many enum types")));
        }
        let tid = self.enum_registry.register(name.as_str(), variants.as_slice(), &mut self.symbol_table);
        self.ask(HostRequest::NewEnumType(name, tid, variants), Resume::EnumMarker(tid))
    }

    /// Records the object the host made for enum type `tid` and binds the
    /// type's name to it as a module global (also in the host's globals).
    pub(crate) fn bind_enum(&mut self, tid: u32, marker: Value) -> (r: Outcome)
        requires
            old(self).wf(),
            old(self).running,
            old(self).waiting is None,
        ensures
            final(self).wf(),
            final(self).protocol(r),
            final(self).codes == old(self).codes,
            old(self).enum_bound(tid, marker, r, *final(self)),
    {
        let name = match self.enum_registry.get_type(tid) {
            Some(ety) => ety.name.clone(),
            None => return self.raise(VMError::RuntimeError(String::from_str("MakeEnum: bad constant"))),
        };
        match marker {
            Value::Obj(h) => self.enum_types.push((h, tid)),
            _ => {},
        }
        let key = name.clone();
        name_map_insert(&mut self.globals, key, marker);
        self.ask(HostRequest::Store(name, marker), Resume::Ignore)
    }
}

} // verus!
