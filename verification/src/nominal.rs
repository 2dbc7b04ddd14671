//! Boundary checks of parameters typed by a nominal type (a struct, trait,
//! enum or union, by name): the value must belong to the type. A name that
//! names no type at run time checks nothing.
//!
//! The VM judges the values it holds itself (struct instances and enum
//! symbols); the host judges its own objects and says whether a name it
//! holds names a type.

use vstd::prelude::*;
use crate::value::Value;
use crate::error::{VMError, ErrorView, ExceptionKind};
use crate::frame::FrameState;
use crate::step::{HostRequest, Resume, pop1, top, pop_value, peek_value};
use crate::structs::first_named;
use crate::enums::last_type_named;
use crate::text::{str_equal, concat3};
use crate::typecheck::expects_text;
use crate::vm::{Outcome, VM, raised, dot_from, before_dot, invalid_name_text};

verus! {

/// The type part of a qualified name: the text before its first `.`, or the
/// whole name.
pub open spec fn type_part(s: Seq<char>) -> Seq<char> {
    if dot_from(s, 0) >= 0 {
        s.subrange(0, dot_from(s, 0))
    } else {
        s
    }
}

/// Whether a struct type named `t` with method resolution order `mro`
/// belongs to nominal type `n`: by its own name, by the union its qualified
/// name starts with, or by an ancestor.
pub open spec fn struct_member(t: Seq<char>, mro: Seq<Seq<char>>, n: Seq<char>) -> bool {
    t == n || (dot_from(t, 0) >= 0 && type_part(t) == n) || mro.contains(n)
}

/// The message of a value of type `got` where nominal type `n` is expected.
pub open spec fn nominal_text(n: Seq<char>, got: Seq<char>) -> Seq<char> {
    expects_text(n, "got '"@ + got + "'"@)
}

impl VM {
    /// What the VM itself knows of `v` under nominal type `n`: for a struct
    /// instance or an enum symbol it holds, whether `v` belongs to `n` and
    /// the name of `v`'s type; `None` for a value only the host can judge.
    pub open spec fn local_nominal(&self, v: Value, n: Seq<char>) -> Option<(bool, Seq<char>)> {
        match v {
            Value::Struct(i) => if (i as int) < self.struct_registry.num_instances() {
                let t = self.struct_registry.instance_type(i as int) as int;
                let tn = self.struct_registry.name_of_type(t);
                Some((struct_member(tn, self.struct_registry.type_mro(t), n), tn))
            } else {
                None
            },
            Value::Symbol(s) => if (s as int) < self.symbol_table@.len() {
                let full = self.symbol_table@[s as int];
                Some((type_part(full) == n, full))
            } else {
                None
            },
            _ => None,
        }
    }

    /// Whether `n` names a struct or enum type the VM holds.
    pub open spec fn names_local_type(&self, n: Seq<char>) -> bool {
        first_named(self.struct_registry.type_names(), n, 0) >= 0 || last_type_named(self.enum_registry.types(), n) >= 0
    }

    /// What `op_check_nominal k` leads to (`r` and `post`), from this VM: the
    /// value on top is checked against the type named by name `k` of the
    /// running code. A value the VM holds that belongs to the type stays;
    /// one that does not raises a `TypeError` when the VM holds the type;
    /// any other case asks the host.
    pub open spec fn check_nominal_done(&self, k: u32, r: Outcome, post: VM) -> bool {
        let v = top(self.frame.stack@);
        let popped = FrameState { stack: pop1(self.frame.stack@), ..self.frame.state() };
        match self.name_of(k) {
            None => raised(
                self.frame.state(),
                self.callers(),
                ErrorView::Builtin(ExceptionKind::RuntimeError, invalid_name_text(k as int, self.cur_code().names@.len() as int)),
                r,
                post,
            ),
            Some(n) => match self.local_nominal(v, n) {
                Some((true, _)) => r is Running && post.frame.state() == self.frame.state() && post.callers() == self.callers()
                    && post.same_tables(*self),
                Some((false, tn)) if self.names_local_type(n) => raised(
                    popped,
                    self.callers(),
                    ErrorView::Builtin(ExceptionKind::TypeError, nominal_text(n, tn)),
                    r,
                    post,
                ),
                _ => {
                    &&& r is Host && r->Host_0 is NominalFacts
                    &&& r->Host_0->NominalFacts_0 == v && r->Host_0->NominalFacts_1@ == n
                    &&& post.waiting == Some(Resume::CheckNominal { value: v, k })
                    &&& post.frame.state() == popped
                    &&& post.callers() == self.callers()
                    &&& post.same_tables(*self)
                },
            },
        }
    }

    /// What the host's answer on `value` under the type named by name `k`
    /// leads to: `member` and `value_type` (whether the value belongs to the
    /// type, and its type name) count for a value the VM does not judge
    /// itself; `known` says whether the host holds a type of that name. A
    /// value that does not belong to a type the VM or the host holds raises
    /// a `TypeError`; any other value goes back on the stack.
    pub open spec fn nominal_answered(
        &self,
        value: Value,
        k: u32,
        member: bool,
        known: bool,
        value_type: Seq<char>,
        r: Outcome,
        post: VM,
    ) -> bool {
        match self.name_of(k) {
            None => raised(
                self.frame.state(),
                self.callers(),
                ErrorView::Builtin(ExceptionKind::RuntimeError, invalid_name_text(k as int, self.cur_code().names@.len() as int)),
                r,
                post,
            ),
            Some(n) => {
                let (m, tn) = match self.local_nominal(value, n) {
                    Some(p) => p,
                    None => (member, value_type),
                };
                if !m && (known || self.names_local_type(n)) {
                    raised(self.frame.state(), self.callers(), ErrorView::Builtin(ExceptionKind::TypeError, nominal_text(n, tn)), r, post)
                } else {
                    r is Running && post.frame.state() == (FrameState { stack: self.frame.stack@.push(value), ..self.frame.state() })
                        && post.callers() == self.callers()
                }
            },
        }
    }

    /// Whether `v` belongs to nominal type `n`, and the name of its type,
    /// as far as the VM can tell (see `local_nominal`).
    fn nominal_of(&self, v: Value, n: &str) -> (r: Option<(bool, String)>)
        requires
            self.wf(),
        ensures
            r matches Some(p) ==> self.local_nominal(v, n@) == Some((p.0, p.1@)),
            r is None ==> self.local_nominal(v, n@) is None,
    {
        match v {
            Value::Struct(i) => match self.struct_registry.instance(i) {
                Some(inst) => {
                    let t = inst.type_id;
                    proof {
                        self.struct_registry.lemma_instance(i as int);
                    }
                    let ty = self.struct_registry.get_type(t).unwrap();
                    let mut member = str_equal(ty.name.as_str(), n);
                    if !member {
                        match before_dot(ty.name.as_str()) {
                            Some(u) => {
                                member = str_equal(u.as_str(), n);
                            },
                            None => {},
                        }
                    }
                    let mut j: usize = 0;
                    let ghost mro = ty.mro@.map_values(|s: String| s@);
                    while j < ty.mro.len() && !member
                        invariant
                            j <= ty.mro@.len(),
                            mro == ty.mro@.map_values(|s: String| s@),
                            member ==> struct_member(ty.name@, mro, n@),
                            !member ==> !(ty.name@ == n@ || (dot_from(ty.name@, 0) >= 0 && type_part(ty.name@) == n@)),
                            !member ==> forall|q: int| 0 <= q < j ==> mro[q] != n@,
                        decreases ty.mro@.len() - j,
                    {
                        if str_equal(ty.mro[j].as_str(), n) {
                            assert(mro[j as int] == n@);
                            member = true;
                        }
                        j = j + 1;
                    }
                    proof {
                        if !member {
                            assert(!mro.contains(n@));
                        }
                    }
                    Some((member, ty.name.clone()))
                },
                None => None,
            },
            Value::Symbol(s) => match self.symbol_table.resolve(s) {
                Some(full) => {
                    let member = match before_dot(full) {
                        Some(u) => str_equal(u.as_str(), n),
                        None => str_equal(full, n),
                    };
                    Some((member, full.to_owned()))
                },
                None => None,
            },
            _ => None,
        }
    }

    /// Whether `n` names a struct or enum type the VM holds.
    fn has_local_type(&self, n: &str) -> (r: bool)
        requires
            self.wf(),
        ensures
            r == self.names_local_type(n@),
    {
        self.struct_registry.find_type_by_name(n).is_some() || self.enum_registry.find_by_name(n).is_some()
    }

    /// `CheckNominal k`: checks the value on top against the nominal type
    /// named by name `k` of the running code.
    pub fn op_check_nominal(&mut self, k: u32) -> (r: Outcome)
        requires
            old(self).wf(),
            old(self).running,
            old(self).waiting is None,
        ensures
            final(self).wf(),
            final(self).protocol(r),
            final(self).codes == old(self).codes,
            old(self).check_nominal_done(k, r, *final(self)),
    {
        let cid = self.frame.code.unwrap();
        let n = match self.name_at(cid, k) {
            Ok(n) => n,
            Err(e) => return self.raise(e),
        };
        let v = peek_value(&self.frame.stack);
        match self.nominal_of(v, n.as_str()) {
            Some((true, _)) => Outcome::Running,
            Some((false, tn)) => {
                if self.has_local_type(n.as_str()) {
                    pop_value(&mut self.frame.stack);
                    let e = nominal_error(n.as_str(), tn.as_str());
                    self.raise(e)
                } else {
                    pop_value(&mut self.frame.stack);
                    self.ask(HostRequest::NominalFacts(v, n), Resume::CheckNominal { value: v, k })
                }
            },
            None => {
                pop_value(&mut self.frame.stack);
                self.ask(HostRequest::NominalFacts(v, n), Resume::CheckNominal { value: v, k })
            },
        }
    }

    /// Finishes `CheckNominal k` on `value` with the host's answer.
    pub(crate) fn resume_nominal(&mut self, value: Value, k: u32, member: bool, known: bool, value_type: String) -> (r: Outcome)
        requires
            old(self).wf(),
            old(self).running,
            old(self).waiting is None,
        ensures
            final(self).wf(),
            final(self).protocol(r),
            final(self).codes == old(self).codes,
            old(self).nominal_answered(value, k, member, known, value_type@, r, *final(self)),
    {
        let cid = self.frame.code.unwrap();
        let n = match self.name_at(cid, k) {
            Ok(n) => n,
            Err(e) => return self.raise(e),
        };
        let (m, tn) = match self.nominal_of(value, n.as_str()) {
            Some(p) => p,
            None => (member, value_type),
        };
        if !m && (known || self.has_local_type(n.as_str())) {
            let e = nominal_error(n.as_str(), tn.as_str());
            self.raise(e)
        } else {
            self.frame.stack.push(value);
            Outcome::Running
        }
    }
}

/// The `TypeError` of a value of type `got` where nominal type `n` is
/// expected.
fn nominal_error(n: &str, got: &str) -> (r: VMError)
    ensures
        r.view() == ErrorView::Builtin(ExceptionKind::TypeError, nominal_text(n@, got@)),
{
    let rest = concat3("got '", got, "'");
    let head = concat3("typed parameter expects '", n, "' but ");
    let m = crate::text::concat2(head.as_str(), rest.as_str());
    proof {
        reveal_strlit("got '");
        reveal_strlit("'");
        reveal_strlit("typed parameter expects '");
        reveal_strlit("' but ");
    }
    VMError::TypeError(m)
}

} // verus!
