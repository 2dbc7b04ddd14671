//! Boundary checks of typed parameters whose type is a container
//! (`list[T]`, `set[T]`, `tuple[A, B]`, `dict[K, V]`).
//!
//! A container is a host object, so what the check reads of it comes from
//! the host as facts: whether the value belongs to the declared container
//! type, its type name, and whether each element (or each key and value)
//! satisfies the check that applies to it. The check itself decides which
//! parts are enforced, in which order, and what a failure says.

use vstd::prelude::*;
use crate::error::{VMError, ErrorView, ExceptionKind};
use crate::text::{nat_digits, u64_to_decimal, concat2, concat3};
use crate::value::Value;
use crate::frame::FrameState;
use crate::vm::{Outcome, VM, raised};

verus! {

/// The head of a composite type: the container it names.
#[derive(Clone, Copy, Debug, PartialEq, Eq, Structural)]
pub enum TypeHead {
    ListOf,
    SetOf,
    TupleOf,
    DictOf,
    /// Another type code, checked on the container alone.
    Other(u8),
}

/// The check a typed parameter (or an element of a composite one) makes.
#[derive(Debug)]
pub enum ParamCheck {
    /// No check.
    Unchecked,
    /// A primitive type, by type code.
    Primitive(u8),
    /// A nominal type (struct, trait, enum, union), by name.
    Nominal(String),
    /// Any of these checks.
    Union(Vec<ParamCheck>),
    /// A container type with its parameters.
    Composite { head: TypeHead, params: Vec<ParamCheck> },
    /// A generic nominal type with its arguments.
    Generic { name: String, args: Vec<ParamCheck> },
    /// A callable accepting this many arguments.
    Callable { arity: u32 },
}

impl ParamCheck {
    /// Whether this check enforces anything.
    pub open spec fn enforced(&self) -> bool {
        !(self is Unchecked)
    }

    pub fn is_enforced(&self) -> (r: bool)
        ensures
            r == self.enforced(),
    {
        !matches!(self, ParamCheck::Unchecked)
    }
}

/// What the host says of a value under a composite check.
pub struct CheckFactsView {
    pub in_head: bool,
    pub value_type: Seq<char>,
    pub spec_text: Seq<char>,
    pub items: Option<Seq<bool>>,
    pub entries: Option<Seq<(bool, bool)>>,
}

/// What the host says of a value under a composite check `spec`.
#[derive(Debug)]
pub struct CheckFacts {
    /// Whether the value belongs to the container type the check names.
    pub in_head: bool,
    /// The value's type name.
    pub value_type: String,
    /// The check as written in the program.
    pub spec_text: String,
    /// For a list, set or tuple: whether each item, in order, satisfies the
    /// check that applies to it (the first parameter, or for a tuple the
    /// parameter at its position). `None` for another value.
    pub items: Option<Vec<bool>>,
    /// For a dict: whether each key and each value, in order, satisfies the
    /// key and value checks. `None` for another value.
    pub entries: Option<Vec<(bool, bool)>>,
}

impl CheckFacts {
    pub open spec fn view(&self) -> CheckFactsView {
        CheckFactsView {
            in_head: self.in_head,
            value_type: self.value_type@,
            spec_text: self.spec_text@,
            items: match self.items {
                Some(v) => Some(v@),
                None => None,
            },
            entries: match self.entries {
                Some(v) => Some(v@),
                None => None,
            },
        }
    }
}

/// The message of a failed boundary check: `typed parameter expects
/// '<spec>' but <rest>`.
pub open spec fn expects_text(spec_text: Seq<char>, rest: Seq<char>) -> Seq<char> {
    "typed parameter expects '"@ + spec_text + "' but "@ + rest
}

/// Whether some item fails its check.
pub open spec fn some_item_fails(items: Seq<bool>) -> bool {
    exists|i: int| 0 <= i < items.len() && !items[i]
}

/// The first failing part of a dict's entries, in order, key before value:
/// `Some(true)` for a key, `Some(false)` for a value, `None` when all pass.
/// Only enforced checks (`kc` for keys, `vc` for values) can fail.
pub open spec fn dict_failure(entries: Seq<(bool, bool)>, kc: bool, vc: bool) -> Option<bool>
    decreases entries.len(),
{
    if entries.len() == 0 {
        None
    } else if kc && !entries[0].0 {
        Some(true)
    } else if vc && !entries[0].1 {
        Some(false)
    } else {
        dict_failure(entries.drop_first(), kc, vc)
    }
}

/// The message of a failed composite check, or `None` when the value passes.
/// The container is checked first; then a list or set with an enforced
/// element check fails on any wrong element; a tuple with parameters fails
/// on a length other than their number, then on any wrong item; a dict with
/// a key and a value parameter fails on its first wrong key or value. Any
/// other check passes.
pub open spec fn composite_failure(spec: ParamCheck, f: CheckFactsView) -> Option<Seq<char>> {
    let element = expects_text(f.spec_text, "an element has the wrong type"@);
    match spec {
        ParamCheck::Composite { head, params } => {
            if !f.in_head {
                Some(expects_text(f.spec_text, "got '"@ + f.value_type + "'"@))
            } else {
                match head {
                    TypeHead::ListOf | TypeHead::SetOf => {
                        if params@.len() > 0 && params@[0].enforced() && f.items is Some
                            && some_item_fails(f.items->0) {
                            Some(element)
                        } else {
                            None
                        }
                    },
                    TypeHead::TupleOf => {
                        if params@.len() > 0 && f.items is Some {
                            let n = f.items->0.len();
                            if n != params@.len() {
                                Some(expects_text(f.spec_text, "got a tuple of length "@ + nat_digits(n)))
                            } else if some_item_fails(f.items->0) {
                                Some(element)
                            } else {
                                None
                            }
                        } else {
                            None
                        }
                    },
                    TypeHead::DictOf => {
                        if params@.len() == 2 && f.entries is Some {
                            match dict_failure(f.entries->0, params@[0].enforced(), params@[1].enforced()) {
                                Some(true) => Some(expects_text(f.spec_text, "a key has the wrong type"@)),
                                Some(false) => Some(expects_text(f.spec_text, "a value has the wrong type"@)),
                                None => None,
                            }
                        } else {
                            None
                        }
                    },
                    TypeHead::Other(_) => None,
                }
            }
        },
        _ => None,
    }
}

/// The exec message `typed parameter expects '<spec>' but <rest>`.
fn expects(spec_text: &str, rest: &str) -> (r: String)
    ensures
        r@ == expects_text(spec_text@, rest@),
{
    let head = concat3("typed parameter expects '", spec_text, "' but ");
    let r = concat2(head.as_str(), rest);
    proof {
        reveal_strlit("typed parameter expects '");
        reveal_strlit("' but ");
    }
    r
}

/// Whether some item is `false`.
fn any_false(items: &Vec<bool>) -> (r: bool)
    ensures
        r == some_item_fails(items@),
{
    let mut i: usize = 0;
    while i < items.len()
        invariant
            i <= items.len(),
            forall|j: int| 0 <= j < i ==> items@[j],
        decreases items.len() - i,
    {
        if !items[i] {
            return true;
        }
        i = i + 1;
    }
    false
}

/// The first failing part of a dict's entries (see `dict_failure`).
fn first_dict_failure(entries: &Vec<(bool, bool)>, kc: bool, vc: bool) -> (r: Option<bool>)
    ensures
        r == dict_failure(entries@, kc, vc),
{
    let mut i: usize = 0;
    assert(entries@.skip(0) =~= entries@);
    while i < entries.len()
        invariant
            i <= entries.len(),
            dict_failure(entries@, kc, vc) == dict_failure(entries@.skip(i as int), kc, vc),
        decreases entries.len() - i,
    {
        let ghost rest = entries@.skip(i as int);
        assert(rest[0] == entries@[i as int]);
        assert(rest.drop_first() =~= entries@.skip(i + 1));
        if kc && !entries[i].0 {
            return Some(true);
        }
        if vc && !entries[i].1 {
            return Some(false);
        }
        i = i + 1;
    }
    assert(entries@.skip(i as int).len() == 0);
    None
}

/// Boundary check of a value against a composite check, from what the host
/// says of the value: `Ok` when it passes, else a `TypeError` whose message
/// says what is wrong (see `composite_failure`). A check that is not
/// composite passes.
pub fn check_composite(spec: &ParamCheck, facts: &CheckFacts) -> (r: Result<(), VMError>)
    ensures
        composite_failure(*spec, facts.view()) is None ==> r is Ok,
        composite_failure(*spec, facts.view()) matches Some(m) ==> (r matches Err(VMError::TypeError(t)) && t@ == m),
{
    let text = facts.spec_text.as_str();
    match spec {
        ParamCheck::Composite { head, params } => {
            if !facts.in_head {
                let got = concat3("got '", facts.value_type.as_str(), "'");
                proof {
                    reveal_strlit("got '");
                    reveal_strlit("'");
                }
                return Err(VMError::TypeError(expects(text, got.as_str())));
            }
            let element = "an element has the wrong type";
            proof {
                reveal_strlit("an element has the wrong type");
            }
            match head {
                TypeHead::ListOf | TypeHead::SetOf => {
                    if params.len() > 0 && params[0].is_enforced() {
                        if let Some(items) = &facts.items {
                            if any_false(items) {
                                return Err(VMError::TypeError(expects(text, element)));
                            }
                        }
                    }
                    Ok(())
                },
                TypeHead::TupleOf => {
                    if params.len() > 0 {
                        if let Some(items) = &facts.items {
                            if items.len() != params.len() {
                                let n = u64_to_decimal(items.len() as u64);
                                let rest = concat2("got a tuple of length ", n.as_str());
                                proof {
                                    reveal_strlit("got a tuple of length ");
                                }
                                return Err(VMError::TypeError(expects(text, rest.as_str())));
                            }
                            if any_false(items) {
                                return Err(VMError::TypeError(expects(text, element)));
                            }
                        }
                    }
                    Ok(())
                },
                TypeHead::DictOf => {
                    if params.len() == 2 {
                        if let Some(entries) = &facts.entries {
                            match first_dict_failure(entries, params[0].is_enforced(), params[1].is_enforced()) {
                                Some(true) => {
                                    proof {
                                        reveal_strlit("a key has the wrong type");
                                    }
                                    return Err(VMError::TypeError(expects(text, "a key has the wrong type")));
                                },
                                Some(false) => {
                                    proof {
                                        reveal_strlit("a value has the wrong type");
                                    }
                                    return Err(VMError::TypeError(expects(text, "a value has the wrong type")));
                                },
                                None => {},
                            }
                        }
                    }
                    Ok(())
                },
                TypeHead::Other(_) => Ok(()),
            }
        },
        _ => Ok(()),
    }
}

impl VM {
    /// Composite check `k` of the running code, if it has one.
    pub open spec fn composite_spec(&self, k: u32) -> Option<ParamCheck> {
        let cs = self.cur_code().composite_checks@;
        if (k as int) < cs.len() {
            Some(cs[k as int])
        } else {
            None
        }
    }

    /// What the host's facts `f` of `value` under composite check `k` of the
    /// running code lead to (`r` and `post`): a value that passes (or that no
    /// check of the code applies to) goes back on the stack; one that fails
    /// raises a `TypeError`.
    pub open spec fn composite_checked(&self, value: Value, k: u32, f: CheckFactsView, r: Outcome, post: VM) -> bool {
        let failure = match self.composite_spec(k) {
            Some(spec) => composite_failure(spec, f),
            None => None,
        };
        match failure {
            None => r is Running && post.frame.state() == (FrameState {
                stack: self.frame.stack@.push(value),
                ..self.frame.state()
            }) && post.callers() == self.callers(),
            Some(m) => raised(self.frame.state(), self.callers(), ErrorView::Builtin(ExceptionKind::TypeError, m), r, post),
        }
    }

    /// Finishes `CheckComposite k` on `value` with the host's facts.
    pub(crate) fn resume_composite(&mut self, value: Value, k: u32, facts: &CheckFacts) -> (r: Outcome)
        requires
            old(self).wf(),
            old(self).running,
            old(self).waiting is None,
        ensures
            final(self).wf(),
            final(self).protocol(r),
            final(self).codes == old(self).codes,
            old(self).composite_checked(value, k, facts.view(), r, *final(self)),
    {
        let cid = self.frame.code.unwrap();
        let outcome = if (k as usize) < self.codes[cid].composite_checks.len() {
            check_composite(&self.codes[cid].composite_checks[k as usize], facts)
        } else {
            Ok(())
        };
        match outcome {
            Ok(()) => {
                self.frame.stack.push(value);
                Outcome::Running
            },
            Err(e) => self.raise(e),
        }
    }
}

} // verus!
