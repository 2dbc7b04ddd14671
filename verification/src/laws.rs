//! Properties of the library that span several operations.

use vstd::prelude::*;
use crate::value::Value;
use crate::frame::{FrameState, HandlerType, restored_locals};
use crate::step::{top, pop1, try_unwind};
use crate::ops::{BinaryOp, spec_binary, spec_eq_native, py_floordiv, py_mod};
use crate::error::{ErrorView, VMError, kind_exception, restored_kind, lemma_kind_named_inverse};
use crate::ordmap::{entry_lookup, entry_insert, entry_index, lemma_entry_index, entry_swap_remove};
use crate::scope::ScopeArena;
use crate::vm::{unwind_frames, returned_to};
use crate::enums::{register_symbols, spec_qualified_name, MAX_VARIANTS_PER_ENUM};
use crate::frame::FramePool;
use crate::structs::StructRegistry;
use crate::pattern::{VMPattern, MatchView, BindView, FactsView, spec_match};
use crate::overload::fields_eq_from;
use crate::blocks::entries_without;
use crate::structs::field_index_from;
use crate::instantiate::{place_kws, KwPlace, positional_fields, given_flags, first_missing, filled_fields, required_count};
use crate::vm::{VM, Outcome};
use crate::step::{frame_effect, vm_truth, FlowView, HostView, Resume};
use crate::frame::{Instruction, OpCode, CodeObject, bound_locals, bind_kwargs, fill_defaults, bind_positional, slot_lookup, max_int, min_int};
use crate::pattern::{VMPatternElement, star_count};
use crate::structs::first_named;
use crate::ops::NativeView;

verus! {

/// Popping what was pushed gives it back and leaves the stack as it was.
pub proof fn law_push_pop(st: Seq<Value>, v: Value)
    ensures
        top(st.push(v)) == v,
        pop1(st.push(v)) == st,
{
    assert(st.push(v).drop_last() =~= st);
}

/// Leaving a block restores the locals it saved: slots below the block start
/// keep what they hold, slots from the start on take back their values from
/// when the block was entered, whatever the block did to them.
pub proof fn law_block_restores(before: Seq<Value>, during: Seq<Value>, start: int)
    requires
        0 <= start <= before.len(),
        during.len() == before.len(),
    ensures
        restored_locals(during, start, before.subrange(start, before.len() as int))
            == during.subrange(0, start) + before.subrange(start, before.len() as int),
{
    assert(restored_locals(during, start, before.subrange(start, before.len() as int)) =~= during.subrange(0, start)
        + before.subrange(start, before.len() as int));
}

/// A built-in exception is rebuilt from its recorded type name and message:
/// the name of its kind restores the kind.
pub proof fn law_exception_round_trip(e: VMError)
    requires
        e.spec_builtin() is Some,
    ensures
        restored_kind(kind_exception(e.spec_builtin().unwrap().0, e.spec_builtin().unwrap().1).exc_type)
            == e.spec_builtin().unwrap().0,
        kind_exception(e.spec_builtin().unwrap().0, e.spec_builtin().unwrap().1).message == e.spec_builtin().unwrap().1,
{
    lemma_kind_named_inverse(e.spec_builtin().unwrap().0);
}

/// An error has an exception description exactly when user code can catch
/// it.
pub proof fn law_catchable_has_info(e: VMError)
    ensures
        e.spec_catchable() <==> e.spec_exception_info() is Some,
{
}

/// An `except` handler on top of a frame takes any exception: the frame
/// jumps to the handler with the exception active, its stack and blocks cut
/// back to their depth when the handler was set up.
pub proof fn law_except_catches(s: FrameState, e: ErrorView)
    requires
        s.handlers.len() > 0,
        s.handlers.last().handler_type == HandlerType::Except,
        e.catchable(),
        s.handlers.last().stack_depth <= s.stack.len(),
        s.handlers.last().block_depth <= s.blocks.len(),
    ensures
        try_unwind(s, e) is Some,
        try_unwind(s, e).unwrap().ip == s.handlers.last().target_addr,
        try_unwind(s, e).unwrap().active == s.active.push(e.info()),
        try_unwind(s, e).unwrap().handlers == s.handlers.drop_last(),
        try_unwind(s, e).unwrap().stack == s.stack.subrange(0, s.handlers.last().stack_depth as int),
        try_unwind(s, e).unwrap().blocks == s.blocks.subrange(0, s.handlers.last().block_depth as int),
{
}

/// A `finally` handler on top of a frame runs for every signal, which it
/// keeps pending until the block ends.
pub proof fn law_finally_runs(s: FrameState, e: ErrorView)
    requires
        s.handlers.len() > 0,
        s.handlers.last().handler_type == HandlerType::Finally,
    ensures
        try_unwind(s, e) is Some,
        try_unwind(s, e).unwrap().ip == s.handlers.last().target_addr,
        try_unwind(s, e).unwrap().pending == Some(e.pending()),
        try_unwind(s, e).unwrap().handlers == s.handlers.drop_last(),
{
}

/// A control signal (return, break, continue) passes `except` handlers: a
/// frame with only `except` handlers does not take it.
pub proof fn law_signal_skips_except(s: FrameState, e: ErrorView)
    requires
        !e.catchable(),
        forall|i: int| 0 <= i < s.handlers.len() ==> (#[trigger] s.handlers[i]).handler_type == HandlerType::Except,
    ensures
        try_unwind(s, e) is None,
    decreases s.handlers.len(),
{
    if s.handlers.len() > 0 {
        let t = FrameState { handlers: s.handlers.drop_last(), ..s };
        assert forall|i: int| 0 <= i < t.handlers.len() implies (#[trigger] t.handlers[i]).handler_type == HandlerType::Except by {
            assert(t.handlers[i] == s.handlers[i]);
        }
        law_signal_skips_except(t, e);
    }
}

/// A frame without handlers returns: nothing unwinds a return signal, and the
/// caller resumes with the returned value on its stack.
pub proof fn law_return_reaches_caller(cur: FrameState, callers: Seq<FrameState>, v: Value)
    requires
        cur.handlers.len() == 0,
        callers.len() > 0,
        !cur.discard,
    ensures
        unwind_frames(cur, callers, ErrorView::Return(v)) is None,
        returned_to(callers.last(), v, cur.discard).stack == callers.last().stack.push(v),
{
}

/// Addition and multiplication of values commute.
pub proof fn law_add_mul_commute(a: Value, b: Value)
    ensures
        spec_binary(BinaryOp::Add, a, b) == spec_binary(BinaryOp::Add, b, a),
        spec_binary(BinaryOp::Mul, a, b) == spec_binary(BinaryOp::Mul, b, a),
{
    match (a, b) {
        (Value::Int(x), Value::Int(y)) => {
            assert((x as int) * (y as int) == (y as int) * (x as int)) by (nonlinear_arith);
        },
        _ => {},
    }
}

/// Floor division and modulo agree: `a == b * (a // b) + a % b`, with the
/// remainder between zero and the divisor.
pub proof fn law_floordiv_mod(a: int, b: int)
    requires
        b != 0,
    ensures
        a == b * py_floordiv(a, b) + py_mod(a, b),
        b > 0 ==> 0 <= py_mod(a, b) < b,
        b < 0 ==> b < py_mod(a, b) <= 0,
{
    if b > 0 {
        vstd::arithmetic::div_mod::lemma_fundamental_div_mod(a, b);
        assert(py_mod(a, b) == a % b);
    } else {
        vstd::arithmetic::div_mod::lemma_fundamental_div_mod(-a, -b);
        assert(py_floordiv(a, b) == (-a) / (-b));
        assert(py_mod(a, b) == -((-a) % (-b))) by (nonlinear_arith)
            requires
                py_mod(a, b) == a - b * ((-a) / (-b)),
                -a == (-b) * ((-a) / (-b)) + (-a) % (-b),
        ;
    }
}

/// Native equality is symmetric.
pub proof fn law_eq_symmetric(a: Value, b: Value)
    ensures
        spec_eq_native(a, b) == spec_eq_native(b, a),
{
}

/// What a write stores in a closure scope, a read finds: after a name bound
/// on the chain from scope `i` (in scope `b`) is given a value that is not
/// `Nil`, resolving it from `i` yields that value.
pub proof fn law_scope_write_read(a1: ScopeArena, a2: ScopeArena, i: int, b: int, name: Seq<char>, v: Value)
    requires
        a1.wf(),
        0 <= i < a1.num_scopes(),
        a1.spec_binding_scope(i, name) == Some(b),
        a2.num_scopes() == a1.num_scopes(),
        a2.num_globals() == a1.num_globals(),
        forall|j: int| 0 <= j < a1.num_scopes() ==> a2.parent(j) == a1.parent(j),
        a2.captured(b) == entry_insert(a1.captured(b), name, v),
        forall|j: int| 0 <= j < a1.num_scopes() && j != b ==> a2.captured(j) == a1.captured(j),
        v != Value::Nil,
    ensures
        a2.spec_resolve(i, name) == Some(v),
    decreases i,
{
    lemma_insert_lookup(a1.captured(b), name, v);
    if entry_lookup(a1.captured(i), name).is_some() {
        assert(b == i);
    } else {
        assert(a1.parent_ok(a1.parent(i), i));
        match a1.parent(i) {
            crate::scope::ClosureParent::Native(p) => {
                law_scope_write_read(a1, a2, p.id as int, b, name, v);
            },
            _ => {},
        }
    }
}

/// Looking a key up right after storing it gives the stored value.
pub proof fn lemma_insert_lookup(entries: Seq<(Seq<char>, Value)>, k: Seq<char>, v: Value)
    ensures
        entry_lookup(entry_insert(entries, k, v), k) == Some(v),
{
    lemma_entry_index(entries, k);
    let e2 = entry_insert(entries, k, v);
    lemma_entry_index(e2, k);
    if entry_index(entries, k) < 0 {
        assert(e2[entries.len() as int].0 == k);
        assert(entry_index(e2, k) == entries.len());
    } else {
        let i = entry_index(entries, k);
        assert(e2[i].0 == k);
        assert forall|j: int| 0 <= j < i implies (#[trigger] e2[j]).0 != k by {
            assert(e2[j] == entries[j]);
        }
        assert(entry_index(e2, k) == i);
    }
}

/// Each variant registered with an enum type looks up to that type and its
/// position, when the variants' symbols are distinct.
pub proof fn law_enum_symbol_lookup(m: Map<u32, (u32, u16)>, syms: Seq<u32>, tid: u32, i: int)
    requires
        0 <= i < syms.len(),
        syms.len() <= MAX_VARIANTS_PER_ENUM,
        forall|a: int, b: int| 0 <= a < b < syms.len() ==> syms[a] != syms[b],
    ensures
        register_symbols(m, syms, tid).contains_key(syms[i]),
        register_symbols(m, syms, tid)[syms[i]] == (tid, i as u16),
    decreases syms.len(),
{
    if i < syms.len() - 1 {
        let init = syms.drop_last();
        assert forall|a: int, b: int| 0 <= a < b < init.len() implies init[a] != init[b] by {
            assert(init[a] == syms[a] && init[b] == syms[b]);
        }
        law_enum_symbol_lookup(m, init, tid, i);
        assert(syms[i] != syms.last());
    }
}

/// Distinct variant names of one enum give distinct qualified names, hence
/// distinct symbols.
pub proof fn law_qualified_names_distinct(name: Seq<char>, a: Seq<char>, b: Seq<char>)
    requires
        a != b,
    ensures
        spec_qualified_name(name, a) != spec_qualified_name(name, b),
{
    let p = name + "."@;
    assert(spec_qualified_name(name, a) == p + a);
    assert(spec_qualified_name(name, b) == p + b);
    if p + a == p + b {
        assert((p + a).subrange(p.len() as int, (p + a).len() as int) =~= a);
        assert((p + b).subrange(p.len() as int, (p + b).len() as int) =~= b);
    }
}

/// A frame pool never holds more frames than its capacity.
pub proof fn law_pool_bounded(pool: FramePool)
    requires
        pool.wf(),
    ensures
        pool.spec_len() <= pool.spec_max_size(),
{
    pool.lemma_bounded();
}

/// The wildcard pattern matches any value and binds nothing; a capture
/// pattern matches any value and binds it to its slot.
pub proof fn law_wildcard_and_capture(
    v: Value,
    slot: usize,
    heap: Seq<Seq<Value>>,
    reg: StructRegistry,
    symbols: Seq<Seq<char>>,
    scope: Seq<Seq<char>>,
    facts: FactsView,
)
    ensures
        spec_match(VMPattern::Wildcard, v, heap, reg, symbols, scope, facts) == MatchView::Bound(Seq::empty()),
        spec_match(VMPattern::Var(slot), v, heap, reg, symbols, scope, facts) == MatchView::Bound(seq![(slot, BindView::Val(v))]),
{
}

/// An instance compared with itself field by field never differs: every
/// field equals itself, or the host is asked about it.
pub proof fn law_struct_eq_reflexive(fields: Seq<Value>, i: int)
    requires
        0 <= i,
    ensures
        !(fields_eq_from(fields, fields, i) is Differ),
    decreases fields.len() - i,
{
    if i < fields.len() {
        law_struct_eq_reflexive(fields, i + 1);
    }
}

/// Field-by-field comparison is symmetric: swapping the two instances gives
/// the same outcome.
pub proof fn law_struct_eq_symmetric(fa: Seq<Value>, fb: Seq<Value>, i: int)
    requires
        0 <= i,
        fa.len() == fb.len(),
    ensures
        fields_eq_from(fa, fb, i) == fields_eq_from(fb, fa, i),
    decreases fa.len() - i,
{
    if i < fa.len() {
        law_eq_symmetric(fa[i], fb[i]);
        law_struct_eq_symmetric(fa, fb, i + 1);
    }
}

/// A module-level block that binds none of its names leaves the module
/// globals as they were: removing names that are not bound changes nothing.
pub proof fn law_unbound_names_leave_globals(entries: Seq<(Seq<char>, Value)>, names: Seq<Seq<char>>)
    requires
        forall|j: int| 0 <= j < names.len() ==> entry_lookup(entries, #[trigger] names[j]) is None,
    ensures
        entries_without(entries, names) == entries,
    decreases names.len(),
{
    if names.len() > 0 {
        law_unbound_names_leave_globals(entries, names.drop_last());
        assert(names.drop_last().len() == names.len() - 1);
        assert forall|j: int| 0 <= j < names.drop_last().len() implies entry_lookup(entries, #[trigger] names.drop_last()[j]) is None by {
            assert(names.drop_last()[j] == names[j]);
        }
        assert(entry_lookup(entries, names[names.len() - 1]) is None);
        lemma_entry_index(entries, names.last());
    }
}

/// With distinct names, the first field named like field `i` is field `i`.
proof fn lemma_distinct_field_index(names: Seq<Seq<char>>, i: int, from: int)
    requires
        0 <= from <= i < names.len(),
        forall|a: int, b: int| 0 <= a < b < names.len() ==> names[a] != names[b],
    ensures
        field_index_from(names, names[i], from) == i,
    decreases i - from,
{
    if from < i {
        lemma_distinct_field_index(names, i, from + 1);
    }
}

/// Placing one keyword value per field, named in field order, from field
/// `i` on, gives exactly those values, every field given.
proof fn lemma_place_in_order(fields: Seq<Value>, filled: Seq<bool>, names: Seq<Seq<char>>, kws: Seq<Value>, i: int)
    requires
        0 <= i <= kws.len(),
        kws.len() == names.len(),
        fields.len() == names.len(),
        filled.len() == names.len(),
        forall|a: int, b: int| 0 <= a < b < names.len() ==> names[a] != names[b],
        forall|j: int| 0 <= j < i ==> fields[j] == kws[j] && filled[j],
        forall|j: int| i <= j < names.len() ==> !filled[j],
    ensures
        place_kws(fields, filled, names, names, kws, i) == KwPlace::Placed(kws, Seq::new(names.len(), |j: int| true)),
    decreases kws.len() - i,
{
    if i < kws.len() {
        lemma_distinct_field_index(names, i, 0);
        lemma_place_in_order(fields.update(i, kws[i]), filled.update(i, true), names, kws, i + 1);
    } else {
        assert(fields =~= kws);
        assert(filled =~= Seq::new(names.len(), |j: int| true));
    }
}

/// A struct call that passes every field by keyword, in field order, makes
/// the same instance as the call that passes them by position, when the
/// field names are distinct and no value is `None`.
pub proof fn law_keywords_match_positions(
    vm: VM,
    t: int,
    kws: Seq<Value>,
    cur: FrameState,
    r: Outcome,
    post: VM,
)
    requires
        0 <= t < vm.struct_registry.num_types(),
        kws.len() == vm.struct_registry.type_fields(t).len(),
        forall|a: int, b: int| 0 <= a < b < kws.len() ==> vm.struct_registry.type_fields(t)[a] != vm.struct_registry.type_fields(t)[b],
        forall|j: int| 0 <= j < kws.len() ==> kws[j] != Value::Nil,
    ensures
        vm.instantiated_kw(t, Seq::empty(), kws, vm.struct_registry.type_fields(t), cur, r, post)
            <==> vm.instantiated(t, kws, cur, r, post),
{
    let reg = vm.struct_registry;
    let names = reg.type_fields(t);
    let nf = names.len() as int;
    let d = reg.type_defaults(t);
    lemma_place_in_order(positional_fields(Seq::empty(), d, nf), given_flags(nf, 0), names, kws, 0);
    lemma_no_missing(kws, d, 0);
    lemma_required_at_most(d, nf);
    assert(filled_fields(kws, d, nf) =~= kws);
}

/// No field is missing when no value is `None`.
proof fn lemma_no_missing(fields: Seq<Value>, defaults: Seq<Option<Value>>, i: int)
    requires
        0 <= i,
        forall|j: int| 0 <= j < fields.len() ==> fields[j] != Value::Nil,
    ensures
        first_missing(fields, defaults, 0, i) == -1,
    decreases fields.len() - i,
{
    if i < fields.len() {
        lemma_no_missing(fields, defaults, i + 1);
    }
}

/// At most `n` of the first `n` fields are required.
proof fn lemma_required_at_most(defaults: Seq<Option<Value>>, n: int)
    requires
        0 <= n,
    ensures
        required_count(defaults, n) <= n,
    decreases n,
{
    if n > 0 {
        lemma_required_at_most(defaults, n - 1);
    }
}

/// No two entries share a name.
pub open spec fn unique_names(entries: Seq<(Seq<char>, Value)>) -> bool {
    forall|a: int, b: int| 0 <= a < b < entries.len() ==> entries[a].0 != entries[b].0
}

/// In entries without a repeated name, the entry named `k` is found exactly
/// where it stands.
proof fn lemma_unique_index(entries: Seq<(Seq<char>, Value)>, j: int)
    requires
        unique_names(entries),
        0 <= j < entries.len(),
    ensures
        entry_index(entries, entries[j].0) == j,
{
    lemma_entry_index(entries, entries[j].0);
}

/// Removing an entry by swapping keeps the names distinct, drops the name,
/// and leaves every other name's value as it was.
proof fn lemma_swap_remove(entries: Seq<(Seq<char>, Value)>, k: Seq<char>)
    requires
        unique_names(entries),
    ensures
        unique_names(entry_swap_remove(entries, k)),
        entry_lookup(entry_swap_remove(entries, k), k) is None,
        forall|n: Seq<char>| n != k ==> entry_lookup(entry_swap_remove(entries, k), n) == entry_lookup(entries, n),
{
    lemma_entry_index(entries, k);
    let i = entry_index(entries, k);
    let out = entry_swap_remove(entries, k);
    if i >= 0 {
        let last = entries.len() - 1;
        assert forall|a: int, b: int| 0 <= a < b < out.len() implies out[a].0 != out[b].0 by {
            if a == i {
                assert(out[a] == entries[last]);
                assert(out[b] == entries[b]);
            } else if b == i {
                assert(out[b] == entries[last]);
                assert(out[a] == entries[a]);
            } else {
                assert(out[a] == entries[a]);
                assert(out[b] == entries[b]);
            }
        }
        lemma_entry_index(out, k);
        if entry_index(out, k) >= 0 {
            let j = entry_index(out, k);
            if j == i {
                assert(out[j] == entries[last]);
                assert(last != i);
            } else {
                assert(out[j] == entries[j]);
            }
        }
        assert forall|n: Seq<char>| n != k implies entry_lookup(out, n) == entry_lookup(entries, n) by {
            lemma_entry_index(entries, n);
            lemma_entry_index(out, n);
            let p = entry_index(entries, n);
            if p >= 0 {
                assert(p != i);
                if p == last {
                    assert(out[i] == entries[p]);
                    lemma_unique_index(out, i);
                } else {
                    assert(out[p] == entries[p]);
                    lemma_unique_index(out, p);
                }
            } else {
                if entry_index(out, n) >= 0 {
                    let q = entry_index(out, n);
                    if q == i {
                        assert(out[q] == entries[last]);
                    } else {
                        assert(out[q] == entries[q]);
                    }
                }
            }
        }
    }
}

/// Names dropped at the end of a module-level block are no module globals
/// afterwards, and every other global keeps its value (names of globals
/// being distinct).
pub proof fn law_block_names_leave_globals(entries: Seq<(Seq<char>, Value)>, gone: Seq<Seq<char>>)
    requires
        unique_names(entries),
    ensures
        unique_names(entries_without(entries, gone)),
        forall|j: int| 0 <= j < gone.len() ==> entry_lookup(entries_without(entries, gone), #[trigger] gone[j]) is None,
        forall|n: Seq<char>| !gone.contains(n) ==> entry_lookup(entries_without(entries, gone), n) == entry_lookup(entries, n),
    decreases gone.len(),
{
    if gone.len() > 0 {
        let prev = gone.drop_last();
        law_block_names_leave_globals(entries, prev);
        let mid = entries_without(entries, prev);
        lemma_swap_remove(mid, gone.last());
        assert forall|j: int| 0 <= j < gone.len() implies entry_lookup(entries_without(entries, gone), #[trigger] gone[j]) is None by {
            if j < gone.len() - 1 {
                assert(gone[j] == prev[j]);
                if gone[j] != gone.last() {
                    assert(entry_lookup(mid, prev[j]) is None);
                }
            }
        }
        assert forall|n: Seq<char>| !gone.contains(n) implies entry_lookup(entries_without(entries, gone), n) == entry_lookup(entries, n) by {
            assert(n != gone.last()) by {
                if n == gone.last() {
                    assert(gone[gone.len() - 1] == n);
                }
            }
            assert(!prev.contains(n)) by {
                if prev.contains(n) {
                    let j = choose|j: int| 0 <= j < prev.len() && prev[j] == n;
                    assert(gone[j] == n);
                }
            }
        }
    }
}


/// Short-circuit `and`: `JumpIfFalseOrPop` on a condition whose truth the VM
/// knows jumps to its target keeping the condition when it is falsy, and
/// pops it and falls through when it is truthy. `or` (`JumpIfTrueOrPop`) is
/// the mirror image: it jumps keeping a truthy condition and pops a falsy
/// one. A condition only the host can judge is handed to the host with the
/// same rule (`when`: the truth that jumps).
pub proof fn law_short_circuit_jumps(
    s: FrameState,
    target: u32,
    consts: Seq<Value>,
    heap: Seq<Seq<Value>>,
)
    requires
        s.stack.len() > 0,
    ensures
        ({
            let c = s.stack.last();
            let and_op = Instruction { op: OpCode::JumpIfFalseOrPop, arg: target };
            let or_op = Instruction { op: OpCode::JumpIfTrueOrPop, arg: target };
            let jumped = FrameState { ip: target as int, ..s };
            let popped = FrameState { stack: s.stack.drop_last(), ..s };
            &&& vm_truth(c, heap) == Some(false) ==> frame_effect(s, and_op, consts, heap) == (jumped, heap, FlowView::Next)
            &&& vm_truth(c, heap) == Some(true) ==> frame_effect(s, and_op, consts, heap) == (popped, heap, FlowView::Next)
            &&& vm_truth(c, heap) == Some(true) ==> frame_effect(s, or_op, consts, heap) == (jumped, heap, FlowView::Next)
            &&& vm_truth(c, heap) == Some(false) ==> frame_effect(s, or_op, consts, heap) == (popped, heap, FlowView::Next)
            &&& vm_truth(c, heap) is None ==> frame_effect(s, and_op, consts, heap) == (s, heap, FlowView::Host(
                HostView::Truth(c),
                Resume::Branch { target: target as usize, when: false, keep: true },
            ))
            &&& vm_truth(c, heap) is None ==> frame_effect(s, or_op, consts, heap) == (s, heap, FlowView::Host(
                HostView::Truth(c),
                Resume::Branch { target: target as usize, when: true, keep: true },
            ))
        }),
{
}

/// `False and 5` stays `False`, `1 or 2` stays `1`, `0 or 2` goes on to
/// `2`: booleans and small ints are judged by the VM itself, `False`, `None`
/// and `0` being the falsy ones.
pub proof fn law_short_circuit_native(s: FrameState, target: u32, consts: Seq<Value>, heap: Seq<Seq<Value>>, c: Value)
    requires
        s.stack.len() > 0,
        s.stack.last() == c,
        c is Bool || c is Int || c is Nil,
    ensures
        ({
            let falsy = c == Value::Bool(false) || c == Value::Nil || c == Value::Int(0);
            let and_op = Instruction { op: OpCode::JumpIfFalseOrPop, arg: target };
            let or_op = Instruction { op: OpCode::JumpIfTrueOrPop, arg: target };
            &&& frame_effect(s, and_op, consts, heap).0 == (if falsy {
                FrameState { ip: target as int, ..s }
            } else {
                FrameState { stack: s.stack.drop_last(), ..s }
            })
            &&& frame_effect(s, or_op, consts, heap).0 == (if falsy {
                FrameState { stack: s.stack.drop_last(), ..s }
            } else {
                FrameState { ip: target as int, ..s }
            })
        }),
{
    law_short_circuit_jumps(s, target, consts, heap);
}

/// The star-free elements of a sequence pattern.
proof fn lemma_no_star(es: Seq<VMPatternElement>)
    requires
        forall|i: int| 0 <= i < es.len() ==> !(#[trigger] es[i] is Star),
    ensures
        star_count(es) == 0,
    decreases es.len(),
{
    if es.len() > 0 {
        assert forall|i: int| 0 <= i < es.drop_last().len() implies !(#[trigger] es.drop_last()[i] is Star) by {
            assert(es.drop_last()[i] == es[i]);
        }
        lemma_no_star(es.drop_last());
        assert(!(es[es.len() - 1] is Star));
    }
}

/// A sequence pattern without a star element matches a tuple only when the
/// tuple has exactly as many items as the pattern has elements: a longer or
/// shorter tuple does not match, whatever the elements.
pub proof fn law_sequence_pattern_length(
    elems: Vec<VMPatternElement>,
    t: u32,
    heap: Seq<Seq<Value>>,
    reg: StructRegistry,
    symbols: Seq<Seq<char>>,
    scope: Seq<Seq<char>>,
    facts: FactsView,
)
    requires
        forall|i: int| 0 <= i < elems@.len() ==> !(#[trigger] elems@[i] is Star),
        (t as int) < heap.len(),
        heap[t as int].len() != elems@.len(),
    ensures
        spec_match(VMPattern::Tuple(elems), Value::Tuple(t), heap, reg, symbols, scope, facts) == MatchView::NoMatch,
{
    lemma_no_star(elems@);
}

/// The last keyword argument naming a parameter binds it: after binding, a
/// parameter given (a value other than `None`) by keyword holds that value;
/// neither a positional argument before it nor a default after it replaces
/// it.
pub proof fn law_keyword_beats_default(
    code: CodeObject,
    locals: Seq<Value>,
    args: Seq<Value>,
    kwargs: Seq<(Seq<char>, Value)>,
    vararg: Value,
)
    requires
        kwargs.len() > 0,
        kwargs.last().1 != Value::Nil,
        slot_lookup(code.slot_pairs(), kwargs.last().0) matches Some(s) && (s as int) < locals.len(),
        code.vararg_idx >= 0 ==> (code.vararg_idx as int) < locals.len(),
    ensures
        bound_locals(code, locals, args, kwargs, vararg)[slot_lookup(code.slot_pairs(), kwargs.last().0).unwrap() as int]
            == kwargs.last().1,
{
    let s = slot_lookup(code.slot_pairs(), kwargs.last().0).unwrap() as int;
    let n = args.len() as int;
    let ndef = code.defaults@.len() as int;
    let pos = if code.vararg_idx >= 0 {
        bind_positional(locals, args, min_int(n, code.vararg_idx as int)).update(code.vararg_idx as int, vararg)
    } else {
        bind_positional(locals, args, min_int(n, code.nargs as int))
    };
    let kw = bind_kwargs(pos, kwargs, code.slot_pairs());
    lemma_bind_kwargs_len(pos, kwargs, code.slot_pairs());
    assert(kw[s] == kwargs.last().1);
    if code.vararg_idx >= 0 {
        let v = code.vararg_idx as int;
        let ds = max_int(v - ndef, 0);
        if ndef > 0 {
            assert(fill_defaults(kw, code.defaults@, max_int(n, ds), v, ds)[s] == kw[s]);
        }
    } else {
        let p = code.nargs as int;
        let ds = max_int(p - ndef, 0);
        if ndef > 0 {
            assert(fill_defaults(kw, code.defaults@, max_int(n, ds), p, ds)[s] == kw[s]);
        }
    }
}

/// Binding keyword arguments keeps the number of locals.
proof fn lemma_bind_kwargs_len(locals: Seq<Value>, kwargs: Seq<(Seq<char>, Value)>, slots: Seq<(Seq<char>, usize)>)
    ensures
        bind_kwargs(locals, kwargs, slots).len() == locals.len(),
    decreases kwargs.len(),
{
    if kwargs.len() > 0 {
        lemma_bind_kwargs_len(locals, kwargs.drop_last(), slots);
    }
}

/// A default fills a parameter only when nothing bound it: a parameter that
/// holds a value other than `None` keeps it.
pub proof fn law_default_fills_only_unbound(
    locals: Seq<Value>,
    defaults: Seq<Value>,
    lo: int,
    hi: int,
    default_start: int,
    i: int,
)
    requires
        0 <= i < locals.len(),
        locals[i] != Value::Nil,
    ensures
        fill_defaults(locals, defaults, lo, hi, default_start)[i] == locals[i],
{
}

/// `first_named` finds the first entry of that name.
proof fn lemma_first_named_at(names: Seq<Seq<char>>, name: Seq<char>, k: int, t: int)
    requires
        0 <= k <= t < names.len(),
        names[t] == name,
        forall|u: int| 0 <= u < t ==> names[u] != name,
    ensures
        first_named(names, name, k) == t,
    decreases t - k,
{
    if k < t {
        lemma_first_named_at(names, name, k + 1, t);
    }
}

/// Raising an instance of a registered struct type raises an exception
/// whose MRO is the type's registered MRO, so an `except` naming any type in
/// it (an ancestor, such as a base exception struct) catches it.
pub proof fn law_struct_exception_mro(vm: VM, t: int, msg: Seq<char>)
    requires
        0 <= t < vm.struct_registry.num_types(),
        forall|u: int| 0 <= u < t ==> vm.struct_registry.name_of_type(u) != vm.struct_registry.name_of_type(t),
    ensures
        vm.struct_exception_view(vm.struct_registry.name_of_type(t), msg).mro == vm.struct_registry.type_mro(t),
        vm.struct_exception_view(vm.struct_registry.name_of_type(t), msg).exc_type == vm.struct_registry.name_of_type(t),
        vm.struct_exception_view(vm.struct_registry.name_of_type(t), msg).message == msg,
{
    let reg = vm.struct_registry;
    let name = reg.name_of_type(t);
    reg.lemma_type_names(t);
    assert forall|u: int| 0 <= u < t implies reg.type_names()[u] != name by {
        reg.lemma_type_names(u);
    }
    lemma_first_named_at(reg.type_names(), name, 0, t);
}

/// Integer comparisons agree with one another and with the order of the
/// integers: `a >= b` is `not a < b`, `a <= b` is `not a > b`, `a > b` is
/// `b < a`, `a >= b` is `b <= a`, and a value is `>=` and `<=` itself but
/// not `<` or `>` it.
pub proof fn law_int_comparisons(x: i64, y: i64)
    ensures
        ({
            let a = Value::Int(x);
            let b = Value::Int(y);
            &&& spec_binary(BinaryOp::Ge, a, b) == NativeView::Value(Value::Bool(!(spec_binary(BinaryOp::Lt, a, b)->Value_0->Bool_0)))
            &&& spec_binary(BinaryOp::Le, a, b) == NativeView::Value(Value::Bool(!(spec_binary(BinaryOp::Gt, a, b)->Value_0->Bool_0)))
            &&& spec_binary(BinaryOp::Gt, a, b) == spec_binary(BinaryOp::Lt, b, a)
            &&& spec_binary(BinaryOp::Ge, a, b) == spec_binary(BinaryOp::Le, b, a)
            &&& spec_binary(BinaryOp::Ge, a, a) == NativeView::Value(Value::Bool(true))
            &&& spec_binary(BinaryOp::Le, a, a) == NativeView::Value(Value::Bool(true))
            &&& spec_binary(BinaryOp::Lt, a, a) == NativeView::Value(Value::Bool(false))
            &&& spec_binary(BinaryOp::Gt, a, a) == NativeView::Value(Value::Bool(false))
            &&& spec_binary(BinaryOp::Lt, a, b) == NativeView::Value(Value::Bool(x < y))
        }),
{
}

/// Conditional jumps pop their condition; `JumpIfFalse` jumps exactly on a
/// falsy one, `JumpIfTrue` exactly on a truthy one, and otherwise execution
/// falls through. `DupTop` pushes a copy of the top, and `LoadConst` pushes
/// the constant.
pub proof fn law_conditional_jumps_and_stack(
    s: FrameState,
    target: u32,
    k: u32,
    consts: Seq<Value>,
    heap: Seq<Seq<Value>>,
    t: bool,
)
    requires
        s.stack.len() > 0,
        vm_truth(s.stack.last(), heap) == Some(t),
        (k as int) < consts.len(),
    ensures
        frame_effect(s, Instruction { op: OpCode::JumpIfFalse, arg: target }, consts, heap).0 == (FrameState {
            stack: s.stack.drop_last(),
            ip: if !t { target as int } else { s.ip },
            ..s
        }),
        frame_effect(s, Instruction { op: OpCode::JumpIfTrue, arg: target }, consts, heap).0 == (FrameState {
            stack: s.stack.drop_last(),
            ip: if t { target as int } else { s.ip },
            ..s
        }),
        frame_effect(s, Instruction { op: OpCode::DupTop, arg: 0 }, consts, heap).0.stack == s.stack.push(s.stack.last()),
        frame_effect(s, Instruction { op: OpCode::LoadConst, arg: k }, consts, heap).0.stack == s.stack.push(consts[k as int]),
{
}

} // verus!
