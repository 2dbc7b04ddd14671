//! What one instruction does to the frame that runs it.
//!
//! `frame_effect` states the semantics of every instruction that reads and
//! writes only its own frame, the code's constants and the tuple heap, and
//! `exec_frame_op` carries it out. Where the VM cannot finish an instruction
//! alone (a host object, a big integer, the text of a host value) the frame
//! is left as the instruction leaves it and the step asks the host, saying in
//! a `Resume` what the answer is for.

use vstd::prelude::*;
use crate::value::{Value, TupleHeap, values_below, fits_small};
use crate::text::{decimal, nat_digits, u64_to_decimal, concat2, concat3};
use crate::pattern::{native_type_name, native_type_name_string, items_ok};
use crate::frame::restored_locals;
use crate::error::{PendingView, PendingUnwind};
use crate::frame::{Frame, FrameState, Handler, HandlerType, Instruction, OpCode};
use crate::ops::{
    BinaryOp, Native, NativeView, spec_binary, spec_eq_native, eq_without_python, int_result, binary_add,
    binary_sub, binary_mul, binary_div, binary_floordiv, binary_mod, binary_pow, compare, bitwise_or,
    bitwise_xor, bitwise_and, bitwise_lshift, bitwise_rshift, unary_neg, bitwise_not,
};
use crate::error::{VMError, ErrorView, ExceptionKind};

verus! {

/// Unary operators the host may have to compute.
#[derive(Clone, Copy, Debug, PartialEq, Eq, Structural)]
pub enum UnaryOp {
    Neg,
    Invert,
}

/// What the VM asks of the host when it cannot go on alone.
#[derive(Debug)]
pub enum HostRequest {
    /// Compute `a op b`.
    Binary(BinaryOp, Value, Value),
    /// Compute a unary operator.
    Unary(UnaryOp, Value),
    /// Python equality `a == b` (`a != b` when the flag is set).
    Equal(Value, Value, bool),
    /// The truthiness of a value.
    Truth(Value),
    /// The text `str(value)`.
    Text(Value),
    /// Build a tuple of these items.
    Tuple(Vec<Value>),
    /// The items of an iterable value.
    Items(Value),
    /// The type name and message of a raised value.
    Describe(Value),
    /// Look a name up in the host's globals.
    Lookup(String),
    /// Look a name up in host-held globals, by handle.
    LookupIn(u64, String),
    /// Store a module global in the host's globals.
    Store(String, Value),
    /// Assign a name in host-held globals, by handle, where it is bound.
    StoreIn(u64, String, Value),
    /// Call a host callable with positional arguments.
    Call(Value, Vec<Value>),
    /// Call method `name` of a value with positional arguments.
    CallMethod(Value, String, Vec<Value>),
    /// The items a value iterates to (its type name, as a text, when it does
    /// not iterate).
    SeqItems(Value),
    /// The struct type name of a host value, as a text.
    StructName(Value),
    /// An attribute of a host value (`Missing` when it has none).
    MatchAttr(Value, String),
    /// Whether a host value equals a text.
    EqualsText(Value, String),
    /// Read an attribute of a host value.
    GetAttr(Value, String),
    /// Write an attribute of a host value.
    SetAttr(Value, String, Value),
    /// Match pattern `k` of the running code against a host value.
    Match(u32, Value),
    /// Membership `a in b` (`not in` when the flag is set).
    Contains(Value, Value, bool),
    /// An iterator over a value.
    Iter(Value),
    /// The next item of an iterator (`Missing` when it is exhausted).
    Next(Value),
    /// Build a list (`false`) or a set (`true`) of these items.
    Build(bool, Vec<Value>),
    /// Build a dict, inserting these (key, value) pairs in order.
    Dict(Vec<(Value, Value)>),
    /// Build a slice from these bounds.
    Slice(Vec<Value>),
    /// `obj[index]`.
    GetItem(Value, Value),
    /// `obj[start:stop:step]`.
    GetSlice(Value, Value, Value, Value),
    /// `obj[index] = value`.
    SetItem(Value, Value, Value),
    /// A host string holding this text.
    Str(String),
    /// The exception-info triple of an exception (type name and message), or
    /// of none.
    ExcInfo(Option<(String, String)>),
    /// `format(value, spec)` after conversion `conv` (0 none, 1 str, 2 repr,
    /// 3 ascii).
    Format(Value, Option<Value>, u32),
    /// The concatenation of these strings.
    Concat(Vec<Value>),
    /// The lowercase type name of a host value, as a host string.
    TypeName(Value),
    /// Call a callable with positional arguments, keyword names (a host
    /// tuple) and keyword values.
    CallKw(Value, Vec<Value>, Value, Vec<Value>),
    /// Which of these names the host's globals bind: one `Bool` item per
    /// name.
    HasGlobals(Vec<String>),
    /// Remove these names from the host's globals, where bound.
    DeleteGlobals(Vec<String>),
    /// A dict of these (name, value) bindings, inserted in order; with the
    /// flag, the host then adds its own globals.
    NamedDict(Vec<(String, Value)>, bool),
    /// The keyword names a call passes: the texts of the items of this host
    /// tuple.
    KeywordNames(Value),
    /// The name and the variant names of an enum definition (a host tuple
    /// `(name, (variant, ...))`), as texts, the name first.
    EnumSpec(Value),
    /// A host object standing for enum type (name, id, variant names).
    NewEnumType(String, u32, Vec<String>),
    /// The periodic check: whether an interrupt was requested, and the
    /// process's resident memory in bytes, if known.
    Checkpoint,
    /// What the host says of a value under composite check `k` of the
    /// running code.
    CheckFacts(Value, u32),
    /// Whether a value belongs to the nominal type of this name, the name of
    /// its type, and whether the host holds a type of this name.
    NominalFacts(Value, String),
}

/// Mathematical view of a host request.
pub enum HostView {
    Binary(BinaryOp, Value, Value),
    Unary(UnaryOp, Value),
    Equal(Value, Value, bool),
    Truth(Value),
    Text(Value),
    Tuple(Seq<Value>),
    Items(Value),
    Describe(Value),
    Lookup(Seq<char>),
    LookupIn(u64, Seq<char>),
    Store(Seq<char>, Value),
    StoreIn(u64, Seq<char>, Value),
    Call(Value, Seq<Value>),
    CallMethod(Value, Seq<char>, Seq<Value>),
    SeqItems(Value),
    StructName(Value),
    MatchAttr(Value, Seq<char>),
    EqualsText(Value, Seq<char>),
    GetAttr(Value, Seq<char>),
    SetAttr(Value, Seq<char>, Value),
    Match(u32, Value),
    Contains(Value, Value, bool),
    Iter(Value),
    Next(Value),
    Build(bool, Seq<Value>),
    Dict(Seq<(Value, Value)>),
    Slice(Seq<Value>),
    GetItem(Value, Value),
    GetSlice(Value, Value, Value, Value),
    SetItem(Value, Value, Value),
    Str(Seq<char>),
    ExcInfo(Option<(Seq<char>, Seq<char>)>),
    Format(Value, Option<Value>, u32),
    Concat(Seq<Value>),
    TypeName(Value),
    CallKw(Value, Seq<Value>, Value, Seq<Value>),
    HasGlobals(Seq<Seq<char>>),
    DeleteGlobals(Seq<Seq<char>>),
    NamedDict(Seq<(Seq<char>, Value)>, bool),
    KeywordNames(Value),
    EnumSpec(Value),
    NewEnumType(Seq<char>, u32, Seq<Seq<char>>),
    Checkpoint,
    CheckFacts(Value, u32),
    NominalFacts(Value, Seq<char>),
}

impl HostRequest {
    pub open spec fn view(&self) -> HostView {
        match self {
            HostRequest::Binary(op, a, b) => HostView::Binary(*op, *a, *b),
            HostRequest::Unary(op, a) => HostView::Unary(*op, *a),
            HostRequest::Equal(a, b, n) => HostView::Equal(*a, *b, *n),
            HostRequest::Truth(v) => HostView::Truth(*v),
            HostRequest::Text(v) => HostView::Text(*v),
            HostRequest::Tuple(items) => HostView::Tuple(items@),
            HostRequest::Items(v) => HostView::Items(*v),
            HostRequest::Describe(v) => HostView::Describe(*v),
            HostRequest::Lookup(n) => HostView::Lookup(n@),
            HostRequest::LookupIn(h, n) => HostView::LookupIn(*h, n@),
            HostRequest::Store(n, v) => HostView::Store(n@, *v),
            HostRequest::StoreIn(h, n, v) => HostView::StoreIn(*h, n@, *v),
            HostRequest::Call(f, args) => HostView::Call(*f, args@),
            HostRequest::CallMethod(v, n, args) => HostView::CallMethod(*v, n@, args@),
            HostRequest::SeqItems(v) => HostView::SeqItems(*v),
            HostRequest::StructName(v) => HostView::StructName(*v),
            HostRequest::MatchAttr(v, a) => HostView::MatchAttr(*v, a@),
            HostRequest::EqualsText(v, t) => HostView::EqualsText(*v, t@),
            HostRequest::GetAttr(v, n) => HostView::GetAttr(*v, n@),
            HostRequest::SetAttr(v, n, x) => HostView::SetAttr(*v, n@, *x),
            HostRequest::Match(k, v) => HostView::Match(*k, *v),
            HostRequest::Contains(a, b, n) => HostView::Contains(*a, *b, *n),
            HostRequest::Iter(v) => HostView::Iter(*v),
            HostRequest::Next(v) => HostView::Next(*v),
            HostRequest::Build(set, items) => HostView::Build(*set, items@),
            HostRequest::Dict(pairs) => HostView::Dict(pairs@),
            HostRequest::Slice(items) => HostView::Slice(items@),
            HostRequest::GetItem(o, i) => HostView::GetItem(*o, *i),
            HostRequest::GetSlice(o, a, b, c) => HostView::GetSlice(*o, *a, *b, *c),
            HostRequest::SetItem(o, i, v) => HostView::SetItem(*o, *i, *v),
            HostRequest::Str(t) => HostView::Str(t@),
            HostRequest::ExcInfo(e) => HostView::ExcInfo(match e {
                Some((t, m)) => Some((t@, m@)),
                None => None,
            }),
            HostRequest::Format(v, spec, c) => HostView::Format(*v, *spec, *c),
            HostRequest::Concat(items) => HostView::Concat(items@),
            HostRequest::TypeName(v) => HostView::TypeName(*v),
            HostRequest::CallKw(f, args, names, kws) => HostView::CallKw(*f, args@, *names, kws@),
            HostRequest::HasGlobals(names) => HostView::HasGlobals(names@.map_values(|s: String| s@)),
            HostRequest::DeleteGlobals(names) => HostView::DeleteGlobals(names@.map_values(|s: String| s@)),
            HostRequest::NamedDict(pairs, host) => HostView::NamedDict(
                pairs@.map_values(|p: (String, Value)| (p.0@, p.1)),
                *host,
            ),
            HostRequest::KeywordNames(v) => HostView::KeywordNames(*v),
            HostRequest::EnumSpec(v) => HostView::EnumSpec(*v),
            HostRequest::NewEnumType(n, t, vs) => HostView::NewEnumType(n@, *t, vs@.map_values(|s: String| s@)),
            HostRequest::Checkpoint => HostView::Checkpoint,
            HostRequest::CheckFacts(v, k) => HostView::CheckFacts(*v, *k),
            HostRequest::NominalFacts(v, n) => HostView::NominalFacts(*v, n@),
        }
    }
}

/// What the host's answer to a request is for.
#[derive(Clone, Copy, Debug, PartialEq, Eq, Structural)]
pub enum Resume {
    /// Push the answered value.
    Push,
    /// Push the answered truthiness, negated when the flag is set.
    Truth(bool),
    /// A conditional jump on the answered truthiness: jump to `target` when
    /// it equals `when`; with `keep`, the tested value was left on the stack
    /// and is popped when there is no jump.
    Branch { target: usize, when: bool, keep: bool },
    /// Store the answered value in local `slot` and jump to `target`.
    StoreJump { slot: usize, target: usize },
    /// Push whether the active exception is an instance of the answered
    /// type name.
    ExcMatch,
    /// Raise a `RuntimeError` with the answered text.
    RaiseText,
    /// Push the answered items, last first, when there are this many.
    Unpack(usize),
    /// Extended unpacking of the answered items with this instruction
    /// argument: the fixed items are pushed and the host then builds the
    /// starred list.
    UnpackEx(u32),
    /// Put the answered value below the top `n` values of the stack.
    InsertBelow(usize),
    /// The answer is whether field `next - 1` of struct instances `a` and
    /// `b` are equal; equal fields go on from field `next`. The comparison
    /// is for `!=` when `negate` is set.
    FieldEq { a: u32, b: u32, next: usize, negate: bool },
    /// The answer is the keyword names of a call of struct type `t` with
    /// `nargs` positional and `nkw` keyword arguments, still on the stack.
    StructKw { t: u32, nargs: usize, nkw: usize },
    /// The answer is the name and variant names of an enum definition.
    MakeEnum,
    /// The answer is the object standing for enum type `t`.
    EnumMarker(u32),
    /// The answer is the periodic check made before running `instr`
    /// (fetched at source position `src`).
    Checkpoint { instr: Instruction, src: u32 },
    /// The answer tells which of the names of the slots from this one on
    /// the host's globals bind, for the snapshot of a module-level block.
    BlockSnapshot(usize),
    /// Raise the answered exception (type name and message).
    RaiseDescribed,
    /// Push the answered value; a missing name raises `NameError` for name
    /// `name` of the running code.
    PushOrNameError(u32),
    /// Push the answered value; a missing name is next looked up in the
    /// host's globals.
    PushOrLookup(u32),
    /// The answer says whether host-held globals bound name `name` and
    /// took `value`; if they did, a module global of that name takes it too,
    /// else `value` becomes a module global (also stored in the host's).
    StoreOrGlobal { name: u32, value: Value },
    /// Raise struct instance `idx` as an exception with the answered text as
    /// its message.
    RaiseStruct(u32),
    /// The answer is the bindings of a match (or no match).
    MatchReply,
    /// The answer says whether host value `subject` equals `literal` (with
    /// a literal) or which items it iterates to (without), for the match of
    /// `value` against pattern `k`, which is then tried again.
    MatchFact { k: u32, value: Value, subject: Value, literal: Option<Value> },
    /// The answer says which items host value `subject` iterates to (or,
    /// as a text, its type name when it does not iterate), for the
    /// assignment pattern `k` unpacking `value`, which is then tried again.
    AssignFact { k: u32, value: Value, subject: Value },
    /// The answer is the struct type name of host value `subject`, for the
    /// match of `value` against pattern `k`, which is then tried again.
    MatchType { k: u32, value: Value, subject: Value },
    /// The answer is the attribute of host value `subject` the VM last
    /// asked for (or that it has none), for the match of `value` against
    /// pattern `k`, which is then tried again.
    MatchAttr { k: u32, value: Value, subject: Value },
    /// The answer says whether host value `subject` equals the text the VM
    /// last asked about, for the match of `value` against pattern `k`, which
    /// is then tried again.
    MatchText { k: u32, value: Value, subject: Value },
    /// The answer says whether the host's globals bind the enum name the VM
    /// last asked about, for the match of `value` against pattern `k`, which
    /// is then tried again.
    MatchBound { k: u32, value: Value },
    /// The answer is an iterator's next item: pushed; when the iterator is
    /// exhausted it is popped and the loop jumps to `target`.
    ForIter(usize),
    /// The answer carries nothing the VM needs.
    Ignore,
    /// The answer is what the host says of `value` under composite check
    /// `k` of the running code: the value goes back on the stack when it
    /// passes.
    CheckComposite { value: Value, k: u32 },
    /// The answer is what the host says of `value` under the nominal type
    /// named by name `k` of the running code: the value goes back on the
    /// stack unless it fails the check.
    CheckNominal { value: Value, k: u32 },
}

/// How an instruction ends for its frame.
#[derive(Debug)]
pub enum Flow {
    /// Go on with the next instruction.
    Next,
    /// An exception or control signal is raised.
    Signal(VMError),
    /// The host must answer the request first.
    Host(HostRequest, Resume),
}

/// Mathematical view of a flow.
pub enum FlowView {
    Next,
    Signal(ErrorView),
    Host(HostView, Resume),
}

impl Flow {
    pub open spec fn view(&self) -> FlowView {
        match self {
            Flow::Next => FlowView::Next,
            Flow::Signal(e) => FlowView::Signal(e.view()),
            Flow::Host(r, k) => FlowView::Host(r.view(), *k),
        }
    }
}

// ---------------------------------------------------------------------
// Operand-stack and slot helpers
// ---------------------------------------------------------------------

/// The top of a stack; `Nil` for an empty one.
pub open spec fn top(st: Seq<Value>) -> Value {
    if st.len() > 0 { st.last() } else { Value::Nil }
}

/// A stack without its top; an empty stack stays empty.
pub open spec fn pop1(st: Seq<Value>) -> Seq<Value> {
    if st.len() > 0 { st.drop_last() } else { st }
}

/// Slot `i`; `Nil` out of range.
pub open spec fn slot_value(s: Seq<Value>, i: int) -> Value {
    if 0 <= i < s.len() { s[i] } else { Value::Nil }
}

/// Slot `i` set to `v`; out of range, nothing changes.
pub open spec fn set_slot(s: Seq<Value>, i: int, v: Value) -> Seq<Value> {
    if 0 <= i < s.len() { s.update(i, v) } else { s }
}

/// Python truthiness as far as the VM decides it: a tuple of the heap is
/// true when it is not empty.
pub open spec fn vm_truth(v: Value, heap: Seq<Seq<Value>>) -> Option<bool> {
    match v {
        Value::Tuple(t) => if (t as int) < heap.len() { Some(heap[t as int].len() > 0) } else { None },
        _ => v.spec_truthy(),
    }
}

/// The binary operator of an opcode.
pub open spec fn binop_of(op: OpCode) -> Option<BinaryOp> {
    match op {
        OpCode::Add => Some(BinaryOp::Add),
        OpCode::Sub => Some(BinaryOp::Sub),
        OpCode::Mul => Some(BinaryOp::Mul),
        OpCode::Div => Some(BinaryOp::TrueDiv),
        OpCode::AddInt | OpCode::AddFloat => Some(BinaryOp::Add),
        OpCode::SubInt | OpCode::SubFloat => Some(BinaryOp::Sub),
        OpCode::MulInt | OpCode::MulFloat => Some(BinaryOp::Mul),
        OpCode::DivFloat => Some(BinaryOp::TrueDiv),
        OpCode::FloorDiv => Some(BinaryOp::FloorDiv),
        OpCode::Mod => Some(BinaryOp::Mod),
        OpCode::Pow => Some(BinaryOp::Pow),
        OpCode::Lt => Some(BinaryOp::Lt),
        OpCode::Le => Some(BinaryOp::Le),
        OpCode::Gt => Some(BinaryOp::Gt),
        OpCode::Ge => Some(BinaryOp::Ge),
        OpCode::BOr => Some(BinaryOp::BOr),
        OpCode::BXor => Some(BinaryOp::BXor),
        OpCode::BAnd => Some(BinaryOp::BAnd),
        OpCode::LShift => Some(BinaryOp::LShift),
        OpCode::RShift => Some(BinaryOp::RShift),
        _ => None,
    }
}

/// A binary operator in the VM: operands outside the inline range are big
/// integers, which the host computes.
pub open spec fn vm_binary(op: BinaryOp, a: Value, b: Value) -> NativeView {
    if a.wf() && b.wf() { spec_binary(op, a, b) } else { NativeView::Host }
}

/// `-a` or `~a` in the VM.
pub open spec fn vm_unary(op: UnaryOp, a: Value) -> NativeView {
    match a {
        Value::Int(x) => if a.wf() {
            match op {
                UnaryOp::Neg => int_result(-(x as int)),
                UnaryOp::Invert => NativeView::Value(Value::Int(!x)),
            }
        } else {
            NativeView::Host
        },
        _ => NativeView::Host,
    }
}

/// The flow and stack for the outcome `n` of an operator whose operands
/// were popped, leaving `st`, when the host request is `req`.
pub open spec fn native_flow(s: FrameState, st: Seq<Value>, n: NativeView, req: HostView) -> (FrameState, FlowView) {
    match n {
        NativeView::Value(v) => (FrameState { stack: st.push(v), ..s }, FlowView::Next),
        NativeView::Raise(k, m) => (FrameState { stack: st, ..s }, FlowView::Signal(ErrorView::Builtin(k, m))),
        NativeView::Signal(e) => (FrameState { stack: st, ..s }, FlowView::Signal(e)),
        NativeView::Host => (FrameState { stack: st, ..s }, FlowView::Host(req, Resume::Push)),
    }
}

/// Message of the `TypeError` raised by unary `+` on a struct instance.
pub open spec fn bad_pos_text() -> Seq<char> {
    "bad operand type for unary +: struct"@
}

/// Effect of a stack, arithmetic, comparison, logic or jump instruction.
pub open spec fn basic_effect(s: FrameState, instr: Instruction, consts: Seq<Value>, heap: Seq<Seq<Value>>) -> (FrameState, FlowView) {
    let st = s.stack;
    let arg = instr.arg as int;
    match instr.op {
        OpCode::LoadConst => (FrameState { stack: st.push(slot_value(consts, arg)), ..s }, FlowView::Next),
        OpCode::LoadLocal => (FrameState { stack: st.push(slot_value(s.locals, arg)), ..s }, FlowView::Next),
        OpCode::StoreLocal => (
            FrameState { stack: pop1(st), locals: set_slot(s.locals, arg, top(st)), ..s },
            FlowView::Next,
        ),
        OpCode::PopTop => (FrameState { stack: pop1(st), ..s }, FlowView::Next),
        OpCode::DupTop => (FrameState { stack: st.push(top(st)), ..s }, FlowView::Next),
        OpCode::RotTwo => if st.len() >= 2 {
            let n = st.len() as int;
            (FrameState { stack: st.update(n - 1, st[n - 2]).update(n - 2, st[n - 1]), ..s }, FlowView::Next)
        } else {
            (s, FlowView::Next)
        },
        OpCode::Eq | OpCode::Ne => {
            let b = top(st);
            let a = top(pop1(st));
            let rest = pop1(pop1(st));
            let negate = instr.op == OpCode::Ne;
            match spec_eq_native(a, b) {
                Some(x) => (FrameState { stack: rest.push(Value::Bool(x != negate)), ..s }, FlowView::Next),
                None => (FrameState { stack: rest, ..s }, FlowView::Host(HostView::Equal(a, b, negate), Resume::Push)),
            }
        },
        OpCode::Is | OpCode::IsNot => {
            let b = top(st);
            let a = top(pop1(st));
            let rest = pop1(pop1(st));
            (FrameState { stack: rest.push(Value::Bool((a == b) == (instr.op == OpCode::Is))), ..s }, FlowView::Next)
        },
        OpCode::Not | OpCode::ToBool => {
            let a = top(st);
            let negate = instr.op == OpCode::Not;
            match vm_truth(a, heap) {
                Some(t) => (FrameState { stack: pop1(st).push(Value::Bool(t != negate)), ..s }, FlowView::Next),
                None => (FrameState { stack: pop1(st), ..s }, FlowView::Host(HostView::Truth(a), Resume::Truth(negate))),
            }
        },
        OpCode::Neg => native_flow(s, pop1(st), vm_unary(UnaryOp::Neg, top(st)), HostView::Unary(UnaryOp::Neg, top(st))),
        OpCode::BNot => native_flow(
            s,
            pop1(st),
            vm_unary(UnaryOp::Invert, top(st)),
            HostView::Unary(UnaryOp::Invert, top(st)),
        ),
        OpCode::Pos => if top(st) is Struct {
            (
                FrameState { stack: pop1(st), ..s },
                FlowView::Signal(ErrorView::Builtin(ExceptionKind::TypeError, bad_pos_text())),
            )
        } else {
            (s, FlowView::Next)
        },
        OpCode::Jump => (FrameState { ip: arg, ..s }, FlowView::Next),
        OpCode::JumpIfFalse | OpCode::JumpIfTrue => {
            let c = top(st);
            let when = instr.op == OpCode::JumpIfTrue;
            match vm_truth(c, heap) {
                Some(t) => (FrameState { stack: pop1(st), ip: if t == when { arg } else { s.ip }, ..s }, FlowView::Next),
                None => (
                    FrameState { stack: pop1(st), ..s },
                    FlowView::Host(HostView::Truth(c), Resume::Branch { target: instr.arg as usize, when, keep: false }),
                ),
            }
        },
        OpCode::JumpIfFalseOrPop | OpCode::JumpIfTrueOrPop => {
            let c = top(st);
            let when = instr.op == OpCode::JumpIfTrueOrPop;
            match vm_truth(c, heap) {
                Some(t) => if t == when {
                    (FrameState { ip: arg, ..s }, FlowView::Next)
                } else {
                    (FrameState { stack: pop1(st), ..s }, FlowView::Next)
                },
                None => (s, FlowView::Host(HostView::Truth(c), Resume::Branch { target: instr.arg as usize, when, keep: true })),
            }
        },
        OpCode::JumpIfNone => (
            FrameState { stack: pop1(st), ip: if top(st) == Value::Nil { arg } else { s.ip }, ..s },
            FlowView::Next,
        ),
        OpCode::JumpIfNotNoneOrPop => if top(st) != Value::Nil {
            (FrameState { ip: arg, ..s }, FlowView::Next)
        } else {
            (FrameState { stack: pop1(st), ..s }, FlowView::Next)
        },
        OpCode::MatchPattern => (s, FlowView::Signal(ErrorView::Builtin(ExceptionKind::RuntimeError, legacy_match_text()))),
        _ => match binop_of(instr.op) {
            Some(op) => {
                let b = top(st);
                let a = top(pop1(st));
                native_flow(s, pop1(pop1(st)), vm_binary(op, a, b), HostView::Binary(op, a, b))
            },
            None => (s, FlowView::Next),
        },
    }
}

/// Pops the top of a stack; `Nil` for an empty one.
pub(crate) fn pop_value(st: &mut Vec<Value>) -> (r: Value)
    ensures
        r == top(old(st)@),
        final(st)@ == pop1(old(st)@),
{
    match st.pop() {
        Some(v) => v,
        None => Value::Nil,
    }
}

/// The top of a stack; `Nil` for an empty one.
pub(crate) fn peek_value(st: &Vec<Value>) -> (r: Value)
    ensures
        r == top(st@),
{
    let n = st.len();
    if n > 0 { st[n - 1] } else { Value::Nil }
}

/// Slot `i` of `s`; `Nil` out of range.
pub(crate) fn read_slot(s: &Vec<Value>, i: usize) -> (r: Value)
    ensures
        r == slot_value(s@, i as int),
{
    if i < s.len() { s[i] } else { Value::Nil }
}

/// Sets slot `i` of `s`; out of range, nothing changes.
pub(crate) fn write_slot(s: &mut Vec<Value>, i: usize, v: Value)
    ensures
        final(s)@ == set_slot(old(s)@, i as int, v),
{
    if i < s.len() {
        s.set(i, v);
    }
}

/// Whether a small int lies in the inline range.
pub fn is_small(v: Value) -> (r: bool)
    ensures
        r == v.wf(),
{
    match v {
        Value::Int(n) => crate::value::SMALLINT_MIN <= n && n <= crate::value::SMALLINT_MAX,
        _ => true,
    }
}

/// Truthiness as far as the VM decides it.
pub fn truth_of(v: Value, heap: &TupleHeap) -> (r: Option<bool>)
    ensures
        r == vm_truth(v, heap@),
{
    match v {
        Value::Tuple(t) => if (t as usize) < heap.len() {
            Some(heap.items(t).len() > 0)
        } else {
            None
        },
        _ => v.truthy(),
    }
}

/// The binary operator of an opcode.
pub fn binop(op: OpCode) -> (r: Option<BinaryOp>)
    ensures
        r == binop_of(op),
{
    match op {
        OpCode::Add => Some(BinaryOp::Add),
        OpCode::Sub => Some(BinaryOp::Sub),
        OpCode::Mul => Some(BinaryOp::Mul),
        OpCode::Div => Some(BinaryOp::TrueDiv),
        OpCode::AddInt | OpCode::AddFloat => Some(BinaryOp::Add),
        OpCode::SubInt | OpCode::SubFloat => Some(BinaryOp::Sub),
        OpCode::MulInt | OpCode::MulFloat => Some(BinaryOp::Mul),
        OpCode::DivFloat => Some(BinaryOp::TrueDiv),
        OpCode::FloorDiv => Some(BinaryOp::FloorDiv),
        OpCode::Mod => Some(BinaryOp::Mod),
        OpCode::Pow => Some(BinaryOp::Pow),
        OpCode::Lt => Some(BinaryOp::Lt),
        OpCode::Le => Some(BinaryOp::Le),
        OpCode::Gt => Some(BinaryOp::Gt),
        OpCode::Ge => Some(BinaryOp::Ge),
        OpCode::BOr => Some(BinaryOp::BOr),
        OpCode::BXor => Some(BinaryOp::BXor),
        OpCode::BAnd => Some(BinaryOp::BAnd),
        OpCode::LShift => Some(BinaryOp::LShift),
        OpCode::RShift => Some(BinaryOp::RShift),
        _ => None,
    }
}

/// Applies a binary operator natively, as far as the VM can.
pub fn apply_binary(op: BinaryOp, a: Value, b: Value) -> (r: Native)
    ensures
        r.view() == vm_binary(op, a, b),
{
    if !is_small(a) || !is_small(b) {
        return Native::Host;
    }
    match op {
        BinaryOp::Add => binary_add(a, b),
        BinaryOp::Sub => binary_sub(a, b),
        BinaryOp::Mul => binary_mul(a, b),
        BinaryOp::TrueDiv => binary_div(a, b),
        BinaryOp::FloorDiv => binary_floordiv(a, b),
        BinaryOp::Mod => binary_mod(a, b),
        BinaryOp::Pow => binary_pow(a, b),
        BinaryOp::Lt | BinaryOp::Le | BinaryOp::Gt | BinaryOp::Ge => compare(op, a, b),
        BinaryOp::BOr => bitwise_or(a, b),
        BinaryOp::BXor => bitwise_xor(a, b),
        BinaryOp::BAnd => bitwise_and(a, b),
        BinaryOp::LShift => bitwise_lshift(a, b),
        BinaryOp::RShift => bitwise_rshift(a, b),
    }
}

/// Applies a unary operator natively, as far as the VM can.
pub fn apply_unary(op: UnaryOp, a: Value) -> (r: Native)
    ensures
        r.view() == vm_unary(op, a),
{
    match a {
        Value::Int(_) => if is_small(a) {
            match op {
                UnaryOp::Neg => unary_neg(a),
                UnaryOp::Invert => bitwise_not(a),
            }
        } else {
            Native::Host
        },
        _ => Native::Host,
    }
}

/// Pushes the native outcome `n`, or raises it, or asks the host `req`.
fn finish_native(frame: &mut Frame, n: Native, req: HostRequest) -> (r: Flow)
    ensures
        (final(frame).state(), r.view()) == native_flow(old(frame).state(), old(frame).stack@, n.view(), req.view()),
{
    match n {
        Native::Value(v) => {
            frame.stack.push(v);
            Flow::Next
        },
        Native::Error(e) => {
            proof {
                crate::error::lemma_error_view(e);
            }
            Flow::Signal(e)
        },
        Native::Host => Flow::Host(req, Resume::Push),
    }
}

/// Carries out a stack, arithmetic, comparison, logic or jump instruction.
pub fn exec_basic(frame: &mut Frame, instr: Instruction, consts: &Vec<Value>, heap: &TupleHeap) -> (r: Flow)
    ensures
        (final(frame).state(), r.view()) == basic_effect(old(frame).state(), instr, consts@, heap@),
{
    let arg = instr.arg as usize;
    match instr.op {
        OpCode::LoadConst => {
            let v = read_slot(consts, arg);
            frame.stack.push(v);
            Flow::Next
        },
        OpCode::LoadLocal => {
            let v = read_slot(&frame.locals, arg);
            frame.stack.push(v);
            Flow::Next
        },
        OpCode::StoreLocal => {
            let v = pop_value(&mut frame.stack);
            write_slot(&mut frame.locals, arg, v);
            Flow::Next
        },
        OpCode::PopTop => {
            pop_value(&mut frame.stack);
            Flow::Next
        },
        OpCode::DupTop => {
            let v = peek_value(&frame.stack);
            frame.stack.push(v);
            Flow::Next
        },
        OpCode::RotTwo => {
            let n = frame.stack.len();
            if n >= 2 {
                let x = frame.stack[n - 1];
                let y = frame.stack[n - 2];
                frame.stack.set(n - 1, y);
                frame.stack.set(n - 2, x);
            }
            Flow::Next
        },
        OpCode::Eq | OpCode::Ne => {
            let b = pop_value(&mut frame.stack);
            let a = pop_value(&mut frame.stack);
            let negate = match instr.op {
                OpCode::Ne => true,
                _ => false,
            };
            match eq_without_python(a, b) {
                Some(x) => {
                    frame.stack.push(Value::Bool(x != negate));
                    Flow::Next
                },
                None => Flow::Host(HostRequest::Equal(a, b, negate), Resume::Push),
            }
        },
        OpCode::Is | OpCode::IsNot => {
            let b = pop_value(&mut frame.stack);
            let a = pop_value(&mut frame.stack);
            let is = match instr.op {
                OpCode::Is => true,
                _ => false,
            };
            frame.stack.push(Value::Bool((a == b) == is));
            Flow::Next
        },
        OpCode::Not | OpCode::ToBool => {
            let a = pop_value(&mut frame.stack);
            let negate = match instr.op {
                OpCode::Not => true,
                _ => false,
            };
            match truth_of(a, heap) {
                Some(t) => {
                    frame.stack.push(Value::Bool(t != negate));
                    Flow::Next
                },
                None => Flow::Host(HostRequest::Truth(a), Resume::Truth(negate)),
            }
        },
        OpCode::Neg | OpCode::BNot => {
            let op = match instr.op {
                OpCode::Neg => UnaryOp::Neg,
                _ => UnaryOp::Invert,
            };
            let a = pop_value(&mut frame.stack);
            let n = apply_unary(op, a);
            finish_native(frame, n, HostRequest::Unary(op, a))
        },
        OpCode::Pos => {
            let a = peek_value(&frame.stack);
            match a {
                Value::Struct(_) => {
                    pop_value(&mut frame.stack);
                    Flow::Signal(VMError::TypeError(String::from_str("bad operand type for unary +: struct")))
                },
                _ => Flow::Next,
            }
        },
        OpCode::Jump => {
            frame.ip = arg;
            Flow::Next
        },
        OpCode::JumpIfFalse | OpCode::JumpIfTrue => {
            let when = match instr.op {
                OpCode::JumpIfTrue => true,
                _ => false,
            };
            let c = pop_value(&mut frame.stack);
            match truth_of(c, heap) {
                Some(t) => {
                    if t == when {
                        frame.ip = arg;
                    }
                    Flow::Next
                },
                None => Flow::Host(HostRequest::Truth(c), Resume::Branch { target: arg, when, keep: false }),
            }
        },
        OpCode::JumpIfFalseOrPop | OpCode::JumpIfTrueOrPop => {
            let when = match instr.op {
                OpCode::JumpIfTrueOrPop => true,
                _ => false,
            };
            let c = peek_value(&frame.stack);
            match truth_of(c, heap) {
                Some(t) => {
                    if t == when {
                        frame.ip = arg;
                    } else {
                        pop_value(&mut frame.stack);
                    }
                    Flow::Next
                },
                None => Flow::Host(HostRequest::Truth(c), Resume::Branch { target: arg, when, keep: true }),
            }
        },
        OpCode::JumpIfNone => {
            let v = pop_value(&mut frame.stack);
            if v.is_nil() {
                frame.ip = arg;
            }
            Flow::Next
        },
        OpCode::JumpIfNotNoneOrPop => {
            let v = peek_value(&frame.stack);
            if !v.is_nil() {
                frame.ip = arg;
            } else {
                pop_value(&mut frame.stack);
            }
            Flow::Next
        },
        OpCode::MatchPattern => Flow::Signal(VMError::RuntimeError(
            String::from_str("MatchPattern is no longer supported: recompile the code"),
        )),
        _ => match binop(instr.op) {
            Some(op) => {
                let b = pop_value(&mut frame.stack);
                let a = pop_value(&mut frame.stack);
                let n = apply_binary(op, a, b);
                finish_native(frame, n, HostRequest::Binary(op, a, b))
            },
            None => Flow::Next,
        },
    }
}
// ---------------------------------------------------------------------
// Tuples, blocks, handlers, exceptions and range loops
// ---------------------------------------------------------------------

/// Message of the error raised when `got` items are unpacked into `want`
/// variables.
pub open spec fn unpack_text(got: int, want: int) -> Seq<char> {
    "Cannot unpack "@ + decimal(got) + " values into "@ + decimal(want) + " variables"@
}

/// Message of the error raised when `got` items are too few for an
/// extended unpacking that needs `want` fixed items.
pub open spec fn unpack_ex_text(want: int, got: int) -> Seq<char> {
    "Not enough values to unpack (expected at least "@ + decimal(want) + ", got "@ + decimal(got) + ")"@
}

/// Number of fixed items before the star of an extended unpacking.
pub open spec fn ex_before(arg: u32) -> int {
    ((arg >> 8u32) & 0xFFu32) as int
}

/// Number of fixed items after the star of an extended unpacking.
pub open spec fn ex_after(arg: u32) -> int {
    (arg & 0xFFu32) as int
}

/// What an extended unpacking pushes before the host builds the starred
/// list: the items after the star, then those before it, each last first.
pub open spec fn ex_fixed(items: Seq<Value>, before: int, after: int) -> Seq<Value> {
    reversed(items.subrange(items.len() - after, items.len() as int)) + reversed(items.subrange(0, before))
}

/// The items an extended unpacking gathers under the star.
pub open spec fn ex_middle(items: Seq<Value>, before: int, after: int) -> Seq<Value> {
    items.subrange(before, items.len() - after)
}

/// `st` with `v` put below its top `n` values (on top when it holds fewer).
pub open spec fn insert_below(st: Seq<Value>, n: int, v: Value) -> Seq<Value> {
    if n <= st.len() { st.insert(st.len() - n, v) } else { st.push(v) }
}

/// Message of the error raised by the retired pattern instruction.
pub open spec fn legacy_match_text() -> Seq<char> {
    "MatchPattern is no longer supported: recompile the code"@
}

/// Message of the error raised when a value that is not iterable is
/// unpacked.
pub open spec fn non_iterable_text(v: Value) -> Seq<char> {
    "Cannot unpack non-iterable "@ + native_type_name(v)
}

/// Message of the error raised by a bare `raise` without an active
/// exception.
pub open spec fn no_active_text() -> Seq<char> {
    "No active exception to reraise"@
}

/// `s` in reverse order.
pub open spec fn reversed(s: Seq<Value>) -> Seq<Value> {
    Seq::new(s.len(), |i: int| s[s.len() - 1 - i])
}

/// The heap can store `items` as one more tuple.
pub open spec fn storable(items: Seq<Value>, heap: Seq<Seq<Value>>) -> bool {
    &&& values_below(items, heap.len())
    &&& forall|j: int| 0 <= j < items.len() ==> (#[trigger] items[j]).wf()
    &&& heap.len() < u32::MAX
}

/// Locals after binding each (slot, value) pair in order.
pub open spec fn apply_bindings(locals: Seq<Value>, bs: Seq<(usize, Value)>) -> Seq<Value>
    decreases bs.len(),
{
    if bs.len() == 0 {
        locals
    } else {
        set_slot(apply_bindings(locals, bs.drop_last()), bs.last().0 as int, bs.last().1)
    }
}

/// `ip + n`, saturated at the largest address.
pub open spec fn forward(ip: int, n: int) -> int {
    if ip + n <= usize::MAX { ip + n } else { usize::MAX as int }
}

/// Loop variable slot of a range-loop instruction.
pub open spec fn range_slot(arg: u32) -> int {
    (arg >> 24u32) as int
}

/// Whether a range loop is done: `i` reached `stop` (or a bound is not a
/// small int).
pub open spec fn range_done(i: Value, stop: Value, positive: bool) -> bool {
    match (i, stop) {
        (Value::Int(a), Value::Int(b)) => if positive { a >= b } else { a <= b },
        _ => true,
    }
}

/// The signed step encoded in bits 16..24 of a range-step argument.
pub open spec fn range_step(arg: u32) -> int {
    let b = ((arg >> 16u32) & 0xFFu32) as int;
    if b >= 128 { b - 256 } else { b }
}

/// The value of the loop variable as an integer (`0` when it is not one).
pub open spec fn int_or_zero(v: Value) -> int {
    match v {
        Value::Int(n) => n as int,
        _ => 0,
    }
}

/// Effect of a tuple, block, handler, exception, exit or range-loop
/// instruction, with the tuple heap.
pub open spec fn control_effect(
    s: FrameState,
    instr: Instruction,
    consts: Seq<Value>,
    heap: Seq<Seq<Value>>,
) -> (FrameState, Seq<Seq<Value>>, FlowView) {
    let st = s.stack;
    let arg = instr.arg as int;
    match instr.op {
        OpCode::BuildTuple => if arg > st.len() {
            (s, heap, FlowView::Signal(ErrorView::StackUnderflow))
        } else {
            let start = st.len() - arg;
            let items = st.subrange(start, st.len() as int);
            let rest = st.subrange(0, start);
            if storable(items, heap) {
                (
                    FrameState { stack: rest.push(Value::Tuple(heap.len() as u32)), ..s },
                    heap.push(items),
                    FlowView::Next,
                )
            } else {
                (FrameState { stack: rest, ..s }, heap, FlowView::Host(HostView::Tuple(items), Resume::Push))
            }
        },
        OpCode::UnpackSequence => {
            let v = top(st);
            let rest = pop1(st);
            match v {
                Value::Tuple(t) if (t as int) < heap.len() => {
                    let items = heap[t as int];
                    if items.len() != arg {
                        (
                            FrameState { stack: rest, ..s },
                            heap,
                            FlowView::Signal(ErrorView::Builtin(ExceptionKind::RuntimeError, unpack_text(items.len() as int, arg))),
                        )
                    } else {
                        (FrameState { stack: rest + reversed(items), ..s }, heap, FlowView::Next)
                    }
                },
                Value::Nil | Value::Bool(_) | Value::Int(_) => (
                    FrameState { stack: rest, ..s },
                    heap,
                    FlowView::Signal(ErrorView::Builtin(ExceptionKind::TypeError, non_iterable_text(v))),
                ),
                _ => (FrameState { stack: rest, ..s }, heap, FlowView::Host(HostView::Items(v), Resume::Unpack(instr.arg as usize))),
            }
        },
        OpCode::UnpackEx => {
            let v = top(st);
            let rest = pop1(st);
            let before = ex_before(instr.arg);
            let after = ex_after(instr.arg);
            match v {
                Value::Tuple(t) if (t as int) < heap.len() => {
                    let items = heap[t as int];
                    if items.len() < before + after {
                        (
                            FrameState { stack: rest, ..s },
                            heap,
                            FlowView::Signal(ErrorView::Builtin(ExceptionKind::RuntimeError, unpack_ex_text(before + after, items.len() as int))),
                        )
                    } else {
                        (
                            FrameState { stack: rest + ex_fixed(items, before, after), ..s },
                            heap,
                            FlowView::Host(HostView::Build(false, ex_middle(items, before, after)), Resume::InsertBelow(before as usize)),
                        )
                    }
                },
                Value::Nil | Value::Bool(_) | Value::Int(_) => (
                    FrameState { stack: rest, ..s },
                    heap,
                    FlowView::Signal(ErrorView::Builtin(ExceptionKind::TypeError, non_iterable_text(v))),
                ),
                _ => (FrameState { stack: rest, ..s }, heap, FlowView::Host(HostView::Items(v), Resume::UnpackEx(instr.arg))),
            }
        },
        OpCode::PushBlock => {
            let start = (instr.arg & 0x7FFF_FFFFu32) as int;
            let at = if start <= s.locals.len() { start } else { s.locals.len() as int };
            (
                FrameState { blocks: s.blocks.push((at as usize, s.locals.subrange(at, s.locals.len() as int))), ..s },
                heap,
                FlowView::Next,
            )
        },
        OpCode::PopBlock => if s.blocks.len() > 0 {
            (
                FrameState {
                    blocks: s.blocks.drop_last(),
                    locals: restored_locals(s.locals, s.blocks.last().0 as int, s.blocks.last().1),
                    ..s
                },
                heap,
                FlowView::Next,
            )
        } else {
            (s, heap, FlowView::Next)
        },
        OpCode::SetupExcept | OpCode::SetupFinally => {
            let h = Handler {
                handler_type: if instr.op == OpCode::SetupExcept { HandlerType::Except } else { HandlerType::Finally },
                target_addr: instr.arg as usize,
                stack_depth: st.len() as usize,
                block_depth: s.blocks.len() as usize,
            };
            (FrameState { handlers: s.handlers.push(h), ..s }, heap, FlowView::Next)
        },
        OpCode::PopHandler => (
            FrameState { handlers: if s.handlers.len() > 0 { s.handlers.drop_last() } else { s.handlers }, ..s },
            heap,
            FlowView::Next,
        ),
        OpCode::ClearException => (
            FrameState { active: if s.active.len() > 0 { s.active.drop_last() } else { s.active }, ..s },
            heap,
            FlowView::Next,
        ),
        OpCode::BindMatch => match s.bindings {
            Some(bs) => (FrameState { stack: pop1(st), locals: apply_bindings(s.locals, bs), ..s }, heap, FlowView::Next),
            None => (s, heap, FlowView::Next),
        },
        OpCode::CheckExcMatch => (s, heap, FlowView::Host(HostView::Text(slot_value(consts, arg)), Resume::ExcMatch)),
        OpCode::MatchFail => (s, heap, FlowView::Host(HostView::Text(slot_value(consts, arg)), Resume::RaiseText)),
        OpCode::Raise => if s.active.len() > 0 {
            (s, heap, FlowView::Signal(ErrorView::User(s.active.last())))
        } else {
            (s, heap, FlowView::Signal(ErrorView::Builtin(ExceptionKind::RuntimeError, no_active_text())))
        },
        OpCode::ResumeUnwind => match s.pending {
            Some(p) => {
                let s2 = FrameState { pending: None, ..s };
                match p {
                    PendingView::Exception(info) => (s2, heap, FlowView::Signal(ErrorView::User(info))),
                    PendingView::Return => (
                        FrameState { stack: pop1(st), ..s2 },
                        heap,
                        FlowView::Signal(ErrorView::Return(top(st))),
                    ),
                    PendingView::Break => (s2, heap, FlowView::Signal(ErrorView::Break)),
                    PendingView::Continue => (s2, heap, FlowView::Signal(ErrorView::Continue)),
                }
            },
            None => if s.active.len() > 0 {
                (s, heap, FlowView::Signal(ErrorView::User(s.active.last())))
            } else {
                (s, heap, FlowView::Next)
            },
        },
        OpCode::Exit => if instr.arg == 1 {
            let code: i32 = match top(st) {
                Value::Int(n) => n as i32,
                _ => 1,
            };
            (FrameState { stack: pop1(st), ..s }, heap, FlowView::Signal(ErrorView::Exit(code)))
        } else {
            (s, heap, FlowView::Signal(ErrorView::Exit(0)))
        },
        OpCode::Break => (s, heap, FlowView::Signal(ErrorView::Break)),
        OpCode::Continue => (s, heap, FlowView::Signal(ErrorView::Continue)),
        OpCode::ForRangeInt => {
            let i = slot_value(s.locals, range_slot(instr.arg));
            let stop = slot_value(s.locals, ((instr.arg >> 16u32) & 0xFFu32) as int);
            let positive = ((instr.arg >> 15u32) & 1u32) == 0;
            let jump = (instr.arg & 0x7FFFu32) as int;
            if range_done(i, stop, positive) {
                (FrameState { ip: forward(s.ip, jump), ..s }, heap, FlowView::Next)
            } else {
                (s, heap, FlowView::Next)
            }
        },
        OpCode::ForRangeStep => {
            let slot = range_slot(instr.arg);
            let cur = int_or_zero(slot_value(s.locals, slot));
            let next = cur + range_step(instr.arg);
            let target = (instr.arg & 0xFFFFu32) as int;
            if fits_small(next) {
                (
                    FrameState { locals: set_slot(s.locals, slot, Value::Int(next as i64)), ip: target, ..s },
                    heap,
                    FlowView::Next,
                )
            } else {
                (
                    s,
                    heap,
                    FlowView::Host(
                        HostView::Binary(BinaryOp::Add, Value::Int(cur as i64), Value::Int(range_step(instr.arg) as i64)),
                        Resume::StoreJump { slot: slot as usize, target: target as usize },
                    ),
                )
            }
        },
        _ => (s, heap, FlowView::Next),
    }
}

/// Formats the message of `unpack_text`.
pub(crate) fn unpack_message(got: usize, want: usize) -> (r: String)
    ensures
        r@ == unpack_text(got as int, want as int),
{
    let g = u64_to_decimal(got as u64);
    let w = u64_to_decimal(want as u64);
    let a = concat3("Cannot unpack ", g.as_str(), " values into ");
    let r = concat3(a.as_str(), w.as_str(), " variables");
    assert(decimal(got as int) == nat_digits(got as nat));
    assert(decimal(want as int) == nat_digits(want as nat));
    r
}

/// Pushes `items[lo..hi]`, last first.
fn push_range_reversed(st: &mut Vec<Value>, items: &Vec<Value>, lo: usize, hi: usize)
    requires
        lo <= hi <= items@.len(),
    ensures
        final(st)@ == old(st)@ + reversed(items@.subrange(lo as int, hi as int)),
{
    let ghost part = items@.subrange(lo as int, hi as int);
    let mut i: usize = hi;
    while i > lo
        invariant
            lo <= i <= hi <= items@.len(),
            part == items@.subrange(lo as int, hi as int),
            st@ == old(st)@ + reversed(part).subrange(0, hi - i),
        decreases i,
    {
        i = i - 1;
        st.push(items[i]);
        assert(reversed(part).subrange(0, hi - i) =~= reversed(part).subrange(0, hi - i - 1).push(items@[i as int]));
    }
    assert(reversed(part).subrange(0, hi - lo) =~= reversed(part));
}

/// A copy of `items[lo..hi]`.
fn copy_range(items: &Vec<Value>, lo: usize, hi: usize) -> (r: Vec<Value>)
    requires
        lo <= hi <= items@.len(),
    ensures
        r@ == items@.subrange(lo as int, hi as int),
{
    let mut out: Vec<Value> = Vec::new();
    let mut i: usize = lo;
    while i < hi
        invariant
            lo <= i <= hi <= items@.len(),
            out@ == items@.subrange(lo as int, i as int),
        decreases hi - i,
    {
        out.push(items[i]);
        assert(items@.subrange(lo as int, i + 1) =~= items@.subrange(lo as int, i as int).push(items@[i as int]));
        i = i + 1;
    }
    out
}

/// Formats the message of `unpack_ex_text`.
pub(crate) fn unpack_ex_message(want: usize, got: usize) -> (r: String)
    ensures
        r@ == unpack_ex_text(want as int, got as int),
{
    let w = u64_to_decimal(want as u64);
    let g = u64_to_decimal(got as u64);
    let a = concat3("Not enough values to unpack (expected at least ", w.as_str(), ", got ");
    let r = concat3(a.as_str(), g.as_str(), ")");
    assert(decimal(got as int) == nat_digits(got as nat));
    assert(decimal(want as int) == nat_digits(want as nat));
    r
}

/// The fixed counts of an extended unpacking.
pub(crate) fn ex_counts(arg: u32) -> (r: (usize, usize))
    ensures
        r.0 as int == ex_before(arg),
        r.1 as int == ex_after(arg),
        r.0 <= 255,
        r.1 <= 255,
{
    let b = (arg >> 8u32) & 0xFFu32;
    let a = arg & 0xFFu32;
    assert(b <= 255) by (bit_vector)
        requires
            b == (arg >> 8u32) & 0xFFu32,
    ;
    assert(a <= 255) by (bit_vector)
        requires
            a == arg & 0xFFu32,
    ;
    (b as usize, a as usize)
}

/// Pushes the fixed items of an extended unpacking and returns the starred
/// ones.
pub(crate) fn split_ex(st: &mut Vec<Value>, items: &Vec<Value>, before: usize, after: usize) -> (middle: Vec<Value>)
    requires
        before + after <= items@.len(),
    ensures
        final(st)@ == old(st)@ + ex_fixed(items@, before as int, after as int),
        middle@ == ex_middle(items@, before as int, after as int),
{
    let n = items.len();
    push_range_reversed(st, items, n - after, n);
    push_range_reversed(st, items, 0, before);
    copy_range(items, before, n - after)
}

/// Puts `v` below the top `n` values of a stack.
pub(crate) fn insert_value_below(st: &mut Vec<Value>, n: usize, v: Value)
    ensures
        final(st)@ == insert_below(old(st)@, n as int, v),
{
    let len = st.len();
    if n <= len {
        st.insert(len - n, v);
    } else {
        st.push(v);
    }
}

/// Pushes the items of a tuple, last first.
pub(crate) fn push_reversed(st: &mut Vec<Value>, items: &Vec<Value>)
    ensures
        final(st)@ == old(st)@ + reversed(items@),
{
    let mut i: usize = items.len();
    while i > 0
        invariant
            i <= items@.len(),
            st@ == old(st)@ + reversed(items@).subrange(0, items@.len() - i),
        decreases i,
    {
        i = i - 1;
        st.push(items[i]);
        assert(reversed(items@).subrange(0, items@.len() - i) =~= reversed(items@).subrange(
            0,
            items@.len() - i - 1,
        ).push(items@[i as int]));
    }
    assert(reversed(items@).subrange(0, items@.len() as int) =~= reversed(items@));
}

/// Binds each (slot, value) pair in order.
fn bind_all(locals: &mut Vec<Value>, bs: &Vec<(usize, Value)>)
    ensures
        final(locals)@ == apply_bindings(old(locals)@, bs@),
{
    let mut i: usize = 0;
    while i < bs.len()
        invariant
            i <= bs@.len(),
            locals@ == apply_bindings(old(locals)@, bs@.subrange(0, i as int)),
        decreases bs@.len() - i,
    {
        let (slot, v) = bs[i];
        write_slot(locals, slot, v);
        assert(bs@.subrange(0, i + 1).drop_last() =~= bs@.subrange(0, i as int));
        i = i + 1;
    }
    assert(bs@.subrange(0, bs@.len() as int) =~= bs@);
}

/// Carries out a tuple, block, handler, exception, exit or range-loop
/// instruction.
pub fn exec_control(frame: &mut Frame, instr: Instruction, consts: &Vec<Value>, heap: &mut TupleHeap) -> (r: Flow)
    requires
        old(heap).wf(),
    ensures
        final(heap).wf(),
        final(frame).state() == control_effect(old(frame).state(), instr, consts@, old(heap)@).0,
        final(heap)@ == control_effect(old(frame).state(), instr, consts@, old(heap)@).1,
        r.view() == control_effect(old(frame).state(), instr, consts@, old(heap)@).2,
{
    let arg = instr.arg as usize;
    match instr.op {
        OpCode::BuildTuple => {
            let n = frame.stack.len();
            if arg > n {
                return Flow::Signal(VMError::StackUnderflow);
            }
            let items = frame.stack.split_off(n - arg);
            if heap.len() < u32::MAX as usize && items_ok(&items, heap.len()) {
                let t = heap.store(items);
                frame.stack.push(t);
                Flow::Next
            } else {
                Flow::Host(HostRequest::Tuple(items), Resume::Push)
            }
        },
        OpCode::UnpackSequence => {
            let v = pop_value(&mut frame.stack);
            match v {
                Value::Tuple(t) => {
                    if (t as usize) < heap.len() {
                        let items = heap.items(t);
                        if items.len() != arg {
                            Flow::Signal(VMError::RuntimeError(unpack_message(items.len(), arg)))
                        } else {
                            push_reversed(&mut frame.stack, items);
                            Flow::Next
                        }
                    } else {
                        Flow::Host(HostRequest::Items(v), Resume::Unpack(arg))
                    }
                },
                Value::Nil | Value::Bool(_) | Value::Int(_) => {
                    let name = native_type_name_string(v);
                    Flow::Signal(VMError::TypeError(concat2("Cannot unpack non-iterable ", name.as_str())))
                },
                _ => Flow::Host(HostRequest::Items(v), Resume::Unpack(arg)),
            }
        },
        OpCode::UnpackEx => {
            let (before, after) = ex_counts(instr.arg);
            let v = pop_value(&mut frame.stack);
            match v {
                Value::Tuple(t) => {
                    if (t as usize) < heap.len() {
                        let items = heap.items(t);
                        if items.len() < before + after {
                            Flow::Signal(VMError::RuntimeError(unpack_ex_message(before + after, items.len())))
                        } else {
                            let middle = split_ex(&mut frame.stack, items, before, after);
                            Flow::Host(HostRequest::Build(false, middle), Resume::InsertBelow(before))
                        }
                    } else {
                        Flow::Host(HostRequest::Items(v), Resume::UnpackEx(instr.arg))
                    }
                },
                Value::Nil | Value::Bool(_) | Value::Int(_) => {
                    let name = native_type_name_string(v);
                    Flow::Signal(VMError::TypeError(concat2("Cannot unpack non-iterable ", name.as_str())))
                },
                _ => Flow::Host(HostRequest::Items(v), Resume::UnpackEx(instr.arg)),
            }
        },
        OpCode::PushBlock => {
            let start = (instr.arg & 0x7FFF_FFFFu32) as usize;
            let at = if start <= frame.locals.len() { start } else { frame.locals.len() };
            frame.push_block(at);
            proof {
                assert(frame.state().blocks =~= old(frame).state().blocks.push(
                    (at, old(frame).locals@.subrange(at as int, old(frame).locals@.len() as int)),
                ));
            }
            Flow::Next
        },
        OpCode::PopBlock => {
            frame.pop_block();
            proof {
                if old(frame).block_stack@.len() > 0 {
                    assert(frame.state().blocks =~= old(frame).state().blocks.drop_last());
                }
            }
            Flow::Next
        },
        OpCode::SetupExcept | OpCode::SetupFinally => {
            let kind = match instr.op {
                OpCode::SetupExcept => HandlerType::Except,
                _ => HandlerType::Finally,
            };
            let h = Handler {
                handler_type: kind,
                target_addr: arg,
                stack_depth: frame.stack.len(),
                block_depth: frame.block_stack.len(),
            };
            frame.handler_stack.push(h);
            Flow::Next
        },
        OpCode::PopHandler => {
            frame.handler_stack.pop();
            Flow::Next
        },
        OpCode::ClearException => {
            frame.active_exception_stack.pop();
            proof {
                assert(frame.state().active =~= (if old(frame).state().active.len() > 0 {
                    old(frame).state().active.drop_last()
                } else {
                    old(frame).state().active
                }));
            }
            Flow::Next
        },
        OpCode::BindMatch => {
            match &frame.match_bindings {
                Some(bs) => {
                    bind_all(&mut frame.locals, bs);
                    pop_value(&mut frame.stack);
                },
                None => {},
            }
            Flow::Next
        },
        OpCode::CheckExcMatch => {
            let c = read_slot(consts, arg);
            Flow::Host(HostRequest::Text(c), Resume::ExcMatch)
        },
        OpCode::MatchFail => {
            let c = read_slot(consts, arg);
            Flow::Host(HostRequest::Text(c), Resume::RaiseText)
        },
        OpCode::Raise => {
            let n = frame.active_exception_stack.len();
            if n > 0 {
                Flow::Signal(VMError::UserException(frame.active_exception_stack[n - 1].copy()))
            } else {
                Flow::Signal(VMError::RuntimeError(String::from_str("No active exception to reraise")))
            }
        },
        OpCode::ResumeUnwind => {
            match frame.pending_unwind.take() {
                Some(p) => match p {
                    PendingUnwind::Exception(info) => Flow::Signal(VMError::UserException(info)),
                    PendingUnwind::Return => {
                        let v = pop_value(&mut frame.stack);
                        Flow::Signal(VMError::Return(v))
                    },
                    PendingUnwind::Break => Flow::Signal(VMError::Break),
                    PendingUnwind::Continue => Flow::Signal(VMError::Continue),
                },
                None => {
                    let n = frame.active_exception_stack.len();
                    if n > 0 {
                        Flow::Signal(VMError::UserException(frame.active_exception_stack[n - 1].copy()))
                    } else {
                        Flow::Next
                    }
                },
            }
        },
        OpCode::Exit => {
            if instr.arg == 1 {
                let v = pop_value(&mut frame.stack);
                let code: i32 = match v {
                    Value::Int(n) => n as i32,
                    _ => 1,
                };
                Flow::Signal(VMError::Exit(code))
            } else {
                Flow::Signal(VMError::Exit(0))
            }
        },
        OpCode::Break => Flow::Signal(VMError::Break),
        OpCode::Continue => Flow::Signal(VMError::Continue),
        OpCode::ForRangeInt => {
            let slot_i = (instr.arg >> 24u32) as usize;
            let slot_stop = ((instr.arg >> 16u32) & 0xFFu32) as usize;
            let positive = ((instr.arg >> 15u32) & 1u32) == 0;
            let jump = (instr.arg & 0x7FFFu32) as usize;
            let i = read_slot(&frame.locals, slot_i);
            let stop = read_slot(&frame.locals, slot_stop);
            let done = match (i, stop) {
                (Value::Int(a), Value::Int(b)) => if positive { a >= b } else { a <= b },
                _ => true,
            };
            if done {
                frame.ip = if frame.ip <= usize::MAX - jump { frame.ip + jump } else { usize::MAX };
            }
            Flow::Next
        },
        OpCode::ForRangeStep => {
            let slot = (instr.arg >> 24u32) as usize;
            let b = (instr.arg >> 16u32) & 0xFFu32;
            let step: i64 = if b >= 128 { b as i64 - 256 } else { b as i64 };
            let target = (instr.arg & 0xFFFFu32) as usize;
            let cur: i64 = match read_slot(&frame.locals, slot) {
                Value::Int(n) => n,
                _ => 0,
            };
            let next: i128 = cur as i128 + step as i128;
            if crate::value::SMALLINT_MIN as i128 <= next && next <= crate::value::SMALLINT_MAX as i128 {
                write_slot(&mut frame.locals, slot, Value::Int(next as i64));
                frame.ip = target;
                Flow::Next
            } else {
                Flow::Host(
                    HostRequest::Binary(BinaryOp::Add, Value::Int(cur), Value::Int(step)),
                    Resume::StoreJump { slot, target },
                )
            }
        },
        _ => Flow::Next,
    }
}

// ---------------------------------------------------------------------
// Instructions the host computes
// ---------------------------------------------------------------------

/// The (key, value) pairs popped by a dict literal of `n` entries, in the
/// order they are inserted (the last pair on the stack first), and the
/// stack left.
pub open spec fn dict_pop(st: Seq<Value>, n: nat) -> (Seq<(Value, Value)>, Seq<Value>)
    decreases n,
{
    if n == 0 {
        (Seq::empty(), st)
    } else {
        let v = top(st);
        let k = top(pop1(st));
        let rest = dict_pop(pop1(pop1(st)), (n - 1) as nat);
        (seq![(k, v)] + rest.0, rest.1)
    }
}

/// Message of the error raised by a slice literal with a wrong bound count.
pub open spec fn slice_count_text(n: int) -> Seq<char> {
    "BUILD_SLICE expects 2 or 3 args, got "@ + decimal(n)
}

/// Effect of an instruction whose result the host computes: the operands
/// are popped and the host is asked.
pub open spec fn host_effect(s: FrameState, instr: Instruction) -> (FrameState, FlowView) {
    let st = s.stack;
    let arg = instr.arg as int;
    match instr.op {
        OpCode::In | OpCode::NotIn => (
            FrameState { stack: pop1(pop1(st)), ..s },
            FlowView::Host(HostView::Contains(top(pop1(st)), top(st), instr.op == OpCode::NotIn), Resume::Push),
        ),
        OpCode::GetIter => (FrameState { stack: pop1(st), ..s }, FlowView::Host(HostView::Iter(top(st)), Resume::Push)),
        OpCode::CheckComposite => (
            FrameState { stack: pop1(st), ..s },
            FlowView::Host(HostView::CheckFacts(top(st), instr.arg), Resume::CheckComposite { value: top(st), k: instr.arg }),
        ),
        OpCode::ForIter => (s, FlowView::Host(HostView::Next(top(st)), Resume::ForIter(instr.arg as usize))),
        OpCode::BuildList | OpCode::BuildSet | OpCode::BuildSlice | OpCode::BuildString => if arg > st.len() {
            (s, FlowView::Signal(ErrorView::StackUnderflow))
        } else {
            let items = st.subrange(st.len() - arg, st.len() as int);
            let rest = FrameState { stack: st.subrange(0, st.len() - arg), ..s };
            match instr.op {
                OpCode::BuildList => (rest, FlowView::Host(HostView::Build(false, items), Resume::Push)),
                OpCode::BuildSet => (rest, FlowView::Host(HostView::Build(true, items), Resume::Push)),
                OpCode::BuildString => (rest, FlowView::Host(HostView::Concat(items), Resume::Push)),
                _ => if arg == 2 || arg == 3 {
                    (rest, FlowView::Host(HostView::Slice(items), Resume::Push))
                } else {
                    (rest, FlowView::Signal(ErrorView::Builtin(ExceptionKind::RuntimeError, slice_count_text(arg))))
                },
            }
        },
        OpCode::BuildDict => {
            let d = dict_pop(st, instr.arg as nat);
            (FrameState { stack: d.1, ..s }, FlowView::Host(HostView::Dict(d.0), Resume::Push))
        },
        OpCode::GetItem => if instr.arg == 1 {
            let step = top(st);
            let stop = top(pop1(st));
            let start = top(pop1(pop1(st)));
            let obj = top(pop1(pop1(pop1(st))));
            (
                FrameState { stack: pop1(pop1(pop1(pop1(st)))), ..s },
                FlowView::Host(HostView::GetSlice(obj, start, stop, step), Resume::Push),
            )
        } else {
            (
                FrameState { stack: pop1(pop1(st)), ..s },
                FlowView::Host(HostView::GetItem(top(pop1(st)), top(st)), Resume::Push),
            )
        },
        OpCode::SetItem => (
            FrameState { stack: pop1(pop1(pop1(st))), ..s },
            FlowView::Host(HostView::SetItem(top(pop1(pop1(st))), top(pop1(st)), top(st)), Resume::Ignore),
        ),
        OpCode::LoadException => if instr.arg == 1 {
            (s, FlowView::Host(HostView::ExcInfo(if s.active.len() > 0 {
                Some((s.active.last().exc_type, s.active.last().message))
            } else {
                None
            }), Resume::Push))
        } else if s.active.len() > 0 {
            (s, FlowView::Host(HostView::Str(s.active.last().message), Resume::Push))
        } else {
            (FrameState { stack: st.push(Value::Nil), ..s }, FlowView::Next)
        },
        OpCode::FormatValue => {
            let has_spec = (instr.arg & 1u32) != 0;
            let conv = (instr.arg >> 1u32) & 3u32;
            if has_spec {
                (
                    FrameState { stack: pop1(pop1(st)), ..s },
                    FlowView::Host(HostView::Format(top(pop1(st)), Some(top(st)), conv), Resume::Push),
                )
            } else {
                (FrameState { stack: pop1(st), ..s }, FlowView::Host(HostView::Format(top(st), None, conv), Resume::Push))
            }
        },
        _ => (s, FlowView::Next),
    }
}

/// Whether an instruction is one of `host_effect`.
pub open spec fn is_host_op(op: OpCode) -> bool {
    match op {
        OpCode::In | OpCode::NotIn | OpCode::GetIter | OpCode::ForIter | OpCode::BuildList | OpCode::BuildSet
        | OpCode::BuildDict | OpCode::BuildSlice | OpCode::BuildString | OpCode::GetItem | OpCode::SetItem
        | OpCode::LoadException | OpCode::FormatValue | OpCode::CheckComposite => true,
        _ => false,
    }
}

/// Pops the pairs of a dict literal of `n` entries.
fn pop_dict(st: &mut Vec<Value>, n: u32) -> (r: Vec<(Value, Value)>)
    ensures
        r@ == dict_pop(old(st)@, n as nat).0,
        final(st)@ == dict_pop(old(st)@, n as nat).1,
{
    let mut out: Vec<(Value, Value)> = Vec::new();
    let mut i: u32 = 0;
    while i < n
        invariant
            i <= n,
            dict_pop(old(st)@, n as nat) == ((out@ + dict_pop(st@, (n - i) as nat).0), dict_pop(st@, (n - i) as nat).1),
        decreases n - i,
    {
        let ghost before = st@;
        let ghost before_out = out@;
        let v = pop_value(st);
        let k = pop_value(st);
        out.push((k, v));
        proof {
            let d = dict_pop(before, (n - i) as nat);
            assert(d.0 == seq![(k, v)] + dict_pop(st@, (n - i - 1) as nat).0);
            assert(before_out + d.0 =~= out@ + dict_pop(st@, (n - i - 1) as nat).0);
        }
        i = i + 1;
    }
    assert(out@ + Seq::<(Value, Value)>::empty() =~= out@);
    out
}

/// Formats `slice_count_text`.
fn slice_count_message(n: usize) -> (r: String)
    ensures
        r@ == slice_count_text(n as int),
{
    let d = u64_to_decimal(n as u64);
    assert(decimal(n as int) == nat_digits(n as nat));
    concat2("BUILD_SLICE expects 2 or 3 args, got ", d.as_str())
}

/// Carries out an instruction whose result the host computes.
pub fn exec_host_op(frame: &mut Frame, instr: Instruction) -> (r: Flow)
    ensures
        (final(frame).state(), r.view()) == host_effect(old(frame).state(), instr),
{
    let arg = instr.arg as usize;
    match instr.op {
        OpCode::In | OpCode::NotIn => {
            let b = pop_value(&mut frame.stack);
            let a = pop_value(&mut frame.stack);
            let negate = match instr.op {
                OpCode::NotIn => true,
                _ => false,
            };
            Flow::Host(HostRequest::Contains(a, b, negate), Resume::Push)
        },
        OpCode::GetIter => {
            let v = pop_value(&mut frame.stack);
            Flow::Host(HostRequest::Iter(v), Resume::Push)
        },
        OpCode::CheckComposite => {
            let v = pop_value(&mut frame.stack);
            Flow::Host(HostRequest::CheckFacts(v, instr.arg), Resume::CheckComposite { value: v, k: instr.arg })
        },
        OpCode::ForIter => {
            let v = peek_value(&frame.stack);
            Flow::Host(HostRequest::Next(v), Resume::ForIter(arg))
        },
        OpCode::BuildList | OpCode::BuildSet | OpCode::BuildSlice | OpCode::BuildString => {
            let n = frame.stack.len();
            if arg > n {
                return Flow::Signal(VMError::StackUnderflow);
            }
            let items = frame.stack.split_off(n - arg);
            match instr.op {
                OpCode::BuildList => Flow::Host(HostRequest::Build(false, items), Resume::Push),
                OpCode::BuildSet => Flow::Host(HostRequest::Build(true, items), Resume::Push),
                OpCode::BuildString => Flow::Host(HostRequest::Concat(items), Resume::Push),
                _ => if arg == 2 || arg == 3 {
                    Flow::Host(HostRequest::Slice(items), Resume::Push)
                } else {
                    Flow::Signal(VMError::RuntimeError(slice_count_message(arg)))
                },
            }
        },
        OpCode::BuildDict => {
            let pairs = pop_dict(&mut frame.stack, instr.arg);
            Flow::Host(HostRequest::Dict(pairs), Resume::Push)
        },
        OpCode::GetItem => {
            if instr.arg == 1 {
                let step = pop_value(&mut frame.stack);
                let stop = pop_value(&mut frame.stack);
                let start = pop_value(&mut frame.stack);
                let obj = pop_value(&mut frame.stack);
                Flow::Host(HostRequest::GetSlice(obj, start, stop, step), Resume::Push)
            } else {
                let index = pop_value(&mut frame.stack);
                let obj = pop_value(&mut frame.stack);
                Flow::Host(HostRequest::GetItem(obj, index), Resume::Push)
            }
        },
        OpCode::SetItem => {
            let value = pop_value(&mut frame.stack);
            let index = pop_value(&mut frame.stack);
            let obj = pop_value(&mut frame.stack);
            Flow::Host(HostRequest::SetItem(obj, index, value), Resume::Ignore)
        },
        OpCode::LoadException => {
            let n = frame.active_exception_stack.len();
            if instr.arg == 1 {
                let info = if n > 0 {
                    let e = &frame.active_exception_stack[n - 1];
                    Some((e.exc_type.clone(), e.message.clone()))
                } else {
                    None
                };
                Flow::Host(HostRequest::ExcInfo(info), Resume::Push)
            } else if n > 0 {
                Flow::Host(HostRequest::Str(frame.active_exception_stack[n - 1].message.clone()), Resume::Push)
            } else {
                frame.stack.push(Value::Nil);
                Flow::Next
            }
        },
        OpCode::FormatValue => {
            let has_spec = (instr.arg & 1u32) != 0;
            let conv = (instr.arg >> 1u32) & 3u32;
            if has_spec {
                let spec = pop_value(&mut frame.stack);
                let v = pop_value(&mut frame.stack);
                Flow::Host(HostRequest::Format(v, Some(spec), conv), Resume::Push)
            } else {
                let v = pop_value(&mut frame.stack);
                Flow::Host(HostRequest::Format(v, None, conv), Resume::Push)
            }
        },
        _ => Flow::Next,
    }
}

/// Whether an instruction only touches its frame, the constants and the
/// tuple heap.
pub open spec fn is_frame_instr(instr: Instruction) -> bool {
    match instr.op {
        OpCode::LoadScope | OpCode::StoreScope | OpCode::LoadGlobal | OpCode::Call | OpCode::Return
        | OpCode::MatchPatternVM | OpCode::MatchAssignPatternVM | OpCode::GetAttr | OpCode::SetAttr
        | OpCode::Halt | OpCode::TypeOf | OpCode::MakeFunction | OpCode::PatchClosure | OpCode::TailCall
        | OpCode::CallKw | OpCode::CallMethod | OpCode::Globals | OpCode::Locals | OpCode::MakeEnum
        | OpCode::CheckNominal => false,
        OpCode::Raise => instr.arg == 1,
        OpCode::PushBlock => instr.arg & 0x8000_0000u32 == 0,
        OpCode::PopBlock => instr.arg != 1,
        _ => true,
    }
}

/// Whether an instruction is one of `control_effect`.
pub open spec fn is_control_op(op: OpCode) -> bool {
    match op {
        OpCode::BuildTuple | OpCode::UnpackSequence | OpCode::UnpackEx | OpCode::PushBlock | OpCode::PopBlock
        | OpCode::SetupExcept | OpCode::SetupFinally | OpCode::PopHandler | OpCode::ClearException
        | OpCode::BindMatch | OpCode::CheckExcMatch | OpCode::MatchFail | OpCode::Raise
        | OpCode::ResumeUnwind | OpCode::Exit | OpCode::Break | OpCode::Continue
        | OpCode::ForRangeInt | OpCode::ForRangeStep => true,
        _ => false,
    }
}

/// Effect of a frame instruction on its frame and the tuple heap.
pub open spec fn frame_effect(
    s: FrameState,
    instr: Instruction,
    consts: Seq<Value>,
    heap: Seq<Seq<Value>>,
) -> (FrameState, Seq<Seq<Value>>, FlowView) {
    if is_control_op(instr.op) {
        control_effect(s, instr, consts, heap)
    } else if is_host_op(instr.op) {
        let (s2, f) = host_effect(s, instr);
        (s2, heap, f)
    } else {
        let (s2, f) = basic_effect(s, instr, consts, heap);
        (s2, heap, f)
    }
}

/// Carries out a frame instruction.
pub fn exec_frame_op(frame: &mut Frame, instr: Instruction, consts: &Vec<Value>, heap: &mut TupleHeap) -> (r: Flow)
    requires
        old(heap).wf(),
    ensures
        final(heap).wf(),
        final(frame).state() == frame_effect(old(frame).state(), instr, consts@, old(heap)@).0,
        final(heap)@ == frame_effect(old(frame).state(), instr, consts@, old(heap)@).1,
        r.view() == frame_effect(old(frame).state(), instr, consts@, old(heap)@).2,
{
    match instr.op {
        OpCode::BuildTuple | OpCode::UnpackSequence | OpCode::UnpackEx | OpCode::PushBlock | OpCode::PopBlock
        | OpCode::SetupExcept | OpCode::SetupFinally | OpCode::PopHandler | OpCode::ClearException
        | OpCode::BindMatch | OpCode::CheckExcMatch | OpCode::MatchFail | OpCode::Raise
        | OpCode::ResumeUnwind | OpCode::Exit | OpCode::Break | OpCode::Continue
        | OpCode::ForRangeInt | OpCode::ForRangeStep => exec_control(frame, instr, consts, heap),
        OpCode::In | OpCode::NotIn | OpCode::GetIter | OpCode::ForIter | OpCode::BuildList | OpCode::BuildSet
        | OpCode::BuildDict | OpCode::BuildSlice | OpCode::BuildString | OpCode::GetItem | OpCode::SetItem
        | OpCode::LoadException | OpCode::FormatValue | OpCode::CheckComposite => exec_host_op(frame, instr),
        _ => exec_basic(frame, instr, consts, heap),
    }
}

// ---------------------------------------------------------------------
// Exception handlers
// ---------------------------------------------------------------------

/// The first `n` items of a stack (all of them when it is shorter).
pub open spec fn truncated(st: Seq<Value>, n: int) -> Seq<Value> {
    if n <= st.len() { st.subrange(0, n) } else { st }
}

/// The first `n` blocks (all of them when there are fewer).
pub open spec fn truncated_blocks(b: Seq<(usize, Seq<Value>)>, n: int) -> Seq<(usize, Seq<Value>)> {
    if n <= b.len() { b.subrange(0, n) } else { b }
}

/// Unwinding to the innermost handler of a frame that takes `e`: an
/// `except` handler takes exceptions (it records the exception as active);
/// a `finally` handler takes every signal and saves it as pending (a
/// returned value stays on the stack). Both cut the stack and blocks back
/// to their depth at setup and jump to the handler. `except` handlers met
/// by a control signal are dropped. `None` when no handler takes `e`.
pub open spec fn try_unwind(s: FrameState, e: ErrorView) -> Option<FrameState>
    decreases s.handlers.len(),
{
    if s.handlers.len() == 0 {
        None
    } else {
        let h = s.handlers.last();
        let rest = s.handlers.drop_last();
        let st = truncated(s.stack, h.stack_depth as int);
        let bl = truncated_blocks(s.blocks, h.block_depth as int);
        match h.handler_type {
            HandlerType::Except => if e.catchable() {
                Some(FrameState { handlers: rest, active: s.active.push(e.info()), stack: st, blocks: bl, ip: h.target_addr as int, ..s })
            } else {
                try_unwind(FrameState { handlers: rest, ..s }, e)
            },
            HandlerType::Finally => Some(FrameState {
                handlers: rest,
                pending: Some(e.pending()),
                stack: match e {
                    ErrorView::Return(v) => st.push(v),
                    _ => st,
                },
                blocks: bl,
                ip: h.target_addr as int,
                ..s
            }),
        }
    }
}

/// A frame with every handler dropped.
pub open spec fn without_handlers(s: FrameState) -> FrameState {
    FrameState { handlers: Seq::empty(), ..s }
}

/// Unwinds `frame` to its innermost handler that takes `err`; without one,
/// every handler is dropped and `false` is returned.
pub fn try_unwind_to_handler(frame: &mut Frame, err: &VMError) -> (r: bool)
    ensures
        r == try_unwind(old(frame).state(), err.view()).is_some(),
        r ==> final(frame).state() == try_unwind(old(frame).state(), err.view()).unwrap(),
        !r ==> final(frame).state() == without_handlers(old(frame).state()),
    decreases old(frame).handler_stack@.len(),
{
    let n = frame.handler_stack.len();
    if n == 0 {
        assert(frame.state().handlers =~= Seq::<Handler>::empty());
        return false;
    }
    let h = frame.handler_stack[n - 1];
    proof {
        crate::error::lemma_error_view(*err);
    }
    match h.handler_type {
        HandlerType::Except => {
            if err.is_catchable() {
                frame.handler_stack.pop();
                match err.exception_info() {
                    Some(info) => {
                        frame.active_exception_stack.push(info);
                    },
                    None => {},
                }
                frame.stack.truncate(h.stack_depth);
                frame.block_stack.truncate(h.block_depth);
                frame.ip = h.target_addr;
                proof {
                    let o = old(frame).state();
                    let e = try_unwind(o, err.view()).unwrap();
                    assert(frame.state().active =~= e.active);
                    assert(frame.state().blocks =~= e.blocks);
                    assert(frame.state().stack =~= e.stack);
                    assert(frame.state().handlers =~= e.handlers);
                }
                true
            } else {
                frame.handler_stack.pop();
                proof {
                    assert(frame.state() =~= FrameState { handlers: old(frame).state().handlers.drop_last(), ..old(frame).state() });
                }
                try_unwind_to_handler(frame, err)
            }
        },
        HandlerType::Finally => {
            frame.handler_stack.pop();
            frame.pending_unwind = Some(err.to_pending_unwind());
            frame.stack.truncate(h.stack_depth);
            frame.block_stack.truncate(h.block_depth);
            match err {
                VMError::Return(v) => {
                    frame.stack.push(*v);
                },
                _ => {},
            }
            frame.ip = h.target_addr;
            proof {
                let o = old(frame).state();
                let e = try_unwind(o, err.view()).unwrap();
                assert(frame.state().blocks =~= e.blocks);
                assert(frame.state().stack =~= e.stack);
                assert(frame.state().handlers =~= e.handlers);
            }
            true
        },
    }
}

} // verus!
