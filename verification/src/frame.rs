//! Code objects, execution frames and the frame pool.

use vstd::prelude::*;
use vstd::string::*;
use crate::value::{Value, TupleHeap, values_below};
use crate::error::{ExceptionInfo, ExceptionView, PendingUnwind, PendingView};
use crate::pattern::VMPattern;
use crate::typecheck::ParamCheck;

verus! {

/// `vararg_idx` of a code object without a `*args` parameter.
pub const NO_VARARG_IDX: i32 = -1;

/// Number of frames a default pool keeps for reuse.
pub const VM_FRAME_POOL_SIZE: usize = 64;

/// VM operation codes.
#[derive(Clone, Copy, Debug, PartialEq, Eq, Structural)]
pub enum OpCode {
    LoadConst,
    LoadLocal,
    StoreLocal,
    LoadScope,
    StoreScope,
    LoadGlobal,
    PopTop,
    DupTop,
    RotTwo,
    Add,
    Sub,
    Mul,
    Div,
    FloorDiv,
    Mod,
    Pow,
    Neg,
    Pos,
    BOr,
    BXor,
    BAnd,
    BNot,
    LShift,
    RShift,
    Lt,
    Le,
    Gt,
    Ge,
    Eq,
    Ne,
    Is,
    IsNot,
    Not,
    Jump,
    JumpIfFalse,
    JumpIfTrue,
    JumpIfFalseOrPop,
    JumpIfTrueOrPop,
    JumpIfNone,
    JumpIfNotNoneOrPop,
    ToBool,
    Call,
    Return,
    BuildTuple,
    UnpackSequence,
    UnpackEx,
    GetAttr,
    SetAttr,
    PushBlock,
    PopBlock,
    Break,
    Continue,
    MatchPattern,
    MatchPatternVM,
    MatchAssignPatternVM,
    BindMatch,
    MatchFail,
    SetupExcept,
    SetupFinally,
    PopHandler,
    CheckExcMatch,
    Raise,
    ResumeUnwind,
    ClearException,
    ForRangeInt,
    ForRangeStep,
    Exit,
    Nop,
    Breakpoint,
    Halt,
    In,
    NotIn,
    GetIter,
    ForIter,
    BuildList,
    BuildSet,
    BuildDict,
    BuildSlice,
    GetItem,
    SetItem,
    LoadException,
    TypeOf,
    FormatValue,
    BuildString,
    AddInt,
    SubInt,
    MulInt,
    AddFloat,
    SubFloat,
    MulFloat,
    DivFloat,
    MakeFunction,
    PatchClosure,
    TailCall,
    CallKw,
    CallMethod,
    Globals,
    Locals,
    MakeEnum,
    CheckComposite,
    CheckNominal,
}

/// One bytecode instruction.
#[derive(Clone, Copy, Debug, PartialEq, Eq, Structural)]
pub struct Instruction {
    pub op: OpCode,
    pub arg: u32,
}

impl Instruction {
    /// An instruction with an argument.
    pub fn new(op: OpCode, arg: u32) -> (r: Instruction)
        ensures
            r == (Instruction { op, arg }),
    {
        Instruction { op, arg }
    }

    /// An instruction without an argument (argument 0).
    pub fn simple(op: OpCode) -> (r: Instruction)
        ensures
            r == (Instruction { op, arg: 0 }),
    {
        Instruction { op, arg: 0 }
    }
}

/// Compiled bytecode for a function, lambda or module.
#[derive(Debug)]
pub struct CodeObject {
    /// Bytecode instructions
    pub instructions: Vec<Instruction>,
    /// Constant pool
    pub constants: Vec<Value>,
    /// Names for scope/global/attribute access
    pub names: Vec<String>,
    /// Number of local variable slots
    pub nlocals: usize,
    /// Names of local variables
    pub varnames: Vec<String>,
    /// Variable name to slot index (first entry of a name wins)
    pub slotmap: Vec<(String, usize)>,
    /// Number of parameters (not including *args)
    pub nargs: usize,
    /// Default parameter values (for the last parameters)
    pub defaults: Vec<Value>,
    /// Function name
    pub name: String,
    /// Free variables (closure captures)
    pub freevars: Vec<String>,
    /// Index of the *args parameter (-1 if none)
    pub vararg_idx: i32,
    /// Function marked pure (no side effects)
    pub is_pure: bool,
    /// Complexity estimate (number of instructions)
    pub complexity: usize,
    /// Source position of each instruction
    pub line_table: Vec<u32>,
    /// Pre-compiled match patterns
    pub patterns: Vec<VMPattern>,
    /// Composite boundary checks, by `CheckComposite` argument
    pub composite_checks: Vec<ParamCheck>,
}

impl CodeObject {
    /// A new empty code object named `name`.
    pub fn new(name: &str) -> (r: CodeObject)
        ensures
            r.name@ == name@,
            r.instructions@.len() == 0,
            r.constants@.len() == 0,
            r.names@.len() == 0,
            r.nlocals == 0,
            r.varnames@.len() == 0,
            r.slotmap@.len() == 0,
            r.nargs == 0,
            r.defaults@.len() == 0,
            r.freevars@.len() == 0,
            r.vararg_idx == NO_VARARG_IDX,
            !r.is_pure,
            r.complexity == 0,
            r.line_table@.len() == 0,
            r.patterns@.len() == 0,
            r.composite_checks@.len() == 0,
    {
        CodeObject {
            instructions: Vec::new(),
            constants: Vec::new(),
            names: Vec::new(),
            nlocals: 0,
            varnames: Vec::new(),
            slotmap: Vec::new(),
            nargs: 0,
            defaults: Vec::new(),
            name: name.to_owned(),
            freevars: Vec::new(),
            vararg_idx: NO_VARARG_IDX,
            is_pure: false,
            complexity: 0,
            line_table: Vec::new(),
            patterns: Vec::new(),
            composite_checks: Vec::new(),
        }
    }

    /// The slot map as (name, slot) pairs.
    pub open spec fn slot_pairs(&self) -> Seq<(Seq<char>, usize)> {
        self.slotmap@.map_values(|p: (String, usize)| (p.0@, p.1))
    }

    /// Parameters and slot map fit the local slots.
    pub open spec fn wf(&self) -> bool {
        &&& self.nargs <= self.nlocals
        &&& self.vararg_idx < 0 || (self.vararg_idx as int) < self.nlocals
        &&& forall|j: int| 0 <= j < self.slotmap@.len() ==> (#[trigger] self.slotmap@[j]).1 < self.nlocals
    }

    /// The slot bound to `name`, if any.
    pub fn slot_of(&self, name: &str) -> (r: Option<usize>)
        ensures
            r == slot_lookup(self.slot_pairs(), name@),
    {
        let mut i: usize = 0;
        while i < self.slotmap.len()
            invariant
                i <= self.slotmap@.len(),
                forall|j: int| 0 <= j < i ==> (#[trigger] self.slot_pairs()[j]).0 != name@,
            decreases self.slotmap@.len() - i,
        {
            let ghost pairs = self.slot_pairs();
            if crate::text::str_equal(self.slotmap[i].0.as_str(), name) {
                assert(first_slot_index(pairs, name@, 0) == i as int) by {
                    lemma_first_slot_index_skip(pairs, name@, 0, i as int);
                }
                return Some(self.slotmap[i].1);
            }
            i = i + 1;
        }
        proof {
            lemma_first_slot_index_skip(self.slot_pairs(), name@, 0, self.slotmap@.len() as int);
        }
        None
    }
}

/// Index of the first pair named `name` at or after `from`, or -1.
pub open spec fn first_slot_index(pairs: Seq<(Seq<char>, usize)>, name: Seq<char>, from: int) -> int
    decreases pairs.len() - from,
{
    if from < 0 || from >= pairs.len() {
        -1
    } else if pairs[from].0 == name {
        from
    } else {
        first_slot_index(pairs, name, from + 1)
    }
}

/// Slot of the first pair named `name`.
pub open spec fn slot_lookup(pairs: Seq<(Seq<char>, usize)>, name: Seq<char>) -> Option<usize> {
    let i = first_slot_index(pairs, name, 0);
    if i < 0 { None } else { Some(pairs[i].1) }
}

proof fn lemma_first_slot_index_skip(pairs: Seq<(Seq<char>, usize)>, name: Seq<char>, from: int, to: int)
    requires
        0 <= from <= to <= pairs.len(),
        forall|j: int| from <= j < to ==> (#[trigger] pairs[j]).0 != name,
    ensures
        first_slot_index(pairs, name, from) == first_slot_index(pairs, name, to),
    decreases to - from,
{
    if from < to {
        lemma_first_slot_index_skip(pairs, name, from + 1, to);
    }
}

proof fn lemma_first_slot_index_range(pairs: Seq<(Seq<char>, usize)>, name: Seq<char>, from: int)
    requires
        0 <= from,
    ensures
        first_slot_index(pairs, name, from) == -1 || (from <= first_slot_index(pairs, name, from) < pairs.len()),
    decreases pairs.len() - from,
{
    if from < pairs.len() && pairs[from].0 != name {
        lemma_first_slot_index_range(pairs, name, from + 1);
    }
}

/// Kind of an exception handler.
#[derive(Clone, Copy, Debug, PartialEq, Eq, Structural)]
pub enum HandlerType {
    Except,
    Finally,
}

/// An installed exception handler: where to jump and what to unwind to.
#[derive(Clone, Copy, Debug, PartialEq, Eq, Structural)]
pub struct Handler {
    pub handler_type: HandlerType,
    pub target_addr: usize,
    pub stack_depth: usize,
    pub block_depth: usize,
}

/// A single execution frame on the VM stack.
#[derive(Debug)]
pub struct Frame {
    /// Operand stack
    pub stack: Vec<Value>,
    /// Local variable slots
    pub locals: Vec<Value>,
    /// Instruction pointer
    pub ip: usize,
    /// Code being executed, by code-table index
    pub code: Option<usize>,
    /// Block stack for scope isolation: (slot_start, saved_values)
    pub block_stack: Vec<(usize, Vec<Value>)>,
    /// Host scope for name resolution (fallback), by host handle
    pub py_scope: Option<u64>,
    /// Native closure scope for captured variables, by scope id
    pub closure_scope: Option<usize>,
    /// Pending match bindings (slot, value)
    pub match_bindings: Option<Vec<(usize, Value)>>,
    /// If true, the return value is discarded
    pub discard_return: bool,
    /// Super proxy for parent method access, by host handle
    pub super_proxy: Option<u64>,
    /// Exception handler stack (try/except/finally)
    pub handler_stack: Vec<Handler>,
    /// Active exception stack for CheckExcMatch/LoadException
    pub active_exception_stack: Vec<ExceptionInfo>,
    /// Pending unwind state (saved signal during finally execution)
    pub pending_unwind: Option<PendingUnwind>,
}

/// Mathematical view of a frame.
#[verifier::ext_equal]
pub struct FrameState {
    pub stack: Seq<Value>,
    pub locals: Seq<Value>,
    pub ip: int,
    pub code: Option<usize>,
    pub blocks: Seq<(usize, Seq<Value>)>,
    pub py_scope: Option<u64>,
    pub closure: Option<usize>,
    pub bindings: Option<Seq<(usize, Value)>>,
    pub discard: bool,
    pub super_proxy: Option<u64>,
    pub handlers: Seq<Handler>,
    pub active: Seq<ExceptionView>,
    pub pending: Option<PendingView>,
}

/// `n` copies of `Nil`.
pub open spec fn nils(n: nat) -> Seq<Value> {
    Seq::new(n, |i: int| Value::Nil)
}

/// Locals after binding positional arguments to the first `limit` slots.
pub open spec fn bind_positional(locals: Seq<Value>, args: Seq<Value>, limit: int) -> Seq<Value> {
    Seq::new(locals.len(), |i: int| if i < limit && i < args.len() { args[i] } else { locals[i] })
}

/// Locals after binding keyword arguments in order (later ones win); names
/// without a slot are ignored.
pub open spec fn bind_kwargs(
    locals: Seq<Value>,
    kwargs: Seq<(Seq<char>, Value)>,
    slots: Seq<(Seq<char>, usize)>,
) -> Seq<Value>
    decreases kwargs.len(),
{
    if kwargs.len() == 0 {
        locals
    } else {
        let prev = bind_kwargs(locals, kwargs.drop_last(), slots);
        match slot_lookup(slots, kwargs.last().0) {
            Some(s) => if (s as int) < prev.len() { prev.update(s as int, kwargs.last().1) } else { prev },
            None => prev,
        }
    }
}

/// Locals after filling still-unbound (`Nil`) parameters `lo..hi` with their
/// defaults; parameter `i` takes `defaults[i - default_start]`.
pub open spec fn fill_defaults(
    locals: Seq<Value>,
    defaults: Seq<Value>,
    lo: int,
    hi: int,
    default_start: int,
) -> Seq<Value> {
    Seq::new(
        locals.len(),
        |i: int|
            if lo <= i < hi && locals[i] == Value::Nil && 0 <= i - default_start < defaults.len() {
                defaults[i - default_start]
            } else {
                locals[i]
            },
    )
}

pub open spec fn min_int(a: int, b: int) -> int {
    if a <= b { a } else { b }
}

pub open spec fn max_int(a: int, b: int) -> int {
    if a >= b { a } else { b }
}

/// Locals after binding a call's arguments; `vararg` is the value placed in
/// the `*args` slot (ignored without one).
pub open spec fn bound_locals(
    code: CodeObject,
    locals: Seq<Value>,
    args: Seq<Value>,
    kwargs: Seq<(Seq<char>, Value)>,
    vararg: Value,
) -> Seq<Value> {
    let n = args.len() as int;
    let ndef = code.defaults@.len() as int;
    if code.vararg_idx >= 0 {
        let v = code.vararg_idx as int;
        let pos = bind_positional(locals, args, min_int(n, v)).update(v, vararg);
        let kw = bind_kwargs(pos, kwargs, code.slot_pairs());
        let default_start = max_int(v - ndef, 0);
        if ndef > 0 { fill_defaults(kw, code.defaults@, max_int(n, default_start), v, default_start) } else { kw }
    } else {
        let p = code.nargs as int;
        let pos = bind_positional(locals, args, min_int(n, p));
        let kw = bind_kwargs(pos, kwargs, code.slot_pairs());
        let default_start = max_int(p - ndef, 0);
        if ndef > 0 { fill_defaults(kw, code.defaults@, max_int(n, default_start), p, default_start) } else { kw }
    }
}

/// The arguments collected by a `*args` parameter.
pub open spec fn excess_args(code: CodeObject, args: Seq<Value>) -> Seq<Value> {
    if code.vararg_idx >= 0 && args.len() > code.vararg_idx as int {
        args.subrange(code.vararg_idx as int, args.len() as int)
    } else {
        Seq::empty()
    }
}

/// The arguments a `*args` parameter of `code` collects from `args`.
pub fn excess_of(code: &CodeObject, args: &[Value]) -> (r: Vec<Value>)
    ensures
        r@ == excess_args(*code, args@),
{
    let mut excess: Vec<Value> = Vec::new();
    if code.vararg_idx >= 0 && args.len() > code.vararg_idx as usize {
        let v = code.vararg_idx as usize;
        let mut k: usize = v;
        while k < args.len()
            invariant
                v <= k <= args@.len(),
                excess@ == args@.subrange(v as int, k as int),
            decreases args@.len() - k,
        {
            excess.push(args[k]);
            k = k + 1;
            assert(excess@ =~= args@.subrange(v as int, k as int));
        }
    }
    assert(excess@ =~= excess_args(*code, args@));
    excess
}

impl Frame {
    /// The frame's view.
    pub open spec fn state(&self) -> FrameState {
        FrameState {
            stack: self.stack@,
            locals: self.locals@,
            ip: self.ip as int,
            code: self.code,
            blocks: self.block_stack@.map_values(|b: (usize, Vec<Value>)| (b.0, b.1@)),
            py_scope: self.py_scope,
            closure: self.closure_scope,
            bindings: match self.match_bindings {
                Some(b) => Some(b@),
                None => None,
            },
            discard: self.discard_return,
            super_proxy: self.super_proxy,
            handlers: self.handler_stack@,
            active: self.active_exception_stack@.map_values(|e: ExceptionInfo| e.view()),
            pending: match self.pending_unwind {
                Some(p) => Some(p.view()),
                None => None,
            },
        }
    }

    /// The fields other than the operand stack, locals, ip, blocks and
    /// handlers are those of `other`.
    pub open spec fn same_context(&self, other: Frame) -> bool {
        &&& self.code == other.code
        &&& self.py_scope == other.py_scope
        &&& self.closure_scope == other.closure_scope
        &&& self.match_bindings == other.match_bindings
        &&& self.discard_return == other.discard_return
        &&& self.super_proxy == other.super_proxy
        &&& self.active_exception_stack == other.active_exception_stack
        &&& self.pending_unwind == other.pending_unwind
    }

    /// The frame holds no state: empty stacks, no code, ip 0.
    pub open spec fn is_reset(&self) -> bool {
        &&& self.stack@.len() == 0
        &&& self.locals@.len() == 0
        &&& self.ip == 0
        &&& self.code.is_none()
        &&& self.block_stack@.len() == 0
        &&& self.py_scope.is_none()
        &&& self.closure_scope.is_none()
        &&& self.match_bindings.is_none()
        &&& !self.discard_return
        &&& self.super_proxy.is_none()
        &&& self.handler_stack@.len() == 0
        &&& self.active_exception_stack@.len() == 0
        &&& self.pending_unwind.is_none()
    }

    /// A frame freshly set up to run code `code` with `nlocals` unbound locals.
    pub open spec fn is_fresh_for(&self, code: usize, nlocals: nat) -> bool {
        &&& self.stack@.len() == 0
        &&& self.locals@ == nils(nlocals)
        &&& self.ip == 0
        &&& self.code == Some(code)
        &&& self.block_stack@.len() == 0
        &&& self.py_scope.is_none()
        &&& self.closure_scope.is_none()
        &&& self.match_bindings.is_none()
        &&& !self.discard_return
        &&& self.super_proxy.is_none()
        &&& self.handler_stack@.len() == 0
        &&& self.active_exception_stack@.len() == 0
        &&& self.pending_unwind.is_none()
    }

    /// Creates a new empty frame.
    pub fn new() -> (r: Self)
        ensures
            r.is_reset(),
    {
        Frame {
            stack: Vec::new(),
            locals: Vec::new(),
            ip: 0,
            code: None,
            block_stack: Vec::new(),
            py_scope: None,
            closure_scope: None,
            match_bindings: None,
            discard_return: false,
            super_proxy: None,
            handler_stack: Vec::new(),
            active_exception_stack: Vec::new(),
            pending_unwind: None,
        }
    }

    /// Creates a frame for executing code `code` with `nlocals` local slots,
    /// all unbound (`Nil`).
    pub fn with_code(code: usize, nlocals: usize) -> (r: Self)
        ensures
            r.is_fresh_for(code, nlocals as nat),
    {
        let mut locals: Vec<Value> = Vec::new();
        let mut i: usize = 0;
        while i < nlocals
            invariant
                i <= nlocals,
                locals@ == nils(i as nat),
            decreases nlocals - i,
        {
            locals.push(Value::Nil);
            i = i + 1;
            assert(locals@ =~= nils(i as nat));
        }
        Frame {
            stack: Vec::new(),
            locals,
            ip: 0,
            code: Some(code),
            block_stack: Vec::new(),
            py_scope: None,
            closure_scope: None,
            match_bindings: None,
            discard_return: false,
            super_proxy: None,
            handler_stack: Vec::new(),
            active_exception_stack: Vec::new(),
            pending_unwind: None,
        }
    }

    /// Resets the frame for reuse.
    pub fn reset(&mut self)
        ensures
            final(self).is_reset(),
    {
        self.stack.clear();
        self.locals.clear();
        self.ip = 0;
        self.code = None;
        self.block_stack.clear();
        self.py_scope = None;
        self.closure_scope = None;
        self.match_bindings = None;
        self.discard_return = false;
        self.super_proxy = None;
        self.handler_stack.clear();
        self.active_exception_stack.clear();
        self.pending_unwind = None;
    }

    /// Pushes a value on the operand stack.
    pub fn push(&mut self, value: Value)
        ensures
            final(self).stack@ == old(self).stack@.push(value),
            final(self).locals@ == old(self).locals@,
            final(self).ip == old(self).ip,
            final(self).block_stack@ == old(self).block_stack@,
            final(self).handler_stack@ == old(self).handler_stack@,
    {
        self.stack.push(value);
    }

    /// Pops the top of the operand stack; an empty stack yields `Nil`.
    pub fn pop(&mut self) -> (r: Value)
        ensures
            old(self).stack@.len() > 0 ==> r == old(self).stack@.last()
                && final(self).stack@ == old(self).stack@.drop_last(),
            old(self).stack@.len() == 0 ==> r == Value::Nil && final(self).stack@ == old(self).stack@,
            final(self).locals@ == old(self).locals@,
            final(self).ip == old(self).ip,
            final(self).block_stack@ == old(self).block_stack@,
            final(self).handler_stack@ == old(self).handler_stack@,
    {
        match self.stack.pop() {
            Some(v) => v,
            None => Value::Nil,
        }
    }

    /// The top of the operand stack; an empty stack yields `Nil`.
    pub fn peek(&self) -> (r: Value)
        ensures
            self.stack@.len() > 0 ==> r == self.stack@.last(),
            self.stack@.len() == 0 ==> r == Value::Nil,
    {
        let n = self.stack.len();
        if n > 0 {
            self.stack[n - 1]
        } else {
            Value::Nil
        }
    }

    /// Stores a local; a slot out of range is ignored.
    pub fn set_local(&mut self, slot: usize, value: Value)
        ensures
            slot < old(self).locals@.len() ==> final(self).locals@ == old(self).locals@.update(slot as int, value),
            slot >= old(self).locals@.len() ==> final(self).locals@ == old(self).locals@,
            final(self).stack@ == old(self).stack@,
            final(self).ip == old(self).ip,
            final(self).block_stack@ == old(self).block_stack@,
            final(self).handler_stack@ == old(self).handler_stack@,
    {
        if slot < self.locals.len() {
            self.locals.set(slot, value);
        }
    }

    /// Reads a local; a slot out of range yields `Nil`.
    pub fn get_local(&self, slot: usize) -> (r: Value)
        ensures
            slot < self.locals@.len() ==> r == self.locals@[slot as int],
            slot >= self.locals@.len() ==> r == Value::Nil,
    {
        if slot < self.locals.len() {
            self.locals[slot]
        } else {
            Value::Nil
        }
    }

    /// Binds call arguments to the local slots of a frame running `code`:
    /// positional arguments first (excess ones are dropped; a `*args` slot
    /// is left `Nil` for the list of them, `excess_of`, that the host
    /// builds), then keyword arguments by slot name, then defaults for
    /// parameters still unbound.
    pub fn bind_args(
        &mut self,
        code: &CodeObject,
        args: &[Value],
        kwargs: &[(String, Value)],
    )
        requires
            code.wf(),
            old(self).locals@.len() == code.nlocals,
        ensures
            final(self).locals@ == bound_locals(
                *code,
                old(self).locals@,
                args@,
                kwargs@.map_values(|p: (String, Value)| (p.0@, p.1)),
                Value::Nil,
            ),
            final(self).stack@ == old(self).stack@,
            final(self).ip == old(self).ip,
            final(self).code == old(self).code,
            final(self).block_stack@ == old(self).block_stack@,
            final(self).handler_stack@ == old(self).handler_stack@,
    {
        let nargs_given = args.len();
        let ndefaults = code.defaults.len();
        let ghost kw = kwargs@.map_values(|p: (String, Value)| (p.0@, p.1));
        let ghost old_locals = self.locals@;
        let vararg = code.vararg_idx >= 0;
        let limit: usize = if vararg { code.vararg_idx as usize } else { code.nargs };
        let bound = if nargs_given < limit { nargs_given } else { limit };
        // Positional arguments
        let mut i: usize = 0;
        while i < bound
            invariant
                i <= bound,
                bound <= args@.len(),
                bound <= limit <= code.nlocals,
                self.locals@.len() == old_locals.len(),
                old_locals.len() == code.nlocals,
                forall|j: int| 0 <= j < i ==> self.locals@[j] == args@[j],
                forall|j: int| i <= j < old_locals.len() ==> self.locals@[j] == old_locals[j],
                self.stack@ == old(self).stack@,
                self.ip == old(self).ip,
                self.code == old(self).code,
                self.block_stack@ == old(self).block_stack@,
                self.handler_stack@ == old(self).handler_stack@,
            decreases bound - i,
        {
            self.locals.set(i, args[i]);
            i = i + 1;
        }
        let ghost pos0 = self.locals@;
        assert(pos0 =~= bind_positional(old_locals, args@, bound as int));
        if vararg {
            // The `*args` slot waits for the list the host builds.
            let v = code.vararg_idx as usize;
            self.locals.set(v, Value::Nil);
        }
        let ghost pos = self.locals@;
        // Keyword arguments
        let mut j: usize = 0;
        while j < kwargs.len()
            invariant
                j <= kwargs@.len(),
                kw == kwargs@.map_values(|p: (String, Value)| (p.0@, p.1)),
                code.wf(),
                self.locals@ == bind_kwargs(pos, kw.subrange(0, j as int), code.slot_pairs()),
                self.locals@.len() == code.nlocals,
                self.stack@ == old(self).stack@,
                self.ip == old(self).ip,
                self.code == old(self).code,
                self.block_stack@ == old(self).block_stack@,
                self.handler_stack@ == old(self).handler_stack@,
            decreases kwargs@.len() - j,
        {
            let ghost before = self.locals@;
            match code.slot_of(kwargs[j].0.as_str()) {
                Some(slot) => {
                    proof {
                        let pairs = code.slot_pairs();
                        lemma_first_slot_index_range(pairs, kwargs@[j as int].0@, 0);
                        let idx = first_slot_index(pairs, kwargs@[j as int].0@, 0);
                        assert(code.slotmap@[idx].1 < code.nlocals);
                    }
                    self.locals.set(slot, kwargs[j].1);
                },
                None => {},
            }
            assert(kw.subrange(0, j + 1).drop_last() =~= kw.subrange(0, j as int));
            j = j + 1;
        }
        assert(kw.subrange(0, kwargs@.len() as int) =~= kw);
        // Defaults for still-unbound parameters
        if ndefaults > 0 {
            let default_start: usize = if limit > ndefaults { limit - ndefaults } else { 0 };
            let lo: usize = if nargs_given > default_start { nargs_given } else { default_start };
            let ghost kwl = self.locals@;
            let mut d: usize = lo;
            while d < limit
                invariant
                    lo <= limit ==> lo <= d <= limit,
                    lo > limit ==> d == lo,
                    default_start <= lo,
                    ndefaults == code.defaults@.len(),
                    limit <= code.nlocals,
                    self.locals@.len() == kwl.len(),
                    kwl.len() == code.nlocals,
                    forall|x: int| 0 <= x < kwl.len() ==> #[trigger] self.locals@[x] == (
                        if lo <= x < d && kwl[x] == Value::Nil && 0 <= x - default_start < code.defaults@.len() {
                            code.defaults@[x - default_start]
                        } else {
                            kwl[x]
                        }),
                    self.stack@ == old(self).stack@,
                    self.ip == old(self).ip,
                    self.code == old(self).code,
                    self.block_stack@ == old(self).block_stack@,
                    self.handler_stack@ == old(self).handler_stack@,
                decreases limit - d,
            {
                if self.locals[d].is_nil() {
                    let di = d - default_start;
                    if di < ndefaults {
                        self.locals.set(d, code.defaults[di]);
                    }
                }
                d = d + 1;
            }
            assert(self.locals@ =~= fill_defaults(kwl, code.defaults@, lo as int, limit as int, default_start as int));
        }
    }

    /// Saves the locals from `slot_start` on the block stack.
    pub fn push_block(&mut self, slot_start: usize)
        requires
            slot_start <= old(self).locals@.len(),
        ensures
            final(self).block_stack@.drop_last() == old(self).block_stack@,
            final(self).block_stack@.len() == old(self).block_stack@.len() + 1,
            final(self).block_stack@.last().0 == slot_start,
            final(self).block_stack@.last().1@ == old(self).locals@.subrange(
                slot_start as int,
                old(self).locals@.len() as int,
            ),
            final(self).locals@ == old(self).locals@,
            final(self).stack@ == old(self).stack@,
            final(self).ip == old(self).ip,
            final(self).handler_stack@ == old(self).handler_stack@,
            final(self).same_context(*old(self)),
    {
        let mut saved: Vec<Value> = Vec::new();
        let mut i: usize = slot_start;
        while i < self.locals.len()
            invariant
                slot_start <= i <= self.locals@.len(),
                saved@ == self.locals@.subrange(slot_start as int, i as int),
            decreases self.locals@.len() - i,
        {
            saved.push(self.locals[i]);
            i = i + 1;
            assert(saved@ =~= self.locals@.subrange(slot_start as int, i as int));
        }
        self.block_stack.push((slot_start, saved));
        assert(self.block_stack@.drop_last() =~= old(self).block_stack@);
    }

    /// Leaves the innermost block: the saved locals are restored and every
    /// later (block-local) slot is cleared to `Nil`. No-op without a block.
    pub fn pop_block(&mut self)
        ensures
            old(self).block_stack@.len() == 0 ==> final(self).locals@ == old(self).locals@
                && final(self).block_stack@ == old(self).block_stack@,
            old(self).block_stack@.len() > 0 ==> final(self).block_stack@ == old(self).block_stack@.drop_last()
                && final(self).locals@ == restored_locals(
                old(self).locals@,
                old(self).block_stack@.last().0 as int,
                old(self).block_stack@.last().1@,
            ),
            final(self).stack@ == old(self).stack@,
            final(self).ip == old(self).ip,
            final(self).handler_stack@ == old(self).handler_stack@,
            final(self).same_context(*old(self)),
    {
        match self.block_stack.pop() {
            Some((slot_start, saved)) => {
                let ghost before = self.locals@;
                let n = self.locals.len();
                let mut i: usize = 0;
                while i < saved.len()
                    invariant
                        self.locals@.len() == n,
                        n == before.len(),
                        i <= saved@.len(),
                        self.stack@ == old(self).stack@,
                        self.ip == old(self).ip,
                        self.handler_stack@ == old(self).handler_stack@,
                        self.block_stack@ == old(self).block_stack@.drop_last(),
                        self.same_context(*old(self)),
                        forall|x: int| 0 <= x < n ==> #[trigger] self.locals@[x] == (
                            if slot_start <= x < slot_start + i { saved@[x - slot_start] } else { before[x] }),
                    decreases saved@.len() - i,
                {
                    if slot_start <= n && i < n - slot_start {
                        self.locals.set(slot_start + i, saved[i]);
                    }
                    i = i + 1;
                }
                let mut k: usize = if slot_start <= usize::MAX - saved.len() { slot_start + saved.len() } else { usize::MAX };
                let start_k = k;
                while k < n
                    invariant
                        self.locals@.len() == n,
                        n == before.len(),
                        start_k <= k,
                        start_k == slot_start + saved@.len() || start_k >= n,
                        self.stack@ == old(self).stack@,
                        self.ip == old(self).ip,
                        self.handler_stack@ == old(self).handler_stack@,
                        self.block_stack@ == old(self).block_stack@.drop_last(),
                        self.same_context(*old(self)),
                        forall|x: int| 0 <= x < n ==> #[trigger] self.locals@[x] == (
                            if slot_start <= x < slot_start + saved@.len() { saved@[x - slot_start] }
                            else if start_k <= x < k { Value::Nil }
                            else { before[x] }),
                    decreases n - k,
                {
                    self.locals.set(k, Value::Nil);
                    k = k + 1;
                }
                assert(self.locals@ =~= restored_locals(before, slot_start as int, saved@));
            },
            None => {},
        }
    }
}

/// Locals after leaving a block that saved `saved` from `slot_start`: saved
/// slots take their saved values back, later slots are cleared.
pub open spec fn restored_locals(locals: Seq<Value>, slot_start: int, saved: Seq<Value>) -> Seq<Value> {
    Seq::new(
        locals.len(),
        |x: int|
            if slot_start <= x < slot_start + saved.len() {
                saved[x - slot_start]
            } else if x >= slot_start + saved.len() {
                Value::Nil
            } else {
                locals[x]
            },
    )
}

/// Frame pool reusing frames to reduce allocation.
pub struct FramePool {
    frames: Vec<Frame>,
    max_size: usize,
}

impl FramePool {
    /// Number of pooled frames.
    pub closed spec fn spec_len(&self) -> nat {
        self.frames@.len()
    }

    /// Capacity bound of the pool.
    pub closed spec fn spec_max_size(&self) -> nat {
        self.max_size as nat
    }

    /// The pool holds at most `max_size` frames, all reset.
    pub closed spec fn wf(&self) -> bool {
        &&& self.frames@.len() <= self.max_size
        &&& forall|i: int| 0 <= i < self.frames@.len() ==> (#[trigger] self.frames@[i]).is_reset()
    }

    /// A well-formed pool holds at most `max_size` frames.
    pub proof fn lemma_bounded(&self)
        requires
            self.wf(),
        ensures
            self.spec_len() <= self.spec_max_size(),
    {
    }

    /// An empty pool keeping at most `max_size` frames.
    pub fn new(max_size: usize) -> (r: Self)
        ensures
            r.wf(),
            r.spec_len() == 0,
            r.spec_max_size() == max_size,
    {
        FramePool { frames: Vec::new(), max_size }
    }

    /// Number of frames kept for reuse.
    pub fn len(&self) -> (r: usize)
        ensures
            r == self.spec_len(),
    {
        self.frames.len()
    }

    /// An empty frame, from the pool when it has one.
    pub fn alloc_frame(&mut self) -> (r: Frame)
        requires
            old(self).wf(),
        ensures
            final(self).wf(),
            r.is_reset(),
            old(self).spec_len() > 0 ==> final(self).spec_len() == old(self).spec_len() - 1,
            old(self).spec_len() == 0 ==> final(self).spec_len() == 0,
            final(self).spec_max_size() == old(self).spec_max_size(),
    {
        let n = self.frames.len();
        if n > 0 {
            assert(self.frames@[n - 1].is_reset());
        }
        match self.frames.pop() {
            Some(f) => f,
            None => Frame::new(),
        }
    }

    /// A frame set up to run code `code` with `nlocals` unbound locals, from the
    /// pool when it has one.
    pub fn alloc_with_code(&mut self, code: usize, nlocals: usize) -> (r: Frame)
        requires
            old(self).wf(),
        ensures
            final(self).wf(),
            r.is_fresh_for(code, nlocals as nat),
            old(self).spec_len() > 0 ==> final(self).spec_len() == old(self).spec_len() - 1,
            old(self).spec_len() == 0 ==> final(self).spec_len() == 0,
            final(self).spec_max_size() == old(self).spec_max_size(),
    {
        let n = self.frames.len();
        if n > 0 {
            assert(self.frames@[n - 1].is_reset());
        }
        match self.frames.pop() {
            Some(mut frame) => {
                frame.locals.clear();
                let mut i: usize = 0;
                while i < nlocals
                    invariant
                        i <= nlocals,
                        frame.locals@ == nils(i as nat),
                        frame.stack@.len() == 0,
                        frame.block_stack@.len() == 0,
                        frame.py_scope.is_none(),
                        frame.closure_scope.is_none(),
                        frame.match_bindings.is_none(),
                        !frame.discard_return,
                        frame.super_proxy.is_none(),
                    decreases nlocals - i,
                {
                    frame.locals.push(Value::Nil);
                    i = i + 1;
                    assert(frame.locals@ =~= nils(i as nat));
                }
                frame.code = Some(code);
                frame.ip = 0;
                frame.handler_stack.clear();
                frame.active_exception_stack.clear();
                frame.pending_unwind = None;
                frame
            },
            None => Frame::with_code(code, nlocals),
        }
    }

    /// Returns a frame to the pool, which keeps it (reset) while below its
    /// capacity and drops it otherwise.
    pub fn free(&mut self, frame: Frame)
        requires
            old(self).wf(),
        ensures
            final(self).wf(),
            old(self).spec_len() < old(self).spec_max_size() ==> final(self).spec_len() == old(self).spec_len() + 1,
            old(self).spec_len() >= old(self).spec_max_size() ==> final(self).spec_len() == old(self).spec_len(),
            final(self).spec_max_size() == old(self).spec_max_size(),
    {
        let mut frame = frame;
        if self.frames.len() < self.max_size {
            frame.reset();
            self.frames.push(frame);
        }
    }
}

impl FramePool {
    /// A pool of the default capacity.
    pub fn default_pool() -> (r: Self)
        ensures
            r.wf(),
            r.spec_len() == 0,
            r.spec_max_size() == VM_FRAME_POOL_SIZE,
    {
        FramePool::new(VM_FRAME_POOL_SIZE)
    }
}

} // verus!
