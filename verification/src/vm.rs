//! The virtual machine: a table of code objects, a table of functions, the
//! running frame with its callers, and the registries values refer to.
//!
//! The VM runs one instruction per `step`. Where an instruction needs the
//! host (a host object, a big integer, a host global, a host callable), the
//! step returns the request and the VM waits; `answer` hands the reply back
//! and finishes the instruction. `run` steps until the code finishes, asks
//! the host, or a budget of steps is spent.

use vstd::prelude::*;
use vstd::string::*;
use indexmap::IndexMap;
use crate::value::{Value, TupleHeap, values_below};
use crate::frame::{Frame, FrameState, FramePool, CodeObject, Instruction, OpCode, bound_locals, nils, slot_lookup, excess_of, excess_args};
use crate::step::{
    storable, control_effect, basic_effect, is_control_op, is_host_op,
    Flow, FlowView, HostRequest, HostView, Resume, frame_effect, is_frame_instr, exec_frame_op, try_unwind_to_handler, try_unwind,
    without_handlers, top, pop1, set_slot, slot_value, reversed, unpack_text, pop_value, write_slot, read_slot, unpack_message, push_reversed, ex_counts, unpack_ex_message, split_ex, insert_value_below,
    ex_before, ex_after, ex_fixed, ex_middle, insert_below, unpack_ex_text,
};
use crate::error::{VMError, ErrorView, CallInfo, ErrorContext, ExceptionInfo, ExceptionView, kind_named, restored_kind, kind_exception, kind_name};
use crate::scope::{ScopeArena, NativeClosureScope};
use crate::structs::{StructRegistry, field_index_from, first_named};
use crate::enums::{SymbolTable, EnumRegistry};
use crate::ordmap::{name_map_new, name_map_get, name_map_insert, name_map_entries, entry_insert, entry_lookup, name_map_len, name_map_get_index};
use crate::pattern::{
    items_ok, MatchOutcome, MatchFacts, FactsView, MatchView, vm_match_pattern, vm_match_assign_pattern, spec_match, spec_match_assign,
    scope_view, items_storable,
    items_count, bindings_agree,
};
use crate::text::{decimal, nat_digits, u64_to_decimal, i64_to_decimal, concat3, str_equal};
use crate::scope::{HostLookup, HostStore, ClosureParent};
use crate::error::ExceptionKind;
use crate::blocks::{snapshots, existing_names, block_names};
use crate::instantiate::handle_entry;
use crate::enums::variant_lookup;
use crate::typecheck::CheckFacts;

verus! {

/// A VM function: the code it runs and the closure scope it captured.
#[derive(Clone, Copy, Debug, PartialEq, Eq, Structural)]
pub struct FuncSlot {
    pub code: usize,
    pub closure: Option<NativeClosureScope>,
}

/// Where a run stands after a step.
#[derive(Debug)]
pub enum Outcome {
    /// More instructions to run.
    Running,
    /// The code finished with this value.
    Done(Value),
    /// The code raised this error, and no handler took it.
    Failed(VMError),
    /// The VM waits for the host's answer to this request.
    Host(HostRequest),
}

/// The host's answer to a request.
#[derive(Debug)]
pub enum HostReply {
    /// A value (a result, a found name, an attribute).
    Value(Value),
    /// A truthiness.
    Truth(bool),
    /// A text.
    Text(String),
    /// The items of an iterable.
    Items(Vec<Value>),
    /// The type name and message of a raised value.
    Described(String, String),
    /// The bindings of a successful match.
    Bindings(Vec<(usize, Value)>),
    /// The name is bound nowhere the host looked (or no match).
    Missing,
    /// The host raised.
    Raised(VMError),
    /// Texts (the keyword names of a call).
    Names(Vec<String>),
    /// The periodic check: whether an interrupt was requested, and the
    /// resident memory in bytes, if known.
    Status { interrupted: bool, rss: Option<u64> },
    /// What the host says of a value under a composite check.
    Facts(CheckFacts),
    /// Whether a value belongs to a nominal type, whether the host holds a
    /// type of that name, and the value's type name.
    Nominal { member: bool, known: bool, value_type: String },
}

/// The virtual machine.
pub struct VM {
    /// Code objects, by code id.
    pub codes: Vec<CodeObject>,
    /// VM functions, by function id (`Value::Func`).
    pub func_table: Vec<FuncSlot>,
    /// The running frame.
    pub frame: Frame,
    /// Its callers, innermost last.
    pub frame_stack: Vec<Frame>,
    /// Whether code is running.
    pub running: bool,
    /// What the host's awaited answer is for, while the VM waits.
    pub waiting: Option<Resume>,
    /// Frames kept for reuse.
    pub frame_pool: FramePool,
    /// Struct types and instances.
    pub struct_registry: StructRegistry,
    /// Tuples.
    pub tuples: TupleHeap,
    /// Closure scopes and VM-owned globals maps.
    pub scopes: ScopeArena,
    /// Interned symbols.
    pub symbol_table: SymbolTable,
    /// Enum types.
    pub enum_registry: EnumRegistry,
    /// Module globals.
    pub globals: IndexMap<String, Value>,
    /// Calls in progress, for stack traces.
    pub call_stack: Vec<CallInfo>,
    /// Context of the last error.
    pub last_error_context: Option<ErrorContext>,
    /// Instructions run so far (wrapping).
    pub instruction_count: u64,
    /// Memory limit in bytes (0: none).
    pub memory_limit_bytes: u64,
    /// Source position of the last instruction fetched.
    pub last_src_byte: u32,
    /// What the scope chain of a function created at module level ends in.
    pub module_scope: ClosureParent,
    /// For each open module-level block, the names of its slots that were
    /// globals before it began.
    pub block_globals: Vec<Vec<String>>,
    /// What the host said of host values during the running match.
    pub match_facts: MatchFacts,
    /// The attribute (or text) a match last asked the host about.
    pub match_attr: String,
    /// Struct types by the handle of the host object that stands for them
    /// (a later entry for a handle replaces an earlier one).
    pub struct_types: Vec<(u64, u32)>,
    /// Enum types by the handle of the host object that stands for them (a
    /// later entry for a handle replaces an earlier one).
    pub enum_types: Vec<(u64, u32)>,
    /// Source text of the running program, for error reports.
    pub source: Option<Vec<u8>>,
    /// File name of the running program, for error reports.
    pub filename: String,
}

/// Message of the error raised for a variant an enum does not have.
pub open spec fn no_variant_text(enum_name: Seq<char>, variant: Seq<char>) -> Seq<char> {
    "enum '"@ + enum_name + "' has no variant '"@ + variant + "'"@
}

/// Formats the message of `no_variant_text`.
fn no_variant_message(enum_name: &str, variant: &str) -> (r: String)
    ensures
        r@ == no_variant_text(enum_name@, variant@),
{
    let a = concat3("enum '", enum_name, "' has no variant '");
    concat3(a.as_str(), variant, "'")
}

/// Whether the instruction run after `count` others comes with the
/// periodic check (every 65536 instructions).
pub open spec fn checkpoint_due(count: u64) -> bool {
    (if count < u64::MAX { (count + 1) as u64 } else { 0u64 }) & 0xFFFFu64 == 0
}

/// Whether resident memory `rss` exceeds a set limit.
pub open spec fn over_limit(rss: Option<u64>, limit: u64) -> bool {
    limit > 0 && (rss matches Some(b) && b > limit)
}

/// Message of the error that ends a run over its memory limit.
pub open spec fn memory_text(rss: u64, limit: u64) -> Seq<char> {
    "memory limit exceeded ("@ + decimal(rss as int / 1048576) + " MB / "@ + decimal(limit as int / 1048576)
        + " MB)\nIncrease: catnip -o memory:"@ + decimal(2 * (limit as int / 1048576)) + "\nDisable:  catnip -o memory:0"@
}

/// Formats `memory_text`.
fn memory_message(rss: u64, limit: u64) -> (r: String)
    ensures
        r@ == memory_text(rss, limit),
{
    let r_mb = rss / 1048576;
    let l_mb = limit / 1048576;
    let a = concat3("memory limit exceeded (", u64_to_decimal(r_mb).as_str(), " MB / ");
    let b = concat3(a.as_str(), u64_to_decimal(l_mb).as_str(), " MB)\nIncrease: catnip -o memory:");
    let c = concat3(b.as_str(), u64_to_decimal(l_mb * 2).as_str(), "\nDisable:  catnip -o memory:0");
    proof {
        assert(decimal(r_mb as int) == nat_digits(r_mb as nat));
        assert(decimal(l_mb as int) == nat_digits(l_mb as nat));
        assert(decimal((l_mb * 2) as int) == nat_digits((l_mb * 2) as nat));
    }
    c
}

/// Whether `reply` is of the kind that answers what `res` waits for.
pub open spec fn answers(res: Resume, reply: HostReply) -> bool {
    match res {
        Resume::Push | Resume::StoreJump { .. } | Resume::InsertBelow(_) | Resume::FieldEq { .. } => reply is Value,
        Resume::Truth(_) | Resume::Branch { .. } | Resume::StoreOrGlobal { .. } => reply is Truth,
        Resume::ExcMatch | Resume::RaiseText | Resume::RaiseStruct(_) => reply is Text,
        Resume::Unpack(_) | Resume::UnpackEx(_) | Resume::BlockSnapshot(_) => reply is Items,
        Resume::RaiseDescribed => reply is Described,
        Resume::PushOrNameError(_) | Resume::PushOrLookup(_) | Resume::ForIter(_) => reply is Value || reply is Missing,
        Resume::MatchReply => reply is Bindings || reply is Missing,
        Resume::MatchFact { literal, .. } => if literal is Some { reply is Truth } else { reply is Items || reply is Text },
        Resume::AssignFact { .. } => reply is Items || reply is Text,
        Resume::MatchType { .. } => reply is Text,
        Resume::MatchAttr { .. } => reply is Value || reply is Missing,
        Resume::MatchText { .. } => reply is Truth,
        Resume::MatchBound { .. } => reply is Items,
        Resume::StructKw { .. } | Resume::MakeEnum => reply is Names,
        Resume::EnumMarker(_) => reply is Value,
        Resume::Checkpoint { .. } => reply is Status,
        Resume::CheckComposite { .. } => reply is Facts,
        Resume::CheckNominal { .. } => reply is Nominal,
        Resume::Ignore => true,
    }
}

/// Message of the error raised for an answer of the wrong kind.
pub open spec fn bad_reply_text() -> Seq<char> {
    "host reply does not answer the request"@
}

/// The module globals `g` after copying in, for each of the first `n`
/// (name, slot) pairs in order, the slot's value from `locals` when the name
/// is a global then and the slot holds a value other than `Nil`.
pub open spec fn synced_globals(
    g: Seq<(Seq<char>, Value)>,
    pairs: Seq<(Seq<char>, usize)>,
    locals: Seq<Value>,
    n: int,
) -> Seq<(Seq<char>, Value)>
    decreases n,
{
    if n <= 0 {
        g
    } else {
        let prev = synced_globals(g, pairs, locals, n - 1);
        let name = pairs[n - 1].0;
        let slot = pairs[n - 1].1 as int;
        if entry_lookup(prev, name) is Some && slot < locals.len() && locals[slot] != Value::Nil {
            entry_insert(prev, name, locals[slot])
        } else {
            prev
        }
    }
}

/// Returns every frame to the pool, which keeps them (reset) up to its
/// capacity.
fn free_all(pool: &mut FramePool, frames: Vec<Frame>)
    requires
        old(pool).wf(),
    ensures
        final(pool).wf(),
        final(pool).spec_max_size() == old(pool).spec_max_size(),
        final(pool).spec_len() == (if old(pool).spec_len() + frames@.len() <= old(pool).spec_max_size() {
            old(pool).spec_len() + frames@.len()
        } else {
            old(pool).spec_max_size()
        }),
{
    let ghost n = frames@.len();
    let mut frames = frames;
    proof {
        old(pool).lemma_bounded();
    }
    while frames.len() > 0
        invariant
            pool.wf(),
            frames@.len() <= n,
            pool.spec_max_size() == old(pool).spec_max_size(),
            old(pool).spec_len() <= old(pool).spec_max_size(),
            pool.spec_len() == (if old(pool).spec_len() + (n - frames@.len()) <= old(pool).spec_max_size() {
                old(pool).spec_len() + (n - frames@.len())
            } else {
                old(pool).spec_max_size() as int
            }),
        decreases frames@.len(),
    {
        match frames.pop() {
            Some(f) => pool.free(f),
            None => {},
        }
    }
}

impl VM {
    /// A frame runs a code object of this VM within valid scopes.
    pub open spec fn frame_ok(&self, f: Frame) -> bool {
        &&& f.code is Some
        &&& (f.code.unwrap() as int) < self.codes@.len()
        &&& (f.closure_scope matches Some(c) ==> (c as int) < self.scopes.num_scopes())
    }

    /// The VM's invariant.
    pub open spec fn wf(&self) -> bool {
        &&& self.tuples.wf()
        &&& self.scopes.wf()
        &&& self.frame_pool.wf()
        &&& self.struct_registry.wf()
        &&& self.enum_registry.wf()
        &&& forall|i: int| 0 <= i < self.codes@.len() ==> (#[trigger] self.codes@[i]).wf()
        &&& forall|i: int| 0 <= i < self.func_table@.len() ==> {
            &&& ((#[trigger] self.func_table@[i]).code as int) < self.codes@.len()
            &&& (self.func_table@[i].closure matches Some(c) ==> self.scopes.has(c))
        }
        &&& self.running ==> self.frame_ok(self.frame)
        &&& self.running ==> forall|i: int| 0 <= i < self.frame_stack@.len() ==> self.frame_ok(#[trigger] self.frame_stack@[i])
        &&& !self.running ==> self.frame_stack@.len() == 0 && self.waiting is None
        &&& !(self.module_scope is Native)
        &&& (self.module_scope matches ClosureParent::Globals(g) ==> (g.id as int) < self.scopes.num_globals())
    }

    /// The callers' views, innermost last.
    pub open spec fn callers(&self) -> Seq<FrameState> {
        self.frame_stack@.map_values(|f: Frame| f.state())
    }

    /// The outcome `r` agrees with the run state: code runs exactly while
    /// the outcome is `Running` or `Host`, and the VM waits exactly after
    /// `Host`.
    pub open spec fn protocol(&self, r: Outcome) -> bool {
        &&& self.running <==> (r is Running || r is Host)
        &&& (r is Host) <==> (self.waiting is Some)
    }

    /// A new VM with nothing to run.
    pub fn new() -> (r: VM)
        ensures
            r.wf(),
            !r.running,
            r.codes@.len() == 0,
            r.func_table@.len() == 0,
            r.tuples@.len() == 0,
            name_map_entries(r.globals).len() == 0,
            r.memory_limit_bytes == 0,
            r.filename@ == "<input>"@,
            r.call_stack@.len() == 0,
            r.last_error_context is None,
            r.instruction_count == 0,
            r.waiting is None,
            r.frame_stack@.len() == 0,
            r.struct_registry.num_types() == 0,
            r.struct_registry.num_instances() == 0,
            r.enum_registry.types().len() == 0,
            r.symbol_table@.len() == 0,
            r.scopes.num_scopes() == 0,
            r.scopes.num_globals() == 0,
            r.frame_pool.spec_len() == 0,
            r.frame_pool.spec_max_size() == crate::frame::VM_FRAME_POOL_SIZE,
            r.block_globals@.len() == 0,
            r.struct_types@.len() == 0,
            r.enum_types@.len() == 0,
            r.module_scope == ClosureParent::NoParent,
    {
        VM {
            codes: Vec::new(),
            func_table: Vec::new(),
            frame: Frame::new(),
            frame_stack: Vec::new(),
            running: false,
            waiting: None,
            frame_pool: FramePool::default_pool(),
            struct_registry: StructRegistry::new(),
            tuples: TupleHeap::new(),
            scopes: ScopeArena::new(),
            symbol_table: SymbolTable::new(),
            enum_registry: EnumRegistry::new(),
            globals: name_map_new(),
            call_stack: Vec::new(),
            last_error_context: None,
            instruction_count: 0,
            memory_limit_bytes: 0,
            last_src_byte: 0,
            module_scope: ClosureParent::NoParent,
            block_globals: Vec::new(),
            struct_types: Vec::new(),
            match_facts: MatchFacts::new(),
            match_attr: String::new(),
            enum_types: Vec::new(),
            source: None,
            filename: String::from_str("<input>"),
        }
    }

    /// Sets the memory limit, in megabytes.
    pub fn set_memory_limit(&mut self, mb: u64)
        ensures
            mb <= u64::MAX / 1048576 ==> final(self).memory_limit_bytes == mb * 1048576,
            mb > u64::MAX / 1048576 ==> final(self).memory_limit_bytes == u64::MAX,
            final(self).codes == old(self).codes,
            final(self).running == old(self).running,
    {
        self.memory_limit_bytes = if mb <= u64::MAX / 1048576 { mb * 1048576 } else { u64::MAX };
    }

    /// Records the program's source text and file name for error reports.
    pub fn set_source(&mut self, source: Vec<u8>, filename: String)
        requires
            old(self).wf(),
        ensures
            final(self).wf(),
            final(self).source == Some(source),
            final(self).filename == filename,
            final(self).running == old(self).running,
            final(self).waiting == old(self).waiting,
            final(self).frame == old(self).frame,
            final(self).frame_stack == old(self).frame_stack,
            final(self).same_tables(*old(self)),
    {
        self.source = Some(source);
        self.filename = filename;
    }

    /// The module globals.
    pub fn get_globals(&self) -> (r: &IndexMap<String, Value>)
        ensures
            name_map_entries(*r) == name_map_entries(self.globals),
    {
        &self.globals
    }

    /// Takes the context of the last error, if any.
    pub fn take_last_error_context(&mut self) -> (r: Option<ErrorContext>)
        ensures
            r == old(self).last_error_context,
            final(self).last_error_context is None,
    {
        let mut out = None;
        std::mem::swap(&mut out, &mut self.last_error_context);
        out
    }

    /// Adds a code object to the code table; returns its code id.
    pub fn add_code(&mut self, code: CodeObject) -> (r: usize)
        requires
            old(self).wf(),
            code.wf(),
        ensures
            final(self).wf(),
            r == old(self).codes@.len(),
            final(self).codes@ == old(self).codes@.push(code),
            *final(self) == (VM { codes: final(self).codes, ..*old(self) }),
            final(self).running == old(self).running,
            final(self).frame == old(self).frame,
            final(self).frame_stack == old(self).frame_stack,
            final(self).tuples == old(self).tuples,
            final(self).scopes == old(self).scopes,
            final(self).func_table == old(self).func_table,
            final(self).globals == old(self).globals,
    {
        let id = self.codes.len();
        self.codes.push(code);
        proof {
            assert forall|i: int| 0 <= i < self.codes@.len() implies (#[trigger] self.codes@[i]).wf() by {
                if i < old(self).codes@.len() {
                    assert(self.codes@[i] == old(self).codes@[i]);
                }
            }
        }
        id
    }

    /// Adds a VM function running code `code` with closure scope `closure`;
    /// returns the function value.
    pub fn add_function(&mut self, code: usize, closure: Option<NativeClosureScope>) -> (r: Value)
        requires
            old(self).wf(),
            (code as int) < old(self).codes@.len(),
            closure matches Some(c) ==> old(self).scopes.has(c),
            old(self).func_table@.len() < u32::MAX,
        ensures
            final(self).wf(),
            r == Value::Func(old(self).func_table@.len() as u32),
            final(self).func_table@ == old(self).func_table@.push(FuncSlot { code, closure }),
            final(self).codes == old(self).codes,
            final(self).running == old(self).running,
            final(self).frame == old(self).frame,
            final(self).frame_stack == old(self).frame_stack,
    {
        let id = self.func_table.len();
        self.func_table.push(FuncSlot { code, closure });
        proof {
            assert forall|i: int| 0 <= i < self.func_table@.len() implies {
                &&& ((#[trigger] self.func_table@[i]).code as int) < self.codes@.len()
                &&& (self.func_table@[i].closure matches Some(c) ==> self.scopes.has(c))
            } by {
                if i < old(self).func_table@.len() {
                    assert(self.func_table@[i] == old(self).func_table@[i]);
                }
            }
        }
        Value::Func(id as u32)
    }

    /// Ends the run: every frame goes back to the pool.
    fn finish(&mut self)
        requires
            old(self).wf(),
        ensures
            final(self).wf(),
            !final(self).running,
            final(self).codes == old(self).codes,
            final(self).func_table == old(self).func_table,
            final(self).tuples == old(self).tuples,
            final(self).scopes == old(self).scopes,
            final(self).struct_registry == old(self).struct_registry,
            final(self).globals == old(self).globals,
            final(self).symbol_table == old(self).symbol_table,
            final(self).enum_registry == old(self).enum_registry,
            final(self).module_scope == old(self).module_scope,
    {
        let mut callers: Vec<Frame> = Vec::new();
        std::mem::swap(&mut callers, &mut self.frame_stack);
        free_all(&mut self.frame_pool, callers);
        let mut f = Frame::new();
        std::mem::swap(&mut f, &mut self.frame);
        self.frame_pool.free(f);
        self.running = false;
        self.waiting = None;
    }

    /// Leaves the running frame with `value`: its caller resumes with the
    /// value pushed (unless the frame discards it); without a caller the run
    /// is done.
    fn return_to_caller(&mut self, value: Value) -> (r: Outcome)
        requires
            old(self).wf(),
            old(self).running,
            old(self).waiting is None,
        ensures
            final(self).wf(),
            final(self).codes == old(self).codes,
            final(self).func_table == old(self).func_table,
            final(self).tuples == old(self).tuples,
            final(self).scopes == old(self).scopes,
            final(self).struct_registry == old(self).struct_registry,
            final(self).globals == old(self).globals,
            final(self).symbol_table == old(self).symbol_table,
            final(self).enum_registry == old(self).enum_registry,
            final(self).module_scope == old(self).module_scope,
            final(self).protocol(r),
            old(self).frame_stack@.len() > 0 ==> {
                &&& r is Running
                &&& final(self).running
                &&& final(self).waiting is None
                &&& final(self).callers() == old(self).callers().drop_last()
                &&& final(self).frame.state() == returned_to(old(self).callers().last(), value, old(self).frame.discard_return)
            },
            old(self).frame_stack@.len() == 0 ==> r == Outcome::Done(value) && !final(self).running,
    {
        match self.frame_stack.pop() {
            Some(caller) => {
                let mut old_frame = caller;
                std::mem::swap(&mut old_frame, &mut self.frame);
                let discard = old_frame.discard_return;
                self.frame_pool.free(old_frame);
                proof {
                    assert(self.frame == old(self).frame_stack@.last());
                    assert(self.callers() =~= old(self).callers().drop_last());
                    assert forall|i: int| 0 <= i < self.frame_stack@.len() implies self.frame_ok(#[trigger] self.frame_stack@[i]) by {
                        assert(self.frame_stack@[i] == old(self).frame_stack@[i]);
                    }
                }
                if !discard {
                    self.frame.stack.push(value);
                }
                Outcome::Running
            },
            None => {
                self.finish();
                Outcome::Done(value)
            },
        }
    }

    /// The code object of the running frame.
    pub open spec fn cur_code(&self) -> CodeObject {
        self.codes@[self.frame.code.unwrap() as int]
    }

    /// Carries out what an instruction's flow says.
    fn handle_flow(&mut self, flow: Flow) -> (r: Outcome)
        requires
            old(self).wf(),
            old(self).running,
            old(self).waiting is None,
        ensures
            final(self).wf(),
            final(self).same_tables(*old(self)),
            final(self).protocol(r),
            match flow {
                Flow::Next => r is Running && final(self).frame == old(self).frame
                    && final(self).frame_stack == old(self).frame_stack && final(self).running && final(self).waiting is None,
                Flow::Host(req, res) => r == Outcome::Host(req) && final(self).frame == old(self).frame
                    && final(self).frame_stack == old(self).frame_stack && final(self).running
                    && final(self).waiting == Some(res),
                Flow::Signal(e) => raised(old(self).frame.state(), old(self).callers(), e.view(), r, *final(self)),
            },
    {
        match flow {
            Flow::Next => Outcome::Running,
            Flow::Host(req, res) => {
                self.waiting = Some(res);
                Outcome::Host(req)
            },
            Flow::Signal(e) => self.raise(e),
        }
    }

    /// Name `k` of code `cid`; an index out of range raises.
    pub(crate) fn name_at(&self, cid: usize, k: u32) -> (r: Result<String, VMError>)
        requires
            (cid as int) < self.codes@.len(),
        ensures
            (k as int) < self.codes@[cid as int].names@.len() ==> (r matches Ok(n) && n@ == self.codes@[cid as int].names@[k as int]@),
            (k as int) >= self.codes@[cid as int].names@.len() ==> (r matches Err(e) && e.view() == ErrorView::Builtin(
                ExceptionKind::RuntimeError,
                invalid_name_text(k as int, self.codes@[cid as int].names@.len() as int),
            )),
    {
        let names = &self.codes[cid].names;
        if (k as usize) < names.len() {
            Ok(names[k as usize].clone())
        } else {
            let a = u64_to_decimal(k as u64);
            let b = u64_to_decimal(names.len() as u64);
            let m1 = concat3("invalid name index ", a.as_str(), " (names len=");
            let msg = concat3(m1.as_str(), b.as_str(), ")");
            proof {
                assert(decimal(k as int) == nat_digits(k as nat));
                assert(decimal(names@.len() as int) == nat_digits(names@.len() as nat));
            }
            Err(VMError::RuntimeError(msg))
        }
    }

    /// Asks the host `req`; its answer is for `res`.
    pub(crate) fn ask(&mut self, req: HostRequest, res: Resume) -> (r: Outcome)
        requires
            old(self).wf(),
            old(self).running,
            old(self).waiting is None,
        ensures
            final(self).wf(),
            final(self).same_tables(*old(self)),
            final(self).protocol(r),
            r == Outcome::Host(req),
            final(self).waiting == Some(res),
            *final(self) == (VM { waiting: Some(res), ..*old(self) }),
            final(self).frame == old(self).frame,
            final(self).frame_stack == old(self).frame_stack,
            final(self).block_globals == old(self).block_globals,
            final(self).struct_types == old(self).struct_types,
            final(self).enum_types == old(self).enum_types,
    {
        self.waiting = Some(res);
        Outcome::Host(req)
    }

    /// What `op_load_scope` leads to (`r` and `post`), from this VM.
    pub open spec fn load_scope_done(&self, k: u32, r: Outcome, post: VM) -> bool {
        &&& (post.same_tables(*self))
        &&& (carried(self.load_scope_effect(k), self.frame.state(), self.callers(), r, post))
    }

    /// `LoadScope k`: pushes the value of name `k`: the `super` proxy, then
    /// the captured variables of the closure chain, then module globals, then
    /// the globals the chain ends in; failing those, the host's globals.
    pub fn op_load_scope(&mut self, k: u32) -> (r: Outcome)
        requires
            old(self).wf(),
            old(self).running,
            old(self).waiting is None,
        ensures
            final(self).wf(),
            final(self).protocol(r),
            old(self).load_scope_done(k, r, *final(self)),
    {
        let cid = self.frame.code.unwrap();
        let name = match self.name_at(cid, k) {
            Ok(n) => n,
            Err(e) => return self.raise(e),
        };
        if str_equal(name.as_str(), "super") {
            match self.frame.super_proxy {
                Some(h) => {
                    self.frame.stack.push(Value::Obj(h));
                    return Outcome::Running;
                },
                None => {},
            }
        }
        match self.frame.closure_scope {
            Some(c) => {
                let sc = NativeClosureScope { id: c };
                match sc.resolve_captured_chain(&self.scopes, name.as_str()) {
                    Some(v) => {
                        self.frame.stack.push(v);
                        return Outcome::Running;
                    },
                    None => {},
                }
            },
            None => {},
        }
        match name_map_get(&self.globals, name.as_str()) {
            Some(v) => {
                self.frame.stack.push(v);
                return Outcome::Running;
            },
            None => {},
        }
        match self.frame.closure_scope {
            Some(c) => {
                let sc = NativeClosureScope { id: c };
                match sc.resolve_with_host(&self.scopes, name.as_str()) {
                    HostLookup::Found(v) => {
                        self.frame.stack.push(v);
                        return Outcome::Running;
                    },
                    HostLookup::AskHost(h) => {
                        return self.ask(HostRequest::LookupIn(h, name), Resume::PushOrLookup(k));
                    },
                    HostLookup::NotFound => {},
                }
            },
            None => {},
        }
        self.ask(HostRequest::Lookup(name), Resume::PushOrNameError(k))
    }

    /// What `op_load_global` leads to (`r` and `post`), from this VM.
    pub open spec fn load_global_done(&self, k: u32, r: Outcome, post: VM) -> bool {
        &&& (post.same_tables(*self))
        &&& (carried(self.load_global_effect(k), self.frame.state(), self.callers(), r, post))
    }

    /// `LoadGlobal k`: pushes the module global named `k`, else asks the
    /// host's globals.
    pub fn op_load_global(&mut self, k: u32) -> (r: Outcome)
        requires
            old(self).wf(),
            old(self).running,
            old(self).waiting is None,
        ensures
            final(self).wf(),
            final(self).protocol(r),
            old(self).load_global_done(k, r, *final(self)),
    {
        let cid = self.frame.code.unwrap();
        let name = match self.name_at(cid, k) {
            Ok(n) => n,
            Err(e) => return self.raise(e),
        };
        match name_map_get(&self.globals, name.as_str()) {
            Some(v) => {
                self.frame.stack.push(v);
                Outcome::Running
            },
            None => self.ask(HostRequest::Lookup(name), Resume::PushOrNameError(k)),
        }
    }

    /// Stores `value` as module global `name` and in the host's globals.
    fn store_global(&mut self, name: String, value: Value) -> (r: Outcome)
        requires
            old(self).wf(),
            old(self).running,
            old(self).waiting is None,
        ensures
            final(self).wf(),
            final(self).protocol(r),
            final(self).codes == old(self).codes,
            name_map_entries(final(self).globals) == entry_insert(name_map_entries(old(self).globals), name@, value),
            r == Outcome::Host(HostRequest::Store(name, value)),
            final(self).frame == old(self).frame,
            final(self).frame_stack == old(self).frame_stack,
            final(self).running,
            final(self).waiting == Some(Resume::Ignore),
            final(self).scopes == old(self).scopes,
    {
        let copy = name.clone();
        name_map_insert(&mut self.globals, copy, value);
        self.waiting = Some(Resume::Ignore);
        Outcome::Host(HostRequest::Store(name, value))
    }

    /// What `op_store_scope` leads to (`r` and `post`), from this VM.
    pub open spec fn store_scope_result(&self, k: u32, r: Outcome, post: VM) -> bool {
        &&& (self.store_scope_done(k, r, post))
    }

    /// `StoreScope k`: pops a value and binds name `k` to it: in its local
    /// slot when the code has one; then in the closure chain when the name is
    /// bound there (updating a module global of that name too), else as a
    /// module global, also stored in the host's globals.
    pub fn op_store_scope(&mut self, k: u32) -> (r: Outcome)
        requires
            old(self).wf(),
            old(self).running,
            old(self).waiting is None,
        ensures
            final(self).wf(),
            final(self).protocol(r),
            final(self).codes == old(self).codes,
            old(self).store_scope_result(k, r, *final(self)),
    {
        let cid = self.frame.code.unwrap();
        let name = match self.name_at(cid, k) {
            Ok(n) => n,
            Err(e) => return self.raise(e),
        };
        let slot = self.codes[cid].slot_of(name.as_str());
        let value = pop_value(&mut self.frame.stack);
        match slot {
            Some(i) => write_slot(&mut self.frame.locals, i, value),
            None => {},
        }
        match self.frame.closure_scope {
            None => self.store_global(name, value),
            Some(c) => {
                let sc = NativeClosureScope { id: c };
                match sc.resolve_with_host(&self.scopes, name.as_str()) {
                    HostLookup::Found(_) => {
                        if name_map_get(&self.globals, name.as_str()).is_some() {
                            name_map_insert(&mut self.globals, name.clone(), value);
                        }
                        let ghost before = self.scopes;
                        proof {
                            before.lemma_found_is_bound(c as int, name@);
                        }
                        let res = sc.set_with_host(&mut self.scopes, name.as_str(), value);
                        proof {
                            match before.spec_binding_scope(c as int, name@) {
                                Some(b) => {
                                    if value != Value::Nil {
                                        crate::laws::law_scope_write_read(before, self.scopes, c as int, b, name@, value);
                                    }
                                },
                                None => {},
                            }
                        }
                        match res {
                            HostStore::AskHost(h) => self.ask(HostRequest::StoreIn(h, name, value), Resume::Ignore),
                            _ => Outcome::Running,
                        }
                    },
                    HostLookup::NotFound => self.store_global(name, value),
                    HostLookup::AskHost(h) => self.ask(
                        HostRequest::StoreIn(h, name, value),
                        Resume::StoreOrGlobal { name: k, value },
                    ),
                }
            },
        }
    }

    /// The names of the module globals, in order.
    pub fn global_names(&self) -> (r: Vec<String>)
        ensures
            r@.len() == name_map_entries(self.globals).len(),
            forall|i: int| 0 <= i < r@.len() ==> (#[trigger] r@[i])@ == name_map_entries(self.globals)[i].0,
    {
        let n = name_map_len(&self.globals);
        let mut out: Vec<String> = Vec::new();
        let mut i: usize = 0;
        while i < n
            invariant
                n == name_map_entries(self.globals).len(),
                i <= n,
                out@.len() == i,
                forall|j: int| 0 <= j < i ==> (#[trigger] out@[j])@ == name_map_entries(self.globals)[j].0,
            decreases n - i,
        {
            match name_map_get_index(&self.globals, i) {
                Some((k, _)) => out.push(k),
                None => {},
            }
            i = i + 1;
        }
        out
    }

    /// What `op_call` leads to (`r` and `post`), from this VM.
    pub open spec fn call_done(&self, n: u32, src_byte: u32, r: Outcome, post: VM) -> bool {
        &&& (self.frame.stack@.len() <= n ==> raised(
                self.frame.state(),
                self.callers(),
                ErrorView::StackUnderflow,
                r,
                post,
            ))
        &&& (self.frame.stack@.len() > n ==> self.called(n as int, r, post))
    }

    /// `Call n`: calls the callable below the top `n` values with them as
    /// positional arguments. A VM function runs in a new frame (its caller
    /// waits below it); any other callable is called by the host.
    pub fn op_call(&mut self, n: u32, src_byte: u32) -> (r: Outcome)
        requires
            old(self).wf(),
            old(self).running,
            old(self).waiting is None,
        ensures
            final(self).wf(),
            final(self).protocol(r),
            final(self).codes == old(self).codes,
            old(self).call_done(n, src_byte, r, *final(self)),
    {
        let len = self.frame.stack.len();
        let n = n as usize;
        if n >= len {
            return self.raise(VMError::StackUnderflow);
        }
        let args = self.frame.stack.split_off(len - n);
        let func = pop_value(&mut self.frame.stack);
        let ghost cur = self.frame.state();
        proof {
            let st = old(self).frame.stack@;
            assert(st.subrange(0, len - n as int).drop_last() =~= st.subrange(0, len - n as int - 1));
            assert(func == st[len - n as int - 1]);
            assert(cur == FrameState { stack: st.subrange(0, len - n as int - 1), ..old(self).frame.state() });
        }
        match func {
            Value::Func(idx) => {
                if (idx as usize) >= self.func_table.len() {
                    let a = u64_to_decimal(idx as u64);
                    let b = u64_to_decimal(self.func_table.len() as u64);
                    let m1 = concat3("invalid function index ", a.as_str(), " (table has ");
                    let msg = concat3(m1.as_str(), b.as_str(), " entries)");
                    proof {
                        assert(decimal(idx as int) == nat_digits(idx as nat));
                        assert(decimal(self.func_table@.len() as int) == nat_digits(self.func_table@.len() as nat));
                    }
                    return self.raise(VMError::RuntimeError(msg));
                }
                let slot = self.func_table[idx as usize];
                let nlocals = self.codes[slot.code].nlocals;
                let excess = excess_of(&self.codes[slot.code], args.as_slice());
                let mut nf = self.frame_pool.alloc_with_code(slot.code, nlocals);
                nf.bind_args(&self.codes[slot.code], args.as_slice(), &[]);
                nf.closure_scope = match slot.closure {
                    Some(c) => Some(c.id),
                    None => None,
                };
                let fname = self.codes[slot.code].name.clone();
                self.call_stack.push(CallInfo { name: fname, call_start_byte: src_byte });
                std::mem::swap(&mut nf, &mut self.frame);
                self.frame_stack.push(nf);
                proof {
                    assert forall|i: int| 0 <= i < self.frame_stack@.len() implies self.frame_ok(#[trigger] self.frame_stack@[i]) by {
                        if i < self.frame_stack@.len() - 1 {
                            assert(self.frame_stack@[i] == old(self).frame_stack@[i]);
                        }
                    }
                    assert(self.frame_stack@.last().state() == cur);
                    assert(self.callers() =~= old(self).callers().push(cur));
                }
                if self.codes[slot.code].vararg_idx >= 0 {
                    let v = self.codes[slot.code].vararg_idx as usize;
                    return self.ask(HostRequest::Build(false, excess), Resume::StoreJump { slot: v, target: 0 });
                }
                Outcome::Running
            },
            Value::Obj(h) => match self.find_struct_type(h) {
                Some(t) => self.instantiate(t, args),
                None => self.ask(HostRequest::Call(func, args), Resume::Push),
            },
            _ => self.ask(HostRequest::Call(func, args), Resume::Push),
        }
    }

    /// Records a successful match, or pushes `Nil` for no match.
    fn settle_match(&mut self, m: MatchOutcome, k: u32, value: Value, assign: bool) -> (r: Outcome)
        requires
            old(self).wf(),
            old(self).running,
            old(self).waiting is None,
        ensures
            final(self).wf(),
            final(self).protocol(r),
            final(self).codes == old(self).codes,
            final(self).tuples == old(self).tuples,
            match m {
                MatchOutcome::NoMatch => r is Running && final(self).frame.state() == FrameState {
                    stack: old(self).frame.stack@.push(Value::Nil),
                    ..old(self).frame.state()
                } && final(self).callers() == old(self).callers(),
                MatchOutcome::Bound(bs) => r is Running && final(self).frame.state() == FrameState {
                    stack: old(self).frame.stack@.push(Value::Bool(true)),
                    bindings: Some(bs@),
                    ..old(self).frame.state()
                } && final(self).callers() == old(self).callers(),
                MatchOutcome::Host => carried(
                    Effect::Ask(HostView::Match(k, value), Resume::MatchReply),
                    old(self).frame.state(),
                    old(self).callers(),
                    r,
                    *final(self),
                ),
                MatchOutcome::Ask(o, e) => carried(
                    Effect::Ask(fact_query(o, e), fact_resume(k, value, o, e, assign)),
                    old(self).frame.state(),
                    old(self).callers(),
                    r,
                    *final(self),
                ),
                MatchOutcome::AskType(o) => carried(
                    Effect::Ask(HostView::StructName(o), Resume::MatchType { k, value, subject: o }),
                    old(self).frame.state(),
                    old(self).callers(),
                    r,
                    *final(self),
                ),
                MatchOutcome::AskAttr(o, a) => carried(
                    Effect::Ask(HostView::MatchAttr(o, a@), Resume::MatchAttr { k, value, subject: o }),
                    old(self).frame.state(),
                    old(self).callers(),
                    r,
                    *final(self),
                ) && final(self).match_attr@ == a@,
                MatchOutcome::AskText(o, t) => carried(
                    Effect::Ask(HostView::EqualsText(o, t@), Resume::MatchText { k, value, subject: o }),
                    old(self).frame.state(),
                    old(self).callers(),
                    r,
                    *final(self),
                ) && final(self).match_attr@ == t@,
                MatchOutcome::AskBound(n) => carried(
                    Effect::Ask(HostView::HasGlobals(seq![n@]), Resume::MatchBound { k, value }),
                    old(self).frame.state(),
                    old(self).callers(),
                    r,
                    *final(self),
                ) && final(self).match_attr@ == n@,
                MatchOutcome::Error(e) => raised(old(self).frame.state(), old(self).callers(), e.view(), r, *final(self)),
            },
    {
        match m {
            MatchOutcome::NoMatch => {
                self.frame.stack.push(Value::Nil);
                Outcome::Running
            },
            MatchOutcome::Bound(bs) => {
                self.frame.match_bindings = Some(bs);
                self.frame.stack.push(Value::Bool(true));
                Outcome::Running
            },
            MatchOutcome::Host => self.ask(HostRequest::Match(k, value), Resume::MatchReply),
            MatchOutcome::Ask(o, e) => {
                let res = if assign {
                    Resume::AssignFact { k, value, subject: o }
                } else {
                    Resume::MatchFact { k, value, subject: o, literal: e }
                };
                match e {
                    Some(lit) => self.ask(HostRequest::Equal(o, lit, false), res),
                    None => self.ask(HostRequest::SeqItems(o), res),
                }
            },
            MatchOutcome::AskType(o) => self.ask(HostRequest::StructName(o), Resume::MatchType { k, value, subject: o }),
            MatchOutcome::AskAttr(o, a) => {
                self.match_attr = a.clone();
                self.ask(HostRequest::MatchAttr(o, a), Resume::MatchAttr { k, value, subject: o })
            },
            MatchOutcome::AskText(o, t) => {
                self.match_attr = t.clone();
                self.ask(HostRequest::EqualsText(o, t), Resume::MatchText { k, value, subject: o })
            },
            MatchOutcome::AskBound(n) => {
                self.match_attr = n.clone();
                let mut names: Vec<String> = Vec::new();
                names.push(n);
                proof {
                    assert(names@.map_values(|s: String| s@) =~= seq![self.match_attr@]);
                }
                self.ask(HostRequest::HasGlobals(names), Resume::MatchBound { k, value })
            },
            MatchOutcome::Error(e) => self.raise(e),
        }
    }

    /// What `op_match_pattern` leads to (`r` and `post`), from this VM.
    pub open spec fn match_pattern_done(&self, k: u32, r: Outcome, post: VM) -> bool {
        &&& (({
                let value = top(self.frame.stack@);
                let cur = FrameState { stack: pop1(self.frame.stack@), bindings: None, ..self.frame.state() };
                if (k as int) < self.cur_code().patterns@.len() {
                    matched(
                        spec_match(
                            self.cur_code().patterns@[k as int],
                            value,
                            self.tuples@,
                            self.struct_registry,
                            self.symbol_table@,
                            self.match_scope(),
                            no_facts(),
                        ),
                        self.tuples@,
                        cur,
                        self.callers(),
                        k,
                        value,
                        false,
                        r,
                        post,
                    )
                } else {
                    r is Running && post.frame.state() == FrameState { stack: cur.stack.push(Value::Nil), ..cur }
                        && post.callers() == self.callers()
                }
            }))
    }

    /// `MatchPatternVM k`: matches the popped value against pattern `k`; on
    /// a match the bindings are recorded and `True` is pushed, else `Nil`.
    /// Enum names resolve among the module globals.
    pub fn op_match_pattern(&mut self, k: u32) -> (r: Outcome)
        requires
            old(self).wf(),
            old(self).running,
            old(self).waiting is None,
        ensures
            final(self).wf(),
            final(self).protocol(r),
            final(self).codes == old(self).codes,
            old(self).match_pattern_done(k, r, *final(self)),
    {
        let value = pop_value(&mut self.frame.stack);
        self.frame.match_bindings = None;
        self.match_facts = MatchFacts::new();
        proof {
            assert(self.match_facts@.eqs =~= no_facts().eqs);
            assert(self.match_facts@.items =~= no_facts().items);
            assert(self.match_facts@.names =~= no_facts().names);
            assert(self.match_facts@.types =~= no_facts().types);
            assert(self.match_facts@.attrs =~= no_facts().attrs);
            assert(self.match_facts@.texts =~= no_facts().texts);
            assert(self.match_facts@.bound =~= no_facts().bound);
        }
        self.rematch(k, value, false)
    }

    /// The enum names a match finds in scope without asking the host: the
    /// module globals, then the names the running frame's closure chain
    /// binds.
    pub open spec fn match_scope(&self) -> Seq<Seq<char>> {
        global_keys(name_map_entries(self.globals)) + match self.frame.closure_scope {
            Some(c) => self.scopes.chain_keys(c as int),
            None => Seq::empty(),
        }
    }

    /// Matching `value` against pattern `k` of the running code, with the
    /// host's answers `facts` so far, from this VM (`r` and `post`): an
    /// index past the patterns pushes `Nil`; else as `matched` says.
    pub open spec fn rematched(&self, k: u32, value: Value, assign: bool, facts: FactsView, r: Outcome, post: VM) -> bool {
        let cur = self.frame.state();
        if assign {
            if (k as int) < self.cur_code().patterns@.len() {
                matched(
                    spec_match_assign(self.cur_code().patterns@[k as int], value, self.tuples@, facts),
                    self.tuples@,
                    cur,
                    self.callers(),
                    k,
                    value,
                    true,
                    r,
                    post,
                )
            } else {
                raised(
                    cur,
                    self.callers(),
                    ErrorView::Builtin(ExceptionKind::RuntimeError, "Invalid assignment pattern index"@),
                    r,
                    post,
                )
            }
        } else if (k as int) < self.cur_code().patterns@.len() {
            matched(
                spec_match(
                    self.cur_code().patterns@[k as int],
                    value,
                    self.tuples@,
                    self.struct_registry,
                    self.symbol_table@,
                    self.match_scope(),
                    facts,
                ),
                self.tuples@,
                cur,
                self.callers(),
                k,
                value,
                false,
                r,
                post,
            )
        } else {
            r is Running && post.frame.state() == FrameState { stack: cur.stack.push(Value::Nil), ..cur }
                && post.callers() == self.callers()
        }
    }

    /// Matches `value` (already popped) against pattern `k` of the running
    /// code, with the host's answers recorded so far.
    fn rematch(&mut self, k: u32, value: Value, assign: bool) -> (r: Outcome)
        requires
            old(self).wf(),
            old(self).running,
            old(self).waiting is None,
        ensures
            final(self).wf(),
            final(self).protocol(r),
            final(self).codes == old(self).codes,
            old(self).rematched(k, value, assign, old(self).match_facts@, r, *final(self)),
    {
        let cid = self.frame.code.unwrap();
        if assign {
            if (k as usize) >= self.codes[cid].patterns.len() {
                return self.raise(VMError::RuntimeError(String::from_str("Invalid assignment pattern index")));
            }
            let m = vm_match_assign_pattern(&self.codes[cid].patterns[k as usize], value, &mut self.tuples, &self.match_facts);
            return self.settle_match(m, k, value, true);
        }
        if (k as usize) >= self.codes[cid].patterns.len() {
            self.frame.stack.push(Value::Nil);
            return Outcome::Running;
        }
        let mut scope = self.global_names();
        let ghost g = scope@.map_values(|s: String| s@);
        proof {
            assert(g =~= global_keys(name_map_entries(self.globals)));
        }
        match self.frame.closure_scope {
            Some(c) => {
                let mut chain = NativeClosureScope { id: c }.chain_names(&self.scopes);
                let ghost cv = chain@.map_values(|s: String| s@);
                scope.append(&mut chain);
                proof {
                    assert(scope@.map_values(|s: String| s@) =~= g + cv);
                }
            },
            None => {
                proof {
                    assert(g + Seq::<Seq<char>>::empty() =~= g);
                }
            },
        }
        let sl = scope.as_slice();
        proof {
            assert(scope_view(sl) =~= self.match_scope());
        }
        let m = vm_match_pattern(
            &self.codes[cid].patterns[k as usize],
            value,
            &self.struct_registry,
            &mut self.tuples,
            &self.symbol_table,
            sl,
            &self.match_facts,
        );
        self.settle_match(m, k, value, false)
    }

    /// What `op_match_assign` leads to (`r` and `post`), from this VM.
    pub open spec fn match_assign_done(&self, k: u32, r: Outcome, post: VM) -> bool {
        &&& (({
                let value = top(self.frame.stack@);
                let cur = FrameState { stack: pop1(self.frame.stack@), bindings: None, ..self.frame.state() };
                if (k as int) < self.cur_code().patterns@.len() {
                    matched(
                        spec_match_assign(self.cur_code().patterns@[k as int], value, self.tuples@, no_facts()),
                        self.tuples@,
                        cur,
                        self.callers(),
                        k,
                        value,
                        true,
                        r,
                        post,
                    )
                } else {
                    raised(
                        cur,
                        self.callers(),
                        ErrorView::Builtin(ExceptionKind::RuntimeError, "Invalid assignment pattern index"@),
                        r,
                        post,
                    )
                }
            }))
    }

    /// `MatchAssignPatternVM k`: strict matching of the popped value against
    /// assignment pattern `k`: a mismatch raises.
    pub fn op_match_assign(&mut self, k: u32) -> (r: Outcome)
        requires
            old(self).wf(),
            old(self).running,
            old(self).waiting is None,
        ensures
            final(self).wf(),
            final(self).protocol(r),
            final(self).codes == old(self).codes,
            old(self).match_assign_done(k, r, *final(self)),
    {
        let value = pop_value(&mut self.frame.stack);
        self.frame.match_bindings = None;
        self.match_facts = MatchFacts::new();
        proof {
            assert(self.match_facts@.eqs =~= no_facts().eqs);
            assert(self.match_facts@.items =~= no_facts().items);
            assert(self.match_facts@.names =~= no_facts().names);
            assert(self.match_facts@.types =~= no_facts().types);
            assert(self.match_facts@.attrs =~= no_facts().attrs);
            assert(self.match_facts@.texts =~= no_facts().texts);
            assert(self.match_facts@.bound =~= no_facts().bound);
        }
        self.rematch(k, value, true)
    }

    /// What `op_get_attr` leads to (`r` and `post`), from this VM.
    pub open spec fn get_attr_done(&self, k: u32, r: Outcome, post: VM) -> bool {
        &&& (self.name_of(k) is None ==> raised(self.frame.state(), self.callers(), self.bad_name(k), r, post))
        &&& (self.name_of(k) matches Some(name) ==> carried(
                self.get_attr_effect(name, top(self.frame.stack@)),
                FrameState { stack: pop1(self.frame.stack@), ..self.frame.state() },
                self.callers(),
                r,
                post,
            ))
    }

    /// `GetAttr k`: replaces the popped object by its attribute `k`: a struct
    /// field natively; a struct method or any attribute of another value by
    /// the host. A struct without such a field or method raises.
    pub fn op_get_attr(&mut self, k: u32) -> (r: Outcome)
        requires
            old(self).wf(),
            old(self).running,
            old(self).waiting is None,
        ensures
            final(self).wf(),
            final(self).protocol(r),
            final(self).codes == old(self).codes,
            old(self).get_attr_done(k, r, *final(self)),
    {
        let cid = self.frame.code.unwrap();
        let name = match self.name_at(cid, k) {
            Ok(n) => n,
            Err(e) => return self.raise(e),
        };
        let obj = pop_value(&mut self.frame.stack);
        match obj {
            Value::Struct(idx) => {
                match self.struct_registry.instance(idx) {
                    Some(inst) => {
                        proof {
                            self.struct_registry.lemma_instance(idx as int);
                        }
                        let ty = self.struct_registry.get_type(inst.type_id).unwrap();
                        match ty.field_index(name.as_str()) {
                            Some(f) => {
                                let v = inst.fields[f];
                                self.frame.stack.push(v);
                                Outcome::Running
                            },
                            None => {
                                if names_contain(&ty.methods, name.as_str()) {
                                    self.ask(HostRequest::GetAttr(obj, name), Resume::Push)
                                } else {
                                    let msg = attr_message(ty.name.as_str(), name.as_str());
                                    self.raise(VMError::RuntimeError(msg))
                                }
                            },
                        }
                    },
                    None => self.ask(HostRequest::GetAttr(obj, name), Resume::Push),
                }
            },
            Value::Obj(h) => match self.find_enum_type(h) {
                Some(e) => {
                    let ety = self.enum_registry.get_type(e).unwrap();
                    match ety.variant_symbol(name.as_str()) {
                        Some(sym) => {
                            self.frame.stack.push(Value::Symbol(sym));
                            Outcome::Running
                        },
                        None => {
                            let msg = no_variant_message(ety.name.as_str(), name.as_str());
                            self.raise(VMError::RuntimeError(msg))
                        },
                    }
                },
                None => self.ask(HostRequest::GetAttr(obj, name), Resume::Push),
            },
            _ => self.ask(HostRequest::GetAttr(obj, name), Resume::Push),
        }
    }

    /// The enum type host object `h` stands for.
    pub fn find_enum_type(&self, h: u64) -> (r: Option<u32>)
        ensures
            r matches Some(e) ==> self.enum_type_of(h) == Some(e as int),
            r is None ==> self.enum_type_of(h) is None,
    {
        let mut i: usize = self.enum_types.len();
        assert(self.enum_types@.subrange(0, i as int) =~= self.enum_types@);
        while i > 0
            invariant
                i <= self.enum_types@.len(),
                handle_entry(self.enum_types@, h) == handle_entry(self.enum_types@.subrange(0, i as int), h),
            decreases i,
        {
            let (k, e) = self.enum_types[i - 1];
            let ghost pre = self.enum_types@.subrange(0, i as int);
            assert(pre.drop_last() =~= self.enum_types@.subrange(0, i - 1));
            if k == h {
                return if (e as usize) < self.enum_registry.num_types() { Some(e) } else { None };
            }
            i = i - 1;
        }
        None
    }

    /// Registers host object `h` as standing for enum type `type_id`.
    pub fn register_enum_handle(&mut self, h: u64, type_id: u32)
        requires
            old(self).wf(),
        ensures
            final(self).wf(),
            final(self).enum_types@ == old(self).enum_types@.push((h, type_id)),
            final(self).running == old(self).running,
            final(self).waiting == old(self).waiting,
            final(self).frame == old(self).frame,
            final(self).frame_stack == old(self).frame_stack,
            final(self).same_tables(*old(self)),
    {
        self.enum_types.push((h, type_id));
    }

    /// What `op_set_attr` leads to (`r` and `post`), from this VM.
    pub open spec fn set_attr_result(&self, k: u32, r: Outcome, post: VM) -> bool {
        &&& (self.name_of(k) is None ==> raised(self.frame.state(), self.callers(), self.bad_name(k), r, post))
        &&& (self.name_of(k) matches Some(name) ==> self.set_attr_done(
                name,
                top(pop1(self.frame.stack@)),
                top(self.frame.stack@),
                FrameState { stack: pop1(pop1(self.frame.stack@)), ..self.frame.state() },
                r,
                post,
            ))
    }

    /// `SetAttr k`: pops a value and an object and sets the object's
    /// attribute `k`: a struct field natively, another value's attribute by
    /// the host. A struct without such a field raises.
    pub fn op_set_attr(&mut self, k: u32) -> (r: Outcome)
        requires
            old(self).wf(),
            old(self).running,
            old(self).waiting is None,
        ensures
            final(self).wf(),
            final(self).protocol(r),
            final(self).codes == old(self).codes,
            old(self).set_attr_result(k, r, *final(self)),
    {
        let cid = self.frame.code.unwrap();
        let name = match self.name_at(cid, k) {
            Ok(n) => n,
            Err(e) => return self.raise(e),
        };
        let value = pop_value(&mut self.frame.stack);
        let obj = pop_value(&mut self.frame.stack);
        match obj {
            Value::Struct(idx) => {
                let found = match self.struct_registry.instance(idx) {
                    Some(inst) => {
                        proof {
                            self.struct_registry.lemma_instance(idx as int);
                        }
                        let ty = self.struct_registry.get_type(inst.type_id).unwrap();
                        match ty.field_index(name.as_str()) {
                            Some(f) => Ok(f),
                            None => Err(attr_message(ty.name.as_str(), name.as_str())),
                        }
                    },
                    None => Err(String::new()),
                };
                match found {
                    Ok(f) => {
                        self.struct_registry.set_field(idx, f, value);
                        Outcome::Running
                    },
                    Err(msg) => {
                        if (idx as usize) < self.struct_registry.num_instances_exec() {
                            self.raise(VMError::RuntimeError(msg))
                        } else {
                            self.ask(HostRequest::SetAttr(obj, name, value), Resume::Ignore)
                        }
                    },
                }
            },
            _ => self.ask(HostRequest::SetAttr(obj, name, value), Resume::Ignore),
        }
    }

    /// The exception raised for a struct instance of type `tname` with
    /// message `msg`: its MRO is that of the first type of that name, else
    /// `[tname, "Exception"]`.
    fn struct_exception(&self, tname: String, msg: String) -> (r: ExceptionInfo)
        requires
            self.struct_registry.wf(),
        ensures
            r.view() == self.struct_exception_view(tname@, msg@),
    {
        let mro = match self.struct_registry.find_type_by_name(tname.as_str()) {
            Some(t) => {
                proof {
                    self.struct_registry.lemma_type_names(t as int);
                }
                let ty = self.struct_registry.get_type(t).unwrap();
                copy_strings(&ty.mro)
            },
            None => {
                let mut m: Vec<String> = Vec::new();
                m.push(tname.clone());
                m.push(String::from_str("Exception"));
                assert(m@.map_values(|s: String| s@) =~= seq![tname@, "Exception"@]);
                m
            },
        };
        ExceptionInfo { exc_type: tname, message: msg, mro }
    }

    /// What `op_raise_value` leads to (`r` and `post`), from this VM.
    pub open spec fn raise_value_done(&self, r: Outcome, post: VM) -> bool {
        &&& (self.raised_value(
                top(self.frame.stack@),
                FrameState { stack: pop1(self.frame.stack@), ..self.frame.state() },
                r,
                post,
            ))
    }

    /// `Raise` with an operand: raises the popped value. A struct instance
    /// raises an exception named after its type, with its first field as the
    /// message; another value is described by the host.
    pub fn op_raise_value(&mut self) -> (r: Outcome)
        requires
            old(self).wf(),
            old(self).running,
            old(self).waiting is None,
        ensures
            final(self).wf(),
            final(self).protocol(r),
            final(self).codes == old(self).codes,
            old(self).raise_value_done(r, *final(self)),
    {
        let val = pop_value(&mut self.frame.stack);
        match val {
            Value::Struct(idx) => {
                let info = match self.struct_registry.instance(idx) {
                    Some(inst) => {
                        proof {
                            self.struct_registry.lemma_instance(idx as int);
                        }
                        let ty = self.struct_registry.get_type(inst.type_id).unwrap();
                        let tname = ty.name.clone();
                        if inst.fields.len() == 0 {
                            self.struct_exception(tname, String::new())
                        } else {
                            match native_text(inst.fields[0]) {
                                Some(m) => self.struct_exception(tname, m),
                                None => {
                                    let first = inst.fields[0];
                                    return self.ask(HostRequest::Text(first), Resume::RaiseStruct(idx));
                                },
                            }
                        }
                    },
                    None => self.struct_exception(String::from_str("RuntimeError"), String::new()),
                };
                self.raise(VMError::UserException(info))
            },
            _ => self.ask(HostRequest::Describe(val), Resume::RaiseDescribed),
        }
    }

    /// What `op_return` leads to (`r` and `post`), from this VM.
    pub open spec fn return_done(&self, r: Outcome, post: VM) -> bool {
        &&& (({
                let st = self.frame.stack@;
                let s1 = FrameState { stack: pop1(st), ..self.frame.state() };
                let u = try_unwind(s1, ErrorView::Return(top(st)));
                if self.frame.handler_stack@.len() > 0 && u is Some {
                    r is Running && post.frame.state() == u.unwrap() && post.callers() == self.callers()
                } else {
                    returned(self.callers(), self.frame.discard_return, top(st), r, post)
                }
            }))
    }

    /// `Return`: a `finally` handler first runs with the return pending;
    /// otherwise the frame returns the popped value to its caller.
    pub fn op_return(&mut self) -> (r: Outcome)
        requires
            old(self).wf(),
            old(self).running,
            old(self).waiting is None,
        ensures
            final(self).wf(),
            final(self).protocol(r),
            final(self).codes == old(self).codes,
            old(self).return_done(r, *final(self)),
    {
        if self.frame.handler_stack.len() > 0 {
            let v = pop_value(&mut self.frame.stack);
            let err = VMError::Return(v);
            proof {
                lemma_try_unwind_context(self.frame.state(), err.view());
            }
            if try_unwind_to_handler(&mut self.frame, &err) {
                return Outcome::Running;
            }
            self.frame.stack.push(v);
            proof {
                let st = old(self).frame.stack@;
                if st.len() > 0 {
                    assert(self.frame.stack@ =~= st);
                }
            }
        }
        let v = pop_value(&mut self.frame.stack);
        self.call_stack.pop();
        self.return_to_caller(v)
    }

    /// Copies into the module globals the locals of the running (main)
    /// frame whose names already are module globals, when they are bound.
    fn sync_globals(&mut self)
        requires
            old(self).wf(),
            old(self).running,
        ensures
            final(self).wf(),
            *final(self) == (VM { globals: final(self).globals, ..*old(self) }),
            name_map_entries(final(self).globals) == synced_globals(
                name_map_entries(old(self).globals),
                old(self).cur_code().slot_pairs(),
                old(self).frame.locals@,
                old(self).cur_code().slot_pairs().len() as int,
            ),
    {
        let cid = self.frame.code.unwrap();
        let n = self.codes[cid].slotmap.len();
        let mut i: usize = 0;
        while i < n
            invariant
                old(self).wf(),
                old(self).running,
                *self == (VM { globals: self.globals, ..*old(self) }),
                cid == self.frame.code.unwrap(),
                (cid as int) < self.codes@.len(),
                n == self.codes@[cid as int].slotmap@.len(),
                i <= n,
                name_map_entries(self.globals) == synced_globals(
                    name_map_entries(old(self).globals),
                    old(self).cur_code().slot_pairs(),
                    old(self).frame.locals@,
                    i as int,
                ),
            decreases n - i,
        {
            let slot = self.codes[cid].slotmap[i].1;
            proof {
                assert(old(self).cur_code().slot_pairs()[i as int] == (self.codes@[cid as int].slotmap@[i as int].0@, slot));
            }
            if name_map_get(&self.globals, self.codes[cid].slotmap[i].0.as_str()).is_some() && slot < self.frame.locals.len() {
                let v = self.frame.locals[slot];
                if !v.is_nil() {
                    let name = self.codes[cid].slotmap[i].0.clone();
                    name_map_insert(&mut self.globals, name, v);
                }
            }
            i = i + 1;
        }
        proof {
            assert(self.wf());
        }
    }

    /// What `op_halt` leads to (`r` and `post`), from this VM.
    pub open spec fn halt_done(&self, r: Outcome, post: VM) -> bool {
        &&& (r == Outcome::Done(top(self.frame.stack@)))
        &&& (!post.running)
        &&& (post.same_tables(VM { globals: post.globals, ..*self }))
        // The main frame copies its module-global locals into the
        // globals; a called frame leaves them as they are.
        &&& (name_map_entries(post.globals) == (if self.frame_stack@.len() == 0 {
                synced_globals(
                    name_map_entries(self.globals),
                    self.cur_code().slot_pairs(),
                    self.frame.locals@,
                    self.cur_code().slot_pairs().len() as int,
                )
            } else {
                name_map_entries(self.globals)
            }))
    }

    /// `Halt`: the run ends with the popped value; the main frame first
    /// copies its module-global locals back into the globals.
    pub fn op_halt(&mut self) -> (r: Outcome)
        requires
            old(self).wf(),
            old(self).running,
            old(self).waiting is None,
        ensures
            final(self).wf(),
            final(self).protocol(r),
            final(self).codes == old(self).codes,
            old(self).halt_done(r, *final(self)),
    {
        let v = pop_value(&mut self.frame.stack);
        if self.frame_stack.len() == 0 {
            self.sync_globals();
        }
        self.finish();
        Outcome::Done(v)
    }

    /// Name `k` of the running code, if it has one.
    pub open spec fn name_of(&self, k: u32) -> Option<Seq<char>> {
        if (k as int) < self.cur_code().names@.len() {
            Some(self.cur_code().names@[k as int]@)
        } else {
            None
        }
    }

    /// The error raised for a name index out of range.
    pub open spec fn bad_name(&self, k: u32) -> ErrorView {
        ErrorView::Builtin(ExceptionKind::RuntimeError, invalid_name_text(k as int, self.cur_code().names@.len() as int))
    }

    /// Effect of `LoadGlobal k`.
    pub open spec fn load_global_effect(&self, k: u32) -> Effect {
        match self.name_of(k) {
            None => Effect::Raise(self.bad_name(k)),
            Some(name) => match entry_lookup(name_map_entries(self.globals), name) {
                Some(v) => Effect::Push(v),
                None => Effect::Ask(HostView::Lookup(name), Resume::PushOrNameError(k)),
            },
        }
    }

    /// Effect of `LoadScope k`: the `super` proxy; the captured variables
    /// of the closure chain; the module globals; the globals the chain ends
    /// in (asking the host for host-held ones); the host's globals.
    pub open spec fn load_scope_effect(&self, k: u32) -> Effect {
        match self.name_of(k) {
            None => Effect::Raise(self.bad_name(k)),
            Some(name) => if name == "super"@ && self.frame.super_proxy is Some {
                Effect::Push(Value::Obj(self.frame.super_proxy.unwrap()))
            } else if self.frame.closure_scope is Some
                && self.scopes.spec_resolve_captured(self.frame.closure_scope.unwrap() as int, name) is Some {
                Effect::Push(self.scopes.spec_resolve_captured(self.frame.closure_scope.unwrap() as int, name).unwrap())
            } else if entry_lookup(name_map_entries(self.globals), name) is Some {
                Effect::Push(entry_lookup(name_map_entries(self.globals), name).unwrap())
            } else if self.frame.closure_scope is Some {
                match self.scopes.spec_resolve_host(self.frame.closure_scope.unwrap() as int, name) {
                    HostLookup::Found(v) => Effect::Push(v),
                    HostLookup::AskHost(h) => Effect::Ask(HostView::LookupIn(h, name), Resume::PushOrLookup(k)),
                    HostLookup::NotFound => Effect::Ask(HostView::Lookup(name), Resume::PushOrNameError(k)),
                }
            } else {
                Effect::Ask(HostView::Lookup(name), Resume::PushOrNameError(k))
            },
        }
    }

    /// The exception a struct instance of type `tname` raises with message
    /// `msg`: its MRO is that of the first type of that name, else
    /// `[tname, "Exception"]`.
    pub open spec fn struct_exception_view(&self, tname: Seq<char>, msg: Seq<char>) -> ExceptionView {
        let t = first_named(self.struct_registry.type_names(), tname, 0);
        ExceptionView {
            exc_type: tname,
            message: msg,
            mro: if t >= 0 { self.struct_registry.type_mro(t) } else { seq![tname, "Exception"@] },
        }
    }

    /// `Raise` of value `v` on frame `cur` (the value popped), with outcome
    /// `r` and VM `post`.
    pub open spec fn raised_value(&self, v: Value, cur: FrameState, r: Outcome, post: VM) -> bool {
        match v {
            Value::Struct(idx) => if (idx as int) < self.struct_registry.num_instances() {
                let t = self.struct_registry.instance_type(idx as int) as int;
                let tname = self.struct_registry.name_of_type(t);
                let fields = self.struct_registry.instance_fields(idx as int);
                if fields.len() == 0 {
                    raised(cur, self.callers(), ErrorView::User(self.struct_exception_view(tname, Seq::empty())), r, post)
                } else if fields[0] is Nil || fields[0] is Bool || fields[0] is Int {
                    raised(cur, self.callers(), ErrorView::User(self.struct_exception_view(tname, native_str(fields[0]))), r, post)
                } else {
                    carried(Effect::Ask(HostView::Text(fields[0]), Resume::RaiseStruct(idx)), cur, self.callers(), r, post)
                }
            } else {
                raised(cur, self.callers(), ErrorView::User(self.struct_exception_view("RuntimeError"@, Seq::empty())), r, post)
            },
            _ => carried(Effect::Ask(HostView::Describe(v), Resume::RaiseDescribed), cur, self.callers(), r, post),
        }
    }

    /// Effect of reading attribute `name` of `obj`: a struct field
    /// natively; a struct method or another value's attribute by the host; a
    /// struct without it raises.
    pub open spec fn get_attr_effect(&self, name: Seq<char>, obj: Value) -> Effect {
        match obj {
            Value::Struct(idx) => if (idx as int) < self.struct_registry.num_instances() {
                let t = self.struct_registry.instance_type(idx as int) as int;
                let f = field_index_from(self.struct_registry.type_fields(t), name, 0);
                if f >= 0 {
                    Effect::Push(self.struct_registry.instance_fields(idx as int)[f])
                } else if self.struct_registry.type_methods(t).contains(name) {
                    Effect::Ask(HostView::GetAttr(obj, name), Resume::Push)
                } else {
                    Effect::Raise(ErrorView::Builtin(ExceptionKind::RuntimeError, attr_text(self.struct_registry.name_of_type(t), name)))
                }
            } else {
                Effect::Ask(HostView::GetAttr(obj, name), Resume::Push)
            },
            Value::Obj(h) => match self.enum_type_of(h) {
                Some(e) => {
                    let ety = self.enum_registry.types()[e];
                    match variant_lookup(ety.variant_pairs(), name) {
                        Some(sym) => Effect::Push(Value::Symbol(sym)),
                        None => Effect::Raise(ErrorView::Builtin(ExceptionKind::RuntimeError, no_variant_text(ety.name@, name))),
                    }
                },
                None => Effect::Ask(HostView::GetAttr(obj, name), Resume::Push),
            },
            _ => Effect::Ask(HostView::GetAttr(obj, name), Resume::Push),
        }
    }

    /// The enum type host object `h` stands for, when it is registered.
    pub open spec fn enum_type_of(&self, h: u64) -> Option<int> {
        match handle_entry(self.enum_types@, h) {
            Some(e) => if (e as int) < self.enum_registry.types().len() { Some(e as int) } else { None },
            None => None,
        }
    }

    /// `StoreScope k` with outcome `r` and VM `post`: the popped value goes
    /// to the local slot of the name when the code has one; then, when the
    /// closure chain binds the name, there (and into a module global of that
    /// name if there is one), after which reading the name from the closure
    /// gives the value back; when host-held globals end the chain, the host
    /// says whether they bind it; otherwise it becomes a module global, also
    /// stored in the host's globals.
    pub open spec fn store_scope_done(&self, k: u32, r: Outcome, post: VM) -> bool {
        match self.name_of(k) {
            None => raised(self.frame.state(), self.callers(), self.bad_name(k), r, post),
            Some(name) => {
                let st = self.frame.stack@;
                let v = top(st);
                let locals2 = match slot_lookup(self.cur_code().slot_pairs(), name) {
                    Some(i) => set_slot(self.frame.locals@, i as int, v),
                    None => self.frame.locals@,
                };
                let cur = FrameState { stack: pop1(st), locals: locals2, ..self.frame.state() };
                let g = name_map_entries(self.globals);
                let to_module = name_map_entries(post.globals) == entry_insert(g, name, v) && carried(
                    Effect::Ask(HostView::Store(name, v), Resume::Ignore),
                    cur,
                    self.callers(),
                    r,
                    post,
                );
                match self.frame.closure_scope {
                    None => to_module,
                    Some(c) => match self.scopes.spec_resolve_host(c as int, name) {
                        HostLookup::NotFound => to_module,
                        HostLookup::AskHost(h) => name_map_entries(post.globals) == g && carried(
                            Effect::Ask(HostView::StoreIn(h, name, v), Resume::StoreOrGlobal { name: k, value: v }),
                            cur,
                            self.callers(),
                            r,
                            post,
                        ),
                        HostLookup::Found(_) => {
                            &&& name_map_entries(post.globals) == (if entry_lookup(g, name) is Some {
                                entry_insert(g, name, v)
                            } else {
                                g
                            })
                            &&& (v != Value::Nil && self.scopes.spec_binding_scope(c as int, name) is Some)
                                ==> post.scopes.spec_resolve(c as int, name) == Some(v)
                            &&& r is Running
                            &&& post.frame.state() == cur
                            &&& post.callers() == self.callers()
                        },
                    },
                }
            },
        }
    }

    /// Setting attribute `name` of `obj` to `value`, on frame `cur` (the
    /// operands popped), with outcome `r` and VM `post`: a struct field is
    /// set natively; a struct without such a field raises; another value's
    /// attribute is set by the host.
    pub open spec fn set_attr_done(&self, name: Seq<char>, obj: Value, value: Value, cur: FrameState, r: Outcome, post: VM) -> bool {
        let ask = carried(Effect::Ask(HostView::SetAttr(obj, name, value), Resume::Ignore), cur, self.callers(), r, post);
        match obj {
            Value::Struct(idx) => if (idx as int) < self.struct_registry.num_instances() {
                let t = self.struct_registry.instance_type(idx as int) as int;
                let f = field_index_from(self.struct_registry.type_fields(t), name, 0);
                if f >= 0 {
                    &&& r is Running
                    &&& post.running
                    &&& post.waiting is None
                    &&& post.frame.state() == cur
                    &&& post.callers() == self.callers()
                    &&& post.struct_registry.instance_fields(idx as int) == self.struct_registry.instance_fields(idx as int).update(f, value)
                } else {
                    raised(
                        cur,
                        self.callers(),
                        ErrorView::Builtin(ExceptionKind::RuntimeError, attr_text(self.struct_registry.name_of_type(t), name)),
                        r,
                        post,
                    )
                }
            } else {
                ask
            },
            _ => ask,
        }
    }

    /// Entering VM function `idx` with positional arguments `args` from
    /// frame `cur`: an index past the function table raises; else the
    /// function runs in a new frame with them bound (`cur` waits below it).
    /// A function with a `*args` parameter first has the host build the list
    /// of the excess arguments, which goes to that slot.
    pub open spec fn func_entered(&self, idx: u32, args: Seq<Value>, cur: FrameState, r: Outcome, post: VM) -> bool {
        if (idx as int) >= self.func_table@.len() {
            raised(
                cur,
                self.callers(),
                ErrorView::Builtin(ExceptionKind::RuntimeError, invalid_function_text(idx as int, self.func_table@.len() as int)),
                r,
                post,
            )
        } else {
            let slot = self.func_table@[idx as int];
            let code = self.codes@[slot.code as int];
            &&& post.running
            &&& post.callers() == self.callers().push(cur)
            &&& post.frame.code == Some(slot.code)
            &&& post.frame.ip == 0
            &&& post.frame.stack@.len() == 0
            &&& post.frame.locals@ == bound_locals(code, nils(code.nlocals as nat), args, Seq::empty(), Value::Nil)
            &&& post.frame.closure_scope == (match slot.closure {
                Some(c) => Some(c.id),
                None => None::<usize>,
            })
            &&& if code.vararg_idx >= 0 {
                &&& r matches Outcome::Host(req) && req.view() == HostView::Build(false, excess_args(code, args))
                &&& post.waiting == Some(Resume::StoreJump { slot: code.vararg_idx as usize, target: 0 })
            } else {
                r is Running && post.waiting is None
            }
        }
    }

    /// `Call n` with more than `n` values on the stack, with outcome `r` and
    /// VM `post` after it: a VM function whose arguments the tuple heap can
    /// take runs in a new frame, its caller (without the callable and
    /// arguments) waiting below it; an unknown function raises; any other
    /// callable is called by the host.
    pub open spec fn called(&self, n: int, r: Outcome, post: VM) -> bool {
        let st = self.frame.stack@;
        let len = st.len() as int;
        let args = st.subrange(len - n, len);
        let callee = st[len - n - 1];
        let cur = FrameState { stack: st.subrange(0, len - n - 1), ..self.frame.state() };
        let ask = carried(Effect::Ask(HostView::Call(callee, args), Resume::Push), cur, self.callers(), r, post);
        match callee {
            Value::Func(idx) => self.func_entered(idx, args, cur, r, post),
            Value::Obj(h) => match self.struct_type_of(h) {
                Some(t) => self.instantiated(t, args, cur, r, post),
                None => ask,
            },
            _ => ask,
        }
    }

    /// The instruction at the running frame's ip.
    pub open spec fn fetched(&self) -> Instruction {
        self.cur_code().instructions@[self.frame.ip as int]
    }

    /// The type name of a value the VM names itself (`None` for a host
    /// value): the kind of a native value, the enum of a variant (else the
    /// text before the first dot of its symbol), the type of a struct
    /// instance.
    pub open spec fn kind_name_of(&self, v: Value) -> Option<Seq<char>> {
        match v {
            Value::Bool(_) => Some("bool"@),
            Value::Int(_) => Some("int"@),
            Value::Nil => Some("nil"@),
            Value::Func(_) => Some("function"@),
            Value::Tuple(_) => Some("tuple"@),
            Value::Symbol(sym) => if self.enum_registry.symbol_map().contains_key(sym) {
                let tid = self.enum_registry.symbol_map()[sym].0;
                if (tid as int) < self.enum_registry.types().len() {
                    Some(self.enum_registry.types()[tid as int].name@)
                } else {
                    Some("symbol"@)
                }
            } else if (sym as int) < self.symbol_table@.len() {
                let d = dot_from(self.symbol_table@[sym as int], 0);
                if d >= 0 { Some(self.symbol_table@[sym as int].subrange(0, d)) } else { Some("symbol"@) }
            } else {
                Some("symbol"@)
            },
            Value::Struct(idx) => if (idx as int) < self.struct_registry.num_instances() {
                let t = self.struct_registry.instance_type(idx as int);
                if (t as int) < self.struct_registry.num_types() {
                    Some(self.struct_registry.name_of_type(t as int))
                } else {
                    Some("object"@)
                }
            } else {
                Some("object"@)
            },
            Value::Obj(_) => None,
        }
    }

    /// What `op_type_of` leads to (`r` and `post`), from this VM.
    pub open spec fn type_of_done(&self, r: Outcome, post: VM) -> bool {
        &&& (post.same_tables(*self))
        &&& (post.frame.state() == (FrameState { stack: pop1(self.frame.stack@), ..self.frame.state() }))
        &&& (post.callers() == self.callers())
        &&& (post.waiting == Some(Resume::Push))
        &&& (r is Host)
        &&& (self.kind_name_of(top(self.frame.stack@)) matches Some(n) ==> r->Host_0 is Str && r->Host_0->Str_0@ == n)
        &&& (self.kind_name_of(top(self.frame.stack@)) is None ==> r->Host_0 == HostRequest::TypeName(top(self.frame.stack@)))
    }

    /// `TypeOf`: replaces the popped value by its type name as a host
    /// string: the name of a native value's kind, the type of an enum variant
    /// or struct instance; a host value's type is named by the host.
    pub fn op_type_of(&mut self) -> (r: Outcome)
        requires
            old(self).wf(),
            old(self).running,
            old(self).waiting is None,
        ensures
            final(self).wf(),
            final(self).protocol(r),
            old(self).type_of_done(r, *final(self)),
    {
        let v = pop_value(&mut self.frame.stack);
        let name: String = match v {
            Value::Bool(_) => String::from_str("bool"),
            Value::Int(_) => String::from_str("int"),
            Value::Nil => String::from_str("nil"),
            Value::Func(_) => String::from_str("function"),
            Value::Tuple(_) => String::from_str("tuple"),
            Value::Symbol(sym) => match self.enum_registry.lookup_symbol(sym) {
                Some((tid, _)) => match self.enum_registry.get_type(tid) {
                    Some(ety) => ety.name.clone(),
                    None => String::from_str("symbol"),
                },
                None => match self.symbol_table.resolve(sym) {
                    Some(text) => match before_dot(text) {
                        Some(owner) => owner,
                        None => String::from_str("symbol"),
                    },
                    None => String::from_str("symbol"),
                },
            },
            Value::Struct(idx) => match self.struct_registry.instance(idx) {
                Some(inst) => match self.struct_registry.get_type(inst.type_id) {
                    Some(ty) => ty.name.clone(),
                    None => String::from_str("object"),
                },
                None => String::from_str("object"),
            },
            Value::Obj(_) => return self.ask(HostRequest::TypeName(v), Resume::Push),
        };
        self.ask(HostRequest::Str(name), Resume::Push)
    }

    /// What `op_make_function` leads to (`r` and `post`), from this VM.
    pub open spec fn make_function_done(&self, k: u32, r: Outcome, post: VM) -> bool {
        &&& (({
                let proto = top(self.frame.stack@);
                let cur = FrameState { stack: pop1(self.frame.stack@), ..self.frame.state() };
                let bad = raised(cur, self.callers(), ErrorView::Builtin(ExceptionKind::TypeError, "Expected CodeObject"@), r, post);
                match proto {
                    Value::Func(p) => if (p as int) < self.func_table@.len() && self.func_table@.len() < u32::MAX {
                        let id = self.scopes.num_scopes() as int;
                        let f = Value::Func(self.func_table@.len() as u32);
                        let captured = capture_entries(
                            self.cur_code().slot_pairs(),
                            self.frame.locals@,
                            name_map_entries(self.globals),
                            self.frame.closure_scope is None,
                        );
                        &&& r is Running
                        &&& post.frame.state() == FrameState { stack: cur.stack.push(f), ..cur }
                        &&& post.callers() == self.callers()
                        &&& post.func_table@ == self.func_table@.push(FuncSlot {
                            code: self.func_table@[p as int].code,
                            closure: Some(NativeClosureScope { id: id as usize }),
                        })
                        &&& post.scopes.num_scopes() == id + 1
                        &&& post.scopes.parent(id) == (match self.frame.closure_scope {
                            Some(c) => ClosureParent::Native(NativeClosureScope { id: c }),
                            None => self.module_scope,
                        })
                        &&& post.scopes.captured(id) == (if k > 0 && self.name_of((k - 1) as u32) is Some {
                            entry_insert(captured, self.name_of((k - 1) as u32).unwrap(), f)
                        } else {
                            captured
                        })
                    } else if (p as int) < self.func_table@.len() {
                        raised(cur, self.callers(), ErrorView::Builtin(ExceptionKind::MemoryError, "function table exhausted"@), r, post)
                    } else {
                        bad
                    },
                    _ => bad,
                }
            }))
    }

    /// `MakeFunction k`: pops a function and pushes a new function running
    /// its code with a closure scope that captures the bound locals of the
    /// running frame (at module level, those that are not module globals),
    /// chained to the running frame's scope or, at module level, to the
    /// module scope. With `k > 0` the new function is bound under name
    /// `k - 1` in its own scope, so that it can call itself.
    pub fn op_make_function(&mut self, k: u32) -> (r: Outcome)
        requires
            old(self).wf(),
            old(self).running,
            old(self).waiting is None,
        ensures
            final(self).wf(),
            final(self).protocol(r),
            final(self).codes == old(self).codes,
            old(self).make_function_done(k, r, *final(self)),
    {
        let proto = pop_value(&mut self.frame.stack);
        let code = match proto {
            Value::Func(p) => {
                if (p as usize) < self.func_table.len() {
                    self.func_table[p as usize].code
                } else {
                    return self.raise(VMError::TypeError(String::from_str("Expected CodeObject")));
                }
            },
            _ => return self.raise(VMError::TypeError(String::from_str("Expected CodeObject"))),
        };
        if self.func_table.len() >= u32::MAX as usize {
            return self.raise(VMError::MemoryLimitExceeded(String::from_str("function table exhausted")));
        }
        let cid = self.frame.code.unwrap();
        let mut captured = name_map_new();
        let n = self.codes[cid].slotmap.len();
        let at_module = self.frame.closure_scope.is_none();
        let mut i: usize = 0;
        let ghost pairs = self.codes@[cid as int].slot_pairs();
        while i < n
            invariant
                (cid as int) < self.codes@.len(),
                n == self.codes@[cid as int].slotmap@.len(),
                pairs == self.codes@[cid as int].slot_pairs(),
                i <= n,
                name_map_entries(captured) == capture_entries(
                    pairs.subrange(0, i as int),
                    self.frame.locals@,
                    name_map_entries(self.globals),
                    at_module,
                ),
            decreases n - i,
        {
            let slot = self.codes[cid].slotmap[i].1;
            let skip = at_module && name_map_get(&self.globals, self.codes[cid].slotmap[i].0.as_str()).is_some();
            if !skip {
                let v = read_slot(&self.frame.locals, slot);
                if !v.is_nil() {
                    name_map_insert(&mut captured, self.codes[cid].slotmap[i].0.clone(), v);
                }
            }
            proof {
                assert(pairs.subrange(0, i + 1).drop_last() =~= pairs.subrange(0, i as int));
                assert(pairs[i as int] == (self.codes@[cid as int].slotmap@[i as int].0@, slot));
            }
            i = i + 1;
        }
        proof {
            assert(pairs.subrange(0, n as int) =~= pairs);
        }
        let parent = match self.frame.closure_scope {
            Some(c) => ClosureParent::Native(NativeClosureScope { id: c }),
            None => self.module_scope,
        };
        let scope = NativeClosureScope::new(&mut self.scopes, captured, parent);
        let idx = self.func_table.len();
        self.func_table.push(FuncSlot { code, closure: Some(scope) });
        let f = Value::Func(idx as u32);
        if k > 0 {
            match self.name_at(cid, k - 1) {
                Ok(name) => scope.insert_captured(&mut self.scopes, name.as_str(), f),
                Err(_) => {},
            }
        }
        self.frame.stack.push(f);
        proof {
            assert forall|j: int| 0 <= j < self.func_table@.len() implies {
                &&& ((#[trigger] self.func_table@[j]).code as int) < self.codes@.len()
                &&& (self.func_table@[j].closure matches Some(c) ==> self.scopes.has(c))
            } by {
                if j < old(self).func_table@.len() {
                    assert(self.func_table@[j] == old(self).func_table@[j]);
                }
            }
        }
        Outcome::Running
    }

    /// The closure scope and name a `PatchClosure k` binds: when the two top
    /// values are functions, the lower one has a closure scope and name `k`
    /// exists.
    pub open spec fn patch_target(&self, k: u32) -> Option<(int, Seq<char>)> {
        let st = self.frame.stack@;
        match (top(pop1(st)), top(st)) {
            (Value::Func(t), Value::Func(_)) => if (t as int) < self.func_table@.len() {
                match (self.func_table@[t as int].closure, self.name_of(k)) {
                    (Some(c), Some(n)) => Some((c.id as int, n)),
                    _ => None,
                }
            } else {
                None
            },
            _ => None,
        }
    }

    /// What `op_patch_closure` leads to (`r` and `post`), from this VM.
    pub open spec fn patch_closure_done(&self, k: u32, r: Outcome, post: VM) -> bool {
        &&& (r is Running)
        &&& (post.frame.state() == (FrameState { stack: pop1(pop1(self.frame.stack@)), ..self.frame.state() }))
        &&& (post.callers() == self.callers())
        &&& (post.func_table == self.func_table)
        &&& (post.globals == self.globals)
        &&& (self.patch_target(k) matches Some((c, n)) ==> {
                &&& post.scopes.captured(c) == entry_insert(self.scopes.captured(c), n, top(self.frame.stack@))
                &&& post.scopes.num_scopes() == self.scopes.num_scopes()
                &&& forall|i: int| 0 <= i < self.scopes.num_scopes() && i != c ==> post.scopes.captured(i) == self.scopes.captured(i)
            })
        &&& (self.patch_target(k) is None ==> post.scopes == self.scopes)
    }

    /// `PatchClosure k`: pops a value and a function and binds name `k` to
    /// the value in the function's closure scope (a group of functions that
    /// refer to each other). Anything else is dropped.
    pub fn op_patch_closure(&mut self, k: u32) -> (r: Outcome)
        requires
            old(self).wf(),
            old(self).running,
            old(self).waiting is None,
        ensures
            final(self).wf(),
            final(self).protocol(r),
            final(self).codes == old(self).codes,
            old(self).patch_closure_done(k, r, *final(self)),
    {
        let value = pop_value(&mut self.frame.stack);
        let target = pop_value(&mut self.frame.stack);
        match (target, value) {
            (Value::Func(t), Value::Func(_)) => {
                let cid = self.frame.code.unwrap();
                if (t as usize) < self.func_table.len() {
                    match self.func_table[t as usize].closure {
                        Some(c) => match self.name_at(cid, k) {
                            Ok(name) => c.insert_captured(&mut self.scopes, name.as_str(), value),
                            Err(_) => {},
                        },
                        None => {},
                    }
                }
            },
            _ => {},
        }
        Outcome::Running
    }

    /// What `op_tail_call` leads to (`r` and `post`), from this VM.
    pub open spec fn tail_call_done(&self, n: u32, r: Outcome, post: VM) -> bool {
        &&& (self.frame.stack@.len() > n ==> (self.frame.stack@[self.frame.stack@.len() - n - 1] matches Value::Func(f)
                ==> ((f as int) < self.func_table@.len()
                && self.codes@[self.func_table@[f as int].code as int].vararg_idx < 0) ==> {
                &&& r is Running
                &&& post.frame.code == Some(self.func_table@[f as int].code)
                &&& post.frame.ip == 0
                &&& post.frame.stack@.len() == 0
                &&& post.frame.locals@ == tail_locals(
                    self.codes@[self.func_table@[f as int].code as int],
                    self.frame.stack@.subrange(self.frame.stack@.len() - n, self.frame.stack@.len() as int),
                )
                &&& post.callers() == self.callers()
            }))
        &&& (self.frame.stack@.len() > n ==> (self.frame.stack@[self.frame.stack@.len() - n - 1] matches Value::Obj(h)
                ==> self.struct_type_of(h) matches Some(t) ==> self.instantiated(
                t,
                self.frame.stack@.subrange(self.frame.stack@.len() - n, self.frame.stack@.len() as int),
                FrameState {
                    stack: self.frame.stack@.subrange(0, self.frame.stack@.len() - n - 1),
                    ..self.frame.state()
                },
                r,
                post,
            )))
    }

    /// `TailCall n`: calls the callable below the top `n` values, reusing
    /// the running frame for a VM function without `*args` (its locals are
    /// rebound, its stack, blocks and bindings cleared, and it starts over);
    /// any other callable is called by the host.
    pub fn op_tail_call(&mut self, n: u32) -> (r: Outcome)
        requires
            old(self).wf(),
            old(self).running,
            old(self).waiting is None,
        ensures
            final(self).wf(),
            final(self).protocol(r),
            final(self).codes == old(self).codes,
            old(self).tail_call_done(n, r, *final(self)),
    {
        let len = self.frame.stack.len();
        let n = n as usize;
        if n > len {
            return self.raise(VMError::StackUnderflow);
        }
        let args = self.frame.stack.split_off(len - n);
        let func = pop_value(&mut self.frame.stack);
        proof {
            let st = old(self).frame.stack@;
            if len > n {
                assert(st.subrange(0, len - n as int).drop_last() =~= st.subrange(0, len - n as int - 1));
                assert(func == st[len - n as int - 1]);
                assert(self.frame.state() == FrameState { stack: st.subrange(0, len - n as int - 1), ..old(self).frame.state() });
            }
        }
        match func {
            Value::Func(idx) => {
                if (idx as usize) < self.func_table.len() {
                    let slot = self.func_table[idx as usize];
                    if self.codes[slot.code].vararg_idx < 0 {
                        let locals = bind_tail(&self.codes[slot.code], &args);
                        self.frame.locals = locals;
                        self.frame.ip = 0;
                        self.frame.stack.clear();
                        self.frame.block_stack.clear();
                        self.frame.match_bindings = None;
                        self.frame.closure_scope = match slot.closure {
                            Some(c) => Some(c.id),
                            None => None,
                        };
                        self.frame.super_proxy = None;
                        self.frame.code = Some(slot.code);
                        return Outcome::Running;
                    }
                }
                self.ask(HostRequest::Call(func, args), Resume::Push)
            },
            Value::Obj(h) => match self.find_struct_type(h) {
                Some(t) => self.instantiate(t, args),
                None => self.ask(HostRequest::Call(func, args), Resume::Push),
            },
            _ => self.ask(HostRequest::Call(func, args), Resume::Push),
        }
    }

    /// What `op_call_kw` leads to (`r` and `post`), from this VM.
    pub open spec fn call_kw_done(&self, arg: u32, r: Outcome, post: VM) -> bool {
        &&& (({
                let st = self.frame.stack@;
                let rest = pop1(st);
                let nargs = (arg >> 8u32) as int;
                let nkw = (arg & 0xFFu32) as int;
                let len = rest.len() as int;
                let callee = st[st.len() - nargs - nkw - 2];
                if st.len() >= nargs + nkw + 2 && callee is Obj && self.struct_type_of(callee->Obj_0) is Some {
                    &&& r == Outcome::Host(HostRequest::KeywordNames(top(st)))
                    &&& post.waiting == Some(Resume::StructKw {
                        t: self.struct_type_of(callee->Obj_0).unwrap() as u32,
                        nargs: nargs as usize,
                        nkw: nkw as usize,
                    })
                    &&& post.frame == self.frame
                    &&& post.frame_stack == self.frame_stack
                    &&& post.same_tables(*self)
                } else if nargs + nkw > len {
                    raised(
                        FrameState { stack: rest, ..self.frame.state() },
                        self.callers(),
                        ErrorView::StackUnderflow,
                        r,
                        post,
                    )
                } else {
                    let below = rest.subrange(0, len - nkw - nargs);
                    &&& r is Host
                    &&& r->Host_0 is CallKw
                    &&& r->Host_0->CallKw_0 == top(below)
                    &&& r->Host_0->CallKw_1@ == rest.subrange(len - nkw - nargs, len - nkw)
                    &&& r->Host_0->CallKw_2 == top(st)
                    &&& r->Host_0->CallKw_3@ == rest.subrange(len - nkw, len)
                    &&& post.waiting == Some(Resume::Push)
                    &&& post.frame.state() == (FrameState { stack: pop1(below), ..self.frame.state() })
                    &&& post.callers() == self.callers()
                    &&& post.same_tables(*self)
                }
            }))
    }

    /// `CallKw`: pops the keyword names, the keyword values, the positional
    /// arguments and the callable (counts encoded as `nargs << 8 | nkw`),
    /// and has the host make the call.
    pub fn op_call_kw(&mut self, arg: u32) -> (r: Outcome)
        requires
            old(self).wf(),
            old(self).running,
            old(self).waiting is None,
        ensures
            final(self).wf(),
            final(self).protocol(r),
            final(self).codes == old(self).codes,
            old(self).call_kw_done(arg, r, *final(self)),
    {
        let nargs = (arg >> 8u32) as usize;
        let nkw = (arg & 0xFFu32) as usize;
        let depth = self.frame.stack.len();
        if nargs < depth && nkw < depth - nargs && depth - nargs - nkw >= 2 {
            let callee = self.frame.stack[depth - nargs - nkw - 2];
            match callee {
                Value::Obj(h) => match self.find_struct_type(h) {
                    Some(t) => {
                        let names = self.frame.stack[depth - 1];
                        return self.ask(HostRequest::KeywordNames(names), Resume::StructKw { t, nargs, nkw });
                    },
                    None => {},
                },
                _ => {},
            }
        }
        let names = pop_value(&mut self.frame.stack);
        let len = self.frame.stack.len();
        if nargs > len || nkw > len - nargs {
            return self.raise(VMError::StackUnderflow);
        }
        let kw_values = self.frame.stack.split_off(len - nkw);
        let args = self.frame.stack.split_off(len - nkw - nargs);
        let func = pop_value(&mut self.frame.stack);
        proof {
            let rest = pop1(old(self).frame.stack@);
            let below = rest.subrange(0, len - nkw - nargs);
            assert(args@ =~= rest.subrange(len - nkw - nargs, len - nkw));
            assert(kw_values@ =~= rest.subrange(len - nkw, len as int));
            assert(self.frame.stack@ =~= pop1(below));
            assert(self.frame.state() == (FrameState { stack: pop1(below), ..old(self).frame.state() }));
        }
        self.ask(HostRequest::CallKw(func, args, names, kw_values), Resume::Push)
    }

    /// What a non-frame instruction `instr` (fetched at source position
    /// `src`) leads to from this VM, whose ip has already moved past it: the
    /// effect its `op_` method states.
    #[verifier::opaque]
    pub open spec fn instr_done(&self, instr: Instruction, src: u32, r: Outcome, post: VM) -> bool {
        let a = instr.arg;
        match instr.op {
            OpCode::LoadScope => self.load_scope_done(a, r, post),
            OpCode::StoreScope => self.store_scope_result(a, r, post),
            OpCode::LoadGlobal => self.load_global_done(a, r, post),
            OpCode::Call => self.call_done(a, src, r, post),
            OpCode::Return => self.return_done(r, post),
            OpCode::Halt => self.halt_done(r, post),
            OpCode::MatchPatternVM => self.match_pattern_done(a, r, post),
            OpCode::MatchAssignPatternVM => self.match_assign_done(a, r, post),
            OpCode::GetAttr => self.get_attr_done(a, r, post),
            OpCode::SetAttr => self.set_attr_result(a, r, post),
            OpCode::Raise => a != 1 ==> self.raise_value_done(r, post),
            OpCode::TypeOf => self.type_of_done(r, post),
            OpCode::CheckNominal => self.check_nominal_done(a, r, post),
            OpCode::MakeFunction => self.make_function_done(a, r, post),
            OpCode::TailCall => self.tail_call_done(a, r, post),
            OpCode::CallKw => self.call_kw_done(a, r, post),
            OpCode::CallMethod => self.call_method_done(a, r, post),
            OpCode::PatchClosure => self.patch_closure_done(a, r, post),
            OpCode::Globals => self.globals_done(r, post),
            OpCode::MakeEnum => self.make_enum_done(a, r, post),
            OpCode::Locals => self.locals_done(r, post),
            OpCode::PushBlock => a & 0x8000_0000u32 != 0 ==> self.push_module_block_done(a, r, post),
            OpCode::PopBlock => a == 1 ==> self.pop_module_block_done(r, post),
            _ => true,
        }
    }

    /// The VM after fetching instruction at the running frame's ip, at
    /// source position `src`: the ip moves past it and the instruction count
    /// goes up (wrapping to zero).
    pub open spec fn fetched_vm(&self, src: u32) -> VM {
        VM {
            frame: Frame { ip: (self.frame.ip + 1) as usize, ..self.frame },
            last_src_byte: src,
            instruction_count: if self.instruction_count < u64::MAX { (self.instruction_count + 1) as u64 } else { 0 },
            ..*self
        }
    }

    /// The source position of the instruction at the running frame's ip.
    pub open spec fn fetched_src(&self) -> u32 {
        let lt = self.cur_code().line_table@;
        if (self.frame.ip as int) < lt.len() { lt[self.frame.ip as int] } else { 0 }
    }

    /// What one step from this VM leads to (`r` and `post`): past the end
    /// of its code the frame returns its top value; at a periodic check the
    /// host is asked first; a frame instruction has the effect `frame_effect`
    /// states; an operator whose struct operand has a VM method for it runs
    /// that method; `==` and `!=` of two struct instances without such a
    /// method compare them field by field; any other instruction has the
    /// effect its `op_` method states.
    #[verifier::opaque]
    pub open spec fn step_done(&self, r: Outcome, post: VM) -> bool {
        let ip = self.frame.ip;
        let n = self.cur_code().instructions@.len();
        let next = FrameState { ip: ip + 1, ..self.frame.state() };
        &&& ip >= n ==> if self.frame_stack@.len() > 0 {
            &&& r is Running
            &&& post.callers() == self.callers().drop_last()
            &&& post.frame.state() == returned_to(self.callers().last(), top(self.frame.stack@), self.frame.discard_return)
        } else {
            r == Outcome::Done(top(self.frame.stack@)) && !post.running
        }
        &&& ip < n && is_frame_instr(self.fetched()) && !checkpoint_due(self.instruction_count)
            && self.overload(self.fetched().op) is None && !self.struct_eq_case(self.fetched().op)
            ==> stepped(
            frame_effect(next, self.fetched(), self.cur_code().constants@, self.tuples@),
            self.callers(),
            r,
            post,
        )
        &&& ip < n && checkpoint_due(self.instruction_count) ==> {
            &&& r == Outcome::Host(HostRequest::Checkpoint)
            &&& post.waiting matches Some(Resume::Checkpoint { instr, src }) && instr == self.fetched()
            &&& post.frame.state() == next
            &&& post.callers() == self.callers()
        }
        &&& ip < n && !checkpoint_due(self.instruction_count) ==> (self.overload(self.fetched().op) matches Some((f, args))
            ==> self.method_called(
            f,
            args,
            FrameState {
                ip: ip + 1,
                stack: if args.len() == 1 { pop1(self.frame.stack@) } else { pop1(pop1(self.frame.stack@)) },
                ..self.frame.state()
            },
            r,
            post,
        ))
        &&& ip < n && !checkpoint_due(self.instruction_count) && self.struct_eq_case(self.fetched().op)
            ==> (self.frame.stack@.last() matches Value::Struct(ib) ==> (pop1(self.frame.stack@).last() matches Value::Struct(ia)
            ==> self.fields_compared(
            ia,
            ib,
            0,
            self.fetched().op == OpCode::Ne,
            FrameState { ip: ip + 1, stack: pop1(pop1(self.frame.stack@)), ..self.frame.state() },
            r,
            post,
        )))
        // Any other instruction has the effect its `op_` method states.
        &&& ip < n && !checkpoint_due(self.instruction_count)
            ==> self.fetched_vm(self.fetched_src()).instr_done(self.fetched(), self.fetched_src(), r, post)
    }

    /// Runs one instruction of the running frame. A frame that ran off the
    /// end of its code returns its top value. A frame instruction has the
    /// effect `frame_effect` states (its ip first moves past it), then its
    /// flow is carried out: a host request makes the VM wait, a signal
    /// raises. Name, call, match, attribute, return, halt and raise-value
    /// instructions are carried out by the `op_` methods.
    #[verifier::rlimit(60)]
    pub fn step(&mut self) -> (r: Outcome)
        requires
            old(self).wf(),
            old(self).running,
            old(self).waiting is None,
        ensures
            final(self).wf(),
            final(self).protocol(r),
            final(self).codes == old(self).codes,
            old(self).step_done(r, *final(self)),
    {
        proof {
            reveal(VM::step_done);
        }
        let cid = self.frame.code.unwrap();
        let n = self.codes[cid].instructions.len();
        let ip = self.frame.ip;
        if ip >= n {
            let v = pop_value(&mut self.frame.stack);
            return self.return_to_caller(v);
        }
        let instr = self.codes[cid].instructions[ip];
        let src = if ip < self.codes[cid].line_table.len() { self.codes[cid].line_table[ip] } else { 0 };
        self.last_src_byte = src;
        self.frame.ip = ip + 1;
        self.instruction_count = if self.instruction_count < u64::MAX { self.instruction_count + 1 } else { 0 };
        if self.instruction_count & 0xFFFFu64 == 0 {
            return self.ask(HostRequest::Checkpoint, Resume::Checkpoint { instr, src });
        }
        proof {
            assert(self.frame.state() == FrameState { ip: old(self).frame.ip + 1, ..old(self).frame.state() });
            assert(src == old(self).fetched_src());
            assert(*self == old(self).fetched_vm(src));
        }
        self.dispatch(instr, src)
    }

    /// Carries out instruction `instr` (fetched at source position `src`)
    /// of the running frame, whose ip has already moved past it.
    fn dispatch(&mut self, instr: Instruction, src: u32) -> (r: Outcome)
        requires
            old(self).wf(),
            old(self).running,
            old(self).waiting is None,
        ensures
            final(self).wf(),
            final(self).protocol(r),
            final(self).codes == old(self).codes,
            is_frame_instr(instr) && old(self).overload(instr.op) is None && !old(self).struct_eq_case(instr.op)
                ==> stepped(
                frame_effect(old(self).frame.state(), instr, old(self).cur_code().constants@, old(self).tuples@),
                old(self).callers(),
                r,
                *final(self),
            ),
            old(self).overload(instr.op) matches Some((f, args)) ==> old(self).method_called(
                f,
                args,
                FrameState {
                    stack: if args.len() == 1 { pop1(old(self).frame.stack@) } else { pop1(pop1(old(self).frame.stack@)) },
                    ..old(self).frame.state()
                },
                r,
                *final(self),
            ),
            old(self).struct_eq_case(instr.op)
                ==> (old(self).frame.stack@.last() matches Value::Struct(ib) ==> (pop1(old(self).frame.stack@).last() matches Value::Struct(ia)
                ==> old(self).fields_compared(
                ia,
                ib,
                0,
                instr.op == OpCode::Ne,
                FrameState { stack: pop1(pop1(old(self).frame.stack@)), ..old(self).frame.state() },
                r,
                *final(self),
            ))),
            old(self).instr_done(instr, src, r, *final(self)),
    {
        proof {
            reveal(VM::instr_done);
        }
        match instr.op {
            OpCode::LoadScope => self.op_load_scope(instr.arg),
            OpCode::StoreScope => self.op_store_scope(instr.arg),
            OpCode::LoadGlobal => self.op_load_global(instr.arg),
            OpCode::Call => self.op_call(instr.arg, src),
            OpCode::Return => self.op_return(),
            OpCode::Halt => self.op_halt(),
            OpCode::MatchPatternVM => self.op_match_pattern(instr.arg),
            OpCode::MatchAssignPatternVM => self.op_match_assign(instr.arg),
            OpCode::GetAttr => self.op_get_attr(instr.arg),
            OpCode::SetAttr => self.op_set_attr(instr.arg),
            OpCode::Raise if instr.arg != 1 => self.op_raise_value(),
            OpCode::TypeOf => self.op_type_of(),
            OpCode::CheckNominal => self.op_check_nominal(instr.arg),
            OpCode::MakeFunction => self.op_make_function(instr.arg),
            OpCode::TailCall => self.op_tail_call(instr.arg),
            OpCode::CallKw => self.op_call_kw(instr.arg),
            OpCode::CallMethod => self.op_call_method(instr.arg),
            OpCode::PatchClosure => self.op_patch_closure(instr.arg),
            OpCode::Globals => self.op_globals(),
            OpCode::MakeEnum => self.op_make_enum(instr.arg),
            OpCode::Locals => self.op_locals(),
            OpCode::PushBlock if instr.arg & 0x8000_0000u32 != 0 => self.op_push_module_block(instr.arg),
            OpCode::PopBlock if instr.arg == 1 => self.op_pop_module_block(),
            _ => self.exec_instr(instr),
        }
    }

    /// What the periodic check before `instr` leads to: an interrupt ends the
    /// run with `Interrupted`; resident memory over a set limit ends it with
    /// `MemoryLimitExceeded`; else `instr` runs.
    pub open spec fn checkpoint_passed(&self, instr: Instruction, interrupted: bool, rss: Option<u64>, r: Outcome, post: VM) -> bool {
        &&& interrupted ==> r == Outcome::Failed(VMError::Interrupted) && !post.running
        &&& !interrupted && over_limit(rss, self.memory_limit_bytes) ==> !post.running
            && r is Failed && r->Failed_0 is MemoryLimitExceeded
            && r->Failed_0->MemoryLimitExceeded_0@ == memory_text(rss.unwrap(), self.memory_limit_bytes)
        &&& !interrupted && !over_limit(rss, self.memory_limit_bytes) && is_frame_instr(instr)
            && self.overload(instr.op) is None && !self.struct_eq_case(instr.op)
            ==> stepped(
            frame_effect(self.frame.state(), instr, self.cur_code().constants@, self.tuples@),
            self.callers(),
            r,
            post,
        )
    }

    /// Carries on after the periodic check before `instr`: an interrupt ends
    /// the run with `Interrupted`; resident memory over a set limit ends it
    /// with `MemoryLimitExceeded`; else `instr` runs.
    pub(crate) fn after_checkpoint(&mut self, instr: Instruction, src: u32, interrupted: bool, rss: Option<u64>) -> (r: Outcome)
        requires
            old(self).wf(),
            old(self).running,
            old(self).waiting is None,
        ensures
            final(self).wf(),
            final(self).protocol(r),
            final(self).codes == old(self).codes,
            old(self).checkpoint_passed(instr, interrupted, rss, r, *final(self)),
    {
        if interrupted {
            self.finish();
            return Outcome::Failed(VMError::Interrupted);
        }
        match rss {
            Some(bytes) => {
                if self.memory_limit_bytes > 0 && bytes > self.memory_limit_bytes {
                    let msg = memory_message(bytes, self.memory_limit_bytes);
                    self.finish();
                    return Outcome::Failed(VMError::MemoryLimitExceeded(msg));
                }
            },
            None => {},
        }
        self.dispatch(instr, src)
    }

    /// Carries out an operator or frame instruction whose ip the frame has
    /// already moved past.
    fn exec_instr(&mut self, instr: Instruction) -> (r: Outcome)
        requires
            old(self).wf(),
            old(self).running,
            old(self).waiting is None,
        ensures
            final(self).wf(),
            final(self).protocol(r),
            final(self).codes == old(self).codes,
            is_frame_instr(instr) && old(self).overload(instr.op) is None && !old(self).struct_eq_case(instr.op)
                ==> stepped(
                frame_effect(old(self).frame.state(), instr, old(self).cur_code().constants@, old(self).tuples@),
                old(self).callers(),
                r,
                *final(self),
            ),
            old(self).overload(instr.op) matches Some((f, args)) ==> old(self).method_called(
                f,
                args,
                FrameState {
                    stack: if args.len() == 1 { pop1(old(self).frame.stack@) } else { pop1(pop1(old(self).frame.stack@)) },
                    ..old(self).frame.state()
                },
                r,
                *final(self),
            ),
            old(self).struct_eq_case(instr.op)
                ==> (old(self).frame.stack@.last() matches Value::Struct(ib) ==> (pop1(old(self).frame.stack@).last() matches Value::Struct(ia)
                ==> old(self).fields_compared(
                ia,
                ib,
                0,
                instr.op == OpCode::Ne,
                FrameState { stack: pop1(pop1(old(self).frame.stack@)), ..old(self).frame.state() },
                r,
                *final(self),
            ))),
    {
        let cid = self.frame.code.unwrap();
        match self.find_overload(instr.op) {
            Some((f, args)) => {
                let npop: usize = if args.len() == 1 { 1 } else { 2 };
                return self.run_method(f, args, npop);
            },
            None => {},
        }
        if instr.op == OpCode::Eq || instr.op == OpCode::Ne {
            let n = self.frame.stack.len();
            if n >= 2 {
                match (self.frame.stack[n - 2], self.frame.stack[n - 1]) {
                    (Value::Struct(ia), Value::Struct(ib)) => {
                        pop_value(&mut self.frame.stack);
                        pop_value(&mut self.frame.stack);
                        return self.compare_fields(ia, ib, 0, instr.op == OpCode::Ne);
                    },
                    _ => {},
                }
            }
        }
        let ghost pre = self.frame.state();
        let flow = exec_frame_op(&mut self.frame, instr, &self.codes[cid].constants, &mut self.tuples);
        proof {
            lemma_frame_effect_context(pre, instr, self.codes@[cid as int].constants@, old(self).tuples@);
        }
        self.handle_flow(flow)
    }

    /// Whether each VM of `states` steps to the next, each of them well
    /// formed, running and not waiting, each step's outcome `Running`.
    pub open spec fn running_chain(states: Seq<VM>) -> bool {
        &&& states.len() > 0
        &&& forall|i: int| 0 <= i < states.len() ==> (#[trigger] states[i]).wf() && states[i].running
            && states[i].waiting is None
        &&& forall|i: int| 0 <= i < states.len() - 1 ==> (#[trigger] states[i]).step_done(Outcome::Running, states[i + 1])
    }

    /// The VM `fin` after a run that ended with outcome `r` from the step
    /// leading to `post`: a failure records its error context, nothing else
    /// changes.
    pub open spec fn run_ended(post: VM, r: Outcome, fin: VM) -> bool {
        match r {
            Outcome::Failed(e) => {
                &&& fin == (VM { last_error_context: fin.last_error_context, ..post })
                &&& match error_fields(e.view()) {
                    Some((t, m)) => fin.last_error_context matches Some(c) && c.error_type@ == t && c.message@ == m
                        && c.start_byte == post.last_src_byte && c.call_stack@.len() == post.call_stack@.len(),
                    None => fin.last_error_context == post.last_error_context,
                }
            },
            _ => fin == post,
        }
    }

    /// Runs instructions until the code finishes, the host is asked, or
    /// `fuel` instructions have run (then `Running`). A failure records its
    /// error context.
    pub fn run(&mut self, fuel: u64) -> (r: Outcome)
        requires
            old(self).wf(),
            old(self).running,
            old(self).waiting is None,
        ensures
            final(self).wf(),
            final(self).protocol(r),
            final(self).codes == old(self).codes,
            // `fuel` steps ran, each leaving the VM running.
            r is Running ==> exists|states: Seq<VM>|
                #[trigger] VM::running_chain(states) && states.len() == fuel + 1 && states[0] == *old(self)
                    && states.last() == *final(self),
            // Fewer running steps ran, then one with outcome `r`.
            !(r is Running) ==> exists|states: Seq<VM>, post: VM|
                #![trigger VM::running_chain(states), states.last().step_done(r, post)]
                VM::running_chain(states) && states.len() <= fuel && states[0] == *old(self)
                    && states.last().step_done(r, post) && VM::run_ended(post, r, *final(self)),
    {
        let mut left = fuel;
        let ghost mut states: Seq<VM> = seq![*self];
        while left > 0
            invariant
                self.wf(),
                self.running,
                self.waiting is None,
                self.codes == old(self).codes,
                left <= fuel,
                VM::running_chain(states),
                states.len() == fuel - left + 1,
                states[0] == *old(self),
                states.last() == *self,
            decreases left,
        {
            let ghost mid = *self;
            left = left - 1;
            let r = self.step();
            let ghost post = *self;
            match &r {
                Outcome::Running => {
                    proof {
                        let prev = states;
                        states = states.push(*self);
                        assert forall|i: int| 0 <= i < states.len() - 1 implies (#[trigger] states[i]).step_done(
                            Outcome::Running,
                            states[i + 1],
                        ) by {
                            if i < states.len() - 2 {
                                assert(states[i] == prev[i] && states[i + 1] == prev[i + 1]);
                            }
                        }
                        assert(VM::running_chain(states));
                    }
                },
                _ => {
                    if let Outcome::Failed(e) = &r {
                        self.capture_error_context(e);
                    }
                    proof {
                        assert(states.last().step_done(r, post) && VM::run_ended(post, r, *self));
                    }
                    return r;
                },
            }
        }
        proof {
            assert(VM::running_chain(states));
        }
        Outcome::Running
    }

    /// What handing `reply` to this VM, which waits for it, leads to (`r`
    /// and `post`): the instruction that asked is finished as its request
    /// says; a raised answer raises in the running frame; an answer of the
    /// wrong kind raises a `RuntimeError`.
    pub open spec fn answered(&self, reply: HostReply, r: Outcome, post: VM) -> bool {
        // A value answers a value request by being pushed.
        &&& (self.waiting == Some(Resume::Push) && reply is Value) ==> (r is Running
            && post.frame.state() == FrameState { stack: self.frame.stack@.push(reply->Value_0), ..self.frame.state() }
            && post.callers() == self.callers())
        // A truthiness answers a conditional jump.
        &&& self.waiting matches Some(Resume::Branch { target, when, keep }) ==> reply is Truth ==> (r is Running
            && post.frame.state() == branch_state(self.frame.state(), reply->Truth_0, target, when, keep)
            && post.callers() == self.callers())
        // A truthiness answers `not` / `bool`.
        &&& self.waiting matches Some(Resume::Truth(neg)) ==> reply is Truth ==> (r is Running
            && post.frame.state() == FrameState {
                stack: self.frame.stack@.push(Value::Bool(reply->Truth_0 != neg)),
                ..self.frame.state()
            }
            && post.callers() == self.callers())
        // A raised answer raises in the running frame.
        &&& reply matches HostReply::Raised(e) ==> raised(self.frame.state(), self.callers(), e.view(), r, post)
        // An iterator's next item is pushed; an exhausted one is popped and
        // the loop left.
        &&& self.waiting matches Some(Resume::ForIter(target)) ==> (reply matches HostReply::Value(v) ==> (r is Running
            && post.frame.state() == FrameState { stack: self.frame.stack@.push(v), ..self.frame.state() }
            && post.callers() == self.callers()))
        &&& self.waiting matches Some(Resume::ForIter(target)) ==> (reply is Missing ==> (r is Running
            && post.frame.state() == FrameState {
                stack: pop1(self.frame.stack@),
                ip: target as int,
                ..self.frame.state()
            }
            && post.callers() == self.callers()))
        // A name missing everywhere raises `NameError`.
        &&& self.waiting matches Some(Resume::PushOrNameError(k)) ==> (reply is Missing ==> (self.name_of(k) matches Some(n)
            ==> raised(self.frame.state(), self.callers(), ErrorView::Builtin(ExceptionKind::NameError, n), r, post)))
        // The text of a failed match raises.
        &&& self.waiting == Some(Resume::RaiseText) ==> (reply matches HostReply::Text(t) ==> raised(
            self.frame.state(),
            self.callers(),
            ErrorView::Builtin(ExceptionKind::RuntimeError, t@),
            r,
            post
        ))
        // A described host value raises the error it stands for.
        &&& self.waiting == Some(Resume::RaiseDescribed) ==> (reply matches HostReply::Described(t, m) ==> raised(
            self.frame.state(),
            self.callers(),
            described_error(t@, m@),
            r,
            post
        ))
        // An answer of the wrong kind raises.
        &&& self.waiting matches Some(res) ==> (!answers(res, reply) && !(reply is Raised) ==> raised(
            self.frame.state(),
            self.callers(),
            ErrorView::Builtin(ExceptionKind::RuntimeError, bad_reply_text()),
            r,
            post
        ))
        // A value answers a host computation in a range loop: stored in
        // the loop slot, then the jump.
        &&& self.waiting matches Some(Resume::StoreJump { slot, target }) ==> (reply matches HostReply::Value(v) ==> (r is Running
            && post.frame.state() == (FrameState {
                locals: set_slot(self.frame.locals@, slot as int, v),
                ip: target as int,
                ..self.frame.state()
            })
            && post.callers() == self.callers()))
        // A type name answers an `except` test against the active
        // exception.
        &&& self.waiting == Some(Resume::ExcMatch) ==> (reply matches HostReply::Text(t) ==> (r is Running
            && post.frame.state() == (FrameState {
                stack: self.frame.stack@.push(Value::Bool(
                    self.frame.state().active.len() > 0 && self.frame.state().active.last().mro.contains(t@),
                )),
                ..self.frame.state()
            })
            && post.callers() == self.callers()))
        // A found name is pushed.
        &&& (self.waiting matches Some(Resume::PushOrNameError(_)) || self.waiting matches Some(Resume::PushOrLookup(_)))
            ==> (reply matches HostReply::Value(v) ==> (r is Running
            && post.frame.state() == (FrameState { stack: self.frame.stack@.push(v), ..self.frame.state() })
            && post.callers() == self.callers()))
        // A name missing from host-held globals is looked up in the
        // host's own globals next.
        &&& self.waiting matches Some(Resume::PushOrLookup(k)) ==> (reply is Missing ==> (self.name_of(k) matches Some(n)
            ==> (r is Host && r->Host_0.view() == HostView::Lookup(n)
            && post.waiting == Some(Resume::PushOrNameError(k))
            && post.frame == self.frame
            && post.callers() == self.callers())))
        // Bindings answer a match: recorded, and `True` pushed; no match
        // pushes `Nil`.
        &&& self.waiting == Some(Resume::MatchReply) ==> (reply matches HostReply::Bindings(bs) ==> (r is Running
            && post.frame.state() == (FrameState {
                stack: self.frame.stack@.push(Value::Bool(true)),
                bindings: Some(bs@),
                ..self.frame.state()
            })
            && post.callers() == self.callers()))
        &&& self.waiting == Some(Resume::MatchReply) ==> (reply is Missing ==> (r is Running
            && post.frame.state() == (FrameState { stack: self.frame.stack@.push(Value::Nil), ..self.frame.state() })
            && post.callers() == self.callers()))
        // An answer about a host value in a match is recorded, and the match
        // is tried again with it.
        &&& self.waiting matches Some(Resume::MatchFact { k, value, subject, literal }) ==> (answers(self.waiting.unwrap(), reply)
            ==> VM { waiting: None, ..*self }.rematched(k, value, false, with_fact(self.match_facts@, subject, literal, reply), r, post))
        &&& self.waiting matches Some(Resume::AssignFact { k, value, subject }) ==> (answers(self.waiting.unwrap(), reply)
            ==> VM { waiting: None, ..*self }.rematched(k, value, true, with_fact(self.match_facts@, subject, None, reply), r, post))
        &&& self.waiting matches Some(Resume::MatchType { k, value, subject }) ==> (reply matches HostReply::Text(n)
            ==> VM { waiting: None, ..*self }.rematched(
            k,
            value,
            false,
            FactsView { types: self.match_facts@.types.push((subject, n@)), ..self.match_facts@ },
            r,
            post,
        ))
        &&& self.waiting matches Some(Resume::MatchBound { k, value }) ==> (reply matches HostReply::Items(xs)
            ==> VM { waiting: None, ..*self }.rematched(
            k,
            value,
            false,
            FactsView {
                bound: self.match_facts@.bound.push((self.match_attr@, xs@.len() > 0 && xs@[0] == Value::Bool(true))),
                ..self.match_facts@
            },
            r,
            post,
        ))
        &&& self.waiting matches Some(Resume::MatchText { k, value, subject }) ==> (reply matches HostReply::Truth(b)
            ==> VM { waiting: None, ..*self }.rematched(
            k,
            value,
            false,
            FactsView { texts: self.match_facts@.texts.push((subject, self.match_attr@, b)), ..self.match_facts@ },
            r,
            post,
        ))
        &&& self.waiting matches Some(Resume::MatchAttr { k, value, subject }) ==> (answers(self.waiting.unwrap(), reply)
            ==> VM { waiting: None, ..*self }.rematched(
            k,
            value,
            false,
            FactsView {
                attrs: self.match_facts@.attrs.push((subject, self.match_attr@, if reply is Value { Some(reply->Value_0) } else { None })),
                ..self.match_facts@
            },
            r,
            post,
        ))
        // The text of a struct instance raised as an exception is its
        // message.
        &&& self.waiting matches Some(Resume::RaiseStruct(idx)) ==> (reply matches HostReply::Text(m) ==> raised(
            self.frame.state(),
            self.callers(),
            ErrorView::User(self.struct_exception_view(
                if (idx as int) < self.struct_registry.num_instances() {
                    self.struct_registry.name_of_type(self.struct_registry.instance_type(idx as int) as int)
                } else {
                    "RuntimeError"@
                },
                m@,
            )),
            r,
            post
        ))
        // Host-held globals that bound the name took the value (a module
        // global of that name takes it too); else it becomes a module
        // global, also stored in the host's globals.
        &&& self.waiting matches Some(Resume::StoreOrGlobal { name: k, value }) ==> (reply matches HostReply::Truth(stored)
            ==> (self.name_of(k) matches Some(n) ==> {
            let g = name_map_entries(self.globals);
            &&& post.frame == self.frame
            &&& post.callers() == self.callers()
            &&& if stored {
                &&& r is Running
                &&& name_map_entries(post.globals) == (if entry_lookup(g, n) is Some { entry_insert(g, n, value) } else { g })
            } else {
                &&& r is Host
                &&& r->Host_0.view() == HostView::Store(n, value)
                &&& post.waiting == Some(Resume::Ignore)
                &&& name_map_entries(post.globals) == entry_insert(g, n, value)
            }
        }))
        // An answer that carries nothing changes nothing.
        &&& self.waiting == Some(Resume::Ignore) ==> (!(reply is Raised) ==> (r is Running
            && post.frame == self.frame
            && post.callers() == self.callers()))
        // The host's report on a block's names completes its snapshot.
        &&& self.waiting matches Some(Resume::BlockSnapshot(start)) ==> (reply matches HostReply::Items(flags) ==> (r is Running
            && post.frame == self.frame
            && snapshots(post.block_globals@) == snapshots(self.block_globals@).push(existing_names(
                block_names(self.cur_code().varnames@, start as int),
                name_map_entries(self.globals),
                flags@,
            ))))
        // The host's comparison of a field pair continues a struct
        // comparison, or ends it when they differ.
        &&& self.waiting matches Some(Resume::FieldEq { a, b, next, negate }) ==> (reply matches HostReply::Value(v) ==> (
            if v == Value::Bool(true) {
                self.fields_compared(a, b, next as int, negate, self.frame.state(), r, post)
            } else {
                r is Running && post.frame.state() == (FrameState {
                    stack: self.frame.stack@.push(Value::Bool(negate)),
                    ..self.frame.state()
                })
            }))
        // The keyword names of a struct call complete it.
        &&& self.waiting matches Some(Resume::StructKw { t, nargs, nkw }) ==> (reply matches HostReply::Names(names) ==> (
            self.frame.stack@.len() >= nargs + nkw + 2 && (t as int) < self.struct_registry.num_types() ==> {
                let st = self.frame.stack@;
                let len = st.len() - 1;
                self.instantiated_kw(
                    t as int,
                    st.subrange(len - nkw - nargs, len - nkw),
                    st.subrange(len - nkw, len),
                    names@.map_values(|s: String| s@),
                    FrameState { stack: st.subrange(0, len - nkw - nargs - 1), ..self.frame.state() },
                    r,
                    post,
                )
            }))
        // The host's reading of an enum definition registers it.
        &&& self.waiting == Some(Resume::MakeEnum) ==> (reply matches HostReply::Names(texts)
            ==> self.enum_defined(texts@.map_values(|s: String| s@), r, post))
        // The host's object for an enum type stands for it and becomes a
        // module global.
        &&& self.waiting matches Some(Resume::EnumMarker(tid)) ==> (reply matches HostReply::Value(v)
            ==> self.enum_bound(tid, v, r, post))
        // A value under a composite check goes back on the stack or raises.
        &&& self.waiting matches Some(Resume::CheckComposite { value, k }) ==> (reply matches HostReply::Facts(f)
            ==> self.composite_checked(value, k, f.view(), r, post))
        // A value under a nominal check goes back on the stack or raises.
        &&& self.waiting matches Some(Resume::CheckNominal { value, k }) ==> (reply matches HostReply::Nominal { member, known, value_type }
            ==> self.nominal_answered(value, k, member, known, value_type@, r, post))
        // The periodic check ends the run or lets the instruction run.
        &&& self.waiting matches Some(Resume::Checkpoint { instr, src }) ==> (reply matches HostReply::Status { interrupted, rss }
            ==> self.checkpoint_passed(instr, interrupted, rss, r, post))
        // An extended unpacking pushes the fixed items and asks for the
        // starred list, when there are enough items.
        &&& self.waiting matches Some(Resume::UnpackEx(arg)) ==> (reply matches HostReply::Items(items) ==> (
            if items@.len() >= ex_before(arg) + ex_after(arg) {
                &&& r == Outcome::Host(HostRequest::Build(false, r->Host_0->Build_1))
                &&& r->Host_0->Build_1@ == ex_middle(items@, ex_before(arg), ex_after(arg))
                &&& post.waiting == Some(Resume::InsertBelow(ex_before(arg) as usize))
                &&& post.frame.state() == FrameState {
                    stack: self.frame.stack@ + ex_fixed(items@, ex_before(arg), ex_after(arg)),
                    ..self.frame.state()
                }
                &&& post.callers() == self.callers()
            } else {
                raised(
                    self.frame.state(),
                    self.callers(),
                    ErrorView::Builtin(ExceptionKind::RuntimeError, unpack_ex_text(ex_before(arg) + ex_after(arg), items@.len() as int)),
                    r,
                    post,
                )
            }))
        // The starred list goes below the items pushed before it.
        &&& self.waiting matches Some(Resume::InsertBelow(n)) ==> (reply matches HostReply::Value(v) ==> (r is Running
            && post.frame.state() == FrameState { stack: insert_below(self.frame.stack@, n as int, v), ..self.frame.state() }
            && post.callers() == self.callers()))
        // Iterated items are pushed last first, when there are as many as
        // wanted.
        &&& self.waiting matches Some(Resume::Unpack(n)) ==> (reply matches HostReply::Items(items) ==> (if items@.len() == n {
            r is Running && post.frame.state() == FrameState {
                stack: self.frame.stack@ + reversed(items@),
                ..self.frame.state()
            } && post.callers() == self.callers()
        } else {
            raised(
                self.frame.state(),
                self.callers(),
                ErrorView::Builtin(ExceptionKind::RuntimeError, unpack_text(items@.len() as int, n as int)),
                r,
                post,
            )
        }))
    }

    /// Hands the host's answer to the waiting VM and finishes the
    /// instruction that asked. A raised answer raises in the running frame;
    /// an answer of the wrong kind raises a `RuntimeError`.
    pub fn answer(&mut self, reply: HostReply) -> (r: Outcome)
        requires
            old(self).wf(),
            old(self).running,
            old(self).waiting is Some,
        ensures
            final(self).wf(),
            final(self).protocol(r),
            final(self).codes == old(self).codes,
            old(self).answered(reply, r, *final(self)),
    {
        let r = self.resume(reply);
        match &r {
            Outcome::Failed(e) => self.capture_error_context(e),
            _ => {},
        }
        r
    }

    /// Records the host's answer about `subject` (and `literal`) in the
    /// match of `value` against pattern `k`, and tries the match again.
    fn match_fact(
        &mut self,
        k: u32,
        value: Value,
        subject: Value,
        literal: Option<Value>,
        assign: bool,
        reply: HostReply,
    ) -> (r: Outcome)
        requires
            old(self).wf(),
            old(self).running,
            old(self).waiting is None,
        ensures
            final(self).wf(),
            final(self).protocol(r),
            final(self).codes == old(self).codes,
            (if literal is Some { reply is Truth } else { reply is Items || reply is Text }) ==> old(self).rematched(
                k,
                value,
                assign,
                with_fact(old(self).match_facts@, subject, literal, reply),
                r,
                *final(self),
            ),
            !(if literal is Some { reply is Truth } else { reply is Items || reply is Text }) ==> raised(
                old(self).frame.state(),
                old(self).callers(),
                ErrorView::Builtin(ExceptionKind::RuntimeError, bad_reply_text()),
                r,
                *final(self),
            ),
    {
        let ghost f = self.match_facts@;
        match literal {
            Some(lit) => match reply {
                HostReply::Truth(b) => self.match_facts.eqs.push((subject, lit, b)),
                _ => {
                    return self.bad_reply();
                },
            },
            None => match reply {
                HostReply::Items(xs) => self.match_facts.items.push((subject, Some(xs))),
                HostReply::Text(n) => {
                    self.match_facts.items.push((subject, None));
                    self.match_facts.names.push((subject, n));
                },
                _ => {
                    return self.bad_reply();
                },
            },
        }
        proof {
            assert(self.match_facts@.eqs =~= with_fact(f, subject, literal, reply).eqs);
            assert(self.match_facts@.items =~= with_fact(f, subject, literal, reply).items);
            assert(self.match_facts@.names =~= with_fact(f, subject, literal, reply).names);
            assert(self.match_facts@.types =~= with_fact(f, subject, literal, reply).types);
            assert(self.match_facts@.attrs =~= with_fact(f, subject, literal, reply).attrs);
            assert(self.match_facts@.texts =~= with_fact(f, subject, literal, reply).texts);
            assert(self.match_facts@.bound =~= with_fact(f, subject, literal, reply).bound);
        }
        self.rematch(k, value, assign)
    }

    /// Records the host's answer on the attribute last asked for of
    /// `subject`, and tries the match of `value` against pattern `k` again.
    fn match_attr_fact(&mut self, k: u32, value: Value, subject: Value, reply: HostReply) -> (r: Outcome)
        requires
            old(self).wf(),
            old(self).running,
            old(self).waiting is None,
        ensures
            final(self).wf(),
            final(self).protocol(r),
            final(self).codes == old(self).codes,
            (reply is Value || reply is Missing) ==> old(self).rematched(
                k,
                value,
                false,
                FactsView {
                    attrs: old(self).match_facts@.attrs.push(
                        (subject, old(self).match_attr@, if reply is Value { Some(reply->Value_0) } else { None }),
                    ),
                    ..old(self).match_facts@
                },
                r,
                *final(self),
            ),
            !(reply is Value || reply is Missing) ==> raised(
                old(self).frame.state(),
                old(self).callers(),
                ErrorView::Builtin(ExceptionKind::RuntimeError, bad_reply_text()),
                r,
                *final(self),
            ),
    {
        let ghost f = self.match_facts@;
        let x = match reply {
            HostReply::Value(v) => Some(v),
            HostReply::Missing => None,
            _ => {
                return self.bad_reply();
            },
        };
        let a = self.match_attr.clone();
        self.match_facts.attrs.push((subject, a, x));
        proof {
            assert(self.match_facts@.attrs =~= f.attrs.push((subject, old(self).match_attr@, x)));
            assert(self.match_facts@.texts =~= f.texts);
            assert(self.match_facts@.bound =~= f.bound);
            assert(self.match_facts@ == FactsView { attrs: f.attrs.push((subject, old(self).match_attr@, x)), ..f });
        }
        self.rematch(k, value, false)
    }

    /// Carries out the host's answer (see `answer`).
    #[verifier::rlimit(60)]
    fn resume(&mut self, reply: HostReply) -> (r: Outcome)
        requires
            old(self).wf(),
            old(self).running,
            old(self).waiting is Some,
        ensures
            final(self).wf(),
            final(self).protocol(r),
            final(self).codes == old(self).codes,
            old(self).answered(reply, r, *final(self)),
    {
        let res = self.waiting.unwrap();
        self.waiting = None;
        match reply {
            HostReply::Raised(e) => return self.raise(e),
            _ => {},
        }
        let cid = self.frame.code.unwrap();
        match res {
            Resume::Push => match reply {
                HostReply::Value(v) => {
                    self.frame.stack.push(v);
                    Outcome::Running
                },
                _ => self.bad_reply(),
            },
            Resume::Truth(neg) => match reply {
                HostReply::Truth(t) => {
                    self.frame.stack.push(Value::Bool(t != neg));
                    Outcome::Running
                },
                _ => self.bad_reply(),
            },
            Resume::Branch { target, when, keep } => match reply {
                HostReply::Truth(t) => {
                    if t == when {
                        self.frame.ip = target;
                    } else if keep {
                        pop_value(&mut self.frame.stack);
                    }
                    Outcome::Running
                },
                _ => self.bad_reply(),
            },
            Resume::StoreJump { slot, target } => match reply {
                HostReply::Value(v) => {
                    write_slot(&mut self.frame.locals, slot, v);
                    self.frame.ip = target;
                    Outcome::Running
                },
                _ => self.bad_reply(),
            },
            Resume::ExcMatch => match reply {
                HostReply::Text(t) => {
                    let n = self.frame.active_exception_stack.len();
                    let m = if n > 0 { self.frame.active_exception_stack[n - 1].matches(t.as_str()) } else { false };
                    self.frame.stack.push(Value::Bool(m));
                    Outcome::Running
                },
                _ => self.bad_reply(),
            },
            Resume::RaiseText => match reply {
                HostReply::Text(t) => self.raise(VMError::RuntimeError(t)),
                _ => self.bad_reply(),
            },
            Resume::Unpack(n) => match reply {
                HostReply::Items(items) => {
                    if items.len() != n {
                        self.raise(VMError::RuntimeError(unpack_message(items.len(), n)))
                    } else {
                        push_reversed(&mut self.frame.stack, &items);
                        Outcome::Running
                    }
                },
                _ => self.bad_reply(),
            },
            Resume::UnpackEx(arg) => match reply {
                HostReply::Items(items) => {
                    let (before, after) = ex_counts(arg);
                    if items.len() < before + after {
                        self.raise(VMError::RuntimeError(unpack_ex_message(before + after, items.len())))
                    } else {
                        let middle = split_ex(&mut self.frame.stack, &items, before, after);
                        self.ask(HostRequest::Build(false, middle), Resume::InsertBelow(before))
                    }
                },
                _ => self.bad_reply(),
            },
            Resume::BlockSnapshot(start) => match reply {
                HostReply::Items(flags) => self.record_block_snapshot(start, &flags),
                _ => self.bad_reply(),
            },
            Resume::InsertBelow(n) => match reply {
                HostReply::Value(v) => {
                    insert_value_below(&mut self.frame.stack, n, v);
                    Outcome::Running
                },
                _ => self.bad_reply(),
            },
            Resume::RaiseDescribed => match reply {
                HostReply::Described(tname, msg) => {
                    let e = error_from_described(tname.as_str(), msg);
                    self.raise(e)
                },
                _ => self.bad_reply(),
            },
            Resume::PushOrNameError(k) => match reply {
                HostReply::Value(v) => {
                    self.frame.stack.push(v);
                    Outcome::Running
                },
                HostReply::Missing => match self.name_at(cid, k) {
                    Ok(name) => self.raise(VMError::NameError(name)),
                    Err(e) => self.raise(e),
                },
                _ => self.bad_reply(),
            },
            Resume::PushOrLookup(k) => match reply {
                HostReply::Value(v) => {
                    self.frame.stack.push(v);
                    Outcome::Running
                },
                HostReply::Missing => match self.name_at(cid, k) {
                    Ok(name) => self.ask(HostRequest::Lookup(name), Resume::PushOrNameError(k)),
                    Err(e) => self.raise(e),
                },
                _ => self.bad_reply(),
            },
            Resume::StoreOrGlobal { name: k, value } => match reply {
                HostReply::Truth(stored) => match self.name_at(cid, k) {
                    Ok(name) => {
                        if stored {
                            if name_map_get(&self.globals, name.as_str()).is_some() {
                                name_map_insert(&mut self.globals, name, value);
                            }
                            Outcome::Running
                        } else {
                            self.store_global(name, value)
                        }
                    },
                    Err(e) => self.raise(e),
                },
                _ => self.bad_reply(),
            },
            Resume::RaiseStruct(idx) => match reply {
                HostReply::Text(msg) => {
                    let tname = match self.struct_registry.instance(idx) {
                        Some(inst) => {
                            proof {
                                self.struct_registry.lemma_instance(idx as int);
                            }
                            self.struct_registry.get_type(inst.type_id).unwrap().name.clone()
                        },
                        None => String::from_str("RuntimeError"),
                    };
                    let info = self.struct_exception(tname, msg);
                    self.raise(VMError::UserException(info))
                },
                _ => self.bad_reply(),
            },
            Resume::MatchReply => match reply {
                HostReply::Bindings(bs) => {
                    self.frame.match_bindings = Some(bs);
                    self.frame.stack.push(Value::Bool(true));
                    Outcome::Running
                },
                HostReply::Missing => {
                    self.frame.stack.push(Value::Nil);
                    Outcome::Running
                },
                _ => self.bad_reply(),
            },
            Resume::MatchFact { k, value, subject, literal } => self.match_fact(k, value, subject, literal, false, reply),
            Resume::AssignFact { k, value, subject } => self.match_fact(k, value, subject, None, true, reply),
            Resume::MatchType { k, value, subject } => match reply {
                HostReply::Text(n) => {
                    let ghost f = self.match_facts@;
                    self.match_facts.types.push((subject, n));
                    proof {
                        assert(self.match_facts@.types =~= f.types.push((subject, n@)));
                        assert(self.match_facts@.texts =~= f.texts);
                        assert(self.match_facts@.bound =~= f.bound);
            assert(self.match_facts@.bound =~= f.bound);
                        assert(self.match_facts@ == FactsView { types: f.types.push((subject, n@)), ..f });
                    }
                    self.rematch(k, value, false)
                },
                _ => self.bad_reply(),
            },
            Resume::MatchAttr { k, value, subject } => self.match_attr_fact(k, value, subject, reply),
            Resume::MatchBound { k, value } => match reply {
                HostReply::Items(xs) => {
                    let ghost f = self.match_facts@;
                    let b = xs.len() > 0 && xs[0] == Value::Bool(true);
                    let n = self.match_attr.clone();
                    self.match_facts.bound.push((n, b));
                    proof {
                        assert(self.match_facts@.bound =~= f.bound.push((self.match_attr@, b)));
                        assert(self.match_facts@ == FactsView { bound: f.bound.push((self.match_attr@, b)), ..f });
                    }
                    self.rematch(k, value, false)
                },
                _ => self.bad_reply(),
            },
            Resume::MatchText { k, value, subject } => match reply {
                HostReply::Truth(b) => {
                    let ghost f = self.match_facts@;
                    let t = self.match_attr.clone();
                    self.match_facts.texts.push((subject, t, b));
                    proof {
                        assert(self.match_facts@.texts =~= f.texts.push((subject, self.match_attr@, b)));
                        assert(self.match_facts@ == FactsView { texts: f.texts.push((subject, self.match_attr@, b)), ..f });
                    }
                    self.rematch(k, value, false)
                },
                _ => self.bad_reply(),
            },
            Resume::ForIter(target) => match reply {
                HostReply::Value(v) => {
                    self.frame.stack.push(v);
                    Outcome::Running
                },
                HostReply::Missing => {
                    pop_value(&mut self.frame.stack);
                    self.frame.ip = target;
                    Outcome::Running
                },
                _ => self.bad_reply(),
            },
            Resume::Checkpoint { instr, src } => match reply {
                HostReply::Status { interrupted, rss } => self.after_checkpoint(instr, src, interrupted, rss),
                _ => self.bad_reply(),
            },
            Resume::MakeEnum => match reply {
                HostReply::Names(texts) => self.define_enum(texts),
                _ => self.bad_reply(),
            },
            Resume::EnumMarker(tid) => match reply {
                HostReply::Value(v) => self.bind_enum(tid, v),
                _ => self.bad_reply(),
            },
            Resume::StructKw { t, nargs, nkw } => match reply {
                HostReply::Names(names) => self.resume_struct_kw(t, nargs, nkw, names),
                _ => self.bad_reply(),
            },
            Resume::FieldEq { a, b, next, negate } => match reply {
                HostReply::Value(v) => {
                    if v == Value::Bool(true) {
                        self.compare_fields(a, b, next, negate)
                    } else {
                        self.frame.stack.push(Value::Bool(negate));
                        Outcome::Running
                    }
                },
                _ => self.bad_reply(),
            },
            Resume::CheckComposite { value, k } => match reply {
                HostReply::Facts(f) => self.resume_composite(value, k, &f),
                _ => self.bad_reply(),
            },
            Resume::CheckNominal { value, k } => match reply {
                HostReply::Nominal { member, known, value_type } => self.resume_nominal(value, k, member, known, value_type),
                _ => self.bad_reply(),
            },
            Resume::Ignore => Outcome::Running,
        }
    }

    /// Raises the error for an answer of the wrong kind.
    fn bad_reply(&mut self) -> (r: Outcome)
        requires
            old(self).wf(),
            old(self).running,
            old(self).waiting is None,
        ensures
            final(self).wf(),
            final(self).protocol(r),
            final(self).codes == old(self).codes,
            raised(
                old(self).frame.state(),
                old(self).callers(),
                ErrorView::Builtin(ExceptionKind::RuntimeError, bad_reply_text()),
                r,
                *final(self),
            ),
    {
        self.raise(VMError::RuntimeError(String::from_str("host reply does not answer the request")))
    }

    /// The VM `post` that starting code `cid` with `args` (and closure
    /// scope `closure`) leaves: a fresh main frame at the start of the code,
    /// the arguments bound (a `*args` slot left `Nil`), no callers, no
    /// recorded call sites or error; nothing else changes but the frame pool.
    pub open spec fn started(&self, cid: usize, args: Seq<Value>, closure: Option<NativeClosureScope>, post: VM) -> bool {
        &&& post == (VM {
            frame: post.frame,
            frame_pool: post.frame_pool,
            call_stack: post.call_stack,
            last_error_context: None,
            running: true,
            waiting: None,
            ..*self
        })
        &&& post.call_stack@.len() == 0
        &&& self.frame_stack@.len() == 0
        &&& post.frame.code == Some(cid)
        &&& post.frame.ip == 0
        &&& post.frame.stack@.len() == 0
        &&& post.frame.locals@ == bound_locals(
            self.codes@[cid as int],
            nils(self.codes@[cid as int].nlocals as nat),
            args,
            Seq::empty(),
            Value::Nil,
        )
        &&& post.frame.closure_scope == (match closure {
            Some(c) => Some(c.id),
            None => None::<usize>,
        })
    }

    /// Starts running code `cid` with positional arguments `args` and
    /// closure scope `closure`, in a fresh frame.
    pub fn start(&mut self, cid: usize, args: &[Value], closure: Option<NativeClosureScope>)
        requires
            old(self).wf(),
            !old(self).running,
            (cid as int) < old(self).codes@.len(),
            closure matches Some(c) ==> old(self).scopes.has(c),
        ensures
            final(self).wf(),
            old(self).started(cid, args@, closure, *final(self)),
    {
        let nlocals = self.codes[cid].nlocals;
        let mut f = self.frame_pool.alloc_with_code(cid, nlocals);
        f.bind_args(&self.codes[cid], args, &[]);
        proof {
            let kw: Seq<(String, Value)> = Seq::empty();
            assert(kw.map_values(|p: (String, Value)| (p.0@, p.1)) =~= Seq::<(Seq<char>, Value)>::empty());
        }
        f.closure_scope = match closure {
            Some(c) => Some(c.id),
            None => None,
        };
        std::mem::swap(&mut f, &mut self.frame);
        self.frame_pool.free(f);
        self.call_stack.clear();
        self.last_error_context = None;
        self.running = true;
        self.waiting = None;
    }

    /// Records where and why the run failed.
    fn capture_error_context(&mut self, error: &VMError)
        ensures
            *final(self) == (VM { last_error_context: final(self).last_error_context, ..*old(self) }),
            final(self).codes == old(self).codes,
            final(self).running == old(self).running,
            final(self).waiting == old(self).waiting,
            final(self).frame == old(self).frame,
            final(self).frame_stack == old(self).frame_stack,
            final(self).tuples == old(self).tuples,
            final(self).scopes == old(self).scopes,
            final(self).frame_pool == old(self).frame_pool,
            final(self).struct_registry == old(self).struct_registry,
            final(self).enum_registry == old(self).enum_registry,
            final(self).func_table == old(self).func_table,
            final(self).module_scope == old(self).module_scope,
            match error_fields(error.view()) {
                Some((t, m)) => final(self).last_error_context matches Some(c) && c.error_type@ == t && c.message@ == m
                    && c.start_byte == old(self).last_src_byte && c.call_stack@.len() == old(self).call_stack@.len(),
                None => final(self).last_error_context == old(self).last_error_context,
            },
    {
        let fields: Option<(String, String)> = match error {
            VMError::UserException(info) => Some((info.exc_type.clone(), info.message.clone())),
            VMError::StackUnderflow => Some((String::from_str("RuntimeError"), String::from_str("WeirdError: VM stack underflow"))),
            VMError::FrameOverflow => Some(
                (String::from_str("RuntimeError"), String::from_str("WeirdError: VM frame stack overflow")),
            ),
            VMError::Interrupted => Some((String::from_str("KeyboardInterrupt"), String::from_str("execution interrupted"))),
            VMError::Exit(_) | VMError::Return(_) | VMError::Break | VMError::Continue => None,
            _ => match error.exception_info() {
                Some(info) => Some((info.exc_type, info.message)),
                None => None,
            },
        };
        match fields {
            Some((error_type, message)) => {
                let mut stack: Vec<(String, u32)> = Vec::new();
                let mut i: usize = 0;
                while i < self.call_stack.len()
                    invariant
                        i <= self.call_stack@.len(),
                        stack@.len() == i,
                    decreases self.call_stack@.len() - i,
                {
                    stack.push((self.call_stack[i].name.clone(), self.call_stack[i].call_start_byte));
                    i = i + 1;
                }
                self.last_error_context = Some(ErrorContext {
                    error_type,
                    message,
                    start_byte: self.last_src_byte,
                    call_stack: stack,
                });
            },
            None => {},
        }
    }

    /// What running code `code` with `args` and closure scope `closure`
    /// from this VM leads to (`r` and `post`): the code is added to the code
    /// table and started; a `*args` parameter first has the host build the
    /// list of the excess arguments, which goes to that slot; otherwise steps
    /// run from the started VM, as `run` states: `Running` only once
    /// `u64::MAX` steps have run and left it running, any other outcome from
    /// the step that gave it, after fewer running steps.
    pub open spec fn executed(
        &self,
        code: CodeObject,
        args: Seq<Value>,
        closure: Option<NativeClosureScope>,
        r: Outcome,
        post: VM,
    ) -> bool {
        let added = VM { codes: post.codes, ..*self };
        &&& post.codes@ == self.codes@.push(code)
        &&& if code.vararg_idx >= 0 {
            &&& added.started(self.codes@.len() as usize, args, closure, VM {
                waiting: None,
                ..post
            })
            &&& r matches Outcome::Host(req) && req.view() == HostView::Build(false, excess_args(code, args))
            &&& post.waiting == Some(Resume::StoreJump { slot: code.vararg_idx as usize, target: 0 })
        } else {
            &&& r is Running ==> exists|s0: VM, states: Seq<VM>|
                #![trigger added.started(self.codes@.len() as usize, args, closure, s0), VM::running_chain(states)]
                added.started(self.codes@.len() as usize, args, closure, s0) && VM::running_chain(states) && states[0] == s0
                    && states.len() == u64::MAX + 1 && states.last() == post
            &&& !(r is Running) ==> exists|s0: VM, states: Seq<VM>, last: VM|
                #![trigger added.started(self.codes@.len() as usize, args, closure, s0), VM::running_chain(states), states.last().step_done(r, last)]
                added.started(self.codes@.len() as usize, args, closure, s0) && VM::running_chain(states) && states[0] == s0
                    && states.len() <= u64::MAX && states.last().step_done(r, last) && VM::run_ended(last, r, post)
        }
    }

    /// Runs code to the end: adds it to the code table and runs it with
    /// `args` until it finishes or the host is asked.
    pub fn execute(&mut self, code: CodeObject, args: &[Value]) -> (r: Outcome)
        requires
            old(self).wf(),
            !old(self).running,
            code.wf(),
        ensures
            final(self).wf(),
            final(self).protocol(r),
            old(self).executed(code, args@, None, r, *final(self)),
            !final(self).running ==> final(self).frame_stack@.len() == 0,
    {
        self.execute_with_closure(code, args, None)
    }

    /// Runs code with a closure scope: adds it to the code table and runs
    /// it with `args` until it finishes or the host is asked. A failure
    /// records its context.
    pub fn execute_with_closure(
        &mut self,
        code: CodeObject,
        args: &[Value],
        closure: Option<NativeClosureScope>,
    ) -> (r: Outcome)
        requires
            old(self).wf(),
            !old(self).running,
            code.wf(),
            closure matches Some(c) ==> old(self).scopes.has(c),
        ensures
            final(self).wf(),
            final(self).protocol(r),
            old(self).executed(code, args@, closure, r, *final(self)),
            !final(self).running ==> final(self).frame_stack@.len() == 0,
    {
        let cid = self.add_code(code);
        let ghost added = *self;
        self.start(cid, args, closure);
        let ghost s0 = *self;
        if self.codes[cid].vararg_idx >= 0 {
            let v = self.codes[cid].vararg_idx as usize;
            let excess = excess_of(&self.codes[cid], args);
            let r = self.ask(HostRequest::Build(false, excess), Resume::StoreJump { slot: v, target: 0 });
            proof {
                assert(VM { waiting: None, ..*self } == s0);
            }
            return r;
        }
        let r = self.run(u64::MAX);
        proof {
            assert(added == VM { codes: self.codes, ..*old(self) });
            assert(added.started(old(self).codes@.len() as usize, args@, closure, s0));
            if r is Running {
                let states = choose|states: Seq<VM>| #[trigger] VM::running_chain(states) && states.len() == u64::MAX + 1
                    && states[0] == s0 && states.last() == *self;
                assert(VM::running_chain(states) && states[0] == s0 && states.len() == u64::MAX + 1 && states.last() == *self);
            } else {
                let (states, last) = choose|states: Seq<VM>, last: VM|
                    #![trigger VM::running_chain(states), states.last().step_done(r, last)]
                    VM::running_chain(states) && states.len() <= u64::MAX && states[0] == s0
                        && states.last().step_done(r, last) && VM::run_ended(last, r, *self);
                assert(VM::running_chain(states) && states[0] == s0 && states.len() <= u64::MAX
                    && states.last().step_done(r, last) && VM::run_ended(last, r, *self));
            }
        }
        r
    }

    /// The tables and registries of `self` are those of `other`.
    pub open spec fn same_tables(&self, other: VM) -> bool {
        &&& self.codes == other.codes
        &&& self.func_table == other.func_table
        &&& self.tuples == other.tuples
        &&& self.scopes == other.scopes
        &&& self.struct_registry == other.struct_registry
        &&& self.globals == other.globals
        &&& self.module_scope == other.module_scope
        &&& self.symbol_table == other.symbol_table
        &&& self.enum_registry == other.enum_registry
    }

    /// Raises `err` in the running frame: unwinds to a handler (walking up
    /// the callers for an exception); a return signal that no `finally`
    /// takes leaves the frame; anything else ends the run.
    pub(crate) fn raise(&mut self, err: VMError) -> (r: Outcome)
        requires
            old(self).wf(),
            old(self).running,
            old(self).waiting is None,
        ensures
            final(self).wf(),
            final(self).same_tables(*old(self)),
            final(self).protocol(r),
            raised(old(self).frame.state(), old(self).callers(), err.view(), r, *final(self)),
    {
        let ghost goal = unwind_frames(old(self).frame.state(), old(self).callers(), err.view());
        proof {
            crate::error::lemma_error_view(err);
        }
        proof {
            lemma_try_unwind_context(self.frame.state(), err.view());
        }
        if try_unwind_to_handler(&mut self.frame, &err) {
            return Outcome::Running;
        }
        if err.is_catchable() {
            while self.frame_stack.len() > 0
                invariant
                    self.wf(),
                    self.running,
                    self.waiting is None,
                    self.same_tables(*old(self)),
                    err.view().catchable(),
                    goal == unwind_frames(old(self).frame.state(), old(self).callers(), err.view()),
                    goal == (if self.frame_stack@.len() > 0 {
                        unwind_frames(self.callers().last(), self.callers().drop_last(), err.view())
                    } else {
                        None
                    }),
                decreases self.frame_stack@.len(),
            {
                let ghost before = self.callers();
                let ghost stack_before = self.frame_stack@;
                let caller = self.frame_stack.pop().unwrap();
                let mut old_frame = caller;
                std::mem::swap(&mut old_frame, &mut self.frame);
                self.frame_pool.free(old_frame);
                proof {
                    assert(self.callers() =~= before.drop_last());
                    assert(self.frame.state() == before.last());
                    assert(self.frame == stack_before[stack_before.len() - 1]);
                    assert(self.frame_ok(stack_before[stack_before.len() - 1]));
                    assert forall|i: int| 0 <= i < self.frame_stack@.len() implies self.frame_ok(#[trigger] self.frame_stack@[i]) by {
                        assert(self.frame_stack@[i] == stack_before[i]);
                    }
                }
                let ghost pre = self.frame.state();
                proof {
                    lemma_try_unwind_context(pre, err.view());
                    assert(goal == unwind_frames(pre, self.callers(), err.view()));
                }
                if try_unwind_to_handler(&mut self.frame, &err) {
                    assert(goal == Some((self.frame.state(), self.callers())));
                    return Outcome::Running;
                }
            }
        }
        match err {
            VMError::Return(v) => self.return_to_caller(v),
            _ => {
                self.finish();
                Outcome::Failed(err)
            },
        }
    }
}

/// Unwinding keeps the frame's code and scopes.
pub proof fn lemma_try_unwind_context(s: FrameState, e: ErrorView)
    ensures
        try_unwind(s, e) matches Some(t) ==> t.code == s.code && t.closure == s.closure && t.py_scope == s.py_scope
            && t.discard == s.discard,
    decreases s.handlers.len(),
{
    if s.handlers.len() > 0 {
        lemma_try_unwind_context(FrameState { handlers: s.handlers.drop_last(), ..s }, e);
    }
}

/// Message of the error raised for a call of an unknown function.
pub open spec fn invalid_function_text(idx: int, n: int) -> Seq<char> {
    "invalid function index "@ + decimal(idx) + " (table has "@ + decimal(n) + " entries)"@
}

/// Message of the error raised for a name index out of range.
pub open spec fn invalid_name_text(k: int, n: int) -> Seq<char> {
    "invalid name index "@ + decimal(k) + " (names len="@ + decimal(n) + ")"@
}

/// Message of the error raised for a missing struct attribute.
pub open spec fn attr_text(ty: Seq<char>, attr: Seq<char>) -> Seq<char> {
    "'"@ + ty + "' has no attribute '"@ + attr + "'"@
}

/// Formats `attr_text`.
pub(crate) fn attr_message(ty: &str, attr: &str) -> (r: String)
    ensures
        r@ == attr_text(ty@, attr@),
{
    let a = concat3("'", ty, "' has no attribute '");
    concat3(a.as_str(), attr, "'")
}

/// Whether `names` holds `name`.
pub(crate) fn names_contain(names: &Vec<String>, name: &str) -> (r: bool)
    ensures
        r == names@.map_values(|s: String| s@).contains(name@),
{
    let mut i: usize = 0;
    while i < names.len()
        invariant
            i <= names@.len(),
            forall|j: int| 0 <= j < i ==> (#[trigger] names@[j])@ != name@,
        decreases names@.len() - i,
    {
        if str_equal(names[i].as_str(), name) {
            assert(names@.map_values(|s: String| s@)[i as int] == name@);
            return true;
        }
        i = i + 1;
    }
    let ghost m = names@.map_values(|s: String| s@);
    assert(!m.contains(name@)) by {
        if m.contains(name@) {
            let j = choose|j: int| 0 <= j < m.len() && #[trigger] m[j] == name@;
            assert(names@[j]@ == name@);
        }
    }
    false
}

/// The error type name and message a failure context records; `None` for
/// exits and control signals.
pub open spec fn error_fields(e: ErrorView) -> Option<(Seq<char>, Seq<char>)> {
    match e {
        ErrorView::Builtin(k, m) => Some((kind_name(k), m)),
        ErrorView::User(i) => Some((i.exc_type, i.message)),
        ErrorView::StackUnderflow => Some(("RuntimeError"@, "WeirdError: VM stack underflow"@)),
        ErrorView::FrameOverflow => Some(("RuntimeError"@, "WeirdError: VM frame stack overflow"@)),
        ErrorView::Interrupted => Some(("KeyboardInterrupt"@, "execution interrupted"@)),
        _ => None,
    }
}

/// The state after a conditional jump on truthiness `t`.
pub open spec fn branch_state(s: FrameState, t: bool, target: usize, when: bool, keep: bool) -> FrameState {
    if t == when {
        FrameState { ip: target as int, ..s }
    } else if keep {
        FrameState { stack: pop1(s.stack), ..s }
    } else {
        s
    }
}

/// The error a raised host value stands for, from its type name and message:
/// a built-in exception kind gives its error (an exception group that has no
/// variant of its own keeps its identity as a user exception); any other
/// type gives a `RuntimeError` with the message.
pub fn error_from_described(tname: &str, msg: String) -> (r: VMError)
    ensures
        r.view() == described_error(tname@, msg@),
{
    match ExceptionKind::from_name(tname) {
        Some(kind) => {
            let e = VMError::from_exception_info(tname, msg.as_str());
            let is_runtime = match e {
                VMError::RuntimeError(_) => true,
                _ => false,
            };
            if is_runtime && !str_equal(tname, "RuntimeError") {
                VMError::UserException(ExceptionInfo::from_kind(kind, msg))
            } else {
                e
            }
        },
        None => VMError::RuntimeError(msg),
    }
}

/// View of `error_from_described`.
pub open spec fn described_error(tname: Seq<char>, msg: Seq<char>) -> ErrorView {
    match kind_named(tname) {
        Some(k) => if restored_kind(tname) == ExceptionKind::RuntimeError && tname != "RuntimeError"@ {
            ErrorView::User(kind_exception(k, msg))
        } else {
            ErrorView::Builtin(restored_kind(tname), msg)
        },
        None => ErrorView::Builtin(ExceptionKind::RuntimeError, msg),
    }
}

/// The text Python gives values the VM renders alone.
fn native_text(v: Value) -> (r: Option<String>)
    ensures
        r matches Some(t) ==> t@ == native_str(v),
        r is None <==> !(v is Nil || v is Bool || v is Int),
{
    match v {
        Value::Nil => Some(String::from_str("None")),
        Value::Bool(b) => Some(String::from_str(if b { "True" } else { "False" })),
        Value::Int(n) => Some(i64_to_decimal(n)),
        _ => None,
    }
}

/// `str(v)` for the values the VM renders alone; empty for the others.
pub open spec fn native_str(v: Value) -> Seq<char> {
    match v {
        Value::Nil => "None"@,
        Value::Bool(b) => if b { "True"@ } else { "False"@ },
        Value::Int(n) => decimal(n as int),
        _ => Seq::empty(),
    }
}

/// Index of the first `.` of `s` at or after `from`, or -1.
pub open spec fn dot_from(s: Seq<char>, from: int) -> int
    decreases s.len() - from,
{
    if from < 0 || from >= s.len() {
        -1
    } else if s[from] == '.' {
        from
    } else {
        dot_from(s, from + 1)
    }
}

proof fn lemma_dot_from(s: Seq<char>, from: int, i: int)
    requires
        0 <= from <= i,
        forall|j: int| from <= j < i && j < s.len() ==> s[j] != '.',
    ensures
        (i < s.len() && s[i] == '.') ==> dot_from(s, from) == i,
        i >= s.len() ==> dot_from(s, from) == -1,
    decreases i - from,
{
    if from < i && from < s.len() {
        lemma_dot_from(s, from + 1, i);
    }
}

/// The text before the first `.` of `s`, if it has one.
pub(crate) fn before_dot(s: &str) -> (r: Option<String>)
    ensures
        dot_from(s@, 0) >= 0 ==> r is Some && r.unwrap()@ == s@.subrange(0, dot_from(s@, 0)),
        dot_from(s@, 0) < 0 ==> r is None,
{
    let n = s.unicode_len();
    let mut i: usize = 0;
    while i < n
        invariant
            n == s@.len(),
            i <= n,
            forall|j: int| 0 <= j < i ==> s@[j] != '.',
        decreases n - i,
    {
        if s.get_char(i) == '.' {
            proof {
                lemma_dot_from(s@, 0, i as int);
            }
            let t = s.substring_char(0, i).to_owned();
            return Some(t);
        }
        i = i + 1;
    }
    proof {
        lemma_dot_from(s@, 0, n as int);
    }
    None
}

/// The locals of a frame reused by a tail call to `code` with `args`:
/// arguments fill the first slots, defaults the parameters left, `Nil` the
/// rest.
pub open spec fn tail_locals(code: CodeObject, args: Seq<Value>) -> Seq<Value> {
    let nparams = code.nargs as int;
    let nd = code.defaults@.len() as int;
    let dstart: int = if nparams >= nd { nparams - nd } else { 0 };
    Seq::new(code.nlocals as nat, |i: int|
        if nd > 0 && (if args.len() >= dstart { args.len() as int } else { dstart as int }) <= i < nparams && i - dstart < nd {
            code.defaults@[i - dstart]
        } else if i < args.len() {
            args[i]
        } else {
            Value::Nil
        })
}

/// Builds `tail_locals`.
fn bind_tail(code: &CodeObject, args: &Vec<Value>) -> (r: Vec<Value>)
    requires
        code.wf(),
    ensures
        r@ == tail_locals(*code, args@),
{
    let n = code.nlocals;
    let nparams = code.nargs;
    let nd = code.defaults.len();
    let dstart = if nparams >= nd { nparams - nd } else { 0 };
    let lo = if args.len() >= dstart { args.len() } else { dstart };
    let mut out: Vec<Value> = Vec::new();
    let mut i: usize = 0;
    while i < n
        invariant
            i <= n,
            n == code.nlocals,
            nparams == code.nargs,
            nd == code.defaults@.len(),
            dstart == (if nparams >= nd { nparams - nd } else { 0 }),
            lo == (if args@.len() >= dstart { args@.len() as int } else { dstart as int }),
            out@.len() == i,
            forall|j: int| 0 <= j < i ==> (#[trigger] out@[j]) == tail_locals(*code, args@)[j],
        decreases n - i,
    {
        let v = if nd > 0 && lo <= i && i < nparams && i - dstart < nd {
            code.defaults[i - dstart]
        } else if i < args.len() {
            args[i]
        } else {
            Value::Nil
        };
        out.push(v);
        i = i + 1;
    }
    assert(out@ =~= tail_locals(*code, args@));
    out
}

/// Copies a list of strings.
fn copy_strings(v: &Vec<String>) -> (r: Vec<String>)
    ensures
        r@.map_values(|s: String| s@) == v@.map_values(|s: String| s@),
{
    let mut out: Vec<String> = Vec::new();
    let mut i: usize = 0;
    while i < v.len()
        invariant
            i <= v@.len(),
            out@.len() == i,
            forall|j: int| 0 <= j < i ==> (#[trigger] out@[j])@ == v@[j]@,
        decreases v@.len() - i,
    {
        out.push(v[i].clone());
        i = i + 1;
    }
    assert(out@.map_values(|s: String| s@) =~= v@.map_values(|s: String| s@));
    out
}

/// A frame instruction keeps the frame's code and scopes.
pub proof fn lemma_frame_effect_context(s: FrameState, instr: Instruction, consts: Seq<Value>, heap: Seq<Seq<Value>>)
    ensures
        frame_effect(s, instr, consts, heap).0.code == s.code,
        frame_effect(s, instr, consts, heap).0.closure == s.closure,
{
    if is_control_op(instr.op) {
        lemma_control_context(s, instr, consts, heap);
    } else if is_host_op(instr.op) {
    } else {
        lemma_basic_context(s, instr, consts, heap);
    }
}

proof fn lemma_control_context(s: FrameState, instr: Instruction, consts: Seq<Value>, heap: Seq<Seq<Value>>)
    ensures
        control_effect(s, instr, consts, heap).0.code == s.code,
        control_effect(s, instr, consts, heap).0.closure == s.closure,
{
    match instr.op {
        OpCode::BuildTuple => {},
        OpCode::UnpackSequence => {},
        OpCode::ResumeUnwind => {},
        OpCode::ForRangeInt => {},
        OpCode::ForRangeStep => {},
        _ => {},
    }
}

proof fn lemma_basic_context(s: FrameState, instr: Instruction, consts: Seq<Value>, heap: Seq<Seq<Value>>)
    ensures
        basic_effect(s, instr, consts, heap).0.code == s.code,
        basic_effect(s, instr, consts, heap).0.closure == s.closure,
{
    match instr.op {
        OpCode::Eq | OpCode::Ne => {},
        OpCode::Not | OpCode::ToBool => {},
        OpCode::JumpIfFalse | OpCode::JumpIfTrue => {},
        OpCode::JumpIfFalseOrPop | OpCode::JumpIfTrueOrPop => {},
        _ => {},
    }
}

/// What a VM instruction handler leads to.
pub enum Effect {
    /// The value is pushed.
    Push(Value),
    /// The host is asked; its answer is for the resume.
    Ask(HostView, Resume),
    /// The error is raised.
    Raise(ErrorView),
}

/// The outcome `r` and VM `post` carry out effect `eff` on frame `cur` (the
/// running frame once the handler popped its operands) with callers
/// `callers`.
pub open spec fn carried(eff: Effect, cur: FrameState, callers: Seq<FrameState>, r: Outcome, post: VM) -> bool {
    match eff {
        Effect::Push(v) => r is Running && post.running && post.waiting is None
            && post.frame.state() == FrameState { stack: cur.stack.push(v), ..cur } && post.callers() == callers,
        Effect::Ask(q, res) => (r matches Outcome::Host(req) && req.view() == q) && post.running
            && post.waiting == Some(res) && post.frame.state() == cur && post.callers() == callers,
        Effect::Raise(e) => raised(cur, callers, e, r, post),
    }
}

/// The variables a function made in a frame captures: each (name, slot)
/// pair in order binds the slot's value when it is not `Nil`, except, at
/// module level, names that are module globals (reached through the module
/// scope instead).
pub open spec fn capture_entries(
    pairs: Seq<(Seq<char>, usize)>,
    locals: Seq<Value>,
    globals: Seq<(Seq<char>, Value)>,
    at_module: bool,
) -> Seq<(Seq<char>, Value)>
    decreases pairs.len(),
{
    if pairs.len() == 0 {
        Seq::empty()
    } else {
        let prev = capture_entries(pairs.drop_last(), locals, globals, at_module);
        let name = pairs.last().0;
        let v = slot_value(locals, pairs.last().1 as int);
        if (at_module && entry_lookup(globals, name) is Some) || v == Value::Nil {
            prev
        } else {
            entry_insert(prev, name, v)
        }
    }
}

/// The names of a map's entries, in order.
pub open spec fn global_keys(entries: Seq<(Seq<char>, Value)>) -> Seq<Seq<char>> {
    entries.map_values(|e: (Seq<char>, Value)| e.0)
}

/// No answers from the host yet.
pub open spec fn no_facts() -> FactsView {
    FactsView {
        eqs: Seq::empty(),
        items: Seq::empty(),
        names: Seq::empty(),
        types: Seq::empty(),
        attrs: Seq::empty(),
        texts: Seq::empty(),
        bound: Seq::empty(),
    }
}

/// The request a match makes of the host about host value `o`: whether it
/// equals literal `e`, or (without a literal) which items it iterates to.
pub open spec fn fact_query(o: Value, e: Option<Value>) -> HostView {
    match e {
        Some(lit) => HostView::Equal(o, lit, false),
        None => HostView::SeqItems(o),
    }
}

/// What a match waits for after asking the host about host value `o`.
pub open spec fn fact_resume(k: u32, value: Value, o: Value, e: Option<Value>, assign: bool) -> Resume {
    if assign {
        Resume::AssignFact { k, value, subject: o }
    } else {
        Resume::MatchFact { k, value, subject: o, literal: e }
    }
}

/// `facts` with the host's answer `reply` about `subject` (and `literal`)
/// added.
pub open spec fn with_fact(facts: FactsView, subject: Value, literal: Option<Value>, reply: HostReply) -> FactsView {
    match literal {
        Some(lit) => FactsView { eqs: facts.eqs.push((subject, lit, reply->Truth_0)), ..facts },
        None => FactsView {
            items: facts.items.push((subject, if reply is Items { Some(reply->Items_0@) } else { None })),
            names: if reply is Text { facts.names.push((subject, reply->Text_0@)) } else { facts.names },
            ..facts
        },
    }
}

/// A match `m` of `value` computed against heap `heap`, on frame `cur` (the
/// value popped, earlier bindings dropped), with outcome `r` and VM `post`:
/// no match pushes `Nil`; a match records the bindings (star captures
/// become new tuples) and pushes `True`; a host object asks the host;
/// a failing match raises.
pub open spec fn matched(
    m: MatchView,
    heap: Seq<Seq<Value>>,
    cur: FrameState,
    callers: Seq<FrameState>,
    k: u32,
    value: Value,
    assign: bool,
    r: Outcome,
    post: VM,
) -> bool {
    let ask = carried(Effect::Ask(HostView::Match(k, value), Resume::MatchReply), cur, callers, r, post)
        && post.tuples@ == heap;
    match m {
        MatchView::NoMatch => r is Running && post.frame.state() == FrameState { stack: cur.stack.push(Value::Nil), ..cur }
            && post.callers() == callers && post.tuples@ == heap,
        MatchView::Host => ask,
        MatchView::Ask(o, e) => carried(
            Effect::Ask(fact_query(o, e), fact_resume(k, value, o, e, assign)),
            cur,
            callers,
            r,
            post,
        ) && post.tuples@ == heap,
        MatchView::AskType(o) => carried(
            Effect::Ask(HostView::StructName(o), Resume::MatchType { k, value, subject: o }),
            cur,
            callers,
            r,
            post,
        ) && post.tuples@ == heap,
        MatchView::AskAttr(o, a) => carried(
            Effect::Ask(HostView::MatchAttr(o, a), Resume::MatchAttr { k, value, subject: o }),
            cur,
            callers,
            r,
            post,
        ) && post.tuples@ == heap && post.match_attr@ == a,
        MatchView::AskText(o, t) => carried(
            Effect::Ask(HostView::EqualsText(o, t), Resume::MatchText { k, value, subject: o }),
            cur,
            callers,
            r,
            post,
        ) && post.tuples@ == heap && post.match_attr@ == t,
        MatchView::AskBound(n) => carried(
            Effect::Ask(HostView::HasGlobals(seq![n]), Resume::MatchBound { k, value }),
            cur,
            callers,
            r,
            post,
        ) && post.tuples@ == heap && post.match_attr@ == n,
        MatchView::Raise(kind, msg) => raised(cur, callers, ErrorView::Builtin(kind, msg), r, post) && post.tuples@ == heap,
        MatchView::Bound(bs) => if !items_storable(bs, heap.len()) {
            ask
        } else if items_count(bs) > 0 && heap.len() + items_count(bs) >= u32::MAX {
            raised(cur, callers, ErrorView::Builtin(ExceptionKind::MemoryError, "tuple heap exhausted"@), r, post)
                && post.tuples@ == heap
        } else {
            &&& r is Running
            &&& post.callers() == callers
            &&& post.frame.match_bindings matches Some(b)
            &&& bindings_agree(b@, bs, heap.len(), post.tuples@)
            &&& post.tuples@.len() == heap.len() + items_count(bs)
            &&& post.tuples@.subrange(0, heap.len() as int) == heap
            &&& post.frame.state() == FrameState { stack: cur.stack.push(Value::Bool(true)), bindings: Some(b@), ..cur }
        },
    }
}

/// The outcome `r` and VM `post` carry out frame effect `eff` with callers
/// `callers`.
pub open spec fn stepped(eff: (FrameState, Seq<Seq<Value>>, FlowView), callers: Seq<FrameState>, r: Outcome, post: VM) -> bool {
    &&& post.tuples@ == eff.1
    &&& match eff.2 {
        FlowView::Next => r is Running && post.frame.state() == eff.0 && post.callers() == callers,
        FlowView::Host(q, res) => (r matches Outcome::Host(req) && req.view() == q) && post.waiting == Some(res)
            && post.frame.state() == eff.0 && post.callers() == callers,
        FlowView::Signal(e) => raised(eff.0, callers, e, r, post),
    }
}

/// The outcome `r` and VM `post` after a frame with callers `callers`
/// returned `v`: the innermost caller resumes with `v` pushed (unless the
/// frame discards it); without a caller the run is done with `v`.
pub open spec fn returned(callers: Seq<FrameState>, discard: bool, v: Value, r: Outcome, post: VM) -> bool {
    if callers.len() > 0 {
        &&& r is Running
        &&& post.running
        &&& post.waiting is None
        &&& post.callers() == callers.drop_last()
        &&& post.frame.state() == returned_to(callers.last(), v, discard)
    } else {
        r == Outcome::Done(v) && !post.running
    }
}

/// What raising `e` in frame `cur` with callers `callers` leads to, with
/// outcome `r` and VM `post` after it: the state `unwind_frames` finds; or,
/// for a return signal no `finally` takes, the caller resuming with the
/// value (the run is done without a caller); or the run failing with `e`.
pub open spec fn raised(cur: FrameState, callers: Seq<FrameState>, e: ErrorView, r: Outcome, post: VM) -> bool {
    match unwind_frames(cur, callers, e) {
        Some((c, cs)) => r is Running && post.running && post.waiting is None && post.frame.state() == c
            && post.callers() == cs,
        None => match e {
            ErrorView::Return(v) => if callers.len() > 0 {
                &&& r is Running
                &&& post.running
                &&& post.waiting is None
                &&& post.callers() == callers.drop_last()
                &&& post.frame.state() == returned_to(callers.last(), v, cur.discard)
            } else {
                r == Outcome::Done(v) && !post.running
            },
            _ => (r matches Outcome::Failed(x) && x.view() == e) && !post.running,
        },
    }
}

/// The frame a caller resumes with after its callee returned `v`: `v` is
/// pushed unless the callee discards its return value.
pub open spec fn returned_to(caller: FrameState, v: Value, discard: bool) -> FrameState {
    if discard { caller } else { FrameState { stack: caller.stack.push(v), ..caller } }
}

/// Unwinding across frames: the running frame first; an exception that it
/// does not handle walks up the callers, leaving each frame that has no
/// handler for it. `None` when no frame handles it.
pub open spec fn unwind_frames(cur: FrameState, callers: Seq<FrameState>, e: ErrorView) -> Option<(FrameState, Seq<FrameState>)>
    decreases callers.len(),
{
    match try_unwind(cur, e) {
        Some(s2) => Some((s2, callers)),
        None => if e.catchable() && callers.len() > 0 {
            unwind_frames(callers.last(), callers.drop_last(), e)
        } else {
            None
        },
    }
}

} // verus!
