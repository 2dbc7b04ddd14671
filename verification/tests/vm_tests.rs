use catnip_vm_core::frame::{CodeObject, Instruction, OpCode};
use catnip_vm_core::pattern::{VMPattern, VMPatternElement};
use catnip_vm_core::value::Value;
use catnip_vm_core::vm::{Outcome, VM};
use catnip_vm_core::error::VMError;

fn done(r: Outcome) -> Value {
    match r {
        Outcome::Done(v) => v,
        other => panic!("expected a finished run, got {:?}", other),
    }
}

fn run(code: CodeObject) -> Value {
    let mut vm = VM::new();
    done(vm.execute(code, &[]))
}

fn binop(name: &str, a: i64, b: i64, op: OpCode) -> Value {
    let mut code = CodeObject::new(name);
    code.constants = vec![Value::from_int(a), Value::from_int(b)];
    code.instructions = vec![
        Instruction::new(OpCode::LoadConst, 0),
        Instruction::new(OpCode::LoadConst, 1),
        Instruction::simple(op),
        Instruction::simple(OpCode::Halt),
    ];
    run(code)
}

#[test]
fn test_simple_add() {
    let result = binop("test", 2, 3, OpCode::Add);
    assert_eq!(result.as_int(), Some(5));
}

#[test]
fn test_comparison() {
    let result = binop("test", 5, 3, OpCode::Gt);
    assert_eq!(result.as_bool(), Some(true));
}

#[test]
fn test_jump() {
    let mut code = CodeObject::new("test");
    code.constants = vec![Value::from_int(10), Value::from_int(20)];
    code.instructions = vec![
        Instruction::new(OpCode::Jump, 2),
        Instruction::new(OpCode::LoadConst, 0),
        Instruction::new(OpCode::LoadConst, 1),
        Instruction::simple(OpCode::Halt),
    ];
    assert_eq!(run(code).as_int(), Some(20));
}

#[test]
fn test_arithmetic_sub() {
    assert_eq!(binop("test_sub", 10, 3, OpCode::Sub).as_int(), Some(7));
}

#[test]
fn test_arithmetic_mul() {
    assert_eq!(binop("test_mul", 4, 5, OpCode::Mul).as_int(), Some(20));
}

#[test]
fn test_arithmetic_floordiv() {
    assert_eq!(binop("test_floordiv", 23, 5, OpCode::FloorDiv).as_int(), Some(4));
}

#[test]
fn test_arithmetic_mod() {
    assert_eq!(binop("test_mod", 23, 5, OpCode::Mod).as_int(), Some(3));
}

#[test]
fn test_stack_dup_top() {
    let mut code = CodeObject::new("test_dup");
    code.constants = vec![Value::from_int(42)];
    code.instructions = vec![
        Instruction::new(OpCode::LoadConst, 0),
        Instruction::simple(OpCode::DupTop),
        Instruction::simple(OpCode::Add),
        Instruction::simple(OpCode::Halt),
    ];
    assert_eq!(run(code).as_int(), Some(84));
}

#[test]
fn test_stack_pop_top() {
    let mut code = CodeObject::new("test_pop");
    code.constants = vec![Value::from_int(10), Value::from_int(20)];
    code.instructions = vec![
        Instruction::new(OpCode::LoadConst, 0),
        Instruction::new(OpCode::LoadConst, 1),
        Instruction::simple(OpCode::PopTop),
        Instruction::simple(OpCode::Halt),
    ];
    assert_eq!(run(code).as_int(), Some(10));
}

#[test]
fn test_locals_store_load() {
    let mut code = CodeObject::new("test_locals");
    code.nlocals = 2;
    code.constants = vec![Value::from_int(100), Value::from_int(200)];
    code.instructions = vec![
        Instruction::new(OpCode::LoadConst, 0),
        Instruction::new(OpCode::StoreLocal, 0),
        Instruction::new(OpCode::LoadConst, 1),
        Instruction::new(OpCode::StoreLocal, 1),
        Instruction::new(OpCode::LoadLocal, 0),
        Instruction::new(OpCode::LoadLocal, 1),
        Instruction::simple(OpCode::Add),
        Instruction::simple(OpCode::Halt),
    ];
    assert_eq!(run(code).as_int(), Some(300));
}

fn conditional(a: i64, b: i64) -> Value {
    let mut code = CodeObject::new("test_jump");
    code.constants = vec![Value::from_int(a), Value::from_int(b), Value::from_int(100), Value::from_int(999)];
    code.instructions = vec![
        Instruction::new(OpCode::LoadConst, 0),
        Instruction::new(OpCode::LoadConst, 1),
        Instruction::simple(OpCode::Gt),
        Instruction::new(OpCode::JumpIfFalse, 6),
        Instruction::new(OpCode::LoadConst, 2),
        Instruction::new(OpCode::Jump, 7),
        Instruction::new(OpCode::LoadConst, 3),
        Instruction::simple(OpCode::Halt),
    ];
    run(code)
}

#[test]
fn test_conditional_jump_taken() {
    assert_eq!(conditional(5, 3).as_int(), Some(100));
}

#[test]
fn test_conditional_jump_not_taken() {
    assert_eq!(conditional(3, 5).as_int(), Some(999));
}

#[test]
fn test_bitwise_and() {
    assert_eq!(binop("test_band", 12, 10, OpCode::BAnd).as_int(), Some(8));
}

#[test]
fn test_bitwise_or() {
    assert_eq!(binop("test_bor", 12, 10, OpCode::BOr).as_int(), Some(14));
}

#[test]
fn test_bitwise_xor() {
    assert_eq!(binop("test_bxor", 12, 10, OpCode::BXor).as_int(), Some(6));
}

#[test]
fn test_unary_neg() {
    let mut code = CodeObject::new("test_neg");
    code.constants = vec![Value::from_int(42)];
    code.instructions = vec![
        Instruction::new(OpCode::LoadConst, 0),
        Instruction::simple(OpCode::Neg),
        Instruction::simple(OpCode::Halt),
    ];
    assert_eq!(run(code).as_int(), Some(-42));
}

#[test]
fn test_loop_simple() {
    let mut code = CodeObject::new("test_loop");
    code.nlocals = 2;
    code.constants = vec![Value::from_int(0), Value::from_int(5), Value::from_int(1)];
    code.instructions = vec![
        Instruction::new(OpCode::LoadConst, 0),
        Instruction::new(OpCode::StoreLocal, 1),
        Instruction::new(OpCode::LoadConst, 0),
        Instruction::new(OpCode::StoreLocal, 0),
        Instruction::new(OpCode::LoadLocal, 0),
        Instruction::new(OpCode::LoadConst, 1),
        Instruction::simple(OpCode::Lt),
        Instruction::new(OpCode::JumpIfFalse, 17),
        Instruction::new(OpCode::LoadLocal, 1),
        Instruction::new(OpCode::LoadLocal, 0),
        Instruction::simple(OpCode::Add),
        Instruction::new(OpCode::StoreLocal, 1),
        Instruction::new(OpCode::LoadLocal, 0),
        Instruction::new(OpCode::LoadConst, 2),
        Instruction::simple(OpCode::Add),
        Instruction::new(OpCode::StoreLocal, 0),
        Instruction::new(OpCode::Jump, 4),
        Instruction::new(OpCode::LoadLocal, 1),
        Instruction::simple(OpCode::Halt),
    ];
    assert_eq!(run(code).as_int(), Some(10));
}

#[test]
fn test_comparison_chains() {
    assert_eq!(binop("test_cmp", 5, 5, OpCode::Eq).as_bool(), Some(true));
}

#[test]
fn test_nested_arithmetic() {
    let mut code = CodeObject::new("test_nested");
    code.constants = vec![Value::from_int(2), Value::from_int(3), Value::from_int(4)];
    code.instructions = vec![
        Instruction::new(OpCode::LoadConst, 0),
        Instruction::new(OpCode::LoadConst, 1),
        Instruction::simple(OpCode::Add),
        Instruction::new(OpCode::LoadConst, 2),
        Instruction::simple(OpCode::Mul),
        Instruction::simple(OpCode::Halt),
    ];
    assert_eq!(run(code).as_int(), Some(20));
}

/// A VM holding a `Point(x, y)` struct instance.
fn make_point_instance(x: i64, y: i64) -> (VM, Value) {
    let mut vm = VM::new();
    let tid = vm.struct_registry.register_type(
        "Point".to_string(),
        vec!["x".to_string(), "y".to_string()],
        vec![None, None],
        vec![],
        vec![],
        vec!["Point".to_string()],
    );
    let idx = vm.struct_registry.create_instance(tid, vec![Value::from_int(x), Value::from_int(y)]);
    (vm, Value::Struct(idx))
}

fn getattr_code(name: &str, instance: Value, attr: &str) -> CodeObject {
    let mut code = CodeObject::new(name);
    code.constants = vec![instance];
    code.names = vec![attr.to_string()];
    code.instructions = vec![
        Instruction::new(OpCode::LoadConst, 0),
        Instruction::new(OpCode::GetAttr, 0),
        Instruction::simple(OpCode::Halt),
    ];
    code
}

#[test]
fn test_native_struct_getattr() {
    let (mut vm, instance) = make_point_instance(10, 20);
    let result = done(vm.execute(getattr_code("test_getattr", instance, "x"), &[]));
    assert_eq!(result.as_int(), Some(10));
    let result = done(vm.execute(getattr_code("test_getattr_y", instance, "y"), &[]));
    assert_eq!(result.as_int(), Some(20));
}

#[test]
fn test_native_struct_getattr_unknown_field() {
    let (mut vm, instance) = make_point_instance(10, 20);
    match vm.execute(getattr_code("test_getattr_bad", instance, "z"), &[]) {
        Outcome::Failed(VMError::RuntimeError(msg)) => {
            assert!(msg.contains("no attribute"), "got: {msg}");
            assert!(msg.contains("'z'"), "got: {msg}");
        }
        other => panic!("expected RuntimeError, got {other:?}"),
    }
}

#[test]
fn test_native_struct_setattr() {
    let (mut vm, instance) = make_point_instance(10, 20);
    let mut code = CodeObject::new("test_setattr");
    code.constants = vec![instance, Value::from_int(42)];
    code.names = vec!["x".into()];
    code.instructions = vec![
        Instruction::new(OpCode::LoadConst, 0),
        Instruction::new(OpCode::LoadConst, 1),
        Instruction::new(OpCode::SetAttr, 0),
        Instruction::new(OpCode::LoadConst, 0),
        Instruction::new(OpCode::GetAttr, 0),
        Instruction::simple(OpCode::Halt),
    ];
    assert_eq!(done(vm.execute(code, &[])).as_int(), Some(42));
}

fn struct_pattern_code(name: &str, instance: Value, ty: &str, fields: &[(&str, usize)], tail: Vec<Instruction>) -> CodeObject {
    let mut code = CodeObject::new(name);
    code.constants = vec![instance];
    code.patterns = vec![VMPattern::Struct {
        name: ty.to_string(),
        variant: None,
        field_slots: fields.iter().map(|(f, s)| (f.to_string(), *s)).collect(),
    }];
    code.nlocals = 2;
    let mut instrs = vec![Instruction::new(OpCode::LoadConst, 0), Instruction::new(OpCode::MatchPatternVM, 0)];
    instrs.extend(tail);
    code.instructions = instrs;
    code
}

#[test]
fn test_native_struct_pattern_match() {
    let (mut vm, instance) = make_point_instance(10, 20);
    let code = struct_pattern_code(
        "test_pattern_match",
        instance,
        "Point",
        &[("x", 0), ("y", 1)],
        vec![Instruction::simple(OpCode::BindMatch), Instruction::new(OpCode::LoadLocal, 0), Instruction::simple(OpCode::Halt)],
    );
    assert_eq!(done(vm.execute(code, &[])).as_int(), Some(10));
    let code2 = struct_pattern_code(
        "test_pattern_match_y",
        instance,
        "Point",
        &[("x", 0), ("y", 1)],
        vec![Instruction::simple(OpCode::BindMatch), Instruction::new(OpCode::LoadLocal, 1), Instruction::simple(OpCode::Halt)],
    );
    assert_eq!(done(vm.execute(code2, &[])).as_int(), Some(20));
}

#[test]
fn test_native_struct_pattern_mismatch_type() {
    let (mut vm, instance) = make_point_instance(10, 20);
    let code = struct_pattern_code(
        "test_pattern_mismatch",
        instance,
        "Vec2",
        &[("x", 0), ("y", 1)],
        vec![Instruction::simple(OpCode::Halt)],
    );
    let result = done(vm.execute(code, &[]));
    assert!(result.is_nil(), "expected NIL for type mismatch, got {:?}", result);
}

#[test]
fn test_native_struct_pattern_unknown_field() {
    let (mut vm, instance) = make_point_instance(10, 20);
    let code = struct_pattern_code(
        "test_pattern_unknown_field",
        instance,
        "Point",
        &[("x", 0), ("z", 1)],
        vec![Instruction::simple(OpCode::Halt)],
    );
    let result = done(vm.execute(code, &[]));
    assert!(result.is_nil(), "expected NIL for unknown field, got {:?}", result);
}

// ---------------------------------------------------------------------
// Calls, closures, exceptions and the host protocol
// ---------------------------------------------------------------------

use catnip_vm_core::step::{HostRequest, Resume};
use catnip_vm_core::vm::HostReply;
use catnip_vm_core::ops::BinaryOp;

/// `def add(a, b): return a + b` called with 2 and 40.
#[test]
fn call_vm_function_returns_to_caller() {
    let mut vm = VM::new();
    let mut callee = CodeObject::new("add");
    callee.nlocals = 2;
    callee.nargs = 2;
    callee.instructions = vec![
        Instruction::new(OpCode::LoadLocal, 0),
        Instruction::new(OpCode::LoadLocal, 1),
        Instruction::simple(OpCode::Add),
        Instruction::simple(OpCode::Return),
    ];
    let cid = vm.add_code(callee);
    let f = vm.add_function(cid, None);
    let mut main = CodeObject::new("<module>");
    main.constants = vec![f, Value::from_int(2), Value::from_int(40)];
    main.instructions = vec![
        Instruction::new(OpCode::LoadConst, 0),
        Instruction::new(OpCode::LoadConst, 1),
        Instruction::new(OpCode::LoadConst, 2),
        Instruction::new(OpCode::Call, 2),
        Instruction::simple(OpCode::Halt),
    ];
    assert_eq!(done(vm.execute(main, &[])).as_int(), Some(42));
}

/// Missing arguments take the defaults of the trailing parameters.
#[test]
fn call_fills_defaults() {
    let mut vm = VM::new();
    let mut callee = CodeObject::new("f");
    callee.nlocals = 2;
    callee.nargs = 2;
    callee.defaults = vec![Value::from_int(7)];
    callee.instructions = vec![
        Instruction::new(OpCode::LoadLocal, 0),
        Instruction::new(OpCode::LoadLocal, 1),
        Instruction::simple(OpCode::Mul),
        Instruction::simple(OpCode::Return),
    ];
    let cid = vm.add_code(callee);
    let f = vm.add_function(cid, None);
    let mut main = CodeObject::new("<module>");
    main.constants = vec![f, Value::from_int(6)];
    main.instructions = vec![
        Instruction::new(OpCode::LoadConst, 0),
        Instruction::new(OpCode::LoadConst, 1),
        Instruction::new(OpCode::Call, 1),
        Instruction::simple(OpCode::Halt),
    ];
    assert_eq!(done(vm.execute(main, &[])).as_int(), Some(42));
}

/// A function that runs off the end of its code returns its top value.
#[test]
fn falling_off_the_end_returns_top() {
    let mut code = CodeObject::new("t");
    code.constants = vec![Value::from_int(9)];
    code.instructions = vec![Instruction::new(OpCode::LoadConst, 0)];
    assert_eq!(run(code).as_int(), Some(9));
}

/// A closure captures a local of its maker and reads it back by name.
#[test]
fn closure_captures_local() {
    let mut vm = VM::new();
    let mut inner = CodeObject::new("inner");
    inner.names = vec!["x".to_string()];
    inner.instructions = vec![Instruction::new(OpCode::LoadScope, 0), Instruction::simple(OpCode::Return)];
    let inner_id = vm.add_code(inner);
    let proto = vm.add_function(inner_id, None);

    let mut outer = CodeObject::new("outer");
    outer.nlocals = 1;
    outer.slotmap = vec![("x".to_string(), 0)];
    outer.constants = vec![Value::from_int(5), proto];
    outer.instructions = vec![
        Instruction::new(OpCode::LoadConst, 0),
        Instruction::new(OpCode::StoreLocal, 0),
        Instruction::new(OpCode::LoadConst, 1),
        Instruction::new(OpCode::MakeFunction, 0),
        Instruction::new(OpCode::Call, 0),
        Instruction::simple(OpCode::Return),
    ];
    let outer_id = vm.add_code(outer);
    let outer_fn = vm.add_function(outer_id, None);

    let mut main = CodeObject::new("<module>");
    main.constants = vec![outer_fn];
    main.instructions = vec![
        Instruction::new(OpCode::LoadConst, 0),
        Instruction::new(OpCode::Call, 0),
        Instruction::simple(OpCode::Halt),
    ];
    assert_eq!(done(vm.execute(main, &[])).as_int(), Some(5));
}

/// A tail call reuses the frame: a countdown of 10000 steps needs no
/// stack of frames.
#[test]
fn tail_call_reuses_frame() {
    let mut vm = VM::new();
    let mut count = CodeObject::new("count");
    count.nlocals = 1;
    count.nargs = 1;
    count.names = vec!["count".to_string()];
    count.constants = vec![Value::from_int(0), Value::from_int(1)];
    count.instructions = vec![
        Instruction::new(OpCode::LoadLocal, 0),
        Instruction::new(OpCode::LoadConst, 0),
        Instruction::simple(OpCode::Eq),
        Instruction::new(OpCode::JumpIfFalse, 6),
        Instruction::new(OpCode::LoadConst, 0),
        Instruction::simple(OpCode::Return),
        Instruction::new(OpCode::LoadGlobal, 0),
        Instruction::new(OpCode::LoadLocal, 0),
        Instruction::new(OpCode::LoadConst, 1),
        Instruction::simple(OpCode::Sub),
        Instruction::new(OpCode::TailCall, 1),
    ];
    let cid = vm.add_code(count);
    let f = vm.add_function(cid, None);
    catnip_vm_core::ordmap::name_map_insert(&mut vm.globals, "count".to_string(), f);
    let mut main = CodeObject::new("<module>");
    main.constants = vec![f, Value::from_int(10000)];
    main.instructions = vec![
        Instruction::new(OpCode::LoadConst, 0),
        Instruction::new(OpCode::LoadConst, 1),
        Instruction::new(OpCode::Call, 1),
        Instruction::simple(OpCode::Halt),
    ];
    // The loop runs long enough to meet the periodic check; nothing is
    // reported, so the run goes on.
    let mut r = vm.execute(main, &[]);
    loop {
        r = match r {
            Outcome::Running => vm.run(1000),
            Outcome::Host(HostRequest::Checkpoint) => vm.answer(HostReply::Status { interrupted: false, rss: None }),
            other => break assert_eq!(done(other).as_int(), Some(0)),
        };
    }
}

/// try: 1 // 0 except: 7
#[test]
fn except_handler_catches_division_by_zero() {
    let mut code = CodeObject::new("t");
    code.constants = vec![Value::from_int(1), Value::from_int(0), Value::from_int(7)];
    code.instructions = vec![
        Instruction::new(OpCode::SetupExcept, 5),
        Instruction::new(OpCode::LoadConst, 0),
        Instruction::new(OpCode::LoadConst, 1),
        Instruction::simple(OpCode::FloorDiv),
        Instruction::simple(OpCode::Halt),
        Instruction::simple(OpCode::ClearException),
        Instruction::new(OpCode::LoadConst, 2),
        Instruction::simple(OpCode::Halt),
    ];
    assert_eq!(run(code).as_int(), Some(7));
}

/// An exception raised in a callee is caught by the caller's handler.
#[test]
fn exception_unwinds_to_caller_handler() {
    let mut vm = VM::new();
    let mut callee = CodeObject::new("boom");
    callee.constants = vec![Value::from_int(1), Value::from_int(0)];
    callee.instructions = vec![
        Instruction::new(OpCode::LoadConst, 0),
        Instruction::new(OpCode::LoadConst, 1),
        Instruction::simple(OpCode::Mod),
        Instruction::simple(OpCode::Return),
    ];
    let cid = vm.add_code(callee);
    let f = vm.add_function(cid, None);
    let mut main = CodeObject::new("<module>");
    main.constants = vec![f, Value::from_int(-1)];
    main.instructions = vec![
        Instruction::new(OpCode::SetupExcept, 4),
        Instruction::new(OpCode::LoadConst, 0),
        Instruction::new(OpCode::Call, 0),
        Instruction::simple(OpCode::Halt),
        Instruction::new(OpCode::LoadConst, 1),
        Instruction::simple(OpCode::Halt),
    ];
    assert_eq!(done(vm.execute(main, &[])).as_int(), Some(-1));
}

/// An uncaught exception fails the run with its message and records the
/// error context.
#[test]
fn uncaught_exception_fails_run() {
    let mut vm = VM::new();
    let mut code = CodeObject::new("t");
    code.constants = vec![Value::from_int(1), Value::from_int(0)];
    code.instructions = vec![
        Instruction::new(OpCode::LoadConst, 0),
        Instruction::new(OpCode::LoadConst, 1),
        Instruction::simple(OpCode::FloorDiv),
        Instruction::simple(OpCode::Halt),
    ];
    match vm.execute(code, &[]) {
        Outcome::Failed(VMError::ZeroDivisionError(msg)) => assert_eq!(msg, "integer division or modulo by zero"),
        other => panic!("expected ZeroDivisionError, got {other:?}"),
    }
    let ctx = vm.take_last_error_context().expect("context recorded");
    assert_eq!(ctx.error_type, "ZeroDivisionError");
}

/// A finally block runs for a return and the return resumes after it.
#[test]
fn finally_runs_before_return() {
    let mut vm = VM::new();
    let mut callee = CodeObject::new("f");
    callee.nlocals = 1;
    callee.constants = vec![Value::from_int(1), Value::from_int(2)];
    callee.instructions = vec![
        Instruction::new(OpCode::SetupFinally, 3),
        Instruction::new(OpCode::LoadConst, 0),
        Instruction::simple(OpCode::Return),
        Instruction::new(OpCode::LoadConst, 1),
        Instruction::new(OpCode::StoreLocal, 0),
        Instruction::simple(OpCode::ResumeUnwind),
    ];
    let cid = vm.add_code(callee);
    let f = vm.add_function(cid, None);
    let mut main = CodeObject::new("<module>");
    main.constants = vec![f];
    main.instructions = vec![
        Instruction::new(OpCode::LoadConst, 0),
        Instruction::new(OpCode::Call, 0),
        Instruction::simple(OpCode::Halt),
    ];
    assert_eq!(done(vm.execute(main, &[])).as_int(), Some(1));
}

/// A bare raise without an active exception fails with a RuntimeError.
#[test]
fn bare_raise_without_exception() {
    let mut code = CodeObject::new("t");
    code.instructions = vec![Instruction::new(OpCode::Raise, 1)];
    let mut vm = VM::new();
    match vm.execute(code, &[]) {
        Outcome::Failed(VMError::RuntimeError(msg)) => assert_eq!(msg, "No active exception to reraise"),
        other => panic!("expected RuntimeError, got {other:?}"),
    }
}

/// Adding a host object asks the host; its answer is pushed.
#[test]
fn host_operand_asks_host() {
    let mut vm = VM::new();
    let mut code = CodeObject::new("t");
    code.constants = vec![Value::Obj(77), Value::from_int(1)];
    code.instructions = vec![
        Instruction::new(OpCode::LoadConst, 0),
        Instruction::new(OpCode::LoadConst, 1),
        Instruction::simple(OpCode::Add),
        Instruction::simple(OpCode::Halt),
    ];
    match vm.execute(code, &[]) {
        Outcome::Host(HostRequest::Binary(BinaryOp::Add, Value::Obj(77), Value::Int(1))) => {}
        other => panic!("expected a host request, got {other:?}"),
    }
    assert_eq!(vm.waiting, Some(Resume::Push));
    assert!(matches!(vm.answer(HostReply::Value(Value::Obj(78))), Outcome::Running));
    assert_eq!(done(vm.run(100)), Value::Obj(78));
}

/// A sum beyond the inline integer range is left to the host.
#[test]
fn big_sum_goes_to_host() {
    let mut vm = VM::new();
    let max = catnip_vm_core::value::SMALLINT_MAX;
    let mut code = CodeObject::new("t");
    code.constants = vec![Value::from_int(max), Value::from_int(1)];
    code.instructions = vec![
        Instruction::new(OpCode::LoadConst, 0),
        Instruction::new(OpCode::LoadConst, 1),
        Instruction::simple(OpCode::Add),
        Instruction::simple(OpCode::Halt),
    ];
    match vm.execute(code, &[]) {
        Outcome::Host(HostRequest::Binary(BinaryOp::Add, a, b)) => {
            assert_eq!(a, Value::Int(max));
            assert_eq!(b, Value::Int(1));
        }
        other => panic!("expected a host request, got {other:?}"),
    }
}

/// A name bound nowhere raises NameError once the host says it is missing.
#[test]
fn missing_global_raises_name_error() {
    let mut vm = VM::new();
    let mut code = CodeObject::new("t");
    code.names = vec!["nope".to_string()];
    code.instructions = vec![Instruction::new(OpCode::LoadGlobal, 0), Instruction::simple(OpCode::Halt)];
    match vm.execute(code, &[]) {
        Outcome::Host(HostRequest::Lookup(name)) => assert_eq!(name, "nope"),
        other => panic!("expected a lookup, got {other:?}"),
    }
    match vm.answer(HostReply::Missing) {
        Outcome::Failed(VMError::NameError(n)) => assert_eq!(n, "nope"),
        other => panic!("expected NameError, got {other:?}"),
    }
}

/// A module global stored by StoreScope is also offered to the host, and
/// read back by LoadScope.
#[test]
fn store_scope_then_load_scope() {
    let mut vm = VM::new();
    let mut code = CodeObject::new("<module>");
    code.names = vec!["x".to_string()];
    code.constants = vec![Value::from_int(11)];
    code.instructions = vec![
        Instruction::new(OpCode::LoadConst, 0),
        Instruction::new(OpCode::StoreScope, 0),
        Instruction::new(OpCode::LoadScope, 0),
        Instruction::simple(OpCode::Halt),
    ];
    match vm.execute(code, &[]) {
        Outcome::Host(HostRequest::Store(name, v)) => {
            assert_eq!(name, "x");
            assert_eq!(v.as_int(), Some(11));
        }
        other => panic!("expected a store, got {other:?}"),
    }
    assert!(matches!(vm.answer(HostReply::Missing), Outcome::Running));
    assert_eq!(done(vm.run(100)).as_int(), Some(11));
}

/// A tuple built on the stack unpacks back in order.
#[test]
fn build_and_unpack_tuple() {
    let mut code = CodeObject::new("t");
    code.nlocals = 2;
    code.constants = vec![Value::from_int(3), Value::from_int(4)];
    code.instructions = vec![
        Instruction::new(OpCode::LoadConst, 0),
        Instruction::new(OpCode::LoadConst, 1),
        Instruction::new(OpCode::BuildTuple, 2),
        Instruction::new(OpCode::UnpackSequence, 2),
        Instruction::new(OpCode::StoreLocal, 0),
        Instruction::new(OpCode::StoreLocal, 1),
        Instruction::new(OpCode::LoadLocal, 0),
        Instruction::new(OpCode::LoadLocal, 1),
        Instruction::simple(OpCode::Sub),
        Instruction::simple(OpCode::Halt),
    ];
    assert_eq!(run(code).as_int(), Some(-1));
}

/// Unpacking a tuple of the wrong size fails with the count message.
#[test]
fn unpack_wrong_count() {
    let mut code = CodeObject::new("t");
    code.constants = vec![Value::from_int(3)];
    code.instructions = vec![
        Instruction::new(OpCode::LoadConst, 0),
        Instruction::new(OpCode::BuildTuple, 1),
        Instruction::new(OpCode::UnpackSequence, 2),
        Instruction::simple(OpCode::Halt),
    ];
    let mut vm = VM::new();
    match vm.execute(code, &[]) {
        Outcome::Failed(VMError::RuntimeError(msg)) => assert_eq!(msg, "Cannot unpack 1 values into 2 variables"),
        other => panic!("expected RuntimeError, got {other:?}"),
    }
}

/// `for i in range(0, 4): s += i` with the fused range instructions.
#[test]
fn for_range_loop_sums() {
    let mut code = CodeObject::new("t");
    code.nlocals = 3; // i, stop, s
    code.constants = vec![Value::from_int(0), Value::from_int(4)];
    let range_int = (0u32 << 24) | (1u32 << 16) | 5; // slot i, slot stop, positive, skip 5 on exit
    let range_step = (0u32 << 24) | (1u32 << 16) | 6; // slot i, step +1, back to 6
    code.instructions = vec![
        Instruction::new(OpCode::LoadConst, 0),
        Instruction::new(OpCode::StoreLocal, 2),
        Instruction::new(OpCode::LoadConst, 0),
        Instruction::new(OpCode::StoreLocal, 0),
        Instruction::new(OpCode::LoadConst, 1),
        Instruction::new(OpCode::StoreLocal, 1),
        Instruction::new(OpCode::ForRangeInt, range_int),
        Instruction::new(OpCode::LoadLocal, 2),
        Instruction::new(OpCode::LoadLocal, 0),
        Instruction::simple(OpCode::Add),
        Instruction::new(OpCode::StoreLocal, 2),
        Instruction::new(OpCode::ForRangeStep, range_step),
        Instruction::new(OpCode::LoadLocal, 2),
        Instruction::simple(OpCode::Halt),
    ];
    assert_eq!(run(code).as_int(), Some(6));
}

/// A block restores the locals it saved.
#[test]
fn block_restores_locals() {
    let mut code = CodeObject::new("t");
    code.nlocals = 1;
    code.constants = vec![Value::from_int(1), Value::from_int(2)];
    code.instructions = vec![
        Instruction::new(OpCode::LoadConst, 0),
        Instruction::new(OpCode::StoreLocal, 0),
        Instruction::new(OpCode::PushBlock, 0),
        Instruction::new(OpCode::LoadConst, 1),
        Instruction::new(OpCode::StoreLocal, 0),
        Instruction::simple(OpCode::PopBlock),
        Instruction::new(OpCode::LoadLocal, 0),
        Instruction::simple(OpCode::Halt),
    ];
    assert_eq!(run(code).as_int(), Some(1));
}

fn unary_run(c: Value, op: OpCode) -> Value {
    let mut code = CodeObject::new("t");
    code.constants = vec![c];
    code.instructions = vec![Instruction::new(OpCode::LoadConst, 0), Instruction::simple(op), Instruction::simple(OpCode::Halt)];
    run(code)
}

/// `None is None`, `not 0`, `True == 1`, `None is not 0`.
#[test]
fn identity_not_and_numeric_equality() {
    let mut code = CodeObject::new("t");
    code.constants = vec![Value::Nil];
    code.instructions = vec![
        Instruction::new(OpCode::LoadConst, 0),
        Instruction::new(OpCode::LoadConst, 0),
        Instruction::simple(OpCode::Is),
        Instruction::simple(OpCode::Halt),
    ];
    assert_eq!(run(code), Value::Bool(true));
    assert_eq!(unary_run(Value::from_int(0), OpCode::Not), Value::Bool(true));
    assert_eq!(unary_run(Value::from_int(3), OpCode::ToBool), Value::Bool(true));
    let mut eq = CodeObject::new("t");
    eq.constants = vec![Value::Bool(true), Value::from_int(1)];
    eq.instructions = vec![
        Instruction::new(OpCode::LoadConst, 0),
        Instruction::new(OpCode::LoadConst, 1),
        Instruction::simple(OpCode::Eq),
        Instruction::simple(OpCode::Halt),
    ];
    assert_eq!(run(eq), Value::Bool(true));
}

/// Halt copies the main frame's locals that are module globals back.
#[test]
fn halt_syncs_module_globals() {
    let mut vm = VM::new();
    catnip_vm_core::ordmap::name_map_insert(&mut vm.globals, "g".to_string(), Value::from_int(0));
    let mut code = CodeObject::new("<module>");
    code.nlocals = 1;
    code.slotmap = vec![("g".to_string(), 0)];
    code.constants = vec![Value::from_int(5)];
    code.instructions = vec![
        Instruction::new(OpCode::LoadConst, 0),
        Instruction::new(OpCode::StoreLocal, 0),
        Instruction::simple(OpCode::Halt),
    ];
    done(vm.execute(code, &[]));
    assert_eq!(catnip_vm_core::ordmap::name_map_get(&vm.globals, "g"), Some(Value::from_int(5)));
}

/// TypeOf names native kinds and asks the host for the string.
#[test]
fn type_of_int() {
    let mut code = CodeObject::new("t");
    code.constants = vec![Value::from_int(3)];
    code.instructions = vec![
        Instruction::new(OpCode::LoadConst, 0),
        Instruction::simple(OpCode::TypeOf),
        Instruction::simple(OpCode::Halt),
    ];
    let mut vm = VM::new();
    match vm.execute(code, &[]) {
        Outcome::Host(HostRequest::Str(s)) => assert_eq!(s, "int"),
        other => panic!("expected a string request, got {other:?}"),
    }
}

/// A star pattern captures the middle items as a new tuple.
#[test]
fn star_pattern_captures_middle() {

    let mut code = CodeObject::new("t");
    code.nlocals = 3;
    code.constants = vec![Value::from_int(1), Value::from_int(2), Value::from_int(3), Value::from_int(4)];
    code.patterns = vec![VMPattern::Tuple(vec![
        VMPatternElement::Pattern(VMPattern::Var(0)),
        VMPatternElement::Star(1),
        VMPatternElement::Pattern(VMPattern::Var(2)),
    ])];
    code.instructions = vec![
        Instruction::new(OpCode::LoadConst, 0),
        Instruction::new(OpCode::LoadConst, 1),
        Instruction::new(OpCode::LoadConst, 2),
        Instruction::new(OpCode::LoadConst, 3),
        Instruction::new(OpCode::BuildTuple, 4),
        Instruction::new(OpCode::MatchPatternVM, 0),
        Instruction::simple(OpCode::BindMatch),
        Instruction::new(OpCode::LoadLocal, 1),
        Instruction::new(OpCode::UnpackSequence, 2),
        Instruction::simple(OpCode::Add),
        Instruction::simple(OpCode::Halt),
    ];
    assert_eq!(run(code).as_int(), Some(5));
}

/// `a, *mid, b = (1, 2, 3, 4, 5)`: the fixed items are bound, and the host
/// builds the starred list, which lands between them on the stack.
#[test]
fn extended_unpacking_asks_for_starred_list() {
    let mut code = CodeObject::new("t");
    code.nlocals = 3;
    code.constants = (1..=5).map(Value::from_int).collect();
    code.instructions = vec![
        Instruction::new(OpCode::LoadConst, 0),
        Instruction::new(OpCode::LoadConst, 1),
        Instruction::new(OpCode::LoadConst, 2),
        Instruction::new(OpCode::LoadConst, 3),
        Instruction::new(OpCode::LoadConst, 4),
        Instruction::new(OpCode::BuildTuple, 5),
        Instruction::new(OpCode::UnpackEx, (1 << 8) | 1),
        Instruction::new(OpCode::StoreLocal, 0),
        Instruction::new(OpCode::StoreLocal, 1),
        Instruction::new(OpCode::StoreLocal, 2),
        Instruction::new(OpCode::LoadLocal, 0),
        Instruction::new(OpCode::LoadLocal, 1),
        Instruction::new(OpCode::LoadLocal, 2),
        Instruction::new(OpCode::BuildTuple, 3),
        Instruction::simple(OpCode::Halt),
    ];
    let mut vm = VM::new();
    match vm.execute(code, &[]) {
        Outcome::Host(HostRequest::Build(false, items)) => {
            assert_eq!(items, vec![Value::from_int(2), Value::from_int(3), Value::from_int(4)]);
        }
        other => panic!("expected a list request, got {other:?}"),
    }
    let mut r = vm.answer(HostReply::Value(Value::Obj(42)));
    while let Outcome::Running = r {
        r = vm.run(100);
    }
    match done(r) {
        Value::Tuple(t) => assert_eq!(
            vm.tuples.items(t),
            &vec![Value::from_int(1), Value::Obj(42), Value::from_int(5)]
        ),
        other => panic!("expected a tuple, got {other:?}"),
    }
}

/// Extended unpacking with too few items fails with the count message.
#[test]
fn extended_unpacking_too_few() {
    let mut code = CodeObject::new("t");
    code.constants = vec![Value::from_int(3)];
    code.instructions = vec![
        Instruction::new(OpCode::LoadConst, 0),
        Instruction::new(OpCode::BuildTuple, 1),
        Instruction::new(OpCode::UnpackEx, (1 << 8) | 1),
        Instruction::simple(OpCode::Halt),
    ];
    let mut vm = VM::new();
    match vm.execute(code, &[]) {
        Outcome::Failed(VMError::RuntimeError(msg)) => {
            assert_eq!(msg, "Not enough values to unpack (expected at least 2, got 1)")
        }
        other => panic!("expected RuntimeError, got {other:?}"),
    }
}

/// Extended unpacking of an int is a type error.
#[test]
fn extended_unpacking_non_iterable() {
    let mut code = CodeObject::new("t");
    code.constants = vec![Value::from_int(3)];
    code.instructions = vec![
        Instruction::new(OpCode::LoadConst, 0),
        Instruction::new(OpCode::UnpackEx, 1),
        Instruction::simple(OpCode::Halt),
    ];
    let mut vm = VM::new();
    match vm.execute(code, &[]) {
        Outcome::Failed(VMError::TypeError(msg)) => assert_eq!(msg, "Cannot unpack non-iterable int"),
        other => panic!("expected TypeError, got {other:?}"),
    }
}

/// The retired pattern instruction raises.
#[test]
fn legacy_match_instruction_raises() {
    let mut code = CodeObject::new("t");
    code.instructions = vec![Instruction::new(OpCode::MatchPattern, 0), Instruction::simple(OpCode::Halt)];
    let mut vm = VM::new();
    match vm.execute(code, &[]) {
        Outcome::Failed(VMError::RuntimeError(_)) => {}
        other => panic!("expected RuntimeError, got {other:?}"),
    }
}

fn module_block_code() -> CodeObject {
    let mut code = CodeObject::new("<module>");
    code.nlocals = 2;
    code.names = vec!["x".to_string()];
    code.varnames = vec!["x".to_string(), "y".to_string()];
    code.slotmap = vec![("x".to_string(), 0), ("y".to_string(), 1)];
    code.constants = vec![Value::from_int(5)];
    code.instructions = vec![
        Instruction::new(OpCode::PushBlock, 0x8000_0000),
        Instruction::new(OpCode::LoadConst, 0),
        Instruction::new(OpCode::StoreScope, 0),
        Instruction::new(OpCode::PopBlock, 1),
        Instruction::new(OpCode::LoadConst, 0),
        Instruction::simple(OpCode::Halt),
    ];
    code
}

/// A name first bound inside a module-level block leaves the globals when
/// the block ends; a name the host already had stays.
#[test]
fn module_block_names_leave_globals() {
    let mut vm = VM::new();
    match vm.execute(module_block_code(), &[]) {
        Outcome::Host(HostRequest::HasGlobals(names)) => assert_eq!(names, vec!["x".to_string(), "y".to_string()]),
        other => panic!("expected a globals query, got {other:?}"),
    }
    match vm.answer(HostReply::Items(vec![Value::Bool(false), Value::Bool(true)])) {
        Outcome::Running => {}
        other => panic!("expected to run on, got {other:?}"),
    }
    match vm.run(100) {
        Outcome::Host(HostRequest::Store(name, v)) => {
            assert_eq!(name, "x");
            assert_eq!(v, Value::from_int(5));
        }
        other => panic!("expected a store, got {other:?}"),
    }
    assert!(vm.global_names().contains(&"x".to_string()));
    let mut r = vm.answer(HostReply::Value(Value::Nil));
    if let Outcome::Running = r {
        r = vm.run(100);
    }
    match r {
        Outcome::Host(HostRequest::DeleteGlobals(names)) => assert_eq!(names, vec!["x".to_string()]),
        other => panic!("expected a delete, got {other:?}"),
    }
    assert!(!vm.global_names().contains(&"x".to_string()));
    let mut r = vm.answer(HostReply::Value(Value::Nil));
    while let Outcome::Running = r {
        r = vm.run(100);
    }
    assert_eq!(done(r), Value::from_int(5));
}

/// A name that was a module global before the block keeps its binding.
#[test]
fn module_block_keeps_prior_globals() {
    let mut vm = VM::new();
    vm.globals.insert("x".to_string(), Value::from_int(1));
    match vm.execute(module_block_code(), &[]) {
        Outcome::Host(HostRequest::HasGlobals(_)) => {}
        other => panic!("expected a globals query, got {other:?}"),
    }
    let mut r = vm.answer(HostReply::Items(vec![Value::Bool(false), Value::Bool(false)]));
    if let Outcome::Running = r {
        r = vm.run(100);
    }
    match r {
        Outcome::Host(HostRequest::Store(_, _)) => {}
        other => panic!("expected a store, got {other:?}"),
    }
    let mut r = vm.answer(HostReply::Value(Value::Nil));
    if let Outcome::Running = r {
        r = vm.run(100);
    }
    match r {
        Outcome::Host(HostRequest::DeleteGlobals(names)) => assert_eq!(names, vec!["y".to_string()]),
        other => panic!("expected a delete, got {other:?}"),
    }
    assert!(vm.global_names().contains(&"x".to_string()));
}

/// `globals()` lists the module globals for the host's dict.
#[test]
fn globals_lists_module_globals() {
    let mut code = CodeObject::new("<module>");
    code.instructions = vec![Instruction::simple(OpCode::Globals), Instruction::simple(OpCode::Halt)];
    let mut vm = VM::new();
    vm.globals.insert("a".to_string(), Value::from_int(1));
    vm.globals.insert("b".to_string(), Value::Nil);
    match vm.execute(code, &[]) {
        Outcome::Host(HostRequest::NamedDict(pairs, true)) => assert_eq!(
            pairs,
            vec![("a".to_string(), Value::from_int(1)), ("b".to_string(), Value::Nil)]
        ),
        other => panic!("expected a dict request, got {other:?}"),
    }
    let mut r = vm.answer(HostReply::Value(Value::Obj(3)));
    while let Outcome::Running = r {
        r = vm.run(100);
    }
    assert_eq!(done(r), Value::Obj(3));
}

/// `locals()` in a function lists its bound slots by name.
#[test]
fn locals_lists_bound_slots() {
    let mut code = CodeObject::new("f");
    code.nlocals = 2;
    code.varnames = vec!["a".to_string(), "b".to_string()];
    code.constants = vec![Value::from_int(7)];
    code.instructions = vec![
        Instruction::new(OpCode::LoadConst, 0),
        Instruction::new(OpCode::StoreLocal, 0),
        Instruction::simple(OpCode::Locals),
        Instruction::simple(OpCode::Halt),
    ];
    let mut vm = VM::new();
    match vm.execute(code, &[]) {
        Outcome::Host(HostRequest::NamedDict(pairs, false)) => {
            assert_eq!(pairs, vec![("a".to_string(), Value::from_int(7))])
        }
        other => panic!("expected a dict request, got {other:?}"),
    }
}

/// Registers struct type `name` with these (field, default) pairs and the
/// host object standing for it; returns that object and the type id.
fn register_test_struct(vm: &mut VM, name: &str, fields: &[(&str, Option<Value>)]) -> (Value, u32) {
    let type_id = vm.struct_registry.register_type(
        name.to_string(),
        fields.iter().map(|(f, _)| f.to_string()).collect(),
        fields.iter().map(|(_, d)| *d).collect(),
        vec![],
        vec![],
        vec![name.to_string()],
    );
    let handle = 1000 + type_id as u64;
    vm.register_struct_handle(handle, type_id);
    (Value::Obj(handle), type_id)
}

fn struct_call_code(name: &str, ty: Value, args: &[Value]) -> CodeObject {
    let mut code = CodeObject::new(name);
    code.constants = vec![ty];
    code.constants.extend_from_slice(args);
    code.instructions = (0..=args.len()).map(|i| Instruction::new(OpCode::LoadConst, i as u32)).collect();
    code.instructions.push(Instruction::new(OpCode::Call, args.len() as u32));
    code.instructions.push(Instruction::simple(OpCode::Halt));
    code
}

#[test]
fn test_native_struct_call() {
    let mut vm = VM::new();
    let (struct_val, type_id) = register_test_struct(&mut vm, "Point", &[("x", None), ("y", None)]);
    let code = struct_call_code("test_struct_call", struct_val, &[Value::from_int(10), Value::from_int(20)]);
    let result = done(vm.execute(code, &[]));
    let idx = result.as_struct_instance_idx().unwrap();
    let inst = vm.struct_registry.instance(idx).unwrap();
    assert_eq!(inst.type_id, type_id);
    assert_eq!(inst.fields[0].as_int(), Some(10));
    assert_eq!(inst.fields[1].as_int(), Some(20));
}

#[test]
fn test_native_struct_call_with_defaults() {
    let mut vm = VM::new();
    let (struct_val, _) = register_test_struct(
        &mut vm,
        "Config",
        &[("name", None), ("debug", Some(Value::Bool(false))), ("level", Some(Value::from_int(1)))],
    );
    // The host object standing for the string "test".
    let text = Value::Obj(7);
    let code = struct_call_code("test_struct_defaults", struct_val, &[text]);
    let result = done(vm.execute(code, &[]));
    let idx = result.as_struct_instance_idx().unwrap();
    let inst = vm.struct_registry.instance(idx).unwrap();
    assert_eq!(inst.fields[0], text);
    assert_eq!(inst.fields[1].as_bool(), Some(false));
    assert_eq!(inst.fields[2].as_int(), Some(1));
}

#[test]
fn test_native_struct_call_too_few_args() {
    let mut vm = VM::new();
    let (struct_val, _) = register_test_struct(&mut vm, "Point", &[("x", None), ("y", None)]);
    let code = struct_call_code("test_too_few", struct_val, &[Value::from_int(10)]);
    match vm.execute(code, &[]) {
        Outcome::Failed(VMError::TypeError(msg)) => {
            assert!(msg.contains("missing"), "got: {msg}");
            assert_eq!(msg, "Point() missing 1 required argument(s)");
        }
        other => panic!("expected TypeError, got {other:?}"),
    }
}

#[test]
fn test_native_struct_call_too_many_args() {
    let mut vm = VM::new();
    let (struct_val, _) = register_test_struct(&mut vm, "Pair", &[("a", None), ("b", None)]);
    let code = struct_call_code(
        "test_too_many",
        struct_val,
        &[Value::from_int(1), Value::from_int(2), Value::from_int(3)],
    );
    match vm.execute(code, &[]) {
        Outcome::Failed(VMError::TypeError(msg)) => {
            assert!(msg.contains("takes"), "got: {msg}");
            assert_eq!(msg, "Pair() takes 2 argument(s) but 3 were given");
        }
        other => panic!("expected TypeError, got {other:?}"),
    }
}

/// A struct type whose `init` is a VM function runs it on the new instance;
/// the caller gets the instance, not what `init` returns.
#[test]
fn struct_init_runs_on_new_instance() {
    let mut vm = VM::new();
    // init(self): self.x = 99; return 5
    let mut init = CodeObject::new("init");
    init.nargs = 1;
    init.nlocals = 1;
    init.names = vec!["x".to_string()];
    init.constants = vec![Value::from_int(99), Value::from_int(5)];
    init.instructions = vec![
        Instruction::new(OpCode::LoadLocal, 0),
        Instruction::new(OpCode::LoadConst, 0),
        Instruction::new(OpCode::SetAttr, 0),
        Instruction::new(OpCode::LoadConst, 1),
        Instruction::simple(OpCode::Return),
    ];
    let cid = vm.add_code(init);
    let init_fn = match vm.add_function(cid, None) {
        Value::Func(f) => f,
        other => panic!("expected a function, got {other:?}"),
    };
    let type_id = vm.struct_registry.register_type(
        "Box".to_string(),
        vec!["x".to_string()],
        vec![Some(Value::from_int(0))],
        vec!["init".to_string()],
        vec![("init".to_string(), init_fn)],
        vec!["Box".to_string()],
    );
    vm.register_struct_handle(55, type_id);
    let code = struct_call_code("make_box", Value::Obj(55), &[]);
    let mut r = vm.execute(code, &[]);
    while let Outcome::Running = r {
        r = vm.run(100);
    }
    let idx = done(r).as_struct_instance_idx().unwrap();
    assert_eq!(vm.struct_registry.instance(idx).unwrap().fields[0].as_int(), Some(99));
}

fn eq_code(name: &str, left: (Value, [i64; 2]), right: (Value, [i64; 2]), op: OpCode) -> CodeObject {
    let mut code = CodeObject::new(name);
    code.constants = vec![
        left.0,
        Value::from_int(left.1[0]),
        Value::from_int(left.1[1]),
        right.0,
        Value::from_int(right.1[0]),
        Value::from_int(right.1[1]),
    ];
    code.instructions = vec![
        Instruction::new(OpCode::LoadConst, 0),
        Instruction::new(OpCode::LoadConst, 1),
        Instruction::new(OpCode::LoadConst, 2),
        Instruction::new(OpCode::Call, 2),
        Instruction::new(OpCode::LoadConst, 3),
        Instruction::new(OpCode::LoadConst, 4),
        Instruction::new(OpCode::LoadConst, 5),
        Instruction::new(OpCode::Call, 2),
        Instruction::simple(op),
        Instruction::simple(OpCode::Halt),
    ];
    code
}

#[test]
fn test_native_struct_eq_same() {
    let mut vm = VM::new();
    let (struct_val, _) = register_test_struct(&mut vm, "Point", &[("x", None), ("y", None)]);
    let code = eq_code("test_eq_same", (struct_val, [10, 20]), (struct_val, [10, 20]), OpCode::Eq);
    assert_eq!(done(vm.execute(code, &[])).as_bool(), Some(true));
}

#[test]
fn test_native_struct_eq_different_values() {
    let mut vm = VM::new();
    let (struct_val, _) = register_test_struct(&mut vm, "Point", &[("x", None), ("y", None)]);
    let code = eq_code("test_eq_diff_vals", (struct_val, [10, 20]), (struct_val, [10, 99]), OpCode::Eq);
    assert_eq!(done(vm.execute(code, &[])).as_bool(), Some(false));
}

#[test]
fn test_native_struct_eq_different_types() {
    let mut vm = VM::new();
    let (point_val, _) = register_test_struct(&mut vm, "Point", &[("x", None), ("y", None)]);
    let (vec_val, _) = register_test_struct(&mut vm, "Vec2", &[("x", None), ("y", None)]);
    let code = eq_code("test_eq_diff_types", (point_val, [10, 20]), (vec_val, [10, 20]), OpCode::Eq);
    assert_eq!(done(vm.execute(code, &[])).as_bool(), Some(false));
}

/// `!=` of two equal instances is false.
#[test]
fn struct_ne_of_equal_instances() {
    let mut vm = VM::new();
    let (struct_val, _) = register_test_struct(&mut vm, "Point", &[("x", None), ("y", None)]);
    let code = eq_code("ne_same", (struct_val, [1, 2]), (struct_val, [1, 2]), OpCode::Ne);
    assert_eq!(done(vm.execute(code, &[])).as_bool(), Some(false));
}

/// A field holding a host object is compared by the host.
#[test]
fn struct_eq_asks_host_for_host_fields() {
    let mut vm = VM::new();
    let (struct_val, _) = register_test_struct(&mut vm, "Named", &[("name", None)]);
    let mut code = CodeObject::new("eq_host_field");
    code.constants = vec![struct_val, Value::Obj(1), Value::Obj(2)];
    code.instructions = vec![
        Instruction::new(OpCode::LoadConst, 0),
        Instruction::new(OpCode::LoadConst, 1),
        Instruction::new(OpCode::Call, 1),
        Instruction::new(OpCode::LoadConst, 0),
        Instruction::new(OpCode::LoadConst, 2),
        Instruction::new(OpCode::Call, 1),
        Instruction::simple(OpCode::Eq),
        Instruction::simple(OpCode::Halt),
    ];
    match vm.execute(code, &[]) {
        Outcome::Host(HostRequest::Equal(a, b, false)) => {
            assert_eq!(a, Value::Obj(1));
            assert_eq!(b, Value::Obj(2));
        }
        other => panic!("expected an equality request, got {other:?}"),
    }
    let mut r = vm.answer(HostReply::Value(Value::Bool(true)));
    while let Outcome::Running = r {
        r = vm.run(100);
    }
    assert_eq!(done(r).as_bool(), Some(true));
}

/// `a + b` on a struct instance with an `op_add` VM method runs it on
/// (a, b); `3 + a` runs it on (a, 3).
#[test]
fn struct_operator_method_runs() {
    let mut vm = VM::new();
    // op_add(self, other): return self.v + other
    let mut add = CodeObject::new("op_add");
    add.nargs = 2;
    add.nlocals = 2;
    add.names = vec!["v".to_string()];
    add.instructions = vec![
        Instruction::new(OpCode::LoadLocal, 0),
        Instruction::new(OpCode::GetAttr, 0),
        Instruction::new(OpCode::LoadLocal, 1),
        Instruction::simple(OpCode::Add),
        Instruction::simple(OpCode::Return),
    ];
    let cid = vm.add_code(add);
    let f = match vm.add_function(cid, None) {
        Value::Func(f) => f,
        other => panic!("expected a function, got {other:?}"),
    };
    let type_id = vm.struct_registry.register_type(
        "Num".to_string(),
        vec!["v".to_string()],
        vec![None],
        vec!["op_add".to_string()],
        vec![("op_add".to_string(), f)],
        vec!["Num".to_string()],
    );
    vm.register_struct_handle(9, type_id);
    let mut code = CodeObject::new("use_add");
    code.constants = vec![Value::Obj(9), Value::from_int(10), Value::from_int(3)];
    code.instructions = vec![
        Instruction::new(OpCode::LoadConst, 0),
        Instruction::new(OpCode::LoadConst, 1),
        Instruction::new(OpCode::Call, 1),
        Instruction::simple(OpCode::DupTop),
        Instruction::new(OpCode::LoadConst, 2),
        Instruction::simple(OpCode::Add),
        Instruction::simple(OpCode::RotTwo),
        Instruction::new(OpCode::LoadConst, 2),
        Instruction::simple(OpCode::RotTwo),
        Instruction::simple(OpCode::Add),
        Instruction::simple(OpCode::Add),
        Instruction::simple(OpCode::Halt),
    ];
    let mut r = vm.execute(code, &[]);
    while let Outcome::Running = r {
        r = vm.run(100);
    }
    assert_eq!(done(r).as_int(), Some(26));
}

/// `Point(10, y=20)` keyword-call code; the keyword names are the host
/// tuple `("y",)`, here handle 77.
fn struct_callkw_code(ty: Value, args: &[Value], kws: &[Value]) -> CodeObject {
    let mut code = CodeObject::new("test_struct_callkw");
    code.constants = vec![ty];
    code.constants.extend_from_slice(args);
    code.constants.extend_from_slice(kws);
    code.constants.push(Value::Obj(77));
    let n = code.constants.len();
    code.instructions = (0..n).map(|i| Instruction::new(OpCode::LoadConst, i as u32)).collect();
    code.instructions.push(Instruction::new(OpCode::CallKw, ((args.len() as u32) << 8) | kws.len() as u32));
    code.instructions.push(Instruction::simple(OpCode::Halt));
    code
}

fn run_callkw(vm: &mut VM, code: CodeObject, names: &[&str]) -> Outcome {
    match vm.execute(code, &[]) {
        Outcome::Host(HostRequest::KeywordNames(v)) => assert_eq!(v, Value::Obj(77)),
        other => panic!("expected a keyword-names request, got {other:?}"),
    }
    let mut r = vm.answer(HostReply::Names(names.iter().map(|n| n.to_string()).collect()));
    while let Outcome::Running = r {
        r = vm.run(100);
    }
    r
}

#[test]
fn test_native_struct_callkw() {
    let mut vm = VM::new();
    let (struct_val, type_id) = register_test_struct(&mut vm, "Point", &[("x", None), ("y", None)]);
    let code = struct_callkw_code(struct_val, &[Value::from_int(10)], &[Value::from_int(20)]);
    let result = done(run_callkw(&mut vm, code, &["y"]));
    let idx = result.as_struct_instance_idx().unwrap();
    let inst = vm.struct_registry.instance(idx).unwrap();
    assert_eq!(inst.type_id, type_id);
    assert_eq!(inst.fields[0].as_int(), Some(10));
    assert_eq!(inst.fields[1].as_int(), Some(20));
}

fn callkw_error(names: &[&str], args: &[Value], kws: &[Value]) -> String {
    let mut vm = VM::new();
    let (struct_val, _) = register_test_struct(&mut vm, "Point", &[("x", None), ("y", None)]);
    let code = struct_callkw_code(struct_val, args, kws);
    match run_callkw(&mut vm, code, names) {
        Outcome::Failed(VMError::TypeError(msg)) => msg,
        other => panic!("expected TypeError, got {other:?}"),
    }
}

#[test]
fn struct_callkw_rejects_bad_keywords() {
    let ten = Value::from_int(10);
    assert_eq!(callkw_error(&["z"], &[ten], &[ten]), "Point() got an unexpected keyword argument 'z'");
    assert_eq!(callkw_error(&["x"], &[ten], &[ten]), "Point() got multiple values for argument 'x'");
    assert_eq!(callkw_error(&["x"], &[], &[ten]), "Point() missing required argument: 'y'");
}

/// `enum Color { Red, Green }` defined by running code: the host reads the
/// definition, the VM registers it, the host makes its object, and `Color`
/// becomes a global whose attributes are the variant symbols.
#[test]
fn make_enum_defines_type_and_global() {
    let mut code = CodeObject::new("<module>");
    code.constants = vec![Value::Obj(5)];
    code.names = vec!["Green".to_string()];
    code.instructions = vec![
        Instruction::new(OpCode::MakeEnum, 0),
        Instruction::new(OpCode::LoadConst, 0),
        Instruction::simple(OpCode::PopTop),
        Instruction::simple(OpCode::Nop),
        Instruction::simple(OpCode::Halt),
    ];
    let mut vm = VM::new();
    match vm.execute(code, &[]) {
        Outcome::Host(HostRequest::EnumSpec(v)) => assert_eq!(v, Value::Obj(5)),
        other => panic!("expected an enum definition request, got {other:?}"),
    }
    let texts = vec!["Color".to_string(), "Red".to_string(), "Green".to_string()];
    match vm.answer(HostReply::Names(texts)) {
        Outcome::Host(HostRequest::NewEnumType(name, id, variants)) => {
            assert_eq!(name, "Color");
            assert_eq!(id, 0);
            assert_eq!(variants, vec!["Red".to_string(), "Green".to_string()]);
        }
        other => panic!("expected an enum object request, got {other:?}"),
    }
    match vm.answer(HostReply::Value(Value::Obj(40))) {
        Outcome::Host(HostRequest::Store(name, v)) => {
            assert_eq!(name, "Color");
            assert_eq!(v, Value::Obj(40));
        }
        other => panic!("expected a store, got {other:?}"),
    }
    assert!(vm.global_names().contains(&"Color".to_string()));
    assert_eq!(vm.find_enum_type(40), Some(0));
}

fn enum_attr_vm() -> VM {
    let mut vm = VM::new();
    let tid = vm.enum_registry.register("Color", &["Red".to_string(), "Green".to_string()], &mut vm.symbol_table);
    vm.register_enum_handle(40, tid);
    vm
}

fn enum_attr_code(attr: &str) -> CodeObject {
    let mut code = CodeObject::new("t");
    code.constants = vec![Value::Obj(40)];
    code.names = vec![attr.to_string()];
    code.instructions = vec![
        Instruction::new(OpCode::LoadConst, 0),
        Instruction::new(OpCode::GetAttr, 0),
        Instruction::simple(OpCode::Halt),
    ];
    code
}

/// `Color.Green` is the variant's symbol.
#[test]
fn enum_type_attribute_is_variant_symbol() {
    let mut vm = enum_attr_vm();
    let sym = match done(vm.execute(enum_attr_code("Green"), &[])) {
        Value::Symbol(s) => s,
        other => panic!("expected a symbol, got {other:?}"),
    };
    assert_eq!(vm.symbol_table.resolve(sym), Some("Color.Green"));
}

/// A variant the enum does not have raises.
#[test]
fn enum_type_unknown_variant_raises() {
    let mut vm = enum_attr_vm();
    match vm.execute(enum_attr_code("Blue"), &[]) {
        Outcome::Failed(VMError::RuntimeError(msg)) => assert_eq!(msg, "enum 'Color' has no variant 'Blue'"),
        other => panic!("expected RuntimeError, got {other:?}"),
    }
}

/// Passing every field by keyword in field order gives the instance the
/// positional call gives.
#[test]
fn keyword_call_matches_positional_call() {
    let mut vm = VM::new();
    let (struct_val, _) = register_test_struct(&mut vm, "Point", &[("x", None), ("y", None)]);
    let kw = struct_callkw_code(struct_val, &[], &[Value::from_int(10), Value::from_int(20)]);
    let by_name = done(run_callkw(&mut vm, kw, &["x", "y"])).as_struct_instance_idx().unwrap();
    let pos = struct_call_code("pos", struct_val, &[Value::from_int(10), Value::from_int(20)]);
    let by_pos = done(vm.execute(pos, &[])).as_struct_instance_idx().unwrap();
    assert_eq!(
        vm.struct_registry.instance(by_name).unwrap().fields,
        vm.struct_registry.instance(by_pos).unwrap().fields
    );
}

fn checkpoint_vm() -> (VM, CodeObject) {
    let mut vm = VM::new();
    vm.instruction_count = 0xFFFF;
    let mut code = CodeObject::new("t");
    code.constants = vec![Value::from_int(7)];
    code.instructions = vec![Instruction::new(OpCode::LoadConst, 0), Instruction::simple(OpCode::Halt)];
    (vm, code)
}

/// Every 65536 instructions the host is asked for the periodic check; with
/// nothing to report the run goes on.
#[test]
fn checkpoint_lets_run_go_on() {
    let (mut vm, code) = checkpoint_vm();
    match vm.execute(code, &[]) {
        Outcome::Host(HostRequest::Checkpoint) => {}
        other => panic!("expected a checkpoint, got {other:?}"),
    }
    let mut r = vm.answer(HostReply::Status { interrupted: false, rss: None });
    while let Outcome::Running = r {
        r = vm.run(100);
    }
    assert_eq!(done(r).as_int(), Some(7));
}

/// An interrupt reported at the check ends the run.
#[test]
fn checkpoint_interrupt_ends_run() {
    let (mut vm, code) = checkpoint_vm();
    vm.execute(code, &[]);
    match vm.answer(HostReply::Status { interrupted: true, rss: None }) {
        Outcome::Failed(VMError::Interrupted) => {}
        other => panic!("expected an interrupt, got {other:?}"),
    }
    assert!(!vm.running);
}

/// Resident memory over the limit ends the run with the limit message.
#[test]
fn checkpoint_memory_limit_ends_run() {
    let (mut vm, code) = checkpoint_vm();
    vm.set_memory_limit(1);
    vm.execute(code, &[]);
    match vm.answer(HostReply::Status { interrupted: false, rss: Some(3 * 1048576) }) {
        Outcome::Failed(VMError::MemoryLimitExceeded(msg)) => assert_eq!(
            msg,
            "memory limit exceeded (3 MB / 1 MB)\nIncrease: catnip -o memory:2\nDisable:  catnip -o memory:0"
        ),
        other => panic!("expected a memory error, got {other:?}"),
    }
}

/// An exception the host raises, which no handler takes, ends the run and
/// leaves its error context behind.
#[test]
fn host_raised_error_leaves_context() {
    let mut code = CodeObject::new("t");
    code.constants = vec![Value::Obj(3), Value::from_int(1)];
    code.instructions = vec![
        Instruction::new(OpCode::LoadConst, 0),
        Instruction::new(OpCode::LoadConst, 1),
        Instruction::new(OpCode::Call, 1),
        Instruction::simple(OpCode::Halt),
    ];
    let mut vm = VM::new();
    match vm.execute(code, &[]) {
        Outcome::Host(HostRequest::Call(f, args)) => {
            assert_eq!(f, Value::Obj(3));
            assert_eq!(args, vec![Value::from_int(1)]);
        }
        other => panic!("expected a call request, got {other:?}"),
    }
    match vm.answer(HostReply::Raised(VMError::TypeError("bad argument".to_string()))) {
        Outcome::Failed(VMError::TypeError(msg)) => assert_eq!(msg, "bad argument"),
        other => panic!("expected a TypeError, got {other:?}"),
    }
    let ctx = vm.take_last_error_context().unwrap();
    assert_eq!(ctx.error_type, "TypeError");
    assert_eq!(ctx.message, "bad argument");
    assert!(vm.take_last_error_context().is_none());
}

/// A reply of the wrong kind raises a `RuntimeError`.
#[test]
fn wrong_reply_kind_raises() {
    let mut code = CodeObject::new("t");
    code.constants = vec![Value::Obj(3)];
    code.instructions = vec![
        Instruction::new(OpCode::LoadConst, 0),
        Instruction::new(OpCode::Call, 0),
        Instruction::simple(OpCode::Halt),
    ];
    let mut vm = VM::new();
    vm.execute(code, &[]);
    match vm.answer(HostReply::Truth(true)) {
        Outcome::Failed(VMError::RuntimeError(msg)) => assert_eq!(msg, "host reply does not answer the request"),
        other => panic!("expected a RuntimeError, got {other:?}"),
    }
}

/// A `CallMethod` argument: argument count in the low byte, name index above.
fn call_method_arg(name_idx: u32, nargs: u32) -> u32 {
    (name_idx << 8) | nargs
}

fn call_method_code(receiver: Value, method: &str, args: &[Value]) -> CodeObject {
    let mut code = CodeObject::new("call_method");
    code.names = vec![method.to_string()];
    code.constants = vec![receiver];
    code.constants.extend_from_slice(args);
    code.instructions = (0..=args.len()).map(|i| Instruction::new(OpCode::LoadConst, i as u32)).collect();
    code.instructions.push(Instruction::new(OpCode::CallMethod, call_method_arg(0, args.len() as u32)));
    code.instructions.push(Instruction::simple(OpCode::Halt));
    code
}

fn finish(vm: &mut VM, mut r: Outcome) -> Outcome {
    while let Outcome::Running = r {
        r = vm.run(100);
    }
    r
}

/// A VM method gets the receiver as its first argument.
#[test]
fn call_method_runs_vm_method_with_receiver() {
    let mut vm = VM::new();
    // shifted(self, d): return self.x + d
    let mut m = CodeObject::new("shifted");
    m.nargs = 2;
    m.nlocals = 2;
    m.names = vec!["x".to_string()];
    m.instructions = vec![
        Instruction::new(OpCode::LoadLocal, 0),
        Instruction::new(OpCode::GetAttr, 0),
        Instruction::new(OpCode::LoadLocal, 1),
        Instruction::simple(OpCode::Add),
        Instruction::simple(OpCode::Return),
    ];
    let cid = vm.add_code(m);
    let f = match vm.add_function(cid, None) {
        Value::Func(f) => f,
        other => panic!("expected a function, got {other:?}"),
    };
    let t = vm.struct_registry.register_type(
        "P".to_string(),
        vec!["x".to_string()],
        vec![None],
        vec!["shifted".to_string()],
        vec![("shifted".to_string(), f)],
        vec!["P".to_string()],
    );
    let idx = vm.struct_registry.create_instance(t, vec![Value::from_int(40)]);
    let code = call_method_code(Value::Struct(idx), "shifted", &[Value::from_int(2)]);
    let r = vm.execute(code, &[]);
    assert_eq!(done(finish(&mut vm, r)).as_int(), Some(42));
}

/// A field holding a VM function is called without the receiver.
#[test]
fn call_method_calls_callable_field_without_receiver() {
    let mut vm = VM::new();
    // double(a): return a * 2
    let mut g = CodeObject::new("double");
    g.nargs = 1;
    g.nlocals = 1;
    g.constants = vec![Value::from_int(2)];
    g.instructions = vec![
        Instruction::new(OpCode::LoadLocal, 0),
        Instruction::new(OpCode::LoadConst, 0),
        Instruction::simple(OpCode::Mul),
        Instruction::simple(OpCode::Return),
    ];
    let cid = vm.add_code(g);
    let func = vm.add_function(cid, None);
    let t = vm.struct_registry.register_type(
        "Holder".to_string(),
        vec!["op".to_string()],
        vec![None],
        vec![],
        vec![],
        vec!["Holder".to_string()],
    );
    let idx = vm.struct_registry.create_instance(t, vec![func]);
    let code = call_method_code(Value::Struct(idx), "op", &[Value::from_int(21)]);
    let r = vm.execute(code, &[]);
    assert_eq!(done(finish(&mut vm, r)).as_int(), Some(42));
}

/// A name that is neither a field nor a method of the struct raises.
#[test]
fn call_method_unknown_name_raises() {
    let (mut vm, instance) = make_point_instance(10, 20);
    match vm.execute(call_method_code(instance, "nope", &[]), &[]) {
        Outcome::Failed(VMError::RuntimeError(msg)) => assert_eq!(msg, "'Point' has no attribute 'nope'"),
        other => panic!("expected RuntimeError, got {other:?}"),
    }
}

/// On a host value the host calls the method; its answer is pushed.
#[test]
fn call_method_on_host_value_asks_host() {
    let mut vm = VM::new();
    let code = call_method_code(Value::Obj(9), "upper", &[Value::from_int(1)]);
    match vm.execute(code, &[]) {
        Outcome::Host(HostRequest::CallMethod(Value::Obj(9), name, args)) => {
            assert_eq!(name, "upper");
            assert_eq!(args.len(), 1);
            assert_eq!(args[0].as_int(), Some(1));
        }
        other => panic!("expected a method call request, got {other:?}"),
    }
    let r = vm.answer(HostReply::Value(Value::from_int(7)));
    assert_eq!(done(finish(&mut vm, r)).as_int(), Some(7));
}

/// Too few values below the arguments is a stack underflow.
#[test]
fn call_method_without_receiver_underflows() {
    let mut vm = VM::new();
    let mut code = CodeObject::new("short");
    code.names = vec!["m".to_string()];
    code.constants = vec![Value::from_int(1)];
    code.instructions = vec![
        Instruction::new(OpCode::LoadConst, 0),
        Instruction::new(OpCode::CallMethod, call_method_arg(0, 1)),
        Instruction::simple(OpCode::Halt),
    ];
    match vm.execute(code, &[]) {
        Outcome::Failed(VMError::StackUnderflow) => {}
        other => panic!("expected a stack underflow, got {other:?}"),
    }
}

/// A struct index past the registry raises.
#[test]
fn call_method_on_unknown_instance_raises() {
    let mut vm = VM::new();
    match vm.execute(call_method_code(Value::Struct(99), "m", &[]), &[]) {
        Outcome::Failed(VMError::RuntimeError(msg)) => assert_eq!(msg, "invalid struct instance index 99"),
        other => panic!("expected RuntimeError, got {other:?}"),
    }
}

/// A host method of a struct type is called by the host on the instance.
#[test]
fn call_method_host_method_of_struct_asks_host() {
    let mut vm = VM::new();
    let t = vm.struct_registry.register_type(
        "Q".to_string(),
        vec!["x".to_string()],
        vec![None],
        vec!["show".to_string()],
        vec![],
        vec!["Q".to_string()],
    );
    let idx = vm.struct_registry.create_instance(t, vec![Value::from_int(3)]);
    match vm.execute(call_method_code(Value::Struct(idx), "show", &[]), &[]) {
        Outcome::Host(HostRequest::CallMethod(Value::Struct(i), name, args)) => {
            assert_eq!(i, idx);
            assert_eq!(name, "show");
            assert!(args.is_empty());
        }
        other => panic!("expected a method call request, got {other:?}"),
    }
}

/// A `*args` parameter gets the list the host builds of the excess
/// arguments; the callee then runs with it in that slot.
#[test]
fn call_with_star_args_asks_host_for_list() {
    let mut vm = VM::new();
    // f(a, *rest): return rest
    let mut f = CodeObject::new("f");
    f.nargs = 1;
    f.nlocals = 2;
    f.vararg_idx = 1;
    f.instructions = vec![
        Instruction::new(OpCode::LoadLocal, 1),
        Instruction::simple(OpCode::Return),
    ];
    let cid = vm.add_code(f);
    let func = vm.add_function(cid, None);
    let mut code = CodeObject::new("main");
    code.constants = vec![func, Value::from_int(1), Value::from_int(2), Value::from_int(3)];
    code.instructions = vec![
        Instruction::new(OpCode::LoadConst, 0),
        Instruction::new(OpCode::LoadConst, 1),
        Instruction::new(OpCode::LoadConst, 2),
        Instruction::new(OpCode::LoadConst, 3),
        Instruction::new(OpCode::Call, 3),
        Instruction::simple(OpCode::Halt),
    ];
    let mut r = vm.execute(code, &[]);
    while let Outcome::Running = r {
        r = vm.run(100);
    }
    match r {
        Outcome::Host(HostRequest::Build(false, items)) => {
            assert_eq!(items.len(), 2);
            assert_eq!(items[0].as_int(), Some(2));
            assert_eq!(items[1].as_int(), Some(3));
        }
        other => panic!("expected a list request, got {other:?}"),
    }
    let r = vm.answer(HostReply::Value(Value::Obj(40)));
    assert!(matches!(finish(&mut vm, r), Outcome::Done(Value::Obj(40))));
}

/// A literal pattern against a host value asks the host for equality only;
/// the VM then decides the match.
#[test]
fn literal_pattern_on_host_value_asks_equality() {
    let mut vm = VM::new();
    let mut code = CodeObject::new("t");
    code.constants = vec![Value::Obj(5), Value::Obj(6)];
    code.patterns = vec![VMPattern::Literal(Value::Obj(6))];
    code.instructions = vec![
        Instruction::new(OpCode::LoadConst, 0),
        Instruction::new(OpCode::MatchPatternVM, 0),
        Instruction::simple(OpCode::Halt),
    ];
    match vm.execute(code, &[]) {
        Outcome::Host(HostRequest::Equal(Value::Obj(5), Value::Obj(6), false)) => {}
        other => panic!("expected an equality request, got {other:?}"),
    }
    let r = vm.answer(HostReply::Truth(true));
    assert_eq!(done(finish(&mut vm, r)).as_bool(), Some(true));
}

/// A sequence pattern against a host value asks the host for its items and
/// matches them in the VM; a value that does not iterate does not match.
#[test]
fn tuple_pattern_on_host_value_asks_items() {
    let make = || {
        let mut code = CodeObject::new("t");
        code.nlocals = 1;
        code.constants = vec![Value::Obj(8)];
        code.patterns = vec![VMPattern::Tuple(vec![
            VMPatternElement::Pattern(VMPattern::Var(0)),
            VMPatternElement::Pattern(VMPattern::Literal(Value::from_int(2))),
        ])];
        code.instructions = vec![
            Instruction::new(OpCode::LoadConst, 0),
            Instruction::new(OpCode::MatchPatternVM, 0),
            Instruction::simple(OpCode::BindMatch),
            Instruction::new(OpCode::LoadLocal, 0),
            Instruction::simple(OpCode::Halt),
        ];
        code
    };
    let mut vm = VM::new();
    match vm.execute(make(), &[]) {
        Outcome::Host(HostRequest::SeqItems(Value::Obj(8))) => {}
        other => panic!("expected an items request, got {other:?}"),
    }
    let r = vm.answer(HostReply::Items(vec![Value::from_int(1), Value::from_int(2)]));
    assert_eq!(done(finish(&mut vm, r)).as_int(), Some(1));

    let mut vm = VM::new();
    let mut code = make();
    code.instructions.truncate(2);
    code.instructions.push(Instruction::simple(OpCode::Halt));
    let _ = vm.execute(code, &[]);
    let r = vm.answer(HostReply::Text("int".to_string()));
    assert!(done(finish(&mut vm, r)).is_nil());
}

/// Unpacking a host value by an assignment pattern asks the host for its
/// items; a value that does not iterate raises with its type name.
#[test]
fn assignment_pattern_on_host_value_asks_items() {
    let make = || {
        let mut code = CodeObject::new("t");
        code.nlocals = 2;
        code.constants = vec![Value::Obj(8)];
        code.patterns = vec![VMPattern::Tuple(vec![
            VMPatternElement::Pattern(VMPattern::Var(0)),
            VMPatternElement::Pattern(VMPattern::Var(1)),
        ])];
        code.instructions = vec![
            Instruction::new(OpCode::LoadConst, 0),
            Instruction::new(OpCode::MatchAssignPatternVM, 0),
            Instruction::simple(OpCode::BindMatch),
            Instruction::new(OpCode::LoadLocal, 1),
            Instruction::simple(OpCode::Halt),
        ];
        code
    };
    let mut vm = VM::new();
    match vm.execute(make(), &[]) {
        Outcome::Host(HostRequest::SeqItems(Value::Obj(8))) => {}
        other => panic!("expected an items request, got {other:?}"),
    }
    let r = vm.answer(HostReply::Items(vec![Value::from_int(1), Value::from_int(2)]));
    assert_eq!(done(finish(&mut vm, r)).as_int(), Some(2));

    let mut vm = VM::new();
    let _ = vm.execute(make(), &[]);
    match vm.answer(HostReply::Text("float".to_string())) {
        Outcome::Failed(VMError::TypeError(msg)) => assert_eq!(msg, "Cannot unpack non-iterable float"),
        other => panic!("expected TypeError, got {other:?}"),
    }
}

/// A struct pattern against a host value asks the host for its struct type
/// name, then for each field; the VM decides and binds.
#[test]
fn struct_pattern_on_host_value_asks_type_and_fields() {
    let mut vm = VM::new();
    let mut code = CodeObject::new("t");
    code.nlocals = 1;
    code.constants = vec![Value::Obj(9)];
    code.patterns = vec![VMPattern::Struct {
        name: "Point".to_string(),
        variant: None,
        field_slots: vec![("x".to_string(), 0)],
    }];
    code.instructions = vec![
        Instruction::new(OpCode::LoadConst, 0),
        Instruction::new(OpCode::MatchPatternVM, 0),
        Instruction::simple(OpCode::BindMatch),
        Instruction::new(OpCode::LoadLocal, 0),
        Instruction::simple(OpCode::Halt),
    ];
    match vm.execute(code, &[]) {
        Outcome::Host(HostRequest::StructName(Value::Obj(9))) => {}
        other => panic!("expected a type name request, got {other:?}"),
    }
    match vm.answer(HostReply::Text("Point".to_string())) {
        Outcome::Host(HostRequest::MatchAttr(Value::Obj(9), name)) => assert_eq!(name, "x"),
        other => panic!("expected an attribute request, got {other:?}"),
    }
    let r = vm.answer(HostReply::Value(Value::from_int(7)));
    assert_eq!(done(finish(&mut vm, r)).as_int(), Some(7));
}

/// An enum pattern whose variant has no symbol, against a host value, asks
/// the host whether the value equals the qualified variant name.
#[test]
fn enum_pattern_on_host_value_asks_text_equality() {
    let mut vm = VM::new();
    let mut code = CodeObject::new("t");
    code.constants = vec![Value::Obj(3), Value::from_int(0)];
    code.names = vec!["Color".to_string()];
    code.patterns = vec![VMPattern::Enum { enum_name: "Color".to_string(), variant_name: "Red".to_string() }];
    code.instructions = vec![
        Instruction::new(OpCode::LoadConst, 1),
        Instruction::new(OpCode::StoreScope, 0),
        Instruction::new(OpCode::LoadConst, 0),
        Instruction::new(OpCode::MatchPatternVM, 0),
        Instruction::simple(OpCode::Halt),
    ];
    let mut r = vm.execute(code, &[]);
    if let Outcome::Host(HostRequest::Store(_, _)) = r {
        r = vm.answer(HostReply::Missing);
        r = finish(&mut vm, r);
    }
    match r {
        Outcome::Host(HostRequest::EqualsText(Value::Obj(3), text)) => assert_eq!(text, "Color.Red"),
        other => panic!("expected a text equality request, got {other:?}"),
    }
    let r = vm.answer(HostReply::Truth(false));
    assert!(done(finish(&mut vm, r)).is_nil());
}

/// A definition's methods: bodies become functions closed over the defining
/// frame (a top-level name the host's globals bind is not captured), sorted
/// into instance and static maps; methods without a body are abstract, each
/// listed once.
#[test]
fn collect_method_maps_sorts_and_closes_methods() {
    let mut vm = VM::new();
    let body = vm.add_code(CodeObject::new("body"));
    let proto = match vm.add_function(body, None) {
        Value::Func(f) => f,
        other => panic!("expected a function, got {other:?}"),
    };
    let mut main = CodeObject::new("main");
    main.nargs = 2;
    main.nlocals = 2;
    main.slotmap = vec![("a".to_string(), 0), ("g".to_string(), 1)];
    let cid = vm.add_code(main);
    vm.start(cid, &[Value::from_int(5), Value::from_int(6)], None);
    let methods = vec![
        ("area".to_string(), Some(proto), false),
        ("make".to_string(), Some(proto), true),
        ("draw".to_string(), None, false),
        ("draw".to_string(), None, false),
    ];
    let maps = vm.collect_method_maps(&methods, &[false, true]).unwrap();
    let area = match maps.instance.get("area") {
        Some(Value::Func(f)) => *f,
        other => panic!("expected a function, got {other:?}"),
    };
    assert_eq!(area, proto + 1);
    assert!(matches!(maps.statics.get("make"), Some(Value::Func(f)) if *f == proto + 2));
    assert_eq!(maps.instance.len(), 1);
    assert_eq!(maps.abstracts, vec![("draw".to_string(), false)]);
    let scope = vm.func_table[area as usize].closure.unwrap();
    let captured = scope.captured_entries(&vm.scopes);
    assert_eq!(captured.len(), 1);
    assert_eq!(captured[0].0, "a");
    assert_eq!(captured[0].1.as_int(), Some(5));
}

/// A method body that is no function of the table is refused.
#[test]
fn collect_method_maps_rejects_bad_body() {
    let mut vm = VM::new();
    let cid = vm.add_code(CodeObject::new("main"));
    vm.start(cid, &[], None);
    match vm.collect_method_maps(&[("m".to_string(), Some(9), false)], &[]) {
        Err(VMError::TypeError(msg)) => assert_eq!(msg, "Expected CodeObject"),
        other => panic!("expected TypeError, got {other:?}"),
    }
}
