use catnip_vm_core::frame::{CodeObject, Frame, FramePool};
use catnip_vm_core::value::Value;
use catnip_vm_core::enums::{EnumRegistry, SymbolTable};
use catnip_vm_core::error::{DebugStepMode, ExceptionKind, VMError};
use catnip_vm_core::pattern::spill_bindings;

#[test]
fn test_frame_stack() {
    let mut frame = Frame::new();
    frame.push(Value::from_int(1));
    frame.push(Value::from_int(2));
    frame.push(Value::from_int(3));

    assert_eq!(frame.peek().as_int(), Some(3));
    assert_eq!(frame.pop().as_int(), Some(3));
    assert_eq!(frame.pop().as_int(), Some(2));
    assert_eq!(frame.pop().as_int(), Some(1));
}

#[test]
fn test_frame_locals() {
    let mut code = CodeObject::new("test");
    code.nlocals = 3;
    let mut frame = Frame::with_code(0, code.nlocals);

    frame.set_local(0, Value::from_int(10));
    frame.set_local(1, Value::from_int(20));

    assert_eq!(frame.get_local(0).as_int(), Some(10));
    assert_eq!(frame.get_local(1).as_int(), Some(20));
}

#[test]
fn test_frame_pool() {
    let mut pool = FramePool::new(2);

    let frame1 = pool.alloc_frame();
    let frame2 = pool.alloc_frame();

    pool.free(frame1);
    pool.free(frame2);

    assert_eq!(pool.len(), 2);
}

#[test]
fn frame_pool_never_exceeds_capacity() {
    let mut pool = FramePool::new(1);
    pool.free(Frame::new());
    pool.free(Frame::new());
    assert_eq!(pool.len(), 1);
    let f = pool.alloc_with_code(3, 2);
    assert_eq!(f.code, Some(3));
    assert_eq!(f.locals.len(), 2);
    assert_eq!(pool.len(), 0);
}

#[test]
fn empty_stack_pops_nil() {
    let mut frame = Frame::new();
    assert!(frame.pop().is_nil());
    assert!(frame.peek().is_nil());
}

#[test]
fn out_of_range_local_reads_nil() {
    let mut frame = Frame::with_code(0, 1);
    frame.set_local(5, Value::from_int(1));
    assert!(frame.get_local(5).is_nil());
}

#[test]
fn block_push_pop_restores() {
    let mut frame = Frame::with_code(0, 3);
    frame.set_local(0, Value::from_int(1));
    frame.set_local(1, Value::from_int(2));
    frame.push_block(1);
    frame.set_local(1, Value::from_int(20));
    frame.set_local(2, Value::from_int(30));
    frame.pop_block();
    assert_eq!(frame.get_local(0).as_int(), Some(1));
    assert_eq!(frame.get_local(1).as_int(), Some(2));
    assert!(frame.get_local(2).is_nil());
}

#[test]
fn test_enum_registry() {
    let mut symbols = SymbolTable::new();
    let mut reg = EnumRegistry::new();

    let tid = reg.register("Color", &["red".into(), "green".into(), "blue".into()], &mut symbols);
    assert_eq!(tid, 0);

    let ety = reg.get_type(tid).unwrap();
    assert_eq!(ety.name, "Color");
    assert_eq!(ety.variants.len(), 3);

    let red_sym = ety.variant_symbol("red").unwrap();
    assert_eq!(symbols.resolve(red_sym), Some("Color.red"));

    let (type_id, variant_id) = reg.lookup_symbol(red_sym).unwrap();
    assert_eq!(type_id, 0);
    assert_eq!(variant_id, 0);

    let blue_sym = ety.variant_symbol("blue").unwrap();
    let (_, vid) = reg.lookup_symbol(blue_sym).unwrap();
    assert_eq!(vid, 2);
}

#[test]
fn test_find_by_name() {
    let mut symbols = SymbolTable::new();
    let mut reg = EnumRegistry::new();
    reg.register("Direction", &["up".into(), "down".into()], &mut symbols);
    assert!(reg.find_by_name("Direction").is_some());
    assert!(reg.find_by_name("Missing").is_none());
}

#[test]
fn interning_twice_gives_one_symbol() {
    let mut symbols = SymbolTable::new();
    let a = symbols.intern("A.x");
    let b = symbols.intern("A.x");
    assert_eq!(a, b);
    assert_eq!(symbols.len(), 1);
    assert_eq!(symbols.lookup("A.x"), Some(a));
}

#[test]
fn debug_step_mode_codes_round_trip() {
    for c in 0..5 {
        assert_eq!(DebugStepMode::from_i32(c).code(), c);
    }
    assert_eq!(DebugStepMode::from_i32(42), DebugStepMode::Disabled);
}

#[test]
fn builtin_error_round_trips_through_its_name() {
    let e = VMError::KeyError("k".to_string());
    let info = e.exception_info().unwrap();
    assert_eq!(info.exc_type, "KeyError");
    assert_eq!(info.mro, vec!["KeyError".to_string(), "LookupError".to_string(), "Exception".to_string()]);
    match VMError::from_exception_info(&info.exc_type, &info.message) {
        VMError::KeyError(m) => assert_eq!(m, "k"),
        other => panic!("got {other:?}"),
    }
    assert!(info.matches("LookupError"));
    assert!(!info.matches("ValueError"));
    assert_eq!(ExceptionKind::from_name("ZeroDivisionError"), Some(ExceptionKind::ZeroDivisionError));
}

#[test]
fn control_signals_are_not_catchable() {
    assert!(!VMError::Break.is_catchable());
    assert!(VMError::Break.exception_info().is_none());
    assert!(VMError::TypeError("t".to_string()).is_catchable());
}

#[test]
fn spill_bindings_keeps_values_in_order() {
    let mut spill = vec![Value::Nil];
    spill_bindings(vec![(3, Value::from_int(1)), (0, Value::from_int(2))], &mut spill);
    assert_eq!(spill, vec![Value::Nil, Value::from_int(1), Value::from_int(2)]);
}
