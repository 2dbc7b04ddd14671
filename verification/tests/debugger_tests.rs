use catnip_vm_core::debugger::{DebugStepMode, Debugger};
use catnip_vm_core::frame::{CodeObject, Instruction, OpCode};
use catnip_vm_core::value::Value;
use catnip_vm_core::vm::{Outcome, VM};

fn attached() -> Debugger {
    let mut d = Debugger::new();
    d.attached = true;
    d
}

#[test]
fn step_mode_from_host_answer() {
    assert_eq!(DebugStepMode::from_i32(1), DebugStepMode::Continue);
    assert_eq!(DebugStepMode::from_i32(2), DebugStepMode::StepInto);
    assert_eq!(DebugStepMode::from_i32(3), DebugStepMode::StepOver);
    assert_eq!(DebugStepMode::from_i32(4), DebugStepMode::StepOut);
    assert_eq!(DebugStepMode::from_i32(0), DebugStepMode::Disabled);
    assert_eq!(DebugStepMode::from_i32(-7), DebugStepMode::Disabled);
}

#[test]
fn detached_debugger_never_pauses() {
    let mut d = Debugger::new();
    d.set_breakpoint(4);
    assert!(!d.before_instruction(Instruction::simple(OpCode::Breakpoint), 4, 0));
}

/// A breakpoint position pauses once, not again until the run moves on.
#[test]
fn breakpoint_pauses_once_per_visit() {
    let mut d = attached();
    d.set_breakpoint(10);
    let nop = Instruction::simple(OpCode::Nop);
    assert!(!d.before_instruction(nop, 9, 0));
    assert!(d.before_instruction(nop, 10, 0));
    d.paused(10);
    d.resumed(1, 0);
    assert!(!d.before_instruction(nop, 10, 0));
    assert!(!d.before_instruction(nop, 11, 0));
    assert!(d.before_instruction(nop, 10, 0));
    d.clear_breakpoint(10);
    assert!(!d.has_breakpoint(10));
    assert!(!d.before_instruction(nop, 12, 0));
    assert!(!d.before_instruction(nop, 10, 0));
}

/// An explicit `breakpoint()` pauses without a breakpoint position.
#[test]
fn explicit_breakpoint_pauses() {
    let mut d = attached();
    assert!(d.before_instruction(Instruction::simple(OpCode::Breakpoint), 3, 0));
}

/// Stepping over pauses at the starting depth or shallower; stepping out
/// only shallower; stepping into always.
#[test]
fn stepping_modes_follow_call_depth() {
    let nop = Instruction::simple(OpCode::Nop);
    let mut d = attached();
    d.paused(1);
    d.resumed(3, 2);
    assert_eq!(d.step_mode, DebugStepMode::StepOver);
    assert_eq!(d.step_depth, 2);
    assert!(!d.before_instruction(nop, 2, 3));
    assert!(d.before_instruction(nop, 3, 2));
    d.resumed(4, 2);
    assert!(!d.before_instruction(nop, 4, 2));
    assert!(d.before_instruction(nop, 5, 1));
    d.resumed(2, 0);
    assert!(d.before_instruction(nop, 6, 9));
}

/// The debugger sees the instruction about to run and the frame's locals.
#[test]
fn vm_shows_next_instruction_and_locals() {
    let mut vm = VM::new();
    let mut code = CodeObject::new("f");
    code.nargs = 1;
    code.nlocals = 1;
    code.varnames = vec!["a".to_string()];
    code.slotmap = vec![("a".to_string(), 0)];
    code.line_table = vec![7, 8];
    code.instructions = vec![Instruction::new(OpCode::LoadLocal, 0), Instruction::simple(OpCode::Halt)];
    let cid = vm.add_code(code);
    vm.start(cid, &[Value::from_int(5)], None);
    match vm.next_instruction() {
        Some((i, src)) => {
            assert_eq!(i.op, OpCode::LoadLocal);
            assert_eq!(src, 7);
        }
        None => panic!("expected an instruction"),
    }
    assert_eq!(vm.frame_locals(), vec![("a".to_string(), Value::from_int(5))]);
    assert!(vm.call_stack_snapshot().len() <= 1);
    assert!(matches!(vm.step(), Outcome::Running));
    assert_eq!(vm.next_instruction().map(|(_, s)| s), Some(8));
}
