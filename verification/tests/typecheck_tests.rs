use catnip_vm_core::error::VMError;
use catnip_vm_core::frame::{CodeObject, Instruction, OpCode};
use catnip_vm_core::pattern::VMPattern;
use catnip_vm_core::step::HostRequest;
use catnip_vm_core::typecheck::{check_composite, CheckFacts, ParamCheck, TypeHead};
use catnip_vm_core::value::Value;
use catnip_vm_core::vm::{HostReply, Outcome, VM};

fn composite(head: TypeHead, params: Vec<ParamCheck>) -> ParamCheck {
    ParamCheck::Composite { head, params }
}

fn facts(in_head: bool, value_type: &str, text: &str) -> CheckFacts {
    CheckFacts {
        in_head,
        value_type: value_type.to_string(),
        spec_text: text.to_string(),
        items: None,
        entries: None,
    }
}

fn type_error(r: Result<(), VMError>) -> String {
    match r {
        Err(VMError::TypeError(m)) => m,
        other => panic!("expected a TypeError, got {other:?}"),
    }
}

#[test]
fn composite_wrong_container_names_both_types() {
    let spec = composite(TypeHead::ListOf, vec![ParamCheck::Primitive(1)]);
    let r = check_composite(&spec, &facts(false, "dict", "list[int]"));
    assert_eq!(type_error(r), "typed parameter expects 'list[int]' but got 'dict'");
}

#[test]
fn composite_list_with_wrong_element_fails() {
    let spec = composite(TypeHead::ListOf, vec![ParamCheck::Primitive(1)]);
    let mut f = facts(true, "list", "list[int]");
    f.items = Some(vec![true, false, true]);
    let r = check_composite(&spec, &f);
    assert_eq!(type_error(r), "typed parameter expects 'list[int]' but an element has the wrong type");
    f.items = Some(vec![true, true]);
    assert!(check_composite(&spec, &f).is_ok());
}

#[test]
fn composite_unenforced_element_check_passes() {
    let spec = composite(TypeHead::SetOf, vec![ParamCheck::Unchecked]);
    let mut f = facts(true, "set", "set");
    f.items = Some(vec![false]);
    assert!(check_composite(&spec, &f).is_ok());
}

#[test]
fn composite_tuple_length_checked_before_items() {
    let spec = composite(TypeHead::TupleOf, vec![ParamCheck::Primitive(1), ParamCheck::Primitive(2)]);
    let mut f = facts(true, "tuple", "tuple[int, str]");
    f.items = Some(vec![false, true, true]);
    let r = check_composite(&spec, &f);
    assert_eq!(type_error(r), "typed parameter expects 'tuple[int, str]' but got a tuple of length 3");
    f.items = Some(vec![true, false]);
    let r = check_composite(&spec, &f);
    assert_eq!(type_error(r), "typed parameter expects 'tuple[int, str]' but an element has the wrong type");
    f.items = Some(vec![true, true]);
    assert!(check_composite(&spec, &f).is_ok());
}

#[test]
fn composite_bare_tuple_checks_container_only() {
    let spec = composite(TypeHead::TupleOf, vec![]);
    let mut f = facts(true, "tuple", "tuple");
    f.items = Some(vec![false]);
    assert!(check_composite(&spec, &f).is_ok());
}

#[test]
fn composite_dict_reports_first_wrong_key_or_value() {
    let spec = composite(TypeHead::DictOf, vec![ParamCheck::Primitive(2), ParamCheck::Primitive(1)]);
    let mut f = facts(true, "dict", "dict[str, int]");
    f.entries = Some(vec![(true, true), (true, false), (false, true)]);
    let r = check_composite(&spec, &f);
    assert_eq!(type_error(r), "typed parameter expects 'dict[str, int]' but a value has the wrong type");
    f.entries = Some(vec![(false, false)]);
    let r = check_composite(&spec, &f);
    assert_eq!(type_error(r), "typed parameter expects 'dict[str, int]' but a key has the wrong type");
    f.entries = Some(vec![(true, true)]);
    assert!(check_composite(&spec, &f).is_ok());
}

#[test]
fn composite_dict_unenforced_key_is_skipped() {
    let spec = composite(TypeHead::DictOf, vec![ParamCheck::Unchecked, ParamCheck::Primitive(1)]);
    let mut f = facts(true, "dict", "dict[any, int]");
    f.entries = Some(vec![(false, true)]);
    assert!(check_composite(&spec, &f).is_ok());
}

#[test]
fn non_composite_check_passes() {
    let f = facts(false, "int", "str");
    assert!(check_composite(&ParamCheck::Primitive(2), &f).is_ok());
    let other = composite(TypeHead::Other(9), vec![ParamCheck::Primitive(1)]);
    assert!(check_composite(&other, &facts(true, "frozenset", "frozenset[int]")).is_ok());
}

fn check_code() -> CodeObject {
    let mut code = CodeObject::new("f");
    code.constants = vec![Value::Obj(7)];
    code.composite_checks = vec![composite(TypeHead::ListOf, vec![ParamCheck::Primitive(1)])];
    code.instructions = vec![
        Instruction::new(OpCode::LoadConst, 0),
        Instruction::new(OpCode::CheckComposite, 0),
        Instruction::simple(OpCode::Halt),
    ];
    code
}

/// `CheckComposite` asks the host about the value; a value that passes
/// stays on the stack.
#[test]
fn check_composite_instruction_keeps_passing_value() {
    let mut vm = VM::new();
    match vm.execute(check_code(), &[]) {
        Outcome::Host(HostRequest::CheckFacts(v, k)) => {
            assert_eq!(v, Value::Obj(7));
            assert_eq!(k, 0);
        }
        other => panic!("expected a facts request, got {other:?}"),
    }
    let mut f = facts(true, "list", "list[int]");
    f.items = Some(vec![true]);
    let mut r = vm.answer(HostReply::Facts(f));
    while let Outcome::Running = r {
        r = vm.run(100);
    }
    match r {
        Outcome::Done(v) => assert_eq!(v, Value::Obj(7)),
        other => panic!("expected the value back, got {other:?}"),
    }
}

/// A value that fails the check raises a `TypeError`.
#[test]
fn check_composite_instruction_raises_type_error() {
    let mut vm = VM::new();
    let r = vm.execute(check_code(), &[]);
    assert!(matches!(r, Outcome::Host(HostRequest::CheckFacts(_, _))));
    let r = vm.answer(HostReply::Facts(facts(false, "tuple", "list[int]")));
    match r {
        Outcome::Failed(VMError::TypeError(m)) => {
            assert_eq!(m, "typed parameter expects 'list[int]' but got 'tuple'")
        }
        other => panic!("expected a TypeError, got {other:?}"),
    }
}

fn enum_match_code() -> CodeObject {
    let mut code = CodeObject::new("t");
    code.constants = vec![Value::Obj(3)];
    code.patterns = vec![VMPattern::Enum { enum_name: "Color".to_string(), variant_name: "Red".to_string() }];
    code.instructions = vec![
        Instruction::new(OpCode::LoadConst, 0),
        Instruction::new(OpCode::MatchPatternVM, 0),
        Instruction::simple(OpCode::Halt),
    ];
    code
}

/// An enum name bound neither by module globals nor along the closure chain
/// is looked up in the host's globals; bound there, the match goes on.
#[test]
fn enum_pattern_name_found_in_host_globals() {
    let mut vm = VM::new();
    match vm.execute(enum_match_code(), &[]) {
        Outcome::Host(HostRequest::HasGlobals(names)) => assert_eq!(names, vec!["Color".to_string()]),
        other => panic!("expected a globals lookup, got {other:?}"),
    }
    match vm.answer(HostReply::Items(vec![Value::Bool(true)])) {
        Outcome::Host(HostRequest::EqualsText(Value::Obj(3), text)) => assert_eq!(text, "Color.Red"),
        other => panic!("expected a text equality request, got {other:?}"),
    }
}

/// An enum name bound nowhere raises `NameError`.
#[test]
fn enum_pattern_unbound_name_raises() {
    let mut vm = VM::new();
    let r = vm.execute(enum_match_code(), &[]);
    assert!(matches!(r, Outcome::Host(HostRequest::HasGlobals(_))));
    match vm.answer(HostReply::Items(vec![Value::Bool(false)])) {
        Outcome::Failed(VMError::NameError(n)) => assert_eq!(n, "Color"),
        other => panic!("expected a NameError, got {other:?}"),
    }
}

fn nominal_vm() -> (VM, Value) {
    let mut vm = VM::new();
    vm.struct_registry.register_type("Shape".to_string(), vec![], vec![], vec![], vec![], vec!["Shape".to_string()]);
    let tid = vm.struct_registry.register_type(
        "Circle".to_string(),
        vec!["r".to_string()],
        vec![None],
        vec![],
        vec![],
        vec!["Circle".to_string(), "Shape".to_string()],
    );
    let idx = vm.struct_registry.create_instance(tid, vec![Value::from_int(1)]);
    (vm, Value::Struct(idx))
}

fn nominal_code(value: Value, name: &str) -> CodeObject {
    let mut code = CodeObject::new("f");
    code.constants = vec![value];
    code.names = vec![name.to_string()];
    code.instructions = vec![
        Instruction::new(OpCode::LoadConst, 0),
        Instruction::new(OpCode::CheckNominal, 0),
        Instruction::simple(OpCode::Halt),
    ];
    code
}

fn finished(vm: &mut VM, mut r: Outcome) -> Outcome {
    while let Outcome::Running = r {
        r = vm.run(100);
    }
    r
}

/// A struct instance belongs to its own type and to its ancestors.
#[test]
fn check_nominal_accepts_instance_and_ancestor() {
    for name in ["Circle", "Shape"] {
        let (mut vm, c) = nominal_vm();
        let r = vm.execute(nominal_code(c, name), &[]);
        match finished(&mut vm, r) {
            Outcome::Done(v) => assert_eq!(v, c),
            other => panic!("expected the instance back, got {other:?}"),
        }
    }
}

/// A struct instance of another type the VM holds raises a `TypeError`.
#[test]
fn check_nominal_rejects_other_struct_type() {
    let (mut vm, _) = nominal_vm();
    let sq = vm.struct_registry.register_type("Square".to_string(), vec![], vec![], vec![], vec![], vec!["Square".to_string()]);
    let s = Value::Struct(vm.struct_registry.create_instance(sq, vec![]));
    match vm.execute(nominal_code(s, "Circle"), &[]) {
        Outcome::Failed(VMError::TypeError(m)) => {
            assert_eq!(m, "typed parameter expects 'Circle' but got 'Square'")
        }
        other => panic!("expected a TypeError, got {other:?}"),
    }
}

/// A type name the VM does not hold is looked up by the host; when the host
/// holds no such type either, the check passes.
#[test]
fn check_nominal_unknown_type_is_inert() {
    let (mut vm, c) = nominal_vm();
    match vm.execute(nominal_code(c, "Widget"), &[]) {
        Outcome::Host(HostRequest::NominalFacts(v, n)) => {
            assert_eq!(v, c);
            assert_eq!(n, "Widget");
        }
        other => panic!("expected a nominal facts request, got {other:?}"),
    }
    let r = vm.answer(HostReply::Nominal { member: false, known: false, value_type: String::from("x") });
    match finished(&mut vm, r) {
        Outcome::Done(v) => assert_eq!(v, c),
        other => panic!("expected the instance back, got {other:?}"),
    }
}

/// A host value the host says is not of a type it holds raises, naming the
/// host's type name.
#[test]
fn check_nominal_host_value_rejected_by_host() {
    let mut vm = VM::new();
    let r = vm.execute(nominal_code(Value::Obj(4), "Point"), &[]);
    assert!(matches!(r, Outcome::Host(HostRequest::NominalFacts(Value::Obj(4), _))));
    match vm.answer(HostReply::Nominal { member: false, known: true, value_type: String::from("str") }) {
        Outcome::Failed(VMError::TypeError(m)) => assert_eq!(m, "typed parameter expects 'Point' but got 'str'"),
        other => panic!("expected a TypeError, got {other:?}"),
    }
}

/// An enum symbol belongs to its enum.
#[test]
fn check_nominal_enum_symbol_belongs_to_its_enum() {
    let mut vm = VM::new();
    vm.enum_registry.register("Color", &["Red".to_string()], &mut vm.symbol_table);
    let sym = Value::Symbol(0);
    let r = vm.execute(nominal_code(sym, "Color"), &[]);
    match finished(&mut vm, r) {
        Outcome::Done(v) => assert_eq!(v, sym),
        other => panic!("expected the symbol back, got {other:?}"),
    }
    match vm.execute(nominal_code(sym, "Shade"), &[]) {
        Outcome::Host(HostRequest::NominalFacts(_, _)) => {}
        other => panic!("expected a nominal facts request, got {other:?}"),
    }
}
