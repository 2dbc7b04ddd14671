use catnip_vm_core::enums::{qualified_name, EnumRegistry, SymbolTable};
use catnip_vm_core::error::{ExceptionInfo, ExceptionKind, VMError};
use catnip_vm_core::ops::{
    binary_add, binary_div, binary_floordiv, binary_mod, binary_mul, binary_pow, binary_sub,
    bitwise_and, bitwise_lshift, bitwise_not, bitwise_or, bitwise_rshift, bitwise_xor, compare_ge,
    compare_gt, compare_le, compare_lt, eq_without_python, unary_neg, Native,
};
use catnip_vm_core::pattern::{vm_match_assign_pattern, vm_match_pattern, MatchFacts, MatchOutcome, VMPattern, VMPatternElement};
use catnip_vm_core::scope::{ClosureParent, NativeClosureScope, ScopeArena};
use catnip_vm_core::structs::StructRegistry;
use catnip_vm_core::text::{concat3, i64_to_decimal, str_has_prefix, u64_to_decimal};
use catnip_vm_core::value::{TupleHeap, Value, SMALLINT_MAX, SMALLINT_MIN};
use indexmap::IndexMap;

fn small(n: i64) -> Value {
    Value::Int(n)
}

fn val(n: Native) -> Value {
    match n {
        Native::Value(v) => v,
        other => panic!("expected a value, got {:?}", other),
    }
}

fn is_host(n: &Native) -> bool {
    matches!(n, Native::Host)
}

#[test]
fn arithmetic_on_small_ints() {
    assert_eq!(val(binary_add(small(2), small(3))), small(5));
    assert_eq!(val(binary_sub(small(2), small(9))), small(-7));
    assert_eq!(val(binary_mul(small(-4), small(6))), small(-24));
    assert!(is_host(&binary_add(Value::Bool(true), small(1))));
}

#[test]
fn add_overflowing_small_range_goes_to_host() {
    assert!(is_host(&binary_add(small(SMALLINT_MAX), small(1))));
    assert!(is_host(&binary_sub(small(SMALLINT_MIN), small(1))));
    assert!(is_host(&binary_mul(small(SMALLINT_MAX), small(2))));
}

#[test]
fn floor_division_and_modulo_follow_python() {
    assert_eq!(val(binary_floordiv(small(7), small(2))), small(3));
    assert_eq!(val(binary_floordiv(small(-7), small(2))), small(-4));
    assert_eq!(val(binary_floordiv(small(7), small(-2))), small(-4));
    assert_eq!(val(binary_floordiv(small(-7), small(-2))), small(3));
    assert_eq!(val(binary_mod(small(-7), small(2))), small(1));
    assert_eq!(val(binary_mod(small(7), small(-2))), small(-1));
    assert_eq!(val(binary_mod(small(7), small(2))), small(1));
}

#[test]
fn floordiv_mod_recombine() {
    for a in [-13i64, -7, -1, 0, 1, 5, 13] {
        for b in [-5i64, -2, 1, 3, 7] {
            let q = match val(binary_floordiv(small(a), small(b))) {
                Value::Int(q) => q,
                v => panic!("{:?}", v),
            };
            let m = match val(binary_mod(small(a), small(b))) {
                Value::Int(m) => m,
                v => panic!("{:?}", v),
            };
            assert_eq!(q * b + m, a);
        }
    }
}

#[test]
fn division_by_zero_raises() {
    for n in [binary_floordiv(small(1), small(0)), binary_mod(small(1), small(0))] {
        match n {
            Native::Error(VMError::ZeroDivisionError(msg)) => {
                assert_eq!(msg, "integer division or modulo by zero")
            }
            other => panic!("{:?}", other),
        }
    }
}

#[test]
fn true_division_goes_to_host() {
    assert!(is_host(&binary_div(small(1), small(2))));
}

#[test]
fn true_division_by_zero_raises() {
    match binary_div(small(1), small(0)) {
        Native::Error(VMError::ZeroDivisionError(msg)) => assert_eq!(msg, "division by zero"),
        other => panic!("{:?}", other),
    }
}

#[test]
fn powers() {
    assert_eq!(val(binary_pow(small(2), small(10))), small(1024));
    assert_eq!(val(binary_pow(small(-3), small(3))), small(-27));
    assert_eq!(val(binary_pow(small(5), small(0))), small(1));
    assert!(is_host(&binary_pow(small(2), small(-1))));
    assert!(is_host(&binary_pow(small(2), small(60))));
}

#[test]
fn bitwise_ops() {
    assert_eq!(val(bitwise_and(small(12), small(10))), small(8));
    assert_eq!(val(bitwise_or(small(12), small(10))), small(14));
    assert_eq!(val(bitwise_xor(small(12), small(10))), small(6));
    assert_eq!(val(bitwise_lshift(small(3), small(4))), small(48));
    assert_eq!(val(bitwise_rshift(small(-16), small(2))), small(-4));
    assert_eq!(val(bitwise_not(small(5))), small(-6));
    assert!(is_host(&bitwise_lshift(small(1), small(50))));
    match bitwise_lshift(small(1), small(-1)) {
        Native::Error(VMError::TypeError(_)) => {}
        other => panic!("{:?}", other),
    }
}

#[test]
fn comparisons_and_negation() {
    assert_eq!(val(compare_lt(small(1), small(2))), Value::Bool(true));
    assert_eq!(val(compare_le(small(2), small(2))), Value::Bool(true));
    assert_eq!(val(compare_gt(small(1), small(2))), Value::Bool(false));
    assert_eq!(val(compare_ge(small(1), small(2))), Value::Bool(false));
    assert_eq!(val(unary_neg(small(5))), small(-5));
    assert!(is_host(&unary_neg(small(SMALLINT_MIN))));
    assert!(is_host(&compare_lt(Value::Obj(1), small(2))));
}

#[test]
fn equality_without_host() {
    assert_eq!(eq_without_python(small(1), Value::Bool(true)), Some(true));
    assert_eq!(eq_without_python(Value::Nil, Value::Nil), Some(true));
    assert_eq!(eq_without_python(Value::Nil, small(0)), Some(false));
    assert_eq!(eq_without_python(Value::Obj(3), small(0)), None);
    assert_eq!(eq_without_python(small(4), small(7)), eq_without_python(small(7), small(4)));
}

#[test]
fn decimal_text() {
    assert_eq!(i64_to_decimal(0), "0");
    assert_eq!(i64_to_decimal(-305), "-305");
    assert_eq!(i64_to_decimal(i64::MIN), "-9223372036854775808");
    assert_eq!(u64_to_decimal(u64::MAX), "18446744073709551615");
    assert_eq!(concat3("a", ".", "b"), "a.b");
    assert!(str_has_prefix("Color.Red", "Color."));
    assert!(!str_has_prefix("Col", "Color"));
}

#[test]
fn enum_variants_get_distinct_qualified_symbols() {
    let mut symbols = SymbolTable::new();
    let mut reg = EnumRegistry::new();
    let id = reg.register("Color", &["Red".to_string(), "Green".to_string()], &mut symbols);
    let ty = reg.get_type(id).unwrap();
    let red = ty.variant_symbol("Red").unwrap();
    let green = ty.variant_symbol("Green").unwrap();
    assert_ne!(red, green);
    assert_eq!(symbols.resolve(red), Some("Color.Red"));
    assert_eq!(reg.format_symbol(green, &symbols), Some("Color.Green".to_string()));
    assert_eq!(reg.lookup_symbol(red), Some((id, 0)));
    assert_eq!(reg.lookup_symbol(green), Some((id, 1)));
    assert_eq!(qualified_name("Color", "Blue"), "Color.Blue");
    assert_eq!(symbols.intern("Color.Red"), red);
    let plain = symbols.intern("x");
    assert_eq!(reg.format_symbol(plain, &symbols), None);
}

#[test]
fn scope_write_then_read() {
    let mut arena = ScopeArena::new();
    let mut captured = IndexMap::new();
    captured.insert("x".to_string(), Value::Int(1));
    let outer = NativeClosureScope::new(&mut arena, captured, ClosureParent::NoParent);
    let inner = NativeClosureScope::new(&mut arena, IndexMap::new(), ClosureParent::Native(outer));
    assert_eq!(inner.resolve(&arena, "x"), Some(Value::Int(1)));
    assert_eq!(inner.resolve(&arena, "y"), None);
    inner.insert_captured(&mut arena, "y", Value::Int(5));
    assert_eq!(inner.resolve(&arena, "y"), Some(Value::Int(5)));
    assert_eq!(outer.resolve(&arena, "y"), None);
}

#[test]
fn wildcard_capture_and_literal_patterns() {
    let reg = StructRegistry::new();
    let symbols = SymbolTable::new();
    let mut heap = TupleHeap::new();
    let scope: Vec<String> = Vec::new();
    match vm_match_pattern(&VMPattern::Wildcard, small(9), &reg, &mut heap, &symbols, &scope, &MatchFacts::new()) {
        MatchOutcome::Bound(b) => assert!(b.is_empty()),
        other => panic!("{:?}", other),
    }
    match vm_match_pattern(&VMPattern::Var(2), small(9), &reg, &mut heap, &symbols, &scope, &MatchFacts::new()) {
        MatchOutcome::Bound(b) => assert_eq!(b, vec![(2, small(9))]),
        other => panic!("{:?}", other),
    }
    match vm_match_pattern(&VMPattern::Literal(small(3)), small(4), &reg, &mut heap, &symbols, &scope, &MatchFacts::new()) {
        MatchOutcome::NoMatch => {}
        other => panic!("{:?}", other),
    }
    let alt = VMPattern::Or(vec![VMPattern::Literal(small(3)), VMPattern::Literal(small(4))]);
    match vm_match_pattern(&alt, small(4), &reg, &mut heap, &symbols, &scope, &MatchFacts::new()) {
        MatchOutcome::Bound(b) => assert!(b.is_empty()),
        other => panic!("{:?}", other),
    }
}

#[test]
fn assignment_pattern_unpacks_tuple_with_star() {
    let mut heap = TupleHeap::new();
    let t = heap.store(vec![small(1), small(2), small(3), small(4)]);
    let pat = VMPattern::Tuple(vec![
        VMPatternElement::Pattern(VMPattern::Var(0)),
        VMPatternElement::Star(1),
        VMPatternElement::Pattern(VMPattern::Var(2)),
    ]);
    match vm_match_assign_pattern(&pat, t, &mut heap, &MatchFacts::new()) {
        MatchOutcome::Bound(b) => {
            assert_eq!(b.len(), 3);
            assert!(b.contains(&(0, small(1))));
            assert!(b.contains(&(2, small(4))));
            let star: Vec<&(usize, Value)> = b.iter().filter(|(slot, _)| *slot == 1).collect();
            assert_eq!(star.len(), 1);
            match star[0].1 {
                Value::Tuple(m) => assert_eq!(heap.items(m), &vec![small(2), small(3)]),
                other => panic!("{:?}", other),
            }
        }
        other => panic!("{:?}", other),
    }
}

#[test]
fn exception_info_matches_its_mro() {
    let info = ExceptionInfo::from_kind(ExceptionKind::ZeroDivisionError, "boom".to_string());
    assert_eq!(info.exc_type, "ZeroDivisionError");
    assert!(info.matches("ZeroDivisionError"));
    assert!(info.matches("ArithmeticError"));
    assert!(info.matches("Exception"));
    assert!(!info.matches("KeyError"));
    let e = VMError::ZeroDivisionError("boom".to_string());
    let back = e.exception_info().unwrap();
    assert_eq!(back.exc_type, "ZeroDivisionError");
    assert_eq!(back.message, "boom");
    assert!(e.is_catchable());
    assert!(!VMError::Break.is_catchable());
}

// A sum, difference or product past the small-int range is a big integer,
// which the host builds: the native operation hands it over.

#[test]
fn test_add_smallint_overflow_to_bigint() {
    assert!(is_host(&binary_add(small(SMALLINT_MAX), small(1))), "SMAX + 1 must promote to BigInt");
}

#[test]
fn test_add_i64_overflow_to_bigint() {
    assert!(is_host(&binary_add(small(SMALLINT_MAX), small(SMALLINT_MAX))), "SMAX + SMAX must promote to BigInt");
}

#[test]
fn test_sub_smallint_overflow_to_bigint() {
    assert!(is_host(&binary_sub(small(SMALLINT_MIN), small(1))), "SMIN - 1 must promote to BigInt");
}

#[test]
fn test_mul_smallint_overflow_to_bigint() {
    assert!(is_host(&binary_mul(small(SMALLINT_MAX), small(2))), "SMAX * 2 must promote to BigInt");
}

#[test]
fn test_mul_i64_overflow_to_bigint() {
    assert!(is_host(&binary_mul(small(SMALLINT_MAX), small(SMALLINT_MAX))), "SMAX^2 must promote to BigInt");
}
