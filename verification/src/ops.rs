//! Operations on VM values: arithmetic, comparison, bitwise operations and
//! equality, for the operands the VM computes natively (small integers,
//! booleans, nil, symbols, slots). Every other case — an operand held by the
//! host, or a result outside the small-int range, which needs a big integer —
//! is reported as `Native::Host`: the host computes it.

use vstd::prelude::*;
use vstd::arithmetic::div_mod::{lemma_fundamental_div_mod, lemma_fundamental_div_mod_converse};
use crate::value::{Value, fits_small, SMALLINT_MAX, SMALLINT_MIN};
use crate::error::{VMError, ExceptionKind, ErrorView};

verus! {

/// The binary operators.
#[derive(Clone, Copy, Debug, PartialEq, Eq, Structural)]
pub enum BinaryOp {
    Add,
    Sub,
    Mul,
    TrueDiv,
    FloorDiv,
    Mod,
    Pow,
    Lt,
    Le,
    Gt,
    Ge,
    BOr,
    BXor,
    BAnd,
    LShift,
    RShift,
}

/// Outcome of an operation the VM attempts natively.
#[derive(Debug)]
pub enum Native {
    /// The result.
    Value(Value),
    /// The operation raises.
    Error(VMError),
    /// The host must compute it (host operand, or a big-integer result).
    Host,
}

/// Mathematical view of an outcome.
pub enum NativeView {
    Value(Value),
    Raise(ExceptionKind, Seq<char>),
    /// Another error is raised.
    Signal(ErrorView),
    Host,
}

impl Native {
    pub open spec fn view(&self) -> NativeView {
        match self {
            Native::Value(v) => NativeView::Value(*v),
            Native::Error(e) => match e.spec_builtin() {
                Some((k, m)) => NativeView::Raise(k, m),
                None => NativeView::Signal(e.view()),
            },
            Native::Host => NativeView::Host,
        }
    }
}

/// The value for an integer result: a small int when it fits, else the host
/// must build a big integer.
pub open spec fn int_result(n: int) -> NativeView {
    if fits_small(n) { NativeView::Value(Value::Int(n as i64)) } else { NativeView::Host }
}

/// Python floor division (rounds toward negative infinity), `b != 0`.
pub open spec fn py_floordiv(a: int, b: int) -> int {
    if b > 0 { a / b } else { (-a) / (-b) }
}

/// Python modulo (takes the sign of the divisor), `b != 0`.
pub open spec fn py_mod(a: int, b: int) -> int {
    a - b * py_floordiv(a, b)
}

/// `2^n`.
pub open spec fn pow2(n: nat) -> int
    decreases n,
{
    if n == 0 { 1 } else { 2 * pow2((n - 1) as nat) }
}

/// `base^e`.
pub open spec fn int_pow(base: int, e: nat) -> int
    decreases e,
{
    if e == 0 { 1 } else { base * int_pow(base, (e - 1) as nat) }
}

/// Message raised for an integer division or modulo by zero.
pub open spec fn zero_div_text() -> Seq<char> {
    "integer division or modulo by zero"@
}

/// Message raised for a true division by zero.
pub open spec fn true_div_zero_text() -> Seq<char> {
    "division by zero"@
}

/// Message raised for an unsupported shift.
pub open spec fn shift_error_text(op: BinaryOp) -> Seq<char> {
    if op == BinaryOp::LShift {
        "unsupported operand type(s) for <<"@
    } else {
        "unsupported operand type(s) for >>"@
    }
}

/// Native semantics of a binary operator on two values.
pub open spec fn spec_binary(op: BinaryOp, a: Value, b: Value) -> NativeView {
    match (a, b) {
        (Value::Int(x), Value::Int(y)) => {
            let x = x as int;
            let y = y as int;
            match op {
                BinaryOp::Add => int_result(x + y),
                BinaryOp::Sub => int_result(x - y),
                BinaryOp::Mul => int_result(x * y),
                BinaryOp::TrueDiv => if y == 0 {
                    NativeView::Raise(ExceptionKind::ZeroDivisionError, true_div_zero_text())
                } else {
                    NativeView::Host
                },
                BinaryOp::FloorDiv => if y == 0 {
                    NativeView::Raise(ExceptionKind::ZeroDivisionError, zero_div_text())
                } else {
                    int_result(py_floordiv(x, y))
                },
                BinaryOp::Mod => if y == 0 {
                    NativeView::Raise(ExceptionKind::ZeroDivisionError, zero_div_text())
                } else {
                    int_result(py_mod(x, y))
                },
                BinaryOp::Pow => if y < 0 { NativeView::Host } else { int_result(int_pow(x, y as nat)) },
                BinaryOp::Lt => NativeView::Value(Value::Bool(x < y)),
                BinaryOp::Le => NativeView::Value(Value::Bool(x <= y)),
                BinaryOp::Gt => NativeView::Value(Value::Bool(x > y)),
                BinaryOp::Ge => NativeView::Value(Value::Bool(x >= y)),
                BinaryOp::BOr => NativeView::Value(Value::Int((x as i64) | (y as i64))),
                BinaryOp::BXor => NativeView::Value(Value::Int((x as i64) ^ (y as i64))),
                BinaryOp::BAnd => NativeView::Value(Value::Int((x as i64) & (y as i64))),
                BinaryOp::LShift => if y < 0 {
                    NativeView::Raise(ExceptionKind::TypeError, shift_error_text(op))
                } else if y < 64 {
                    int_result(x * pow2(y as nat))
                } else {
                    NativeView::Host
                },
                BinaryOp::RShift => if 0 <= y < 64 {
                    NativeView::Value(Value::Int((x / pow2(y as nat)) as i64))
                } else {
                    NativeView::Raise(ExceptionKind::TypeError, shift_error_text(op))
                },
            }
        },
        _ => NativeView::Host,
    }
}

proof fn lemma_pow2_46()
    ensures
        pow2(46) == 70368744177664,
{
    reveal_with_fuel(pow2, 47);
}

proof fn lemma_pow2_bounds(n: nat)
    ensures
        pow2(n) >= 1,
        n <= 46 ==> pow2(n) <= 70368744177664,
        n >= 47 ==> pow2(n) >= 140737488355328,
    decreases n,
{
    lemma_pow2_pos(n);
    lemma_pow2_46();
    if n <= 46 {
        lemma_pow2_mono(n, 46);
    } else {
        lemma_pow2_mono(47, n);
        assert(pow2(47) == 2 * pow2(46));
    }
}

proof fn lemma_pow2_mono(a: nat, b: nat)
    requires
        a <= b,
    ensures
        pow2(a) <= pow2(b),
    decreases b,
{
    if a < b {
        lemma_pow2_mono(a, (b - 1) as nat);
        lemma_pow2_pos((b - 1) as nat);
    }
}

proof fn lemma_pow2_pos(n: nat)
    ensures
        pow2(n) >= 1,
    decreases n,
{
    if n > 0 {
        lemma_pow2_pos((n - 1) as nat);
    }
}

fn small_or_host(n: i128) -> (r: Native)
    ensures
        r.view() == int_result(n as int),
{
    if (SMALLINT_MIN as i128) <= n && n <= (SMALLINT_MAX as i128) {
        Native::Value(Value::Int(n as i64))
    } else {
        Native::Host
    }
}

/// Floor division for a positive divisor, as Euclidean division.
fn floor_div_pos(a: i64, b: i64) -> (q: i64)
    requires
        fits_small(a as int) || a as int == -SMALLINT_MIN,
        0 < b <= -SMALLINT_MIN,
    ensures
        q as int == (a as int) / (b as int),
{
    if a >= 0 {
        let q = (a as u64) / (b as u64);
        q as i64
    } else {
        let na = (-a) as u64;
        let nb = b as u64;
        let t = na + nb - 1;
        let big_q = t / nb;
        let big_r = t % nb;
        proof {
            lemma_fundamental_div_mod(t as int, nb as int);
            assert(t as int == (nb as int) * (big_q as int) + (big_r as int));
            let q = -(big_q as int);
            let r = (b as int) - 1 - (big_r as int);
            assert((a as int) == q * (b as int) + r) by (nonlinear_arith)
                requires
                    t as int == (nb as int) * (big_q as int) + (big_r as int),
                    t as int == -(a as int) + (b as int) - 1,
                    nb as int == b as int,
                    q == -(big_q as int),
                    r == (b as int) - 1 - (big_r as int),
            ;
            lemma_fundamental_div_mod_converse(a as int, b as int, q, r);
            assert(big_q as int <= t as int) by (nonlinear_arith)
                requires
                    t as int == (nb as int) * (big_q as int) + (big_r as int),
                    nb >= 1,
                    big_r >= 0,
            ;
        }
        -(big_q as i64)
    }
}

proof fn lemma_div_bounds(n: int, d: int)
    requires
        d >= 1,
    ensures
        n >= 0 ==> 0 <= n / d <= n,
        n < 0 ==> n <= n / d < 0,
{
    lemma_fundamental_div_mod(n, d);
    let q = n / d;
    let r = n % d;
    assert(n >= 0 ==> 0 <= q <= n) by (nonlinear_arith)
        requires
            n == d * q + r,
            0 <= r < d,
            d >= 1,
    ;
    assert(n < 0 ==> n <= q < 0) by (nonlinear_arith)
        requires
            n == d * q + r,
            0 <= r < d,
            d >= 1,
    ;
}

/// `a + b`.
pub fn binary_add(a: Value, b: Value) -> (r: Native)
    requires
        a.wf(),
        b.wf(),
    ensures
        r.view() == spec_binary(BinaryOp::Add, a, b),
{
    match (a, b) {
        (Value::Int(x), Value::Int(y)) => small_or_host((x as i128) + (y as i128)),
        _ => Native::Host,
    }
}

/// `a - b`.
pub fn binary_sub(a: Value, b: Value) -> (r: Native)
    requires
        a.wf(),
        b.wf(),
    ensures
        r.view() == spec_binary(BinaryOp::Sub, a, b),
{
    match (a, b) {
        (Value::Int(x), Value::Int(y)) => small_or_host((x as i128) - (y as i128)),
        _ => Native::Host,
    }
}

/// `a * b`.
pub fn binary_mul(a: Value, b: Value) -> (r: Native)
    requires
        a.wf(),
        b.wf(),
    ensures
        r.view() == spec_binary(BinaryOp::Mul, a, b),
{
    match (a, b) {
        (Value::Int(x), Value::Int(y)) => {
            let xx = x as i128;
            let yy = y as i128;
            assert(-4951760157141521099596496896 <= (xx as int) * (yy as int) <= 4951760157141521099596496896)
                by (nonlinear_arith)
                requires
                    -70368744177664 <= xx <= 70368744177663,
                    -70368744177664 <= yy <= 70368744177663,
            ;
            small_or_host(xx * yy)
        },
        _ => Native::Host,
    }
}

/// `a / b`: an integer divisor of zero raises; else true division yields a
/// float, which the host builds.
pub fn binary_div(a: Value, b: Value) -> (r: Native)
    ensures
        r.view() == spec_binary(BinaryOp::TrueDiv, a, b),
{
    match (a, b) {
        (Value::Int(_), Value::Int(y)) => {
            if y == 0 {
                Native::Error(VMError::ZeroDivisionError(String::from_str("division by zero")))
            } else {
                Native::Host
            }
        },
        _ => Native::Host,
    }
}

fn zero_division() -> (r: Native)
    ensures
        r.view() == NativeView::Raise(ExceptionKind::ZeroDivisionError, zero_div_text()),
{
    Native::Error(VMError::ZeroDivisionError(String::from_str("integer division or modulo by zero")))
}

/// `a // b` (floor division).
pub fn binary_floordiv(a: Value, b: Value) -> (r: Native)
    requires
        a.wf(),
        b.wf(),
    ensures
        r.view() == spec_binary(BinaryOp::FloorDiv, a, b),
{
    match (a, b) {
        (Value::Int(x), Value::Int(y)) => {
            if y == 0 {
                zero_division()
            } else if y > 0 {
                let q = floor_div_pos(x, y);
                small_or_host(q as i128)
            } else {
                let q = floor_div_pos(-x, -y);
                small_or_host(q as i128)
            }
        },
        _ => Native::Host,
    }
}

/// `a % b` (sign of the divisor).
pub fn binary_mod(a: Value, b: Value) -> (r: Native)
    requires
        a.wf(),
        b.wf(),
    ensures
        r.view() == spec_binary(BinaryOp::Mod, a, b),
{
    match (a, b) {
        (Value::Int(x), Value::Int(y)) => {
            if y == 0 {
                zero_division()
            } else {
                let q = if y > 0 { floor_div_pos(x, y) } else { floor_div_pos(-x, -y) };
                proof {
                    if y > 0 {
                        lemma_div_bounds(x as int, y as int);
                    } else {
                        lemma_div_bounds(-(x as int), -(y as int));
                    }
                }
                assert(-4951760157141521099596496896 <= (y as int) * (q as int) <= 4951760157141521099596496896)
                    by (nonlinear_arith)
                    requires
                        -70368744177664 <= y <= 70368744177663,
                        -70368744177664 <= q <= 70368744177664,
                ;
                let m = (x as i128) - (y as i128) * (q as i128);
                small_or_host(m)
            }
        },
        _ => Native::Host,
    }
}

/// `a ** b` for a non-negative integer exponent; a negative exponent yields
/// a float, which the host builds.
pub fn binary_pow(a: Value, b: Value) -> (r: Native)
    requires
        a.wf(),
        b.wf(),
    ensures
        r.view() == spec_binary(BinaryOp::Pow, a, b),
{
    match (a, b) {
        (Value::Int(x), Value::Int(e)) => {
            if e < 0 {
                return Native::Host;
            }
            if x == 0 || x == 1 {
                proof {
                    lemma_pow_small_base(x as int, e as nat);
                }
                return if x == 1 || e == 0 { Native::Value(Value::Int(1)) } else { Native::Value(Value::Int(0)) };
            }
            if x == -1 {
                proof {
                    lemma_pow_minus_one(e as nat);
                }
                return if e % 2 == 0 { Native::Value(Value::Int(1)) } else { Native::Value(Value::Int(-1)) };
            }
            let mut acc: i128 = 1;
            let mut i: i64 = 0;
            while i < e
                invariant
                    0 <= i <= e,
                    acc as int == int_pow(x as int, i as nat),
                    fits_small(acc as int),
                    fits_small(x as int),
                    x != 0 && x != 1 && x != -1,
                    a == Value::Int(x),
                    b == Value::Int(e),
                decreases e - i,
            {
                assert(-4951760157141521099596496896 <= (acc as int) * (x as int) <= 4951760157141521099596496896)
                    by (nonlinear_arith)
                    requires
                        -70368744177664 <= acc <= 70368744177663,
                        -70368744177664 <= x <= 70368744177663,
                ;
                let next = acc * (x as i128);
                proof {
                    assert(int_pow(x as int, (i + 1) as nat) == (x as int) * int_pow(x as int, i as nat));
                    assert((acc as int) * (x as int) == (x as int) * (acc as int)) by (nonlinear_arith);
                }
                if next < (SMALLINT_MIN as i128) || next > (SMALLINT_MAX as i128) {
                    proof {
                        assert(next as int == int_pow(x as int, (i + 1) as nat));
                        assert(!fits_small(int_pow(x as int, (i + 1) as nat)));
                        lemma_pow_escape(x as int, (i + 1) as nat, e as nat);
                        assert(!fits_small(int_pow(x as int, e as nat)));
                    }
                    return Native::Host;
                }
                acc = next;
                i = i + 1;
            }
            Native::Value(Value::Int(acc as i64))
        },
        _ => Native::Host,
    }
}

proof fn lemma_pow_small_base(x: int, e: nat)
    requires
        x == 0 || x == 1,
    ensures
        int_pow(x, e) == if x == 1 || e == 0 { 1int } else { 0int },
    decreases e,
{
    if e > 0 {
        lemma_pow_small_base(x, (e - 1) as nat);
    }
}

proof fn lemma_pow_minus_one(e: nat)
    ensures
        int_pow(-1, e) == if e % 2 == 0 { 1int } else { -1int },
    decreases e,
{
    if e > 0 {
        lemma_pow_minus_one((e - 1) as nat);
    }
}

/// Once `|x^k|` leaves the small range (with `|x| >= 2`), every larger
/// power stays outside it.
proof fn lemma_pow_escape(x: int, k: nat, e: nat)
    requires
        k <= e,
        x <= -2 || x >= 2,
        !fits_small(int_pow(x, k)),
    ensures
        !fits_small(int_pow(x, e)),
    decreases e - k,
{
    if k < e {
        let p = int_pow(x, k);
        assert(int_pow(x, (k + 1) as nat) == x * p);
        assert(x * p > 70368744177663 || x * p < -70368744177664) by (nonlinear_arith)
            requires
                x <= -2 || x >= 2,
                p > 70368744177663 || p < -70368744177664,
        ;
        lemma_pow_escape(x, (k + 1) as nat, e);
    }
}

/// Integer comparison of two small ints; other operands go to the host.
pub fn compare(op: BinaryOp, a: Value, b: Value) -> (r: Native)
    requires
        op == BinaryOp::Lt || op == BinaryOp::Le || op == BinaryOp::Gt || op == BinaryOp::Ge,
    ensures
        r.view() == spec_binary(op, a, b),
{
    match (a, b) {
        (Value::Int(x), Value::Int(y)) => {
            let res = match op {
                BinaryOp::Lt => x < y,
                BinaryOp::Le => x <= y,
                BinaryOp::Gt => x > y,
                _ => x >= y,
            };
            Native::Value(Value::Bool(res))
        },
        _ => Native::Host,
    }
}

/// `a < b`.
pub fn compare_lt(a: Value, b: Value) -> (r: Native)
    ensures
        r.view() == spec_binary(BinaryOp::Lt, a, b),
{
    compare(BinaryOp::Lt, a, b)
}

/// `a <= b`.
pub fn compare_le(a: Value, b: Value) -> (r: Native)
    ensures
        r.view() == spec_binary(BinaryOp::Le, a, b),
{
    compare(BinaryOp::Le, a, b)
}

/// `a > b`.
pub fn compare_gt(a: Value, b: Value) -> (r: Native)
    ensures
        r.view() == spec_binary(BinaryOp::Gt, a, b),
{
    compare(BinaryOp::Gt, a, b)
}

/// `a >= b`.
pub fn compare_ge(a: Value, b: Value) -> (r: Native)
    ensures
        r.view() == spec_binary(BinaryOp::Ge, a, b),
{
    compare(BinaryOp::Ge, a, b)
}

/// Small ints stay small under `|`, `^`, `&`.
proof fn lemma_bitwise_small(x: i64, y: i64)
    requires
        fits_small(x as int),
        fits_small(y as int),
    ensures
        fits_small((x | y) as int),
        fits_small((x ^ y) as int),
        fits_small((x & y) as int),
        fits_small((!x) as int),
{
    assert(-70368744177664i64 <= x <= 70368744177663i64 && -70368744177664i64 <= y <= 70368744177663i64 ==> {
        &&& -70368744177664i64 <= (x | y) <= 70368744177663i64
        &&& -70368744177664i64 <= (x ^ y) <= 70368744177663i64
        &&& -70368744177664i64 <= (x & y) <= 70368744177663i64
        &&& -70368744177664i64 <= !x <= 70368744177663i64
    }) by (bit_vector);
}

/// `a | b`.
pub fn bitwise_or(a: Value, b: Value) -> (r: Native)
    requires
        a.wf(),
        b.wf(),
    ensures
        r.view() == spec_binary(BinaryOp::BOr, a, b),
        r matches Native::Value(v) ==> v.wf(),
{
    match (a, b) {
        (Value::Int(x), Value::Int(y)) => {
            proof { lemma_bitwise_small(x, y); }
            Native::Value(Value::Int(x | y))
        },
        _ => Native::Host,
    }
}

/// `a ^ b`.
pub fn bitwise_xor(a: Value, b: Value) -> (r: Native)
    requires
        a.wf(),
        b.wf(),
    ensures
        r.view() == spec_binary(BinaryOp::BXor, a, b),
        r matches Native::Value(v) ==> v.wf(),
{
    match (a, b) {
        (Value::Int(x), Value::Int(y)) => {
            proof { lemma_bitwise_small(x, y); }
            Native::Value(Value::Int(x ^ y))
        },
        _ => Native::Host,
    }
}

/// `a & b`.
pub fn bitwise_and(a: Value, b: Value) -> (r: Native)
    requires
        a.wf(),
        b.wf(),
    ensures
        r.view() == spec_binary(BinaryOp::BAnd, a, b),
        r matches Native::Value(v) ==> v.wf(),
{
    match (a, b) {
        (Value::Int(x), Value::Int(y)) => {
            proof { lemma_bitwise_small(x, y); }
            Native::Value(Value::Int(x & y))
        },
        _ => Native::Host,
    }
}

/// `a << b`: a small result stays small, a larger one needs a big integer; a
/// negative count is a `TypeError`.
pub fn bitwise_lshift(a: Value, b: Value) -> (r: Native)
    requires
        a.wf(),
        b.wf(),
    ensures
        r.view() == spec_binary(BinaryOp::LShift, a, b),
{
    match (a, b) {
        (Value::Int(x), Value::Int(y)) => {
            if y < 0 {
                return Native::Error(VMError::TypeError(String::from_str("unsupported operand type(s) for <<")));
            }
            if y >= 64 {
                return Native::Host;
            }
            let mut acc: i128 = x as i128;
            let mut i: i64 = 0;
            while i < y
                invariant
                    0 <= i <= y,
                    y < 64,
                    acc as int == (x as int) * pow2(i as nat),
                    fits_small(x as int),
                    fits_small(acc as int),
                    a == Value::Int(x),
                    b == Value::Int(y),
                decreases y - i,
            {
                let next = acc * 2;
                proof {
                    assert(pow2((i + 1) as nat) == 2 * pow2(i as nat));
                    assert((x as int) * pow2((i + 1) as nat) == 2 * ((x as int) * pow2(i as nat))) by (nonlinear_arith)
                        requires
                            pow2((i + 1) as nat) == 2 * pow2(i as nat),
                    ;
                }
                if next < (SMALLINT_MIN as i128) || next > (SMALLINT_MAX as i128) {
                    proof {
                        assert(next as int == (x as int) * pow2((i + 1) as nat));
                        assert(!fits_small((x as int) * pow2((i + 1) as nat)));
                        lemma_shift_escape(x as int, (i + 1) as nat, y as nat);
                        assert(!fits_small((x as int) * pow2(y as nat)));
                    }
                    return Native::Host;
                }
                acc = next;
                i = i + 1;
            }
            Native::Value(Value::Int(acc as i64))
        },
        _ => Native::Host,
    }
}

proof fn lemma_shift_escape(x: int, k: nat, e: nat)
    requires
        k <= e,
        !fits_small(x * pow2(k)),
    ensures
        !fits_small(x * pow2(e)),
    decreases e - k,
{
    if k < e {
        assert(pow2((k + 1) as nat) == 2 * pow2(k));
        let p = x * pow2(k);
        assert(x * pow2((k + 1) as nat) == 2 * p) by (nonlinear_arith)
            requires
                pow2((k + 1) as nat) == 2 * pow2(k),
                p == x * pow2(k),
        ;
        lemma_shift_escape(x, (k + 1) as nat, e);
    }
}

/// `a >> b` (arithmetic shift, rounding toward negative infinity); a count
/// outside `0..64` is a `TypeError`.
pub fn bitwise_rshift(a: Value, b: Value) -> (r: Native)
    requires
        a.wf(),
        b.wf(),
    ensures
        r.view() == spec_binary(BinaryOp::RShift, a, b),
        r matches Native::Value(v) ==> v.wf(),
{
    match (a, b) {
        (Value::Int(x), Value::Int(y)) => {
            if y < 0 || y >= 64 {
                return Native::Error(VMError::TypeError(String::from_str("unsupported operand type(s) for >>")));
            }
            proof {
                lemma_pow2_pos(y as nat);
            }
            let d: i64 = if y <= 46 {
                proof {
                    lemma_pow2_bounds(y as nat);
                }
                let p = pow2_exec(y);
                floor_div_pos(x, p)
            } else {
                proof {
                    lemma_pow2_bounds(y as nat);
                    assert((x as int) / pow2(y as nat) == if x >= 0 { 0int } else { -1int }) by {
                        lemma_fundamental_div_mod(x as int, pow2(y as nat));
                        if x >= 0 {
                            lemma_fundamental_div_mod_converse(x as int, pow2(y as nat), 0, x as int);
                        } else {
                            lemma_fundamental_div_mod_converse(x as int, pow2(y as nat), -1, (x as int) + pow2(y as nat));
                        }
                    }
                }
                if x >= 0 { 0 } else { -1 }
            };
            proof {
                lemma_fundamental_div_mod(x as int, pow2(y as nat));
                assert(fits_small(d as int)) by (nonlinear_arith)
                    requires
                        d as int == (x as int) / pow2(y as nat),
                        pow2(y as nat) >= 1,
                        -70368744177664 <= x <= 70368744177663,
                        x as int == pow2(y as nat) * (d as int) + (x as int) % pow2(y as nat),
                        0 <= (x as int) % pow2(y as nat) < pow2(y as nat),
                ;
            }
            Native::Value(Value::Int(d))
        },
        _ => Native::Host,
    }
}

fn pow2_exec(n: i64) -> (r: i64)
    requires
        0 <= n <= 46,
    ensures
        r as int == pow2(n as nat),
{
    let mut r: i64 = 1;
    let mut i: i64 = 0;
    while i < n
        invariant
            0 <= i <= n,
            n <= 46,
            r as int == pow2(i as nat),
        decreases n - i,
    {
        proof {
            lemma_pow2_bounds(i as nat);
            assert(pow2((i + 1) as nat) == 2 * pow2(i as nat));
        }
        r = r * 2;
        i = i + 1;
    }
    r
}

/// `-a`.
pub fn unary_neg(a: Value) -> (r: Native)
    requires
        a.wf(),
    ensures
        r.view() == match a {
            Value::Int(x) => int_result(-(x as int)),
            _ => NativeView::Host,
        },
{
    match a {
        Value::Int(x) => small_or_host(-(x as i128)),
        _ => Native::Host,
    }
}

/// `~a`.
pub fn bitwise_not(a: Value) -> (r: Native)
    requires
        a.wf(),
    ensures
        r.view() == match a {
            Value::Int(x) => NativeView::Value(Value::Int(!x)),
            _ => NativeView::Host,
        },
        r matches Native::Value(v) ==> v.wf(),
{
    match a {
        Value::Int(x) => {
            proof { lemma_bitwise_small(x, x); }
            Native::Value(Value::Int(!x))
        },
        _ => Native::Host,
    }
}

/// Equality decided without the host: identical non-host values are equal;
/// int-like values (ints and booleans) compare numerically; values of
/// different native kinds differ; host objects, distinct tuples and
/// distinct struct instances need a deeper comparison (`None`).
pub open spec fn spec_eq_native(a: Value, b: Value) -> Option<bool> {
    if a.spec_int().is_some() && b.spec_int().is_some() {
        Some(a.spec_int().unwrap() == b.spec_int().unwrap())
    } else if a is Obj || b is Obj {
        None
    } else if a == b {
        Some(true)
    } else if (a is Tuple && b is Tuple) || (a is Struct && b is Struct) {
        None
    } else {
        Some(false)
    }
}

/// Compares two values without the host, when possible.
pub fn eq_without_python(a: Value, b: Value) -> (r: Option<bool>)
    ensures
        r == spec_eq_native(a, b),
{
    match (a, b) {
        (Value::Int(x), Value::Int(y)) => Some(x == y),
        (Value::Int(x), Value::Bool(y)) => Some(x == (if y { 1 } else { 0 })),
        (Value::Bool(x), Value::Int(y)) => Some((if x { 1 } else { 0 }) == y),
        (Value::Bool(x), Value::Bool(y)) => Some(x == y),
        (Value::Obj(_), _) => None,
        (_, Value::Obj(_)) => None,
        (Value::Tuple(x), Value::Tuple(y)) => if x == y { Some(true) } else { None },
        (Value::Struct(x), Value::Struct(y)) => if x == y { Some(true) } else { None },
        _ => Some(a == b),
    }
}

} // verus!
