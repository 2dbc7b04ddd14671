//! VM values.
//!
//! A `Value` is a plain, copyable datum. Small integers, booleans, nil, symbols
//! (interned enum variants), struct-instance slots, function-table slots and
//! tuple-heap slots are held directly; everything the VM cannot compute on by
//! itself (host objects: strings, floats, big integers, lists, ...) is an
//! opaque host handle.

use vstd::prelude::*;

verus! {

/// Largest integer held inline as a small int.
pub const SMALLINT_MAX: i64 = 70368744177663;

/// Smallest integer held inline as a small int.
pub const SMALLINT_MIN: i64 = -70368744177664;

/// Whether `n` fits the inline small-int range.
pub open spec fn fits_small(n: int) -> bool {
    SMALLINT_MIN <= n <= SMALLINT_MAX
}

/// A VM value.
#[derive(Clone, Copy, Debug, PartialEq, Eq, Structural)]
pub enum Value {
    /// `None`
    Nil,
    /// `True` / `False`
    Bool(bool),
    /// A small integer, always within `SMALLINT_MIN..=SMALLINT_MAX`.
    Int(i64),
    /// An interned symbol (enum variant), by symbol id.
    Symbol(u32),
    /// A struct instance, by registry slot.
    Struct(u32),
    /// A VM function, by function-table slot.
    Func(u32),
    /// A tuple, by tuple-heap slot.
    Tuple(u32),
    /// An object held by the host, by handle. The host gives each object
    /// one handle, so equal handles are the same object (`is` compares
    /// handles).
    Obj(u64),
}

impl Value {
    /// Well-formed: a small int is within the inline range.
    pub open spec fn wf(self) -> bool {
        match self {
            Value::Int(i) => fits_small(i as int),
            _ => true,
        }
    }

    /// Python truthiness for the values the VM decides alone; `None` for host
    /// objects, whose truthiness the host decides.
    pub open spec fn spec_truthy(self) -> Option<bool> {
        match self {
            Value::Nil => Some(false),
            Value::Bool(b) => Some(b),
            Value::Int(i) => Some(i != 0),
            Value::Symbol(_) => Some(true),
            Value::Struct(_) => Some(true),
            Value::Func(_) => Some(true),
            Value::Tuple(_) => None,
            Value::Obj(_) => None,
        }
    }

    /// Numeric value of an int-like value (`bool` counts as 0/1).
    pub open spec fn spec_int(self) -> Option<int> {
        match self {
            Value::Int(i) => Some(i as int),
            Value::Bool(b) => Some(if b { 1int } else { 0int }),
            _ => None,
        }
    }

    /// Builds a small-int value.
    pub fn from_int(i: i64) -> (r: Value)
        requires
            fits_small(i as int),
        ensures
            r == Value::Int(i),
            r.wf(),
    {
        Value::Int(i)
    }

    /// Builds a small int when `n` fits the inline range.
    pub fn try_from_int(n: i64) -> (r: Option<Value>)
        ensures
            fits_small(n as int) ==> r == Some(Value::Int(n)),
            !fits_small(n as int) ==> r.is_none(),
    {
        if SMALLINT_MIN <= n && n <= SMALLINT_MAX {
            Some(Value::Int(n))
        } else {
            None
        }
    }

    /// The small int held, if any.
    pub fn as_int(&self) -> (r: Option<i64>)
        ensures
            r == (match *self {
                Value::Int(i) => Some(i),
                _ => None,
            }),
    {
        match *self {
            Value::Int(i) => Some(i),
            _ => None,
        }
    }

    /// The boolean held, if any.
    pub fn as_bool(&self) -> (r: Option<bool>)
        ensures
            r == (match *self {
                Value::Bool(b) => Some(b),
                _ => None,
            }),
    {
        match *self {
            Value::Bool(b) => Some(b),
            _ => None,
        }
    }

    /// Whether this is `None`.
    pub fn is_nil(&self) -> (r: bool)
        ensures
            r == (*self == Value::Nil),
    {
        match *self {
            Value::Nil => true,
            _ => false,
        }
    }

    /// Truthiness of values the VM decides alone (`None` for host values).
    pub fn truthy(&self) -> (r: Option<bool>)
        ensures
            r == self.spec_truthy(),
    {
        match *self {
            Value::Nil => Some(false),
            Value::Bool(b) => Some(b),
            Value::Int(i) => Some(i != 0),
            Value::Symbol(_) => Some(true),
            Value::Struct(_) => Some(true),
            Value::Func(_) => Some(true),
            Value::Tuple(_) => None,
            Value::Obj(_) => None,
        }
    }

    /// The struct-instance slot, if any.
    pub fn as_struct_instance_idx(&self) -> (r: Option<u32>)
        ensures
            r == (match *self {
                Value::Struct(i) => Some(i),
                _ => None,
            }),
    {
        match *self {
            Value::Struct(i) => Some(i),
            _ => None,
        }
    }
}

/// A value refers to a tuple slot below `bound` (or to no tuple at all).
pub open spec fn value_below(v: Value, bound: nat) -> bool {
    match v {
        Value::Tuple(t) => t < bound,
        _ => true,
    }
}

/// Every value of `s` refers to a tuple slot below `bound`.
pub open spec fn values_below(s: Seq<Value>, bound: nat) -> bool {
    forall|i: int| 0 <= i < s.len() ==> value_below(#[trigger] s[i], bound)
}

/// Immutable tuples, by slot. A tuple only holds tuples created before it, so
/// nesting is well-founded.
pub struct TupleHeap {
    tuples: Vec<Vec<Value>>,
}

impl TupleHeap {
    /// The items of each tuple, by slot.
    pub closed spec fn view(&self) -> Seq<Seq<Value>> {
        self.tuples@.map_values(|t: Vec<Value>| t@)
    }

    /// Tuples only hold well-formed values and earlier tuples.
    pub open spec fn wf(&self) -> bool {
        forall|i: int| 0 <= i < self@.len() ==> {
            &&& values_below(#[trigger] self@[i], i as nat)
            &&& forall|j: int| 0 <= j < self@[i].len() ==> (#[trigger] self@[i][j]).wf()
        }
    }

    /// An empty heap.
    pub fn new() -> (r: TupleHeap)
        ensures
            r@ == Seq::<Seq<Value>>::empty(),
            r.wf(),
    {
        let r = TupleHeap { tuples: Vec::new() };
        assert(r@ =~= Seq::<Seq<Value>>::empty());
        r
    }

    /// Number of tuples.
    pub fn len(&self) -> (r: usize)
        ensures
            r == self@.len(),
    {
        self.tuples.len()
    }

    /// Stores a new tuple holding `items` and returns it.
    pub fn store(&mut self, items: Vec<Value>) -> (r: Value)
        requires
            old(self).wf(),
            values_below(items@, old(self)@.len()),
            forall|j: int| 0 <= j < items@.len() ==> (#[trigger] items@[j]).wf(),
            old(self)@.len() < u32::MAX,
        ensures
            final(self).wf(),
            final(self)@ == old(self)@.push(items@),
            r == Value::Tuple(old(self)@.len() as u32),
    {
        let idx = self.tuples.len();
        self.tuples.push(items);
        assert(self@ =~= old(self)@.push(items@));
        Value::Tuple(idx as u32)
    }

    /// The items of tuple `t`.
    pub fn items(&self, t: u32) -> (r: &Vec<Value>)
        requires
            t < self@.len(),
        ensures
            r@ == self@[t as int],
    {
        &self.tuples[t as usize]
    }
}

} // verus!
