//! Pre-compiled match patterns and the native matcher.

use vstd::prelude::*;
use crate::value::{Value, TupleHeap, values_below};
use crate::error::VMError;
use crate::ops::{spec_eq_native, eq_without_python};
use crate::structs::StructRegistry;
use crate::enums::{SymbolTable, spec_qualified_name, qualified_name, name_index};
use crate::text::{str_equal, i64_to_decimal, concat2, concat3};

verus! {

/// A match pattern compiled for the VM.
#[derive(Debug)]
pub enum VMPattern {
    /// `_`: matches anything, binds nothing.
    Wildcard,
    /// A literal compared by equality.
    Literal(Value),
    /// A capture into a local slot.
    Var(usize),
    /// Alternatives, tried in order.
    Or(Vec<VMPattern>),
    /// A sequence pattern, with at most one star element.
    Tuple(Vec<VMPatternElement>),
    /// A struct pattern: type name, optional union variant, captured fields.
    Struct { name: String, variant: Option<String>, field_slots: Vec<(String, usize)> },
    /// An enum variant pattern.
    Enum { enum_name: String, variant_name: String },
}

/// An element of a sequence pattern.
#[derive(Debug)]
pub enum VMPatternElement {
    /// A sub-pattern matching one item.
    Pattern(VMPattern),
    /// `*name`: captures the remaining items (slot `usize::MAX` discards them).
    Star(usize),
}

/// A binding produced by a match: a value, or the items captured by a star
/// element (stored as a new tuple once the match succeeds).
#[derive(Debug)]
pub enum Binding {
    Val(Value),
    Items(Vec<Value>),
}

/// Mathematical view of a binding.
pub enum BindView {
    Val(Value),
    Items(Seq<Value>),
}

impl Binding {
    pub open spec fn view(&self) -> BindView {
        match self {
            Binding::Val(v) => BindView::Val(*v),
            Binding::Items(items) => BindView::Items(items@),
        }
    }
}

/// Mathematical view of a match outcome.
pub enum MatchView {
    /// The pattern does not match.
    NoMatch,
    /// The pattern matches, with these (slot, binding) pairs in order.
    Bound(Seq<(usize, BindView)>),
    /// The host must decide (a host object is involved).
    Host,
    /// The host must first say whether a host value equals a literal
    /// (`Some(literal)`) or which items a host value iterates to (`None`).
    Ask(Value, Option<Value>),
    /// The host must first give the struct type name of a host value.
    AskType(Value),
    /// The host must first give an attribute of a host value (or say it has
    /// none).
    AskAttr(Value, Seq<char>),
    /// The host must first say whether a host value equals a text.
    AskText(Value, Seq<char>),
    /// The host must first say whether its globals bind a name.
    AskBound(Seq<char>),
    /// The match raises (unbound enum name, failed unpacking).
    Raise(crate::error::ExceptionKind, Seq<char>),
}

/// Outcome of a match before star captures are stored.
#[derive(Debug)]
pub enum PendingMatch {
    NoMatch,
    Bound(Vec<(usize, Binding)>),
    Host,
    Ask(Value, Option<Value>),
    AskType(Value),
    AskAttr(Value, String),
    AskText(Value, String),
    AskBound(String),
    Error(VMError),
}

impl PendingMatch {
    pub open spec fn view(&self) -> MatchView {
        match self {
            PendingMatch::NoMatch => MatchView::NoMatch,
            PendingMatch::Bound(bs) => MatchView::Bound(bs@.map_values(|b: (usize, Binding)| (b.0, b.1.view()))),
            PendingMatch::Host => MatchView::Host,
            PendingMatch::Ask(o, e) => MatchView::Ask(*o, *e),
            PendingMatch::AskType(o) => MatchView::AskType(*o),
            PendingMatch::AskAttr(o, a) => MatchView::AskAttr(*o, a@),
            PendingMatch::AskText(o, t) => MatchView::AskText(*o, t@),
            PendingMatch::AskBound(n) => MatchView::AskBound(n@),
            PendingMatch::Error(e) => match e.spec_builtin() {
                Some((k, m)) => MatchView::Raise(k, m),
                None => MatchView::Host,
            },
        }
    }
}

/// What the host said of host values during a match: whether a value
/// equals a literal, and which items a value iterates to (`None`: it does not
/// iterate).
pub struct FactsView {
    pub eqs: Seq<(Value, Value, bool)>,
    pub items: Seq<(Value, Option<Seq<Value>>)>,
    pub names: Seq<(Value, Seq<char>)>,
    pub types: Seq<(Value, Seq<char>)>,
    pub attrs: Seq<(Value, Seq<char>, Option<Value>)>,
    pub texts: Seq<(Value, Seq<char>, bool)>,
    pub bound: Seq<(Seq<char>, bool)>,
}

/// The host's answers recorded during a match.
#[derive(Debug)]
pub struct MatchFacts {
    pub eqs: Vec<(Value, Value, bool)>,
    pub items: Vec<(Value, Option<Vec<Value>>)>,
    /// The type names of values that do not iterate.
    pub names: Vec<(Value, String)>,
    /// The struct type names of values.
    pub types: Vec<(Value, String)>,
    /// The attributes of values (`None`: the value has no such attribute).
    pub attrs: Vec<(Value, String, Option<Value>)>,
    /// Whether values equal texts.
    pub texts: Vec<(Value, String, bool)>,
    /// Whether the host's globals bind names.
    pub bound: Vec<(String, bool)>,
}

/// The first recorded answer, from position `i` on, on whether `v` equals `e`.
pub open spec fn fact_eq_at(eqs: Seq<(Value, Value, bool)>, v: Value, e: Value, i: int) -> Option<bool>
    decreases eqs.len() - i,
{
    if i < 0 || i >= eqs.len() {
        None
    } else if eqs[i].0 == v && eqs[i].1 == e {
        Some(eqs[i].2)
    } else {
        fact_eq_at(eqs, v, e, i + 1)
    }
}

/// The first recorded type name, from position `i` on, of `v` (empty when
/// none is recorded).
pub open spec fn fact_name_at(names: Seq<(Value, Seq<char>)>, v: Value, i: int) -> Seq<char>
    decreases names.len() - i,
{
    if i < 0 || i >= names.len() {
        Seq::empty()
    } else if names[i].0 == v {
        names[i].1
    } else {
        fact_name_at(names, v, i + 1)
    }
}

/// The first recorded struct type name, from position `i` on, of `v`.
pub open spec fn fact_type_at(types: Seq<(Value, Seq<char>)>, v: Value, i: int) -> Option<Seq<char>>
    decreases types.len() - i,
{
    if i < 0 || i >= types.len() {
        None
    } else if types[i].0 == v {
        Some(types[i].1)
    } else {
        fact_type_at(types, v, i + 1)
    }
}

/// The first recorded answer, from position `i` on, on attribute `a` of `v`.
pub open spec fn fact_attr_at(attrs: Seq<(Value, Seq<char>, Option<Value>)>, v: Value, a: Seq<char>, i: int) -> Option<Option<Value>>
    decreases attrs.len() - i,
{
    if i < 0 || i >= attrs.len() {
        None
    } else if attrs[i].0 == v && attrs[i].1 == a {
        Some(attrs[i].2)
    } else {
        fact_attr_at(attrs, v, a, i + 1)
    }
}

/// The first recorded answer, from position `i` on, on whether `v` equals
/// text `t`.
pub open spec fn fact_text_at(texts: Seq<(Value, Seq<char>, bool)>, v: Value, t: Seq<char>, i: int) -> Option<bool>
    decreases texts.len() - i,
{
    if i < 0 || i >= texts.len() {
        None
    } else if texts[i].0 == v && texts[i].1 == t {
        Some(texts[i].2)
    } else {
        fact_text_at(texts, v, t, i + 1)
    }
}

/// The first recorded answer, from position `i` on, on whether the host's
/// globals bind `name`.
pub open spec fn fact_bound_at(bound: Seq<(Seq<char>, bool)>, name: Seq<char>, i: int) -> Option<bool>
    decreases bound.len() - i,
{
    if i < 0 || i >= bound.len() {
        None
    } else if bound[i].0 == name {
        Some(bound[i].1)
    } else {
        fact_bound_at(bound, name, i + 1)
    }
}

/// The first recorded answer, from position `i` on, on the items of `v`.
pub open spec fn fact_items_at(items: Seq<(Value, Option<Seq<Value>>)>, v: Value, i: int) -> Option<Option<Seq<Value>>>
    decreases items.len() - i,
{
    if i < 0 || i >= items.len() {
        None
    } else if items[i].0 == v {
        Some(items[i].1)
    } else {
        fact_items_at(items, v, i + 1)
    }
}

impl MatchFacts {
    pub open spec fn view(&self) -> FactsView {
        FactsView {
            eqs: self.eqs@,
            items: self.items@.map_values(|p: (Value, Option<Vec<Value>>)| (p.0, match p.1 {
                Some(xs) => Some(xs@),
                None => None,
            })),
            names: self.names@.map_values(|p: (Value, String)| (p.0, p.1@)),
            types: self.types@.map_values(|p: (Value, String)| (p.0, p.1@)),
            attrs: self.attrs@.map_values(|p: (Value, String, Option<Value>)| (p.0, p.1@, p.2)),
            texts: self.texts@.map_values(|p: (Value, String, bool)| (p.0, p.1@, p.2)),
            bound: self.bound@.map_values(|p: (String, bool)| (p.0@, p.1)),
        }
    }

    /// No answers yet.
    pub fn new() -> (r: MatchFacts)
        ensures
            r@.eqs.len() == 0,
            r@.items.len() == 0,
            r@.names.len() == 0,
            r@.types.len() == 0,
            r@.attrs.len() == 0,
            r@.texts.len() == 0,
            r@.bound.len() == 0,
    {
        MatchFacts {
            eqs: Vec::new(),
            items: Vec::new(),
            names: Vec::new(),
            types: Vec::new(),
            attrs: Vec::new(),
            texts: Vec::new(),
            bound: Vec::new(),
        }
    }

    /// The recorded answer on whether the host's globals bind `name`.
    pub fn bound_of(&self, name: &str) -> (r: Option<bool>)
        ensures
            r == fact_bound_at(self@.bound, name@, 0),
    {
        let mut i: usize = 0;
        while i < self.bound.len()
            invariant
                i <= self.bound@.len(),
                fact_bound_at(self@.bound, name@, 0) == fact_bound_at(self@.bound, name@, i as int),
            decreases self.bound@.len() - i,
        {
            if str_equal(self.bound[i].0.as_str(), name) {
                return Some(self.bound[i].1);
            }
            i = i + 1;
        }
        None
    }

    /// The recorded answer on whether `v` equals text `t`.
    pub fn text_of(&self, v: Value, t: &str) -> (r: Option<bool>)
        ensures
            r == fact_text_at(self@.texts, v, t@, 0),
    {
        let mut i: usize = 0;
        while i < self.texts.len()
            invariant
                i <= self.texts@.len(),
                fact_text_at(self@.texts, v, t@, 0) == fact_text_at(self@.texts, v, t@, i as int),
            decreases self.texts@.len() - i,
        {
            if self.texts[i].0 == v && str_equal(self.texts[i].1.as_str(), t) {
                return Some(self.texts[i].2);
            }
            i = i + 1;
        }
        None
    }

    /// The recorded struct type name of `v`.
    pub fn type_of(&self, v: Value) -> (r: Option<String>)
        ensures
            r matches Some(n) ==> fact_type_at(self@.types, v, 0) == Some(n@),
            r is None ==> fact_type_at(self@.types, v, 0) is None,
    {
        let mut i: usize = 0;
        while i < self.types.len()
            invariant
                i <= self.types@.len(),
                fact_type_at(self@.types, v, 0) == fact_type_at(self@.types, v, i as int),
            decreases self.types@.len() - i,
        {
            if self.types[i].0 == v {
                return Some(self.types[i].1.clone());
            }
            i = i + 1;
        }
        None
    }

    /// The recorded answer on attribute `a` of `v`.
    pub fn attr_of(&self, v: Value, a: &str) -> (r: Option<Option<Value>>)
        ensures
            r == fact_attr_at(self@.attrs, v, a@, 0),
    {
        let mut i: usize = 0;
        while i < self.attrs.len()
            invariant
                i <= self.attrs@.len(),
                fact_attr_at(self@.attrs, v, a@, 0) == fact_attr_at(self@.attrs, v, a@, i as int),
            decreases self.attrs@.len() - i,
        {
            if self.attrs[i].0 == v && str_equal(self.attrs[i].1.as_str(), a) {
                return Some(self.attrs[i].2);
            }
            i = i + 1;
        }
        None
    }

    /// The recorded type name of `v`.
    pub fn name_of(&self, v: Value) -> (r: String)
        ensures
            r@ == fact_name_at(self@.names, v, 0),
    {
        let mut i: usize = 0;
        while i < self.names.len()
            invariant
                i <= self.names@.len(),
                fact_name_at(self@.names, v, 0) == fact_name_at(self@.names, v, i as int),
            decreases self.names@.len() - i,
        {
            if self.names[i].0 == v {
                return self.names[i].1.clone();
            }
            i = i + 1;
        }
        String::new()
    }

    /// The recorded answer on whether `v` equals `e`.
    pub fn eq_of(&self, v: Value, e: Value) -> (r: Option<bool>)
        ensures
            r == fact_eq_at(self@.eqs, v, e, 0),
    {
        let mut i: usize = 0;
        while i < self.eqs.len()
            invariant
                i <= self.eqs@.len(),
                fact_eq_at(self@.eqs, v, e, 0) == fact_eq_at(self@.eqs, v, e, i as int),
            decreases self.eqs@.len() - i,
        {
            if self.eqs[i].0 == v && self.eqs[i].1 == e {
                return Some(self.eqs[i].2);
            }
            i = i + 1;
        }
        None
    }

    /// The recorded answer on the items of `v`.
    pub fn items_of(&self, v: Value) -> (r: Option<Option<&Vec<Value>>>)
        ensures
            match r {
                None => fact_items_at(self@.items, v, 0) is None,
                Some(None) => fact_items_at(self@.items, v, 0) == Some(None::<Seq<Value>>),
                Some(Some(xs)) => fact_items_at(self@.items, v, 0) == Some(Some(xs@)),
            },
    {
        let mut i: usize = 0;
        while i < self.items.len()
            invariant
                i <= self.items@.len(),
                fact_items_at(self@.items, v, 0) == fact_items_at(self@.items, v, i as int),
            decreases self.items@.len() - i,
        {
            if self.items[i].0 == v {
                return match &self.items[i].1 {
                    Some(xs) => Some(Some(xs)),
                    None => Some(None),
                };
            }
            i = i + 1;
        }
        None
    }
}

/// The items a sequence pattern iterates over: a tuple's items; `None` when
/// the value is not a native sequence.
pub open spec fn spec_items(v: Value, heap: Seq<Seq<Value>>) -> Option<Seq<Value>> {
    match v {
        Value::Tuple(t) => if (t as int) < heap.len() { Some(heap[t as int]) } else { None },
        _ => None,
    }
}

/// Number of star elements.
pub open spec fn star_count(elems: Seq<VMPatternElement>) -> nat
    decreases elems.len(),
{
    if elems.len() == 0 {
        0
    } else {
        star_count(elems.drop_last()) + if elems.last() is Star { 1nat } else { 0nat }
    }
}

/// Position of the first star element, or -1.
pub open spec fn star_pos(elems: Seq<VMPatternElement>) -> int
    decreases elems.len(),
{
    if elems.len() == 0 {
        -1
    } else if star_pos(elems.drop_last()) >= 0 {
        star_pos(elems.drop_last())
    } else if elems.last() is Star {
        elems.len() - 1
    } else {
        -1
    }
}

/// Concatenates the outcome of a first part with that of the rest: a
/// non-match or a stop in the first part is final.
pub open spec fn then_match(first: MatchView, rest: MatchView) -> MatchView {
    match first {
        MatchView::Bound(b1) => match rest {
            MatchView::Bound(b2) => MatchView::Bound(b1 + b2),
            other => other,
        },
        other => other,
    }
}

/// Matches the pattern elements `lo..hi` against `items[k + offset]`, in
/// order; star elements bind nothing here.
pub open spec fn spec_match_elems(
    elems: Seq<VMPatternElement>,
    lo: int,
    hi: int,
    items: Seq<Value>,
    offset: int,
    heap: Seq<Seq<Value>>,
    reg: StructRegistry,
    symbols: Seq<Seq<char>>,
    scope: Seq<Seq<char>>,
    facts: FactsView,
) -> MatchView
    decreases elems, hi - lo,
{
    if lo >= hi || lo < 0 || hi > elems.len() {
        MatchView::Bound(Seq::empty())
    } else {
        let first = match elems[lo] {
            VMPatternElement::Pattern(sub) => if 0 <= lo + offset < items.len() {
                spec_match(sub, items[lo + offset], heap, reg, symbols, scope, facts)
            } else {
                MatchView::NoMatch
            },
            VMPatternElement::Star(_) => MatchView::Bound(Seq::empty()),
        };
        then_match(first, spec_match_elems(elems, lo + 1, hi, items, offset, heap, reg, symbols, scope, facts))
    }
}

/// Tries the alternatives `k..` in order: the first that does not fail to
/// match decides.
pub open spec fn spec_match_or(
    alts: Seq<VMPattern>,
    k: int,
    v: Value,
    heap: Seq<Seq<Value>>,
    reg: StructRegistry,
    symbols: Seq<Seq<char>>,
    scope: Seq<Seq<char>>,
    facts: FactsView,
) -> MatchView
    decreases alts, alts.len() - k,
{
    if k < 0 || k >= alts.len() {
        MatchView::NoMatch
    } else {
        match spec_match(alts[k], v, heap, reg, symbols, scope, facts) {
            MatchView::NoMatch => spec_match_or(alts, k + 1, v, heap, reg, symbols, scope, facts),
            other => other,
        }
    }
}

/// Struct fields captured in order; an unknown field fails the match.
pub open spec fn spec_match_fields(
    field_slots: Seq<(Seq<char>, usize)>,
    names: Seq<Seq<char>>,
    values: Seq<Value>,
) -> MatchView
    decreases field_slots.len(),
{
    if field_slots.len() == 0 {
        MatchView::Bound(Seq::empty())
    } else {
        let (fname, slot) = field_slots[0];
        let i = crate::structs::field_index_from(names, fname, 0);
        if i < 0 || i >= values.len() {
            MatchView::NoMatch
        } else {
            then_match(
                MatchView::Bound(seq![(slot, BindView::Val(values[i]))]),
                spec_match_fields(field_slots.drop_first(), names, values),
            )
        }
    }
}

/// The fields `field_slots` of host value `v`, captured in order from the
/// host's answers: a missing attribute fails the match.
pub open spec fn spec_match_attrs(field_slots: Seq<(Seq<char>, usize)>, v: Value, facts: FactsView) -> MatchView
    decreases field_slots.len(),
{
    if field_slots.len() == 0 {
        MatchView::Bound(Seq::empty())
    } else {
        let (fname, slot) = field_slots[0];
        match fact_attr_at(facts.attrs, v, fname, 0) {
            None => MatchView::AskAttr(v, fname),
            Some(None) => MatchView::NoMatch,
            Some(Some(x)) => then_match(
                MatchView::Bound(seq![(slot, BindView::Val(x))]),
                spec_match_attrs(field_slots.drop_first(), v, facts),
            ),
        }
    }
}

/// Matching of a pattern against a value. `heap` gives tuple items,
/// `symbols` the interned symbol names, `scope` the enum names bound in scope.
pub open spec fn spec_match(
    p: VMPattern,
    v: Value,
    heap: Seq<Seq<Value>>,
    reg: StructRegistry,
    symbols: Seq<Seq<char>>,
    scope: Seq<Seq<char>>,
    facts: FactsView,
) -> MatchView
    decreases p, 0int,
{
    match p {
        VMPattern::Wildcard => MatchView::Bound(Seq::empty()),
        VMPattern::Var(slot) => MatchView::Bound(seq![(slot, BindView::Val(v))]),
        VMPattern::Literal(e) => match spec_eq_native(v, e) {
            Some(b) => if b { MatchView::Bound(Seq::empty()) } else { MatchView::NoMatch },
            None => if v == e {
                MatchView::Bound(Seq::empty())
            } else {
                match fact_eq_at(facts.eqs, v, e, 0) {
                    Some(b) => if b { MatchView::Bound(Seq::empty()) } else { MatchView::NoMatch },
                    None => MatchView::Ask(v, Some(e)),
                }
            },
        },
        VMPattern::Or(alts) => spec_match_or(alts@, 0, v, heap, reg, symbols, scope, facts),
        VMPattern::Tuple(elems) => {
            let got = if v is Obj { fact_items_at(facts.items, v, 0) } else { Some(spec_items(v, heap)) };
            match got {
                None => MatchView::Ask(v, None),
                Some(found) => match found {
                    None => MatchView::NoMatch,
                    Some(items) => {
                        let es = elems@;
                        let stars = star_count(es);
                        let non_star = es.len() - stars;
                        if stars > 1 {
                            MatchView::NoMatch
                        } else if stars == 0 {
                            if items.len() != non_star {
                                MatchView::NoMatch
                            } else {
                                spec_match_elems(es, 0, es.len() as int, items, 0, heap, reg, symbols, scope, facts)
                            }
                        } else {
                            let sp = star_pos(es);
                            let n_after = es.len() - sp - 1;
                            let after_start = items.len() - n_after;
                            if items.len() < non_star {
                                MatchView::NoMatch
                            } else {
                                let before = spec_match_elems(es, 0, sp, items, 0, heap, reg, symbols, scope, facts);
                                let after = spec_match_elems(
                                    es,
                                    sp + 1,
                                    es.len() as int,
                                    items,
                                    after_start - (sp + 1),
                                    heap,
                                    reg,
                                    symbols,
                                    scope,
                                    facts,
                                );
                                let star = match es[sp] {
                                    VMPatternElement::Star(slot) => if slot != usize::MAX {
                                        MatchView::Bound(seq![(slot, BindView::Items(items.subrange(sp, after_start)))])
                                    } else {
                                        MatchView::Bound(Seq::empty())
                                    },
                                    _ => MatchView::Bound(Seq::empty()),
                                };
                                then_match(before, then_match(after, star))
                            }
                        }
                    },
                }
            }
        },
        VMPattern::Struct { name, variant, field_slots } => {
            let expected = match variant {
                Some(vn) => spec_qualified_name(name@, vn@),
                None => name@,
            };
            match v {
                Value::Struct(idx) => if (idx as int) < reg.num_instances()
                    && (reg.instance_type(idx as int) as int) < reg.num_types() {
                    let t = reg.instance_type(idx as int) as int;
                    if reg.name_of_type(t) != expected {
                        MatchView::NoMatch
                    } else {
                        spec_match_fields(
                            field_slots@.map_values(|f: (String, usize)| (f.0@, f.1)),
                            reg.type_fields(t),
                            reg.instance_fields(idx as int),
                        )
                    }
                } else {
                    MatchView::NoMatch
                },
                Value::Obj(_) => match fact_type_at(facts.types, v, 0) {
                    None => MatchView::AskType(v),
                    Some(tn) => if tn != expected {
                        MatchView::NoMatch
                    } else {
                        spec_match_attrs(field_slots@.map_values(|f: (String, usize)| (f.0@, f.1)), v, facts)
                    },
                },
                _ => MatchView::NoMatch,
            }
        },
        VMPattern::Enum { enum_name, variant_name } => {
            let known = if scope.contains(enum_name@) { Some(true) } else { fact_bound_at(facts.bound, enum_name@, 0) };
            if known is None {
                MatchView::AskBound(enum_name@)
            } else if known == Some(false) {
                MatchView::Raise(crate::error::ExceptionKind::NameError, enum_name@)
            } else {
                let q = spec_qualified_name(enum_name@, variant_name@);
                let i = name_index(symbols, q);
                if i >= 0 {
                    if v == Value::Symbol(i as u32) { MatchView::Bound(Seq::empty()) } else { MatchView::NoMatch }
                } else if v is Obj {
                    match fact_text_at(facts.texts, v, q, 0) {
                        None => MatchView::AskText(v, q),
                        Some(b) => if b { MatchView::Bound(Seq::empty()) } else { MatchView::NoMatch },
                    }
                } else {
                    MatchView::NoMatch
                }
            }
        },
    }
}

/// The enum names in scope, as sequences.
pub open spec fn scope_view(scope: &[String]) -> Seq<Seq<char>> {
    scope@.map_values(|s: String| s@)
}

fn names_contain(names: &[String], name: &str) -> (r: bool)
    ensures
        r == scope_view(names).contains(name@),
{
    let mut i: usize = 0;
    while i < names.len()
        invariant
            i <= names@.len(),
            forall|j: int| 0 <= j < i ==> names@[j]@ != name@,
        decreases names@.len() - i,
    {
        if str_equal(names[i].as_str(), name) {
            assert(scope_view(names)[i as int] == name@);
            return true;
        }
        i = i + 1;
    }
    assert(!scope_view(names).contains(name@)) by {
        if scope_view(names).contains(name@) {
            let j = choose|j: int| 0 <= j < scope_view(names).len() && scope_view(names)[j] == name@;
            assert(names@[j]@ == name@);
        }
    }
    false
}

fn empty_bound() -> (r: PendingMatch)
    ensures
        r.view() == MatchView::Bound(Seq::empty()),
{
    let b: Vec<(usize, Binding)> = Vec::new();
    assert(b@.map_values(|b: (usize, Binding)| (b.0, b.1.view())) =~= Seq::<(usize, BindView)>::empty());
    PendingMatch::Bound(b)
}

proof fn lemma_star_pos(es: Seq<VMPatternElement>)
    ensures
        star_count(es) <= es.len(),
        star_count(es) > 0 ==> 0 <= star_pos(es) < es.len() && es[star_pos(es)] is Star,
        star_count(es) == 0 ==> star_pos(es) == -1,
        star_pos(es) >= -1,
    decreases es.len(),
{
    if es.len() > 0 {
        lemma_star_pos(es.drop_last());
        if star_pos(es.drop_last()) >= 0 {
            assert(es[star_pos(es)] == es.drop_last()[star_pos(es)]);
        }
    }
}

/// Concatenates outcomes as `then_match` does.
fn then_pending(first: PendingMatch, rest: PendingMatch) -> (r: PendingMatch)
    ensures
        r.view() == then_match(first.view(), rest.view()),
{
    match first {
        PendingMatch::Bound(mut b1) => match rest {
            PendingMatch::Bound(mut b2) => {
                let ghost v1 = b1@.map_values(|b: (usize, Binding)| (b.0, b.1.view()));
                let ghost v2 = b2@.map_values(|b: (usize, Binding)| (b.0, b.1.view()));
                b1.append(&mut b2);
                assert(b1@.map_values(|b: (usize, Binding)| (b.0, b.1.view())) =~= v1 + v2);
                PendingMatch::Bound(b1)
            },
            other => other,
        },
        other => other,
    }
}

fn count_stars(elems: &Vec<VMPatternElement>) -> (r: (usize, Option<usize>))
    ensures
        r.0 == star_count(elems@),
        (r.1 matches Some(p) ==> p == star_pos(elems@)) && (r.1 is None ==> star_pos(elems@) == -1),
        r.0 <= elems@.len(),
{
    let mut n: usize = 0;
    let mut pos: Option<usize> = None;
    let mut i: usize = 0;
    while i < elems.len()
        invariant
            i <= elems@.len(),
            n == star_count(elems@.subrange(0, i as int)),
            n <= i,
            (pos matches Some(p) ==> p == star_pos(elems@.subrange(0, i as int))),
            (pos is None ==> star_pos(elems@.subrange(0, i as int)) == -1),
        decreases elems@.len() - i,
    {
        let ghost pre = elems@.subrange(0, i as int);
        let ghost next = elems@.subrange(0, i + 1);
        assert(next.drop_last() =~= pre);
        assert(next.last() == elems@[i as int]);
        match &elems[i] {
            VMPatternElement::Star(_) => {
                n = n + 1;
                if pos.is_none() {
                    pos = Some(i);
                }
            },
            VMPatternElement::Pattern(_) => {},
        }
        i = i + 1;
    }
    assert(elems@.subrange(0, elems@.len() as int) =~= elems@);
    (n, pos)
}

fn copy_items(items: &Vec<Value>, lo: usize, hi: usize) -> (r: Vec<Value>)
    requires
        lo <= hi <= items@.len(),
    ensures
        r@ == items@.subrange(lo as int, hi as int),
{
    let mut out: Vec<Value> = Vec::new();
    let mut i: usize = lo;
    while i < hi
        invariant
            lo <= i <= hi,
            hi <= items@.len(),
            out@ == items@.subrange(lo as int, i as int),
        decreases hi - i,
    {
        out.push(items[i]);
        i = i + 1;
        assert(out@ =~= items@.subrange(lo as int, i as int));
    }
    out
}

fn match_elems(
    elems: &Vec<VMPatternElement>,
    lo: usize,
    hi: usize,
    items: &Vec<Value>,
    offset: i128,
    reg: &StructRegistry,
    heap: &TupleHeap,
    symbols: &SymbolTable,
    scope: &[String],
    facts: &MatchFacts,
) -> (r: PendingMatch)
    requires
        hi <= elems@.len(),
        -0x1_0000_0000_0000_0000 <= offset <= 0x1_0000_0000_0000_0000,
    ensures
        r.view() == spec_match_elems(elems@, lo as int, hi as int, items@, offset as int, heap@, *reg, symbols@, scope_view(scope), facts@),
    decreases elems@, hi - lo,
{
    if lo >= hi {
        return empty_bound();
    }
    let first = match &elems[lo] {
        VMPatternElement::Pattern(sub) => {
            let k: i128 = lo as i128 + offset;
            if 0 <= k && k < items.len() as i128 {
                match_pattern_pending(sub, items[k as usize], reg, heap, symbols, scope, facts)
            } else {
                PendingMatch::NoMatch
            }
        },
        VMPatternElement::Star(_) => empty_bound(),
    };
    match first {
        PendingMatch::Bound(_) => {
            let rest = match_elems(elems, lo + 1, hi, items, offset, reg, heap, symbols, scope, facts);
            then_pending(first, rest)
        },
        other => other,
    }
}

fn match_or(
    alts: &Vec<VMPattern>,
    k: usize,
    v: Value,
    reg: &StructRegistry,
    heap: &TupleHeap,
    symbols: &SymbolTable,
    scope: &[String],
    facts: &MatchFacts,
) -> (r: PendingMatch)
    ensures
        r.view() == spec_match_or(alts@, k as int, v, heap@, *reg, symbols@, scope_view(scope), facts@),
    decreases alts@, alts@.len() - k,
{
    if k >= alts.len() {
        return PendingMatch::NoMatch;
    }
    match match_pattern_pending(&alts[k], v, reg, heap, symbols, scope, facts) {
        PendingMatch::NoMatch => match_or(alts, k + 1, v, reg, heap, symbols, scope, facts),
        other => other,
    }
}

fn match_attrs(field_slots: &Vec<(String, usize)>, k: usize, v: Value, facts: &MatchFacts) -> (r: PendingMatch)
    requires
        k <= field_slots@.len(),
    ensures
        r.view() == spec_match_attrs(
            field_slots@.map_values(|f: (String, usize)| (f.0@, f.1)).subrange(k as int, field_slots@.len() as int),
            v,
            facts@,
        ),
    decreases field_slots@.len() - k,
{
    let ghost fs = field_slots@.map_values(|f: (String, usize)| (f.0@, f.1)).subrange(k as int, field_slots@.len() as int);
    if k >= field_slots.len() {
        assert(fs.len() == 0);
        return empty_bound();
    }
    assert(fs[0] == (field_slots@[k as int].0@, field_slots@[k as int].1));
    match facts.attr_of(v, field_slots[k].0.as_str()) {
        None => PendingMatch::AskAttr(v, field_slots[k].0.clone()),
        Some(None) => PendingMatch::NoMatch,
        Some(Some(x)) => {
            let mut b: Vec<(usize, Binding)> = Vec::new();
            b.push((field_slots[k].1, Binding::Val(x)));
            let first = PendingMatch::Bound(b);
            assert(first.view() == MatchView::Bound(seq![(field_slots@[k as int].1, BindView::Val(x))])) by {
                assert(b@.map_values(|b: (usize, Binding)| (b.0, b.1.view())) =~= seq![(field_slots@[k as int].1, BindView::Val(x))]);
            }
            let rest = match_attrs(field_slots, k + 1, v, facts);
            assert(fs.drop_first() =~= field_slots@.map_values(|f: (String, usize)| (f.0@, f.1)).subrange(k + 1, field_slots@.len() as int));
            then_pending(first, rest)
        },
    }
}

fn match_fields(
    field_slots: &Vec<(String, usize)>,
    k: usize,
    ty: &crate::structs::StructType,
    values: &Vec<Value>,
) -> (r: PendingMatch)
    requires
        k <= field_slots@.len(),
    ensures
        r.view() == spec_match_fields(
            field_slots@.map_values(|f: (String, usize)| (f.0@, f.1)).subrange(k as int, field_slots@.len() as int),
            ty.field_names(),
            values@,
        ),
    decreases field_slots@.len() - k,
{
    let ghost fs = field_slots@.map_values(|f: (String, usize)| (f.0@, f.1)).subrange(k as int, field_slots@.len() as int);
    if k >= field_slots.len() {
        assert(fs.len() == 0);
        return empty_bound();
    }
    assert(fs[0] == (field_slots@[k as int].0@, field_slots@[k as int].1));
    match ty.field_index(field_slots[k].0.as_str()) {
        Some(fi) => {
            if fi < values.len() {
                let mut b: Vec<(usize, Binding)> = Vec::new();
                b.push((field_slots[k].1, Binding::Val(values[fi])));
                let first = PendingMatch::Bound(b);
                assert(first.view() == MatchView::Bound(seq![(field_slots@[k as int].1, BindView::Val(values@[fi as int]))])) by {
                    assert(b@.map_values(|b: (usize, Binding)| (b.0, b.1.view())) =~= seq![(field_slots@[k as int].1, BindView::Val(values@[fi as int]))]);
                }
                let rest = match_fields(field_slots, k + 1, ty, values);
                assert(fs.drop_first() =~= field_slots@.map_values(|f: (String, usize)| (f.0@, f.1)).subrange(k + 1, field_slots@.len() as int));
                then_pending(first, rest)
            } else {
                PendingMatch::NoMatch
            }
        },
        None => PendingMatch::NoMatch,
    }
}

/// Matches `pattern` against `value` without storing star captures.
pub fn match_pattern_pending(
    pattern: &VMPattern,
    value: Value,
    reg: &StructRegistry,
    heap: &TupleHeap,
    symbols: &SymbolTable,
    scope: &[String],
    facts: &MatchFacts,
) -> (r: PendingMatch)
    ensures
        r.view() == spec_match(*pattern, value, heap@, *reg, symbols@, scope_view(scope), facts@),
    decreases pattern, 0int,
{
    match pattern {
        VMPattern::Wildcard => empty_bound(),
        VMPattern::Var(slot) => {
            let mut b: Vec<(usize, Binding)> = Vec::new();
            b.push((*slot, Binding::Val(value)));
            assert(b@.map_values(|b: (usize, Binding)| (b.0, b.1.view())) =~= seq![(*slot, BindView::Val(value))]);
            PendingMatch::Bound(b)
        },
        VMPattern::Literal(e) => match eq_without_python(value, *e) {
            Some(eq) => if eq { empty_bound() } else { PendingMatch::NoMatch },
            None => if value == *e {
                empty_bound()
            } else {
                match facts.eq_of(value, *e) {
                    Some(b) => if b { empty_bound() } else { PendingMatch::NoMatch },
                    None => PendingMatch::Ask(value, Some(*e)),
                }
            },
        },
        VMPattern::Or(alts) => match_or(alts, 0, value, reg, heap, symbols, scope, facts),
        VMPattern::Tuple(elems) => {
            let items: &Vec<Value> = match value {
                Value::Obj(_) => match facts.items_of(value) {
                    None => {
                        return PendingMatch::Ask(value, None);
                    },
                    Some(None) => {
                        return PendingMatch::NoMatch;
                    },
                    Some(Some(xs)) => xs,
                },
                Value::Tuple(t) => {
                    if (t as usize) >= heap.len() {
                        return PendingMatch::NoMatch;
                    }
                    heap.items(t)
                },
                _ => {
                    return PendingMatch::NoMatch;
                },
            };
            {
                {
                    let (stars, pos) = count_stars(elems);
                    proof {
                        lemma_star_pos(elems@);
                    }
                    let non_star = elems.len() - stars;
                    if stars > 1 {
                        PendingMatch::NoMatch
                    } else if stars == 0 {
                        if items.len() != non_star {
                            PendingMatch::NoMatch
                        } else {
                            match_elems(elems, 0, elems.len(), items, 0i128, reg, heap, symbols, scope, facts)
                        }
                    } else {
                        let sp = match pos { Some(p) => p, None => 0 };
                        if items.len() < non_star {
                            return PendingMatch::NoMatch;
                        }
                        let n_after = elems.len() - sp - 1;
                        let after_start = items.len() - n_after;
                        let before = match_elems(elems, 0, sp, items, 0i128, reg, heap, symbols, scope, facts);
                        match before {
                            PendingMatch::Bound(_) => {},
                            other => { return other; },
                        }
                        let after = match_elems(
                            elems,
                            sp + 1,
                            elems.len(),
                            items,
                            after_start as i128 - (sp as i128 + 1),
                            reg,
                            heap,
                            symbols,
                            scope,
                            facts,
                        );
                        match after {
                            PendingMatch::Bound(_) => {},
                            other => {
                                return then_pending(before, other);
                            },
                        }
                        let star = match &elems[sp] {
                            VMPatternElement::Star(slot) => {
                                if *slot != usize::MAX {
                                    let captured = copy_items(items, sp, after_start);
                                    let mut b: Vec<(usize, Binding)> = Vec::new();
                                    let ghost cv = captured@;
                                    b.push((*slot, Binding::Items(captured)));
                                    assert(b@.map_values(|b: (usize, Binding)| (b.0, b.1.view())) =~= seq![(*slot, BindView::Items(cv))]);
                                    PendingMatch::Bound(b)
                                } else {
                                    empty_bound()
                                }
                            },
                            _ => empty_bound(),
                        };
                        then_pending(before, then_pending(after, star))
                    }
                }
            }
        },
        VMPattern::Struct { name, variant, field_slots } => {
            match value {
                Value::Struct(idx) => {
                    match reg.instance(idx) {
                        Some(inst) => match reg.get_type(inst.type_id) {
                            Some(ty) => {
                                let matches_name = match variant {
                                    Some(vn) => {
                                        let q = qualified_name(name.as_str(), vn.as_str());
                                        str_equal(ty.name.as_str(), q.as_str())
                                    },
                                    None => str_equal(ty.name.as_str(), name.as_str()),
                                };
                                if !matches_name {
                                    PendingMatch::NoMatch
                                } else {
                                    assert(field_slots@.map_values(|f: (String, usize)| (f.0@, f.1)).subrange(0, field_slots@.len() as int)
                                        =~= field_slots@.map_values(|f: (String, usize)| (f.0@, f.1)));
                                    match_fields(field_slots, 0, ty, &inst.fields)
                                }
                            },
                            None => PendingMatch::NoMatch,
                        },
                        None => PendingMatch::NoMatch,
                    }
                },
                Value::Obj(_) => match facts.type_of(value) {
                    None => PendingMatch::AskType(value),
                    Some(tn) => {
                        let matches_name = match variant {
                            Some(vn) => {
                                let q = qualified_name(name.as_str(), vn.as_str());
                                str_equal(tn.as_str(), q.as_str())
                            },
                            None => str_equal(tn.as_str(), name.as_str()),
                        };
                        if !matches_name {
                            PendingMatch::NoMatch
                        } else {
                            assert(field_slots@.map_values(|f: (String, usize)| (f.0@, f.1)).subrange(0, field_slots@.len() as int)
                                =~= field_slots@.map_values(|f: (String, usize)| (f.0@, f.1)));
                            match_attrs(field_slots, 0, value, facts)
                        }
                    },
                },
                _ => PendingMatch::NoMatch,
            }
        },
        VMPattern::Enum { enum_name, variant_name } => {
            if !names_contain(scope, enum_name.as_str()) {
                match facts.bound_of(enum_name.as_str()) {
                    None => {
                        return PendingMatch::AskBound(enum_name.clone());
                    },
                    Some(false) => {
                        return PendingMatch::Error(VMError::NameError(enum_name.clone()));
                    },
                    Some(true) => {},
                }
            }
            let q = qualified_name(enum_name.as_str(), variant_name.as_str());
            match symbols.lookup(q.as_str()) {
                Some(sym) => if value == Value::Symbol(sym) { empty_bound() } else { PendingMatch::NoMatch },
                None => match value {
                    Value::Obj(_) => match facts.text_of(value, q.as_str()) {
                        None => PendingMatch::AskText(value, q),
                        Some(b) => if b { empty_bound() } else { PendingMatch::NoMatch },
                    },
                    _ => PendingMatch::NoMatch,
                },
            }
        },
    }
}

/// Outcome of a match.
#[derive(Debug)]
pub enum MatchOutcome {
    NoMatch,
    /// Matched, with (slot, value) bindings in order.
    Bound(Vec<(usize, Value)>),
    /// The host must decide.
    Host,
    /// The host must first say whether a host value equals a literal
    /// (`Some(literal)`) or which items it iterates to (`None`).
    Ask(Value, Option<Value>),
    /// The host must first give the struct type name of a host value.
    AskType(Value),
    /// The host must first give an attribute of a host value.
    AskAttr(Value, String),
    /// The host must first say whether a host value equals a text.
    AskText(Value, String),
    /// The host must first say whether its globals bind a name.
    AskBound(String),
    /// The match raises.
    Error(VMError),
}

/// The items of star bindings can be stored as tuples: they refer to
/// existing tuples only and hold well-formed values.
pub open spec fn items_storable(bs: Seq<(usize, BindView)>, bound: nat) -> bool {
    forall|i: int| 0 <= i < bs.len() ==> match #[trigger] bs[i].1 {
        BindView::Items(s) => values_below(s, bound) && forall|j: int| 0 <= j < s.len() ==> (#[trigger] s[j]).wf(),
        BindView::Val(_) => true,
    }
}

/// Number of star bindings.
pub open spec fn items_count(bs: Seq<(usize, BindView)>) -> nat
    decreases bs.len(),
{
    if bs.len() == 0 {
        0
    } else {
        items_count(bs.drop_last()) + if bs.last().1 is Items { 1nat } else { 0nat }
    }
}

/// Exec bindings agree with viewed bindings: the same slots; plain values
/// equal; star captures are tuples stored from `from` on holding the items.
pub open spec fn bindings_agree(
    exec: Seq<(usize, Value)>,
    spec: Seq<(usize, BindView)>,
    from: nat,
    heap: Seq<Seq<Value>>,
) -> bool {
    &&& exec.len() == spec.len()
    &&& forall|i: int| 0 <= i < exec.len() ==> {
        &&& (#[trigger] exec[i]).0 == spec[i].0
        &&& match spec[i].1 {
            BindView::Val(v) => exec[i].1 == v,
            BindView::Items(s) => exec[i].1 matches Value::Tuple(t) && from <= t < heap.len() && heap[t as int] == s,
        }
    }
}

pub(crate) fn items_ok(items: &Vec<Value>, bound: usize) -> (r: bool)
    ensures
        r == (values_below(items@, bound as nat) && forall|j: int| 0 <= j < items@.len() ==> (#[trigger] items@[j]).wf()),
{
    let mut i: usize = 0;
    while i < items.len()
        invariant
            i <= items@.len(),
            values_below(items@.subrange(0, i as int), bound as nat),
            forall|j: int| 0 <= j < i ==> (#[trigger] items@[j]).wf(),
        decreases items@.len() - i,
    {
        let ok = match items[i] {
            Value::Tuple(t) => (t as usize) < bound,
            Value::Int(n) => crate::value::SMALLINT_MIN <= n && n <= crate::value::SMALLINT_MAX,
            _ => true,
        };
        if !ok {
            assert(!crate::value::value_below(items@[i as int], bound as nat) || !items@[i as int].wf());
            return false;
        }
        assert(values_below(items@.subrange(0, i + 1), bound as nat)) by {
            assert forall|j: int| 0 <= j < i + 1 implies crate::value::value_below(#[trigger] items@.subrange(0, i + 1)[j], bound as nat) by {
                if j < i {
                    assert(items@.subrange(0, i + 1)[j] == items@.subrange(0, i as int)[j]);
                }
            }
        }
        i = i + 1;
    }
    assert(items@.subrange(0, items@.len() as int) =~= items@);
    true
}

fn check_storable(bs: &Vec<(usize, Binding)>, bound: usize) -> (r: bool)
    ensures
        r == items_storable(bs@.map_values(|b: (usize, Binding)| (b.0, b.1.view())), bound as nat),
{
    let ghost v = bs@.map_values(|b: (usize, Binding)| (b.0, b.1.view()));
    let mut i: usize = 0;
    while i < bs.len()
        invariant
            i <= bs@.len(),
            v == bs@.map_values(|b: (usize, Binding)| (b.0, b.1.view())),
            forall|k: int| 0 <= k < i ==> match #[trigger] v[k].1 {
                BindView::Items(s) => values_below(s, bound as nat) && forall|j: int| 0 <= j < s.len() ==> (#[trigger] s[j]).wf(),
                BindView::Val(_) => true,
            },
        decreases bs@.len() - i,
    {
        match &bs[i].1 {
            Binding::Items(items) => {
                if !items_ok(items, bound) {
                    assert(!items_storable(v, bound as nat)) by {
                        assert(v[i as int].1 == BindView::Items(items@));
                    }
                    return false;
                }
            },
            Binding::Val(_) => {},
        }
        i = i + 1;
    }
    true
}

fn count_items(bs: &Vec<(usize, Binding)>) -> (r: usize)
    ensures
        r == items_count(bs@.map_values(|b: (usize, Binding)| (b.0, b.1.view()))),
{
    let ghost v = bs@.map_values(|b: (usize, Binding)| (b.0, b.1.view()));
    let mut n: usize = 0;
    let mut i: usize = 0;
    while i < bs.len()
        invariant
            i <= bs@.len(),
            v == bs@.map_values(|b: (usize, Binding)| (b.0, b.1.view())),
            n == items_count(v.subrange(0, i as int)),
            n <= i,
        decreases bs@.len() - i,
    {
        assert(v.subrange(0, i + 1).drop_last() =~= v.subrange(0, i as int));
        match &bs[i].1 {
            Binding::Items(_) => { n = n + 1; },
            Binding::Val(_) => {},
        }
        i = i + 1;
    }
    assert(v.subrange(0, bs@.len() as int) =~= v);
    n
}

/// The heap only grew: every earlier tuple is unchanged.
pub open spec fn heap_extends(new: Seq<Seq<Value>>, old: Seq<Seq<Value>>) -> bool {
    old.len() <= new.len() && new.subrange(0, old.len() as int) == old
}

/// The outcome `r`, with heap `new` after it, carries out the match view
/// `m` computed against heap `old`: star captures become new tuples; a heap
/// too full to store them raises a memory error.
pub open spec fn finishes(m: MatchView, old: Seq<Seq<Value>>, r: MatchOutcome, new: Seq<Seq<Value>>) -> bool {
    match m {
        MatchView::NoMatch => r is NoMatch && new == old,
        MatchView::Host => r is Host && new == old,
        MatchView::Ask(o, e) => r == MatchOutcome::Ask(o, e) && new == old,
        MatchView::AskType(o) => r == MatchOutcome::AskType(o) && new == old,
        MatchView::AskAttr(o, a) => (r matches MatchOutcome::AskAttr(o2, a2) && o2 == o && a2@ == a) && new == old,
        MatchView::AskText(o, t) => (r matches MatchOutcome::AskText(o2, t2) && o2 == o && t2@ == t) && new == old,
        MatchView::AskBound(n) => (r matches MatchOutcome::AskBound(n2) && n2@ == n) && new == old,
        MatchView::Raise(k, msg) => r matches MatchOutcome::Error(e) && e.spec_builtin() == Some((k, msg)) && new == old,
        MatchView::Bound(bs) => if !items_storable(bs, old.len()) {
            r is Host && new == old
        } else if items_count(bs) > 0 && old.len() + items_count(bs) >= u32::MAX {
            r matches MatchOutcome::Error(e) && e.spec_builtin() == Some(
                (crate::error::ExceptionKind::MemoryError, "tuple heap exhausted"@),
            ) && new == old
        } else {
            r matches MatchOutcome::Bound(b) && bindings_agree(b@, bs, old.len(), new)
                && new.len() == old.len() + items_count(bs) && new.subrange(0, old.len() as int) == old
        },
    }
}

/// Matches `pattern` against `value`; star captures are stored as new tuples.
pub fn vm_match_pattern(
    pattern: &VMPattern,
    value: Value,
    reg: &StructRegistry,
    heap: &mut TupleHeap,
    symbols: &SymbolTable,
    scope: &[String],
    facts: &MatchFacts,
) -> (r: MatchOutcome)
    requires
        old(heap).wf(),
    ensures
        final(heap).wf(),
        heap_extends(final(heap)@, old(heap)@),
        finishes(spec_match(*pattern, value, old(heap)@, *reg, symbols@, scope_view(scope), facts@), old(heap)@, r, final(heap)@),
{
    let pending = match_pattern_pending(pattern, value, reg, heap, symbols, scope, facts);
    finish_match(pending, heap)
}

/// Strict assignment-pattern matching; star captures are stored as new tuples.
pub fn vm_match_assign_pattern(pattern: &VMPattern, value: Value, heap: &mut TupleHeap, facts: &MatchFacts) -> (r: MatchOutcome)
    requires
        old(heap).wf(),
    ensures
        final(heap).wf(),
        heap_extends(final(heap)@, old(heap)@),
        finishes(spec_match_assign(*pattern, value, old(heap)@, facts@), old(heap)@, r, final(heap)@),
{
    let pending = match_assign_pending(pattern, value, heap, facts);
    finish_match(pending, heap)
}

/// Carries out a computed match: stores star captures as tuples.
pub fn finish_match(pending: PendingMatch, heap: &mut TupleHeap) -> (r: MatchOutcome)
    requires
        old(heap).wf(),
    ensures
        final(heap).wf(),
        heap_extends(final(heap)@, old(heap)@),
        finishes(pending.view(), old(heap)@, r, final(heap)@),
{
    assert(heap@.subrange(0, heap@.len() as int) =~= heap@);
    match pending {
        PendingMatch::NoMatch => MatchOutcome::NoMatch,
        PendingMatch::Host => MatchOutcome::Host,
        PendingMatch::Ask(o, e) => MatchOutcome::Ask(o, e),
        PendingMatch::AskType(o) => MatchOutcome::AskType(o),
        PendingMatch::AskAttr(o, a) => MatchOutcome::AskAttr(o, a),
        PendingMatch::AskText(o, t) => MatchOutcome::AskText(o, t),
        PendingMatch::AskBound(n) => MatchOutcome::AskBound(n),
        PendingMatch::Error(e) => {
            if e.is_builtin() {
                MatchOutcome::Error(e)
            } else {
                MatchOutcome::Host
            }
        },
        PendingMatch::Bound(bs) => {
            let ghost v = bs@.map_values(|b: (usize, Binding)| (b.0, b.1.view()));
            let ghost old_heap = heap@;
            if !check_storable(&bs, heap.len()) {
                return MatchOutcome::Host;
            }
            let n = count_items(&bs);
            if n > 0 && (heap.len() >= u32::MAX as usize || n >= u32::MAX as usize - heap.len()) {
                return MatchOutcome::Error(VMError::MemoryLimitExceeded(String::from_str("tuple heap exhausted")));
            }
            let mut out: Vec<(usize, Value)> = Vec::new();
            let mut bs = bs;
            let mut i: usize = 0;
            let ghost start_len = heap@.len();
            while i < bs.len()
                invariant
                    i <= bs@.len(),
                    v == bs@.map_values(|b: (usize, Binding)| (b.0, b.1.view())),
                    heap.wf(),
                    heap_extends(heap@, old_heap),
                    start_len == old_heap.len(),
                    items_storable(v, start_len),
                    heap@.len() == start_len + items_count(v.subrange(0, i as int)),
                    items_count(v) > 0 ==> start_len + items_count(v) < u32::MAX,
                    bindings_agree(out@, v.subrange(0, i as int), start_len, heap@),
                decreases bs@.len() - i,
            {
                proof {
                    lemma_items_count_prefix(v, i as int);
                    assert(v.subrange(0, i + 1).drop_last() =~= v.subrange(0, i as int));
                }
                let slot = bs[i].0;
                let ghost before_heap = heap@;
                match &bs[i].1 {
                    Binding::Val(x) => {
                        out.push((slot, *x));
                    },
                    Binding::Items(items) => {
                        let copy = copy_items(items, 0, items.len());
                        assert(copy@ =~= items@);
                        assert(v[i as int].1 == BindView::Items(items@));
                        proof {
                            lemma_items_count_prefix(v, i + 1);
                            assert(v.subrange(0, i + 1).last() == v[i as int]);
                            assert(items_count(v.subrange(0, i + 1)) == items_count(v.subrange(0, i as int)) + 1);
                        }
                        proof {
                            assert(values_below(copy@, heap@.len())) by {
                                assert forall|j: int| 0 <= j < copy@.len() implies crate::value::value_below(#[trigger] copy@[j], heap@.len()) by {
                                    assert(crate::value::value_below(items@[j], start_len));
                                }
                            }
                        }
                        let t = heap.store(copy);
                        out.push((slot, t));
                    },
                }
                proof {
                    assert(heap@.subrange(0, before_heap.len() as int) =~= before_heap);
                    assert(heap@.subrange(0, old_heap.len() as int) =~= old_heap) by {
                        assert(before_heap.subrange(0, old_heap.len() as int) =~= old_heap);
                    }
                    assert forall|k: int| 0 <= k < i + 1 implies {
                        &&& (#[trigger] out@[k]).0 == v.subrange(0, i + 1)[k].0
                        &&& match v.subrange(0, i + 1)[k].1 {
                            BindView::Val(x) => out@[k].1 == x,
                            BindView::Items(s) => out@[k].1 matches Value::Tuple(t) && start_len <= t < heap@.len() && heap@[t as int] == s,
                        }
                    } by {
                        if k < i {
                            assert(v.subrange(0, i + 1)[k] == v.subrange(0, i as int)[k]);
                            match v.subrange(0, i as int)[k].1 {
                                BindView::Items(s) => {
                                    match out@[k].1 {
                                        Value::Tuple(t) => {
                                            assert(heap@[t as int] == before_heap[t as int]);
                                        },
                                        _ => {},
                                    }
                                },
                                _ => {},
                            }
                        }
                    }
                }
                i = i + 1;
            }
            assert(v.subrange(0, bs@.len() as int) =~= v);
            MatchOutcome::Bound(out)
        },
    }
}

proof fn lemma_items_count_prefix(bs: Seq<(usize, BindView)>, i: int)
    requires
        0 <= i <= bs.len(),
    ensures
        items_count(bs.subrange(0, i)) <= items_count(bs),
    decreases bs.len() - i,
{
    if i < bs.len() {
        lemma_items_count_prefix(bs, i + 1);
        assert(bs.subrange(0, i + 1).drop_last() =~= bs.subrange(0, i));
    } else {
        assert(bs.subrange(0, i) =~= bs);
    }
}

/// The host type name of a native value, as reported in unpacking errors.
pub open spec fn native_type_name(v: Value) -> Seq<char> {
    match v {
        Value::Nil => "NoneType"@,
        Value::Bool(_) => "bool"@,
        Value::Int(_) => "int"@,
        Value::Symbol(_) => "CatnipEnumVariant"@,
        Value::Struct(_) => "CatnipStructProxy"@,
        Value::Func(_) => "VMFunction"@,
        Value::Tuple(_) => "tuple"@,
        Value::Obj(_) => "object"@,
    }
}

pub(crate) fn native_type_name_string(v: Value) -> (r: String)
    ensures
        r@ == native_type_name(v),
{
    match v {
        Value::Nil => String::from_str("NoneType"),
        Value::Bool(_) => String::from_str("bool"),
        Value::Int(_) => String::from_str("int"),
        Value::Symbol(_) => String::from_str("CatnipEnumVariant"),
        Value::Struct(_) => String::from_str("CatnipStructProxy"),
        Value::Func(_) => String::from_str("VMFunction"),
        Value::Tuple(_) => String::from_str("tuple"),
        Value::Obj(_) => String::from_str("object"),
    }
}

/// Message for an assignment pattern that cannot be unpacked.
pub open spec fn bad_assign_text() -> Seq<char> {
    "Cannot unpack assignment pattern"@
}

/// Matches the elements `lo..hi` of an assignment pattern against
/// `items[k + offset]`, in order; the first failure is final.
pub open spec fn spec_assign_elems(
    elems: Seq<VMPatternElement>,
    lo: int,
    hi: int,
    items: Seq<Value>,
    offset: int,
    heap: Seq<Seq<Value>>,
    facts: FactsView,
) -> MatchView
    decreases elems, hi - lo,
{
    if lo >= hi || lo < 0 || hi > elems.len() {
        MatchView::Bound(Seq::empty())
    } else {
        let first = match elems[lo] {
            VMPatternElement::Pattern(sub) => if 0 <= lo + offset < items.len() {
                spec_match_assign(sub, items[lo + offset], heap, facts)
            } else {
                MatchView::Raise(crate::error::ExceptionKind::RuntimeError, bad_assign_text())
            },
            VMPatternElement::Star(_) => MatchView::Bound(Seq::empty()),
        };
        then_match(first, spec_assign_elems(elems, lo + 1, hi, items, offset, heap, facts))
    }
}

/// Strict matching of an assignment (unpacking) pattern: a mismatch is an
/// unpacking error rather than a failed match.
pub open spec fn spec_match_assign(p: VMPattern, v: Value, heap: Seq<Seq<Value>>, facts: FactsView) -> MatchView
    decreases p, 0int,
{
    match p {
        VMPattern::Var(slot) => MatchView::Bound(seq![(slot, BindView::Val(v))]),
        VMPattern::Wildcard => MatchView::Bound(Seq::empty()),
        VMPattern::Tuple(elems) => {
            let got = if v is Obj { fact_items_at(facts.items, v, 0) } else { Some(spec_items(v, heap)) };
            match got {
                None => MatchView::Ask(v, None),
                Some(found) => match found {
                    None => MatchView::Raise(
                        crate::error::ExceptionKind::TypeError,
                        "Cannot unpack non-iterable "@ + (if v is Obj { fact_name_at(facts.names, v, 0) } else { native_type_name(v) }),
                    ),
                    Some(items) => {
                        let es = elems@;
                        let stars = star_count(es);
                        let non_star = es.len() - stars;
                        if stars > 1 {
                            MatchView::Raise(crate::error::ExceptionKind::RuntimeError, bad_assign_text())
                        } else if stars == 1 {
                            let sp = star_pos(es);
                            let n_after = es.len() - sp - 1;
                            let after_start = items.len() - n_after;
                            if items.len() < non_star {
                                MatchView::Raise(
                                    crate::error::ExceptionKind::RuntimeError,
                                    "Not enough values to unpack: expected at least "@ + crate::text::nat_digits(non_star as nat)
                                        + ", got "@ + crate::text::nat_digits(items.len()),
                                )
                            } else {
                                let before = spec_assign_elems(es, 0, sp, items, 0, heap, facts);
                                let after = spec_assign_elems(es, sp + 1, es.len() as int, items, after_start - (sp + 1), heap, facts);
                                let star = match es[sp] {
                                    VMPatternElement::Star(slot) => if slot != usize::MAX {
                                        MatchView::Bound(seq![(slot, BindView::Items(items.subrange(sp, after_start)))])
                                    } else {
                                        MatchView::Bound(Seq::empty())
                                    },
                                    _ => MatchView::Bound(Seq::empty()),
                                };
                                then_match(before, then_match(after, star))
                            }
                        } else if items.len() != non_star {
                            MatchView::Raise(
                                crate::error::ExceptionKind::RuntimeError,
                                "Cannot unpack "@ + crate::text::nat_digits(items.len()) + " values into "@
                                    + crate::text::nat_digits(non_star as nat) + " variables"@,
                            )
                        } else {
                            spec_assign_elems(es, 0, es.len() as int, items, 0, heap, facts)
                        }
                    },
                }
            }
        },
        _ => MatchView::Raise(crate::error::ExceptionKind::RuntimeError, bad_assign_text()),
    }
}

fn raise_runtime(msg: String) -> (r: PendingMatch)
    ensures
        r.view() == MatchView::Raise(crate::error::ExceptionKind::RuntimeError, msg@),
{
    PendingMatch::Error(VMError::RuntimeError(msg))
}

fn assign_elems(
    elems: &Vec<VMPatternElement>,
    lo: usize,
    hi: usize,
    items: &Vec<Value>,
    offset: i128,
    heap: &TupleHeap,
    facts: &MatchFacts,
) -> (r: PendingMatch)
    requires
        hi <= elems@.len(),
        -0x1_0000_0000_0000_0000 <= offset <= 0x1_0000_0000_0000_0000,
    ensures
        r.view() == spec_assign_elems(elems@, lo as int, hi as int, items@, offset as int, heap@, facts@),
    decreases elems@, hi - lo,
{
    if lo >= hi {
        return empty_bound();
    }
    let first = match &elems[lo] {
        VMPatternElement::Pattern(sub) => {
            let k: i128 = lo as i128 + offset;
            if 0 <= k && k < items.len() as i128 {
                match_assign_pending(sub, items[k as usize], heap, facts)
            } else {
                raise_runtime(String::from_str("Cannot unpack assignment pattern"))
            }
        },
        VMPatternElement::Star(_) => empty_bound(),
    };
    match first {
        PendingMatch::Bound(_) => {
            let rest = assign_elems(elems, lo + 1, hi, items, offset, heap, facts);
            then_pending(first, rest)
        },
        other => other,
    }
}

/// Strict assignment-pattern matching, without storing star captures.
pub fn match_assign_pending(pattern: &VMPattern, value: Value, heap: &TupleHeap, facts: &MatchFacts) -> (r: PendingMatch)
    ensures
        r.view() == spec_match_assign(*pattern, value, heap@, facts@),
    decreases pattern, 0int,
{
    match pattern {
        VMPattern::Var(slot) => {
            let mut b: Vec<(usize, Binding)> = Vec::new();
            b.push((*slot, Binding::Val(value)));
            assert(b@.map_values(|b: (usize, Binding)| (b.0, b.1.view())) =~= seq![(*slot, BindView::Val(value))]);
            PendingMatch::Bound(b)
        },
        VMPattern::Wildcard => empty_bound(),
        VMPattern::Tuple(elems) => {
            let items: &Vec<Value> = match value {
                Value::Obj(_) => match facts.items_of(value) {
                    None => {
                        return PendingMatch::Ask(value, None);
                    },
                    Some(None) => {
                        let tn = facts.name_of(value);
                        let m = concat2("Cannot unpack non-iterable ", tn.as_str());
                        return PendingMatch::Error(VMError::TypeError(m));
                    },
                    Some(Some(xs)) => xs,
                },
                Value::Tuple(t) if (t as usize) < heap.len() => heap.items(t),
                _ => {
                    let tn = native_type_name_string(value);
                    let m = concat2("Cannot unpack non-iterable ", tn.as_str());
                    return PendingMatch::Error(VMError::TypeError(m));
                },
            };
            {
                {
                    let (stars, pos) = count_stars(elems);
                    proof {
                        lemma_star_pos(elems@);
                    }
                    let non_star = elems.len() - stars;
                    if stars > 1 {
                        raise_runtime(String::from_str("Cannot unpack assignment pattern"))
                    } else if stars == 1 {
                        let sp = match pos { Some(p) => p, None => 0 };
                        if items.len() < non_star {
                            let a = crate::text::u64_to_decimal(non_star as u64);
                            let b = crate::text::u64_to_decimal(items.len() as u64);
                            let m1 = concat2("Not enough values to unpack: expected at least ", a.as_str());
                            let m2 = concat3(m1.as_str(), ", got ", b.as_str());
                            return raise_runtime(m2);
                        }
                        let n_after = elems.len() - sp - 1;
                        let after_start = items.len() - n_after;
                        let before = assign_elems(elems, 0, sp, items, 0i128, heap, facts);
                        match before {
                            PendingMatch::Bound(_) => {},
                            other => { return other; },
                        }
                        let after = assign_elems(elems, sp + 1, elems.len(), items, after_start as i128 - (sp as i128 + 1), heap, facts);
                        match after {
                            PendingMatch::Bound(_) => {},
                            other => {
                                return then_pending(before, other);
                            },
                        }
                        let star = match &elems[sp] {
                            VMPatternElement::Star(slot) => {
                                if *slot != usize::MAX {
                                    let captured = copy_items(items, sp, after_start);
                                    let mut b: Vec<(usize, Binding)> = Vec::new();
                                    let ghost cv = captured@;
                                    b.push((*slot, Binding::Items(captured)));
                                    assert(b@.map_values(|b: (usize, Binding)| (b.0, b.1.view())) =~= seq![(*slot, BindView::Items(cv))]);
                                    PendingMatch::Bound(b)
                                } else {
                                    empty_bound()
                                }
                            },
                            _ => empty_bound(),
                        };
                        then_pending(before, then_pending(after, star))
                    } else if items.len() != non_star {
                        let a = crate::text::u64_to_decimal(items.len() as u64);
                        let b = crate::text::u64_to_decimal(non_star as u64);
                        let m1 = concat3("Cannot unpack ", a.as_str(), " values into ");
                        let m2 = concat3(m1.as_str(), b.as_str(), " variables");
                        raise_runtime(m2)
                    } else {
                        assign_elems(elems, 0, elems.len(), items, 0i128, heap, facts)
                    }
                }
            }
        },
        _ => raise_runtime(String::from_str("Cannot unpack assignment pattern")),
    }
}

/// Hands the values of partially collected bindings to `spill` (the values
/// a compound pattern gave up when it bailed), in order.
pub fn spill_bindings(bindings: Vec<(usize, Value)>, spill: &mut Vec<Value>)
    ensures
        final(spill)@ == old(spill)@ + bindings@.map_values(|b: (usize, Value)| b.1),
{
    let mut i: usize = 0;
    while i < bindings.len()
        invariant
            i <= bindings@.len(),
            spill@ == old(spill)@ + bindings@.subrange(0, i as int).map_values(|b: (usize, Value)| b.1),
        decreases bindings@.len() - i,
    {
        spill.push(bindings[i].1);
        assert(bindings@.subrange(0, i + 1).map_values(|b: (usize, Value)| b.1) =~= bindings@.subrange(
            0,
            i as int,
        ).map_values(|b: (usize, Value)| b.1).push(bindings@[i as int].1));
        i = i + 1;
    }
    assert(bindings@.subrange(0, bindings@.len() as int) =~= bindings@);
}

} // verus!
