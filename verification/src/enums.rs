//! Enum type system: the symbol table interning qualified variant names, and
//! the registry of enum types with the reverse map from symbol to variant.
//!
//! Enum variants are symbol values; the symbol table interns their
//! qualified names ("EnumName.variant").

use vstd::prelude::*;
use std::collections::HashMap;
use crate::text::{str_equal, concat3};

verus! {

broadcast use vstd::std_specs::hash::group_hash_axioms;

/// Most variants an enum type may declare (variant indices are `u16`).
pub const MAX_VARIANTS_PER_ENUM: usize = 65536;

/// The qualified name of a variant: "EnumName.variant".
pub open spec fn spec_qualified_name(enum_name: Seq<char>, variant: Seq<char>) -> Seq<char> {
    enum_name + "."@ + variant
}

/// Builds the qualified name of a variant.
pub fn qualified_name(enum_name: &str, variant: &str) -> (r: String)
    ensures
        r@ == spec_qualified_name(enum_name@, variant@),
{
    concat3(enum_name, ".", variant)
}

/// Index of the first occurrence of `name` in `names` at or after `from`, or -1.
pub open spec fn name_index_from(names: Seq<Seq<char>>, name: Seq<char>, from: int) -> int
    decreases names.len() - from,
{
    if from < 0 || from >= names.len() {
        -1
    } else if names[from] == name {
        from
    } else {
        name_index_from(names, name, from + 1)
    }
}

/// Index of the first occurrence of `name` in `names`, or -1.
pub open spec fn name_index(names: Seq<Seq<char>>, name: Seq<char>) -> int {
    name_index_from(names, name, 0)
}

proof fn lemma_name_index_from(names: Seq<Seq<char>>, name: Seq<char>, from: int)
    requires
        0 <= from,
    ensures
        name_index_from(names, name, from) == -1 ==> forall|j: int| from <= j < names.len() ==> names[j] != name,
        name_index_from(names, name, from) >= 0 ==> from <= name_index_from(names, name, from) < names.len()
            && names[name_index_from(names, name, from)] == name,
        forall|j: int| from <= j < name_index_from(names, name, from) ==> names[j] != name,
        name_index_from(names, name, from) >= -1,
    decreases names.len() - from,
{
    if from < names.len() && names[from] != name {
        lemma_name_index_from(names, name, from + 1);
    }
}

proof fn lemma_name_index_skip(names: Seq<Seq<char>>, name: Seq<char>, from: int, to: int)
    requires
        0 <= from <= to <= names.len(),
        forall|j: int| from <= j < to ==> names[j] != name,
    ensures
        name_index_from(names, name, from) == name_index_from(names, name, to),
    decreases to - from,
{
    if from < to {
        lemma_name_index_skip(names, name, from + 1, to);
    }
}

proof fn lemma_name_index(names: Seq<Seq<char>>, name: Seq<char>)
    ensures
        name_index(names, name) == -1 ==> forall|j: int| 0 <= j < names.len() ==> names[j] != name,
        name_index(names, name) >= 0 ==> name_index(names, name) < names.len() && names[name_index(names, name)] == name,
        forall|j: int| 0 <= j < name_index(names, name) ==> names[j] != name,
        name_index(names, name) >= -1,
{
    lemma_name_index_from(names, name, 0);
}

/// Interned symbol names; a symbol id is an index.
#[derive(Debug)]
pub struct SymbolTable {
    names: Vec<String>,
}

impl SymbolTable {
    /// Symbol ids are 32-bit.
    #[verifier::type_invariant]
    spec fn ids_fit(&self) -> bool {
        self.names@.len() <= u32::MAX
    }

    /// The interned names, by symbol id.
    pub closed spec fn view(&self) -> Seq<Seq<char>> {
        self.names@.map_values(|s: String| s@)
    }

    /// An empty table.
    pub fn new() -> (r: SymbolTable)
        ensures
            r@ == Seq::<Seq<char>>::empty(),
    {
        let r = SymbolTable { names: Vec::new() };
        assert(r@ =~= Seq::<Seq<char>>::empty());
        r
    }

    /// Number of symbols.
    pub fn len(&self) -> (r: usize)
        ensures
            r == self@.len(),
    {
        self.names.len()
    }

    /// The id of `name`, if interned.
    pub fn lookup(&self, name: &str) -> (r: Option<u32>)
        ensures
            name_index(self@, name@) < 0 ==> r.is_none(),
            name_index(self@, name@) >= 0 ==> r == Some(name_index(self@, name@) as u32),
    {
        proof {
            lemma_name_index(self@, name@);
            use_type_invariant(self);
        }
        let mut i: usize = 0;
        while i < self.names.len()
            invariant
                i <= self@.len(),
                self@.len() <= u32::MAX,
                forall|j: int| 0 <= j < i ==> self@[j] != name@,
            decreases self@.len() - i,
        {
            if str_equal(self.names[i].as_str(), name) {
                assert(self@[i as int] == name@);
                proof {
                    lemma_name_index_skip(self@, name@, 0, i as int);
                }
                return Some(i as u32);
            }
            i = i + 1;
        }
        None
    }

    /// Interns `name`: its existing id, or a new id appended for it.
    pub fn intern(&mut self, name: &str) -> (r: u32)
        requires
            old(self)@.len() < u32::MAX,
        ensures
            name_index(old(self)@, name@) >= 0 ==> r == name_index(old(self)@, name@) && final(self)@ == old(self)@,
            name_index(old(self)@, name@) < 0 ==> r == old(self)@.len() && final(self)@ == old(self)@.push(name@),
            final(self)@[r as int] == name@,
            r < final(self)@.len(),
    {
        proof {
            lemma_name_index(old(self)@, name@);
        }
        match self.lookup(name) {
            Some(id) => id,
            None => {
                let id = self.names.len();
                let mut names: Vec<String> = Vec::new();
                std::mem::swap(&mut names, &mut self.names);
                names.push(name.to_owned());
                self.names = names;
                assert(self@ =~= old(self)@.push(name@));
                id as u32
            },
        }
    }

    /// The name of symbol `id`, if it exists.
    pub fn resolve(&self, id: u32) -> (r: Option<&str>)
        ensures
            (id as int) < self@.len() ==> r.is_some() && r.unwrap()@ == self@[id as int],
            (id as int) >= self@.len() ==> r.is_none(),
    {
        if (id as usize) < self.names.len() {
            Some(self.names[id as usize].as_str())
        } else {
            None
        }
    }
}

/// A single enum type definition.
#[derive(Clone, Debug)]
pub struct EnumType {
    pub id: u32,
    pub name: String,
    /// (variant_name, symbol_id) pairs, in declaration order.
    pub variants: Vec<(String, u32)>,
}

/// Symbol of the first variant named `name`, or `None`.
pub open spec fn variant_lookup(variants: Seq<(Seq<char>, u32)>, name: Seq<char>) -> Option<u32>
    decreases variants.len(),
{
    if variants.len() == 0 {
        None
    } else if variants[0].0 == name {
        Some(variants[0].1)
    } else {
        variant_lookup(variants.drop_first(), name)
    }
}

impl EnumType {
    /// The variants as (name, symbol) pairs.
    pub open spec fn variant_pairs(&self) -> Seq<(Seq<char>, u32)> {
        self.variants@.map_values(|p: (String, u32)| (p.0@, p.1))
    }

    /// Finds the symbol id of the variant named `variant_name`.
    pub fn variant_symbol(&self, variant_name: &str) -> (r: Option<u32>)
        ensures
            r == variant_lookup(self.variant_pairs(), variant_name@),
    {
        let mut i: usize = 0;
        assert(self.variant_pairs().subrange(0, self.variants@.len() as int) =~= self.variant_pairs());
        while i < self.variants.len()
            invariant
                i <= self.variants@.len(),
                variant_lookup(self.variant_pairs(), variant_name@) == variant_lookup(
                    self.variant_pairs().subrange(i as int, self.variants@.len() as int),
                    variant_name@,
                ),
            decreases self.variants@.len() - i,
        {
            let ghost rest = self.variant_pairs().subrange(i as int, self.variants@.len() as int);
            if str_equal(self.variants[i].0.as_str(), variant_name) {
                assert(rest[0] == self.variant_pairs()[i as int]);
                return Some(self.variants[i].1);
            }
            assert(rest.drop_first() =~= self.variant_pairs().subrange(i + 1, self.variants@.len() as int));
            i = i + 1;
        }
        assert(self.variant_pairs().subrange(i as int, self.variants@.len() as int).len() == 0);
        None
    }
}

/// Registry of all enum types, with reverse lookup from symbol to variant.
#[derive(Debug)]
pub struct EnumRegistry {
    types: Vec<EnumType>,
    /// symbol_id -> (enum_type_id, variant_index)
    symbol_to_enum: HashMap<u32, (u32, u16)>,
}

/// Index of the last type named `name` among `types`, or -1.
pub open spec fn last_type_named(types: Seq<EnumType>, name: Seq<char>) -> int
    decreases types.len(),
{
    if types.len() == 0 {
        -1
    } else if types.last().name@ == name {
        types.len() - 1
    } else {
        last_type_named(types.drop_last(), name)
    }
}

/// Symbol map after registering the variants `syms` of type `tid`.
pub open spec fn register_symbols(m: Map<u32, (u32, u16)>, syms: Seq<u32>, tid: u32) -> Map<u32, (u32, u16)>
    decreases syms.len(),
{
    if syms.len() == 0 {
        m
    } else {
        register_symbols(m, syms.drop_last(), tid).insert(syms.last(), (tid, (syms.len() - 1) as u16))
    }
}

impl EnumRegistry {
    /// The registered types, by type id.
    pub closed spec fn types(&self) -> Seq<EnumType> {
        self.types@
    }

    /// The reverse symbol map.
    pub closed spec fn symbol_map(&self) -> Map<u32, (u32, u16)> {
        self.symbol_to_enum@
    }

    /// Type ids are positions.
    pub closed spec fn wf(&self) -> bool {
        forall|i: int| 0 <= i < self.types@.len() ==> (#[trigger] self.types@[i]).id == i
    }

    /// An empty registry.
    pub fn new() -> (r: Self)
        ensures
            r.wf(),
            r.types() == Seq::<EnumType>::empty(),
            r.symbol_map() == Map::<u32, (u32, u16)>::empty(),
    {
        EnumRegistry { types: Vec::new(), symbol_to_enum: HashMap::new() }
    }

    /// Registers a new enum type with its variant names; every variant is
    /// interned as a qualified symbol ("EnumName.variant"). Returns the new
    /// type id.
    pub fn register(&mut self, name: &str, variant_names: &[String], symbols: &mut SymbolTable) -> (r: u32)
        requires
            old(self).wf(),
            variant_names@.len() <= MAX_VARIANTS_PER_ENUM,
            old(self).types().len() < u32::MAX,
            old(symbols)@.len() + variant_names@.len() < u32::MAX,
        ensures
            final(self).wf(),
            r == old(self).types().len(),
            final(self).types().len() == old(self).types().len() + 1,
            final(self).types().drop_last() == old(self).types(),
            final(self).types().last().id == r,
            final(self).types().last().name@ == name@,
            final(self).types().last().variants@.len() == variant_names@.len(),
            forall|i: int| 0 <= i < variant_names@.len() ==> {
                &&& (#[trigger] final(self).types().last().variants@[i]).0@ == variant_names@[i]@
                &&& (final(self).types().last().variants@[i].1 as int) < final(symbols)@.len()
                &&& final(symbols)@[final(self).types().last().variants@[i].1 as int]
                    == spec_qualified_name(name@, variant_names@[i]@)
            },
            final(self).symbol_map() == register_symbols(
                old(self).symbol_map(),
                final(self).types().last().variants@.map_values(|p: (String, u32)| p.1),
                r,
            ),
            old(symbols)@.len() <= final(symbols)@.len(),
            final(symbols)@.len() <= old(symbols)@.len() + variant_names@.len(),
            forall|j: int| 0 <= j < old(symbols)@.len() ==> final(symbols)@[j] == old(symbols)@[j],
    {
        let type_id = self.types.len() as u32;
        let mut variants: Vec<(String, u32)> = Vec::new();
        let mut i: usize = 0;
        while i < variant_names.len()
            invariant
                i <= variant_names@.len(),
                variant_names@.len() <= MAX_VARIANTS_PER_ENUM,
                old(symbols)@.len() + variant_names@.len() < u32::MAX,
                old(symbols)@.len() <= symbols@.len() <= old(symbols)@.len() + i,
                forall|j: int| 0 <= j < old(symbols)@.len() ==> symbols@[j] == old(symbols)@[j],
                variants@.len() == i,
                forall|j: int| 0 <= j < i ==> {
                    &&& (#[trigger] variants@[j]).0@ == variant_names@[j]@
                    &&& (variants@[j].1 as int) < symbols@.len()
                    &&& symbols@[variants@[j].1 as int] == spec_qualified_name(name@, variant_names@[j]@)
                },
                self.symbol_to_enum@ == register_symbols(
                    old(self).symbol_map(),
                    variants@.map_values(|p: (String, u32)| p.1),
                    type_id,
                ),
                self.types@ == old(self).types@,
                type_id == old(self).types().len(),
            decreases variant_names@.len() - i,
        {
            let qname = qualified_name(name, variant_names[i].as_str());
            let ghost before = symbols@;
            let symbol_id = symbols.intern(qname.as_str());
            let ghost old_syms = variants@.map_values(|p: (String, u32)| p.1);
            self.symbol_to_enum.insert(symbol_id, (type_id, i as u16));
            variants.push((variant_names[i].clone(), symbol_id));
            assert(variants@.map_values(|p: (String, u32)| p.1) =~= old_syms.push(symbol_id));
            assert(variants@.map_values(|p: (String, u32)| p.1).drop_last() =~= old_syms);
            i = i + 1;
        }
        let ety = EnumType { id: type_id, name: name.to_owned(), variants };
        self.types.push(ety);
        assert(self.types@.drop_last() =~= old(self).types@);
        type_id
    }

    /// Number of registered types.
    pub fn num_types(&self) -> (r: usize)
        ensures
            r == self.types().len(),
    {
        self.types.len()
    }

    /// The type with id `id`.
    pub fn get_type(&self, id: u32) -> (r: Option<&EnumType>)
        ensures
            (id as int) < self.types().len() ==> r == Some(&self.types()[id as int]),
            (id as int) >= self.types().len() ==> r.is_none(),
    {
        if (id as usize) < self.types.len() {
            Some(&self.types[id as usize])
        } else {
            None
        }
    }

    /// The type registered last under `name`.
    pub fn find_by_name(&self, name: &str) -> (r: Option<&EnumType>)
        ensures
            last_type_named(self.types(), name@) < 0 ==> r.is_none(),
            last_type_named(self.types(), name@) >= 0 ==> r == Some(&self.types()[last_type_named(self.types(), name@)]),
    {
        let mut i: usize = self.types.len();
        assert(self.types@.subrange(0, i as int) =~= self.types@);
        while i > 0
            invariant
                i <= self.types@.len(),
                last_type_named(self.types@, name@) == last_type_named(self.types@.subrange(0, i as int), name@),
            decreases i,
        {
            let ghost pre = self.types@.subrange(0, i as int);
            if str_equal(self.types[i - 1].name.as_str(), name) {
                assert(pre.last() == self.types@[i - 1]);
                return Some(&self.types[i - 1]);
            }
            assert(pre.drop_last() =~= self.types@.subrange(0, i - 1));
            i = i - 1;
        }
        None
    }

    /// Reverse lookup: the enum type and variant index of a symbol.
    pub fn lookup_symbol(&self, symbol_id: u32) -> (r: Option<(u32, u16)>)
        ensures
            self.symbol_map().contains_key(symbol_id) ==> r == Some(self.symbol_map()[symbol_id]),
            !self.symbol_map().contains_key(symbol_id) ==> r.is_none(),
    {
        match self.symbol_to_enum.get(&symbol_id) {
            Some(p) => Some(*p),
            None => None,
        }
    }

    /// Formats a symbol as "EnumName.variant" (the name it was interned
    /// under) if it belongs to an enum; `None` for any other symbol.
    pub fn format_symbol(&self, symbol_id: u32, symbols: &SymbolTable) -> (r: Option<String>)
        ensures
            r is Some <==> self.symbol_map().contains_key(symbol_id) && (symbol_id as int) < symbols@.len(),
            r matches Some(s) ==> s@ == symbols@[symbol_id as int],
    {
        match self.lookup_symbol(symbol_id) {
            Some(_) => match symbols.resolve(symbol_id) {
                Some(s) => Some(s.to_owned()),
                None => None,
            },
            None => None,
        }
    }
}

} // verus!
