//! Struct types and instances referenced by struct values.

use vstd::prelude::*;
use crate::value::Value;
use crate::text::str_equal;

verus! {

/// A struct type: its name, field names in declaration order, the default
/// of each field (`None` for a required field; fields past the list are
/// required), the names of its methods (the method objects are held by the
/// host), those of its methods that are VM functions (name and function id:
/// `init`, operator methods such as `op_add`), and its method resolution
/// order (most specific first).
#[derive(Debug)]
pub struct StructType {
    pub name: String,
    pub fields: Vec<String>,
    pub defaults: Vec<Option<Value>>,
    pub methods: Vec<String>,
    pub vm_methods: Vec<(String, u32)>,
    pub mro: Vec<String>,
}

/// The function of the first VM method named `name`, if any.
pub open spec fn method_lookup(methods: Seq<(Seq<char>, u32)>, name: Seq<char>) -> Option<u32>
    decreases methods.len(),
{
    if methods.len() == 0 {
        None
    } else if methods[0].0 == name {
        Some(methods[0].1)
    } else {
        method_lookup(methods.drop_first(), name)
    }
}

/// The view of VM methods held as strings.
pub open spec fn methods_view(m: Seq<(String, u32)>) -> Seq<(Seq<char>, u32)> {
    m.map_values(|p: (String, u32)| (p.0@, p.1))
}

/// The function of the first VM method named `name`.
pub fn find_method(methods: &Vec<(String, u32)>, name: &str) -> (r: Option<u32>)
    ensures
        r == method_lookup(methods_view(methods@), name@),
{
    let ghost all = methods_view(methods@);
    let mut i: usize = 0;
    assert(all.subrange(0, all.len() as int) =~= all);
    while i < methods.len()
        invariant
            i <= methods@.len(),
            all == methods_view(methods@),
            method_lookup(all, name@) == method_lookup(all.subrange(i as int, all.len() as int), name@),
        decreases methods@.len() - i,
    {
        let ghost rest = all.subrange(i as int, all.len() as int);
        assert(rest.drop_first() =~= all.subrange(i + 1, all.len() as int));
        if str_equal(methods[i].0.as_str(), name) {
            return Some(methods[i].1);
        }
        i = i + 1;
    }
    None
}

/// A struct instance: its type and field values.
#[derive(Debug)]
pub struct StructInstance {
    pub type_id: u32,
    pub fields: Vec<Value>,
}

/// Index of the first field named `name`, or -1.
pub open spec fn field_index_from(fields: Seq<Seq<char>>, name: Seq<char>, from: int) -> int
    decreases fields.len() - from,
{
    if from < 0 || from >= fields.len() {
        -1
    } else if fields[from] == name {
        from
    } else {
        field_index_from(fields, name, from + 1)
    }
}

impl StructType {
    /// Field names.
    pub open spec fn field_names(&self) -> Seq<Seq<char>> {
        self.fields@.map_values(|s: String| s@)
    }

    /// Position of the field named `name`.
    pub open spec fn spec_field_index(&self, name: Seq<char>) -> Option<int> {
        let i = field_index_from(self.field_names(), name, 0);
        if i < 0 { None } else { Some(i) }
    }

    /// Position of the field named `name`, if any.
    pub fn field_index(&self, name: &str) -> (r: Option<usize>)
        ensures
            r matches Some(i) ==> self.spec_field_index(name@) == Some(i as int) && i < self.fields@.len(),
            r is None ==> self.spec_field_index(name@) is None,
    {
        let mut i: usize = 0;
        while i < self.fields.len()
            invariant
                i <= self.fields@.len(),
                field_index_from(self.field_names(), name@, 0) == field_index_from(self.field_names(), name@, i as int),
            decreases self.fields@.len() - i,
        {
            if str_equal(self.fields[i].as_str(), name) {
                assert(self.field_names()[i as int] == name@);
                return Some(i);
            }
            i = i + 1;
        }
        None
    }
}

/// Index of the first type named `name` at or after `t` among `names`, or -1.
pub open spec fn first_named(names: Seq<Seq<char>>, name: Seq<char>, t: int) -> int
    decreases names.len() - t,
{
    if t < 0 || t >= names.len() {
        -1
    } else if names[t] == name {
        t
    } else {
        first_named(names, name, t + 1)
    }
}

proof fn lemma_first_named_skip(names: Seq<Seq<char>>, name: Seq<char>, from: int, to: int)
    requires
        0 <= from <= to <= names.len(),
        forall|u: int| from <= u < to ==> names[u] != name,
    ensures
        first_named(names, name, from) == first_named(names, name, to),
    decreases to - from,
{
    if from < to {
        lemma_first_named_skip(names, name, from + 1, to);
    }
}

/// The registry of struct types and live instances.
#[derive(Debug)]
pub struct StructRegistry {
    types: Vec<StructType>,
    instances: Vec<StructInstance>,
}

impl StructRegistry {
    pub closed spec fn num_types(&self) -> nat {
        self.types@.len()
    }

    pub closed spec fn num_instances(&self) -> nat {
        self.instances@.len()
    }

    /// Name of type `t`.
    pub closed spec fn name_of_type(&self, t: int) -> Seq<char> {
        self.types@[t].name@
    }

    /// Field names of type `t`.
    pub closed spec fn type_fields(&self, t: int) -> Seq<Seq<char>> {
        self.types@[t].field_names()
    }

    /// The type names, by type id.
    pub closed spec fn type_names(&self) -> Seq<Seq<char>> {
        self.types@.map_values(|t: StructType| t.name@)
    }

    /// Method names of type `t`.
    pub closed spec fn type_methods(&self, t: int) -> Seq<Seq<char>> {
        self.types@[t].methods@.map_values(|s: String| s@)
    }

    /// Method resolution order of type `t`.
    pub closed spec fn type_mro(&self, t: int) -> Seq<Seq<char>> {
        self.types@[t].mro@.map_values(|s: String| s@)
    }

    /// Field defaults of type `t`.
    pub closed spec fn type_defaults(&self, t: int) -> Seq<Option<Value>> {
        self.types@[t].defaults@
    }

    /// The VM methods of type `t`.
    pub closed spec fn type_vm_methods(&self, t: int) -> Seq<(Seq<char>, u32)> {
        methods_view(self.types@[t].vm_methods@)
    }

    /// Type `t` is the same in both registries.
    pub open spec fn same_type(&self, other: StructRegistry, t: int) -> bool {
        &&& self.name_of_type(t) == other.name_of_type(t)
        &&& self.type_fields(t) == other.type_fields(t)
        &&& self.type_methods(t) == other.type_methods(t)
        &&& self.type_mro(t) == other.type_mro(t)
        &&& self.type_defaults(t) == other.type_defaults(t)
        &&& self.type_vm_methods(t) == other.type_vm_methods(t)
    }

    /// Type of instance `i`.
    pub closed spec fn instance_type(&self, i: int) -> u32 {
        self.instances@[i].type_id
    }

    /// Field values of instance `i`.
    pub closed spec fn instance_fields(&self, i: int) -> Seq<Value> {
        self.instances@[i].fields@
    }

    /// Every instance has a registered type and one value per field.
    pub closed spec fn wf(&self) -> bool {
        &&& self.types@.len() <= u32::MAX
        &&& forall|i: int| 0 <= i < self.instances@.len() ==> {
            &&& (#[trigger] self.instances@[i]).type_id < self.types@.len()
            &&& self.instances@[i].fields@.len() == self.types@[self.instances@[i].type_id as int].fields@.len()
        }
    }

    /// An empty registry.
    pub fn new() -> (r: StructRegistry)
        ensures
            r.wf(),
            r.num_types() == 0,
            r.num_instances() == 0,
    {
        StructRegistry { types: Vec::new(), instances: Vec::new() }
    }

    /// Registers a struct type; returns its id.
    pub fn register_type(
        &mut self,
        name: String,
        fields: Vec<String>,
        defaults: Vec<Option<Value>>,
        methods: Vec<String>,
        vm_methods: Vec<(String, u32)>,
        mro: Vec<String>,
    ) -> (r: u32)
        requires
            old(self).wf(),
            old(self).num_types() < u32::MAX,
        ensures
            final(self).wf(),
            r == old(self).num_types(),
            final(self).num_types() == old(self).num_types() + 1,
            final(self).num_instances() == old(self).num_instances(),
            final(self).name_of_type(r as int) == name@,
            final(self).type_fields(r as int) == fields@.map_values(|s: String| s@),
            final(self).type_methods(r as int) == methods@.map_values(|s: String| s@),
            final(self).type_mro(r as int) == mro@.map_values(|s: String| s@),
            final(self).type_defaults(r as int) == defaults@,
            final(self).type_vm_methods(r as int) == methods_view(vm_methods@),
            forall|t: int| 0 <= t < old(self).num_types() ==> final(self).same_type(*old(self), t),
            forall|i: int| 0 <= i < old(self).num_instances() ==> final(self).instance_type(i) == old(self).instance_type(i)
                && final(self).instance_fields(i) == old(self).instance_fields(i),
    {
        let id = self.types.len();
        self.types.push(StructType { name, fields, defaults, methods, vm_methods, mro });
        assert forall|i: int| 0 <= i < self.instances@.len() implies {
            &&& (#[trigger] self.instances@[i]).type_id < self.types@.len()
            &&& self.instances@[i].fields@.len() == self.types@[self.instances@[i].type_id as int].fields@.len()
        } by {
            assert(old(self).instances@[i] == self.instances@[i]);
        }
        id as u32
    }

    /// Creates an instance of type `type_id`; returns its slot.
    pub fn create_instance(&mut self, type_id: u32, fields: Vec<Value>) -> (r: u32)
        requires
            old(self).wf(),
            (type_id as int) < old(self).num_types(),
            fields@.len() == old(self).type_fields(type_id as int).len(),
            old(self).num_instances() < u32::MAX,
        ensures
            final(self).wf(),
            r == old(self).num_instances(),
            final(self).num_instances() == old(self).num_instances() + 1,
            final(self).num_types() == old(self).num_types(),
            final(self).instance_type(r as int) == type_id,
            final(self).instance_fields(r as int) == fields@,
            forall|t: int| 0 <= t < old(self).num_types() ==> final(self).same_type(*old(self), t),
            forall|i: int| 0 <= i < old(self).num_instances() ==> final(self).instance_type(i) == old(self).instance_type(i)
                && final(self).instance_fields(i) == old(self).instance_fields(i),
    {
        let idx = self.instances.len();
        self.instances.push(StructInstance { type_id, fields });
        idx as u32
    }

    /// The type with id `type_id`.
    pub fn get_type(&self, type_id: u32) -> (r: Option<&StructType>)
        ensures
            (type_id as int) < self.num_types() ==> (r matches Some(t) && t.name@ == self.name_of_type(type_id as int)
                && t.field_names() == self.type_fields(type_id as int)
                && t.methods@.map_values(|s: String| s@) == self.type_methods(type_id as int)
                && t.mro@.map_values(|s: String| s@) == self.type_mro(type_id as int)
                && t.defaults@ == self.type_defaults(type_id as int)
                && methods_view(t.vm_methods@) == self.type_vm_methods(type_id as int)),
            (type_id as int) >= self.num_types() ==> r is None,
    {
        if (type_id as usize) < self.types.len() {
            Some(&self.types[type_id as usize])
        } else {
            None
        }
    }

    /// The instance in slot `idx`.
    pub fn instance(&self, idx: u32) -> (r: Option<&StructInstance>)
        ensures
            (idx as int) < self.num_instances() ==> (r matches Some(inst) && inst.type_id == self.instance_type(idx as int)
                && inst.fields@ == self.instance_fields(idx as int)),
            (idx as int) >= self.num_instances() ==> r is None,
    {
        if (idx as usize) < self.instances.len() {
            Some(&self.instances[idx as usize])
        } else {
            None
        }
    }

    /// Sets field `field` of instance `idx`.
    pub fn set_field(&mut self, idx: u32, field: usize, value: Value)
        requires
            old(self).wf(),
            (idx as int) < old(self).num_instances(),
            field < old(self).instance_fields(idx as int).len(),
        ensures
            final(self).wf(),
            final(self).num_instances() == old(self).num_instances(),
            final(self).num_types() == old(self).num_types(),
            final(self).instance_fields(idx as int) == old(self).instance_fields(idx as int).update(field as int, value),
            forall|t: int| 0 <= t < old(self).num_types() ==> final(self).same_type(*old(self), t),
            forall|i: int| 0 <= i < old(self).num_instances() ==> final(self).instance_type(i) == old(self).instance_type(i),
            forall|i: int| 0 <= i < old(self).num_instances() && i != idx ==> final(self).instance_fields(i) == old(self).instance_fields(i),
    {
        let mut inst = StructInstance { type_id: 0, fields: Vec::new() };
        std::mem::swap(&mut inst, &mut self.instances[idx as usize]);
        inst.fields.set(field, value);
        self.instances.set(idx as usize, inst);
        assert forall|i: int| 0 <= i < self.instances@.len() implies {
            &&& (#[trigger] self.instances@[i]).type_id < self.types@.len()
            &&& self.instances@[i].fields@.len() == self.types@[self.instances@[i].type_id as int].fields@.len()
        } by {
            if i != idx {
                assert(self.instances@[i] == old(self).instances@[i]);
            }
        }
    }

    /// The id of the first type named `name`.
    pub fn find_type_by_name(&self, name: &str) -> (r: Option<u32>)
        requires
            self.wf(),
        ensures
            r matches Some(t) ==> t as int == first_named(self.type_names(), name@, 0),
            r is None ==> first_named(self.type_names(), name@, 0) == -1,
            r matches Some(t) ==> (t as int) < self.num_types() && self.name_of_type(t as int) == name@
                && forall|u: int| 0 <= u < t ==> self.name_of_type(u) != name@,
            r is None ==> forall|u: int| 0 <= u < self.num_types() ==> self.name_of_type(u) != name@,
    {
        let mut i: usize = 0;
        assert(self.types@.len() <= u32::MAX);
        while i < self.types.len()
            invariant
                i <= self.types@.len(),
                self.types@.len() <= u32::MAX,
                forall|u: int| 0 <= u < i ==> self.types@[u].name@ != name@,
            decreases self.types@.len() - i,
        {
            if str_equal(self.types[i].name.as_str(), name) {
                proof {
                    lemma_first_named_skip(self.type_names(), name@, 0, i as int);
                }
                return Some(i as u32);
            }
            i = i + 1;
        }
        proof {
            lemma_first_named_skip(self.type_names(), name@, 0, self.types@.len() as int);
        }
        None
    }

    /// Number of types.
    pub fn num_types_exec(&self) -> (r: usize)
        ensures
            r == self.num_types(),
    {
        self.types.len()
    }

    /// Number of instances.
    pub fn num_instances_exec(&self) -> (r: usize)
        ensures
            r == self.num_instances(),
    {
        self.instances.len()
    }

    /// An instance of a well-formed registry has a registered type and one
    /// value per field of it.
    pub proof fn lemma_instance(&self, i: int)
        requires
            self.wf(),
            0 <= i < self.num_instances(),
        ensures
            (self.instance_type(i) as int) < self.num_types(),
            self.instance_fields(i).len() == self.type_fields(self.instance_type(i) as int).len(),
    {
        assert(self.instances@[i].type_id < self.types@.len());
    }

    /// Type `t`'s entry of `type_names`.
    pub proof fn lemma_type_names(&self, t: int)
        requires
            0 <= t < self.num_types(),
        ensures
            self.type_names()[t] == self.name_of_type(t),
            self.type_names().len() == self.num_types(),
    {
    }
}

} // verus!
