# catnip_vm_core

The core of the Catnip bytecode virtual machine, written in Verus: the value
model, exceptions, frames and their frame pool, closure scopes, the enum and
struct registries, pattern matching, the arithmetic the VM does on its own
values, and the interpreter for the instructions listed below.

The interpreter does not hold the instructions that define structs, traits
and unions (`MakeStruct`, `MakeTrait`, `MakeUnion`), the typed checks
other than `CheckComposite` and `CheckNominal` (`CheckType`, `CheckUnion`,
`CheckCallable`, `CheckGeneric`), broadcasting (`Broadcast`) and the ND
instructions (`NdRecursion`, `NdMap`, `NdEmptyTopos`): struct types are
registered through `StructRegistry::register_type` by the embedding
program. `VM::collect_method_maps` builds the method maps a struct or trait
definition needs.

The host gives each of its objects one handle (`Value::Obj`), so `is` on
two host objects compares handles.

The interpreter is a state machine. `VM::step` runs one instruction; when an
instruction needs the host (a Python object, a big integer, a float, I/O), it
stops with `Outcome::Host(request)` and waits. The host performs the request
and hands the answer back with `VM::answer`, and the run goes on. Every
function of the library carries a contract that Verus checks.

Layout:

- `src/value.rs`, `src/error.rs`, `src/text.rs`: values, exceptions and the
  texts of error messages.
- `src/frame.rs`, `src/scope.rs`, `src/ordmap.rs`: frames, closure scopes
  and the insertion-ordered name maps they use.
- `src/ops.rs`, `src/pattern.rs`, `src/enums.rs`, `src/structs.rs`: native
  arithmetic, pattern matching, enum symbols and struct instances.
- `src/step.rs`: what each instruction does to its frame.
- `src/vm.rs`: the machine: calls, names, attributes, exceptions across
  frames, the host protocol.
- `src/blocks.rs`, `src/namespaces.rs`, `src/instantiate.rs`,
  `src/overload.rs`, `src/methods.rs`, `src/definitions.rs`: module-level
  blocks, `globals()` and `locals()`, calling struct types, operator methods
  of structs, method calls on a receiver, and enum definitions.
- `src/method_maps.rs`, `src/typecheck.rs`, `src/nominal.rs`: the method
  maps of a struct or trait definition, and the boundary checks of
  container-typed and nominally typed parameters.
- `src/debugger.rs`: breakpoints and stepping: whether to pause after an
  instruction, and the step mode the host answers a pause with. While a
  debugger is attached the embedding program runs the VM one step at a
  time.
- `src/laws.rs`: properties that span several operations.
- `app/`: the Python host, which answers the VM's requests through pyo3.
- `tests/`: tests of the library on concrete programs.
