//! Verified core of the Catnip bytecode virtual machine: values, errors,
//! frames, closure scopes, enum registry, pattern matching and dispatch.

pub mod text;
pub mod value;
pub mod error;
pub mod pattern;
pub mod frame;
pub mod ordmap;
pub mod scope;
pub mod enums;
pub mod ops;
pub mod structs;
pub mod step;
pub mod vm;
pub mod blocks;
pub mod namespaces;
pub mod instantiate;
pub mod overload;
pub mod methods;
pub mod method_maps;
pub mod definitions;
pub mod typecheck;
pub mod nominal;
pub mod debugger;
pub mod laws;
