//! Calyx: the primitive cells of the interpreter, its update queue, and a
//! handful of compiler passes over the Calyx intermediate representation.

pub mod assoc;
pub mod ast;
pub mod environment;
pub mod errors;
pub mod ids;
pub mod ir;
pub mod passes;
pub mod primitive_laws;
pub mod primitives;
pub mod structure;
pub mod update;
pub mod values;
