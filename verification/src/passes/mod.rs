//! Compiler passes over Calyx programs.

pub mod add_read_wire;
pub mod compile_control;
pub mod compile_control_laws;
pub mod infer_static_timing;
pub mod synthesis_papercut;
pub mod visitor;
