//! Errors reported by the passes and the interpreter.

use vstd::prelude::*;
use crate::ids::Id;

verus! {

/// An error found in a Calyx program.
#[derive(Debug)]
pub enum Error {
    /// A name that the program uses but does not define.
    Undefined(Id),
    /// A group defined twice.
    DuplicateGroup(Id),
    /// A group that the program uses but does not define.
    UndefinedGroup(Id),
    /// A port that its cell or group does not have.
    UndefinedPort(Id, Id),
    /// A primitive that the library does not define.
    UndefinedPrimitive(Id),
    /// A control statement of a shape that the pass cannot compile.
    MalformedControl(String),
    /// A common mistake that synthesis tools would not report.
    Papercut(String, Id),
    /// A latency annotation that differs from the inferred latency:
    /// the group, its annotation and the inferred latency.
    ImpossibleLatencyAnnotation(String, u64, u64),
}

/// The kind of an error, with the names it carries; `AnyUndefinedPort`
/// stands for an `UndefinedPort` error whatever its names.
pub enum ErrorModel {
    Undefined(Seq<char>),
    DuplicateGroup(Seq<char>),
    UndefinedGroup(Seq<char>),
    AnyUndefinedPort,
    UndefinedPrimitive(Seq<char>),
    MalformedControl(Seq<char>),
    Papercut(Seq<char>, Seq<char>),
    ImpossibleLatencyAnnotation(Seq<char>, u64, u64),
}

/// Whether an error is of the given kind and carries the given names.
pub open spec fn error_matches(e: Error, m: ErrorModel) -> bool {
    match (e, m) {
        (Error::Undefined(a), ErrorModel::Undefined(b)) => a@ == b,
        (Error::DuplicateGroup(a), ErrorModel::DuplicateGroup(b)) => a@ == b,
        (Error::UndefinedGroup(a), ErrorModel::UndefinedGroup(b)) => a@ == b,
        (Error::UndefinedPort(_, _), ErrorModel::AnyUndefinedPort) => true,
        (Error::UndefinedPrimitive(a), ErrorModel::UndefinedPrimitive(b)) => a@ == b,
        (Error::MalformedControl(a), ErrorModel::MalformedControl(b)) => a@ == b,
        (Error::Papercut(a, x), ErrorModel::Papercut(b, y)) => a@ == b && x@ == y,
        (
            Error::ImpossibleLatencyAnnotation(a, x, y),
            ErrorModel::ImpossibleLatencyAnnotation(b, u, v),
        ) => a@ == b && x == u && y == v,
        _ => false,
    }
}

} // verus!
