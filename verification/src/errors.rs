//! The two error classes of the engine: user-visible language errors,
//! which propagate through the `Throw` completion path, and internal
//! consistency faults, which indicate a defect in the compiler or the
//! virtual machine itself and short-circuit execution entirely.

use vstd::prelude::*;

verus! {

/// A user-visible language error. These must reach the embedding program
/// through the normal `Throw` completion path, never abort the process.
#[derive(Debug, Clone, Copy, PartialEq, Eq, Structural)]
pub enum JsError {
    /// The target of a construction does not support the construction
    /// protocol.
    NotConstructible,
    /// An incompatible redeclaration of a binding name within one scope.
    DuplicateDeclaration,
}

/// An internal consistency fault: a defect of the compiler or of the
/// virtual machine, never of the user's program. A fault is a distinguished
/// signal, separate from a language exception, and stops execution.
#[derive(Debug, Clone, Copy, PartialEq, Eq, Structural)]
pub enum InternalFault {
    /// A scope pop without a matching push: the root scope cannot be popped.
    UnbalancedScopePop,
    /// An operand-stack pop on an empty stack.
    StackUnderflow,
    /// The instruction stream ended inside an opcode's operands.
    TruncatedBytecode,
    /// A tag byte that names no opcode.
    UnknownOpcode,
    /// A jump-table selector that is not a small non-negative integer.
    InvalidJumpTableSelector,
    /// A spread-construction arguments value that is not an object.
    SpreadArgumentsNotAnObject,
}

/// The failure of resolving an assignment target: the name was found but
/// names an immutable binding. "Not found" is not an error; it yields an
/// unresolved locator so the caller can fall back to the global object.
#[derive(Debug, Clone, Copy, PartialEq, Eq, Structural)]
pub enum BindingLocatorError {
    /// The binding was created in strict code: the assignment must throw.
    MutateImmutable,
    /// The binding was created in non-strict code: the assignment is
    /// silently ignored.
    Silent,
}

} // verus!
