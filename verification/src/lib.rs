//! Core of a bytecode execution engine for a dynamic language runtime:
//! a compile-time lexical-scope resolver that turns nested scopes into
//! statically resolved binding slots, and a stack-based instruction
//! interpreter with exact control-flow and object-construction semantics.
//!
//! The scope resolver ([`scope`]) maintains a stack-disciplined tree of
//! scope records in an index-addressed arena and answers binding queries
//! with immutable locators. The interpreter ([`vm`], [`jump`], [`new`])
//! dispatches width-polymorphic instructions over an execution frame of
//! program counter and operand stack; the out-of-scope host/object layer
//! is reached only through narrow capability interfaces on [`value`].

pub mod errors;
pub mod jump;
pub mod new;
pub mod scope;
pub mod value;
pub mod vm;
