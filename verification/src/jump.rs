//! The control-flow opcode family.
//!
//! Every address operand is a little-endian 32-bit byte offset into the
//! instruction stream. Truncated operands, an underflowing operand stack
//! and an invalid jump-table selector are defects of the compiler, not of
//! the user's program: each is checked defensively and reported as an
//! internal fault that leaves the frame unchanged.

use vstd::prelude::*;

use crate::errors::InternalFault;
use crate::value::{truthy, JsValue};
use crate::vm::{le32_at, operands_ok, read_u32_at, CompletionType, Vm, VmView};

verus! {

/// The exact contract of `Jump`: the program counter becomes exactly the
/// encoded address, independent of the operand stack, which is untouched.
pub open spec fn jump_post(pre: VmView, post: VmView, r: CompletionType) -> bool {
    if operands_ok(pre, 4) {
        &&& post.code == pre.code
        &&& post.stack == pre.stack
        &&& post.pc == le32_at(pre.code, pre.pc)
        &&& r == CompletionType::Normal
    } else {
        post == pre && r == CompletionType::Fault(InternalFault::TruncatedBytecode)
    }
}

/// The exact contract of `JumpIfTrue` (`jump_if` true) and `JumpIfFalse`
/// (`jump_if` false): one value is popped and coerced by truthiness; the
/// jump is taken when the coercion matches the opcode's polarity; the
/// popped value is consumed in both branches.
pub open spec fn conditional_jump_post(
    pre: VmView,
    post: VmView,
    r: CompletionType,
    jump_if: bool,
) -> bool {
    if !operands_ok(pre, 4) {
        post == pre && r == CompletionType::Fault(InternalFault::TruncatedBytecode)
    } else if pre.stack.len() == 0 {
        post == pre && r == CompletionType::Fault(InternalFault::StackUnderflow)
    } else {
        &&& post.code == pre.code
        &&& post.stack == pre.stack.drop_last()
        &&& post.pc == if truthy(pre.stack.last()) == jump_if {
            le32_at(pre.code, pre.pc)
        } else {
            pre.pc + 4
        }
        &&& r == CompletionType::Normal
    }
}

/// The exact contract of `JumpIfNotUndefined`: pop a value; when it is
/// not exactly `undefined`, jump and push it back (a non-destructive
/// peek-and-branch); when it is `undefined`, fall through with the value
/// consumed.
pub open spec fn jump_if_not_undefined_post(pre: VmView, post: VmView, r: CompletionType) -> bool {
    if !operands_ok(pre, 4) {
        post == pre && r == CompletionType::Fault(InternalFault::TruncatedBytecode)
    } else if pre.stack.len() == 0 {
        post == pre && r == CompletionType::Fault(InternalFault::StackUnderflow)
    } else {
        &&& post.code == pre.code
        &&& r == CompletionType::Normal
        &&& if pre.stack.last() is Undefined {
            post.stack == pre.stack.drop_last() && post.pc == pre.pc + 4
        } else {
            post.stack == pre.stack && post.pc == le32_at(pre.code, pre.pc)
        }
    }
}

/// The exact contract of `JumpIfNullOrUndefined`: pop a value; when it is
/// `null` or `undefined`, jump with the value discarded; otherwise push
/// it back and fall through — the mirror image of `JumpIfNotUndefined`.
pub open spec fn jump_if_null_or_undefined_post(
    pre: VmView,
    post: VmView,
    r: CompletionType,
) -> bool {
    if !operands_ok(pre, 4) {
        post == pre && r == CompletionType::Fault(InternalFault::TruncatedBytecode)
    } else if pre.stack.len() == 0 {
        post == pre && r == CompletionType::Fault(InternalFault::StackUnderflow)
    } else {
        &&& post.code == pre.code
        &&& r == CompletionType::Normal
        &&& if pre.stack.last() is Null || pre.stack.last() is Undefined {
            post.stack == pre.stack.drop_last() && post.pc == le32_at(pre.code, pre.pc)
        } else {
            post.stack == pre.stack && post.pc == pre.pc + 4
        }
    }
}

/// Whether the whole jump table — default address, case count, and all
/// case addresses — lies inside the instruction stream.
pub open spec fn jump_table_reads_ok(pre: VmView) -> bool {
    &&& operands_ok(pre, 8)
    &&& pre.pc + 8 + 4 * le32_at(pre.code, pre.pc + 4) <= pre.code.len()
}

/// The target of a jump table at `pc`: the case address at the one-based
/// `selector` when it is in range, the default address otherwise.
pub open spec fn jump_table_target(code: Seq<u8>, pc: int, selector: int) -> int {
    let count = le32_at(code, pc + 4);
    if 1 <= selector <= count {
        le32_at(code, pc + 8 + 4 * (selector - 1))
    } else {
        le32_at(code, pc)
    }
}

/// The exact contract of `JumpTable`: read a default address and a case
/// count, pop a selector — which the compiler guarantees is a small
/// non-negative integer, so anything else is a fatal internal fault —
/// consume all case addresses, and jump to the selected one or to the
/// default.
pub open spec fn jump_table_post(pre: VmView, post: VmView, r: CompletionType) -> bool {
    if !jump_table_reads_ok(pre) {
        post == pre && r == CompletionType::Fault(InternalFault::TruncatedBytecode)
    } else if pre.stack.len() == 0 {
        post == pre && r == CompletionType::Fault(InternalFault::StackUnderflow)
    } else if !(pre.stack.last() matches JsValue::Integer(s) && s >= 0) {
        post == pre && r == CompletionType::Fault(InternalFault::InvalidJumpTableSelector)
    } else {
        let selector = match pre.stack.last() {
            JsValue::Integer(s) => s as int,
            _ => 0,
        };
        &&& post.code == pre.code
        &&& post.stack == pre.stack.drop_last()
        &&& post.pc == jump_table_target(pre.code, pre.pc, selector)
        &&& r == CompletionType::Normal
    }
}

/// `Jump` implements the operation for the `Jump` opcode.
///
/// Operation:
///  - Unconditional jump to address.
pub struct Jump;

impl Jump {
    /// Read one address operand and set the program counter to it.
    pub fn execute(vm: &mut Vm) -> (r: CompletionType)
        ensures
            jump_post(old(vm)@, final(vm)@, r),
    {
        if vm.pc > vm.code.len() || vm.code.len() - vm.pc < 4 {
            return CompletionType::Fault(InternalFault::TruncatedBytecode);
        }
        let address = read_u32_at(&vm.code, vm.pc);
        vm.pc = address as usize;
        CompletionType::Normal
    }
}

/// `JumpIfTrue` implements the operation for the `JumpIfTrue` opcode.
///
/// Operation:
///  - Conditional jump to address.
pub struct JumpIfTrue;

impl JumpIfTrue {
    /// Pop one value and jump when its truthiness coercion is true.
    pub fn execute(vm: &mut Vm) -> (r: CompletionType)
        ensures
            conditional_jump_post(old(vm)@, final(vm)@, r, true),
    {
        if vm.pc > vm.code.len() || vm.code.len() - vm.pc < 4 {
            return CompletionType::Fault(InternalFault::TruncatedBytecode);
        }
        if vm.stack.len() == 0 {
            return CompletionType::Fault(InternalFault::StackUnderflow);
        }
        let address = read_u32_at(&vm.code, vm.pc);
        vm.pc = vm.pc + 4;
        let value = match vm.pop() {
            Ok(value) => value,
            Err(fault) => {
                return CompletionType::Fault(fault);
            },
        };
        if value.to_boolean() {
            vm.pc = address as usize;
        }
        CompletionType::Normal
    }
}

/// `JumpIfFalse` implements the operation for the `JumpIfFalse` opcode.
///
/// Operation:
///  - Conditional jump to address.
pub struct JumpIfFalse;

impl JumpIfFalse {
    /// Pop one value and jump when its truthiness coercion is false.
    pub fn execute(vm: &mut Vm) -> (r: CompletionType)
        ensures
            conditional_jump_post(old(vm)@, final(vm)@, r, false),
    {
        if vm.pc > vm.code.len() || vm.code.len() - vm.pc < 4 {
            return CompletionType::Fault(InternalFault::TruncatedBytecode);
        }
        if vm.stack.len() == 0 {
            return CompletionType::Fault(InternalFault::StackUnderflow);
        }
        let address = read_u32_at(&vm.code, vm.pc);
        vm.pc = vm.pc + 4;
        let value = match vm.pop() {
            Ok(value) => value,
            Err(fault) => {
                return CompletionType::Fault(fault);
            },
        };
        if !value.to_boolean() {
            vm.pc = address as usize;
        }
        CompletionType::Normal
    }
}

/// `JumpIfNotUndefined` implements the operation for the
/// `JumpIfNotUndefined` opcode.
///
/// Operation:
///  - Conditional jump to address.
pub struct JumpIfNotUndefined;

impl JumpIfNotUndefined {
    /// Pop a value; when it is not exactly `undefined`, jump and push it
    /// back; otherwise fall through, the value consumed.
    pub fn execute(vm: &mut Vm) -> (r: CompletionType)
        ensures
            jump_if_not_undefined_post(old(vm)@, final(vm)@, r),
    {
        if vm.pc > vm.code.len() || vm.code.len() - vm.pc < 4 {
            return CompletionType::Fault(InternalFault::TruncatedBytecode);
        }
        if vm.stack.len() == 0 {
            return CompletionType::Fault(InternalFault::StackUnderflow);
        }
        let address = read_u32_at(&vm.code, vm.pc);
        vm.pc = vm.pc + 4;
        let value = match vm.pop() {
            Ok(value) => value,
            Err(fault) => {
                return CompletionType::Fault(fault);
            },
        };
        if !value.is_undefined() {
            vm.pc = address as usize;
            vm.push(value);
            proof {
                assert(vm@.stack =~= old(vm)@.stack);
            }
        }
        CompletionType::Normal
    }
}

/// `JumpIfNullOrUndefined` implements the operation for the
/// `JumpIfNullOrUndefined` opcode.
///
/// Operation:
///  - Conditional jump to address.
pub struct JumpIfNullOrUndefined;

impl JumpIfNullOrUndefined {
    /// Pop a value; when it is `null` or `undefined`, jump with the value
    /// discarded; otherwise push it back and fall through.
    pub fn execute(vm: &mut Vm) -> (r: CompletionType)
        ensures
            jump_if_null_or_undefined_post(old(vm)@, final(vm)@, r),
    {
        if vm.pc > vm.code.len() || vm.code.len() - vm.pc < 4 {
            return CompletionType::Fault(InternalFault::TruncatedBytecode);
        }
        if vm.stack.len() == 0 {
            return CompletionType::Fault(InternalFault::StackUnderflow);
        }
        let address = read_u32_at(&vm.code, vm.pc);
        vm.pc = vm.pc + 4;
        let value = match vm.pop() {
            Ok(value) => value,
            Err(fault) => {
                return CompletionType::Fault(fault);
            },
        };
        if value.is_null_or_undefined() {
            vm.pc = address as usize;
        } else {
            vm.push(value);
            proof {
                assert(vm@.stack =~= old(vm)@.stack);
            }
        }
        CompletionType::Normal
    }
}

/// `JumpTable` implements the operation for the `JumpTable` opcode.
///
/// Operation:
///  - Conditional jump to address.
pub struct JumpTable;

impl JumpTable {
    /// Read the default address and the case count, pop the selector, and
    /// consume all case addresses — even unused ones, to keep the counter
    /// aligned past the table — before jumping to the selected address,
    /// or to the default when the one-based selector is out of range.
    pub fn execute(vm: &mut Vm) -> (r: CompletionType)
        ensures
            jump_table_post(old(vm)@, final(vm)@, r),
    {
        if vm.pc > vm.code.len() || vm.code.len() - vm.pc < 8 {
            return CompletionType::Fault(InternalFault::TruncatedBytecode);
        }
        let default = read_u32_at(&vm.code, vm.pc);
        let count = read_u32_at(&vm.code, vm.pc + 4);
        let available = vm.code.len() - vm.pc - 8;
        if count as usize > available / 4 {
            return CompletionType::Fault(InternalFault::TruncatedBytecode);
        }
        if vm.stack.len() == 0 {
            return CompletionType::Fault(InternalFault::StackUnderflow);
        }
        let selector_value = vm.stack[vm.stack.len() - 1];
        match selector_value {
            JsValue::Integer(selector) => {
                if selector < 0 {
                    return CompletionType::Fault(InternalFault::InvalidJumpTableSelector);
                }
                let selector = selector as u32;
                let mut target = default;
                let mut i: u32 = 0;
                while i < count
                    invariant
                        i <= count,
                        vm@ == old(vm)@,
                        vm@.code.len() <= usize::MAX,
                        operands_ok(vm@, 8),
                        vm@.pc + 8 + 4 * (count as int) <= vm@.code.len(),
                        default as int == le32_at(vm@.code, vm@.pc),
                        count as int == le32_at(vm@.code, vm@.pc + 4),
                        target as int == if 1 <= selector as int && selector as int <= i as int {
                            le32_at(vm@.code, vm@.pc + 8 + 4 * (selector as int - 1))
                        } else {
                            le32_at(vm@.code, vm@.pc)
                        },
                    decreases count - i,
                {
                    let address = read_u32_at(&vm.code, vm.pc + 8 + 4 * (i as usize));
                    if i + 1 == selector {
                        target = address;
                    }
                    i += 1;
                }
                let _ = vm.pop();
                vm.pc = target as usize;
                CompletionType::Normal
            },
            _ => CompletionType::Fault(InternalFault::InvalidJumpTableSelector),
        }
    }
}

} // verus!
