//! The construction opcode family.
//!
//! Arguments are evaluated and pushed left to right, so collecting them by
//! popping reverses them; that reversal is undone before the construction
//! protocol is invoked, keeping the observable evaluation order of
//! side-effecting argument expressions. The construction protocol itself
//! belongs to the host's object layer: the opcodes hand it a
//! [`ConstructRequest`] through the completion signal, and the driver
//! pushes the constructed value before resuming.

use vstd::prelude::*;

use crate::errors::{InternalFault, JsError};
use crate::value::{as_constructor_spec, JsValue};
use crate::vm::{
    le16_at, le32_at, operands_ok, read_u16_at, read_u32_at, CompletionType, ConstructRequest, Vm,
    VmView,
};

verus! {

/// The exact contract of the construction operation given an argument
/// count: the arguments and, beneath them, the construction target leave
/// the stack in every outcome (never only some of them); a target without
/// construction capability is a "not constructible" language error; a
/// constructible target yields a request whose arguments are in
/// left-to-right evaluation order, exactly as they were pushed.
pub open spec fn new_operation_post(
    pre: VmView,
    count: int,
    post: VmView,
    r: CompletionType,
) -> bool {
    if pre.stack.len() < count + 1 {
        post == pre && r == CompletionType::Fault(InternalFault::StackUnderflow)
    } else {
        let n = pre.stack.len() as int;
        let base = n - count - 1;
        let func = pre.stack[base];
        let args = pre.stack.subrange(base + 1, n);
        &&& post.code == pre.code
        &&& post.pc == pre.pc
        &&& post.stack == pre.stack.subrange(0, base)
        &&& match as_constructor_spec(func) {
            Some(cons) => r matches CompletionType::Construct(ConstructRequest::Ordered {
                target,
                arguments,
            }) && target == cons && arguments@ == args,
            None => r == CompletionType::Throw(JsError::NotConstructible),
        }
    }
}

/// The argument-count operand of a width-polymorphic `New` encoding:
/// `width` is its byte width (1, 2 or 4).
pub open spec fn operand_at(code: Seq<u8>, pos: int, width: int) -> int {
    if width == 1 {
        code[pos] as int
    } else if width == 2 {
        le16_at(code, pos)
    } else {
        le32_at(code, pos)
    }
}

/// The exact contract of one `New` encoding: read the argument count at
/// the given width, then behave as the construction operation with that
/// count — so all widths are semantically identical and differ only in
/// operand byte width.
pub open spec fn new_exec_post(pre: VmView, width: int, post: VmView, r: CompletionType) -> bool {
    if operands_ok(pre, width) {
        new_operation_post(
            VmView { pc: pre.pc + width, ..pre },
            operand_at(pre.code, pre.pc, width),
            post,
            r,
        )
    } else {
        post == pre && r == CompletionType::Fault(InternalFault::TruncatedBytecode)
    }
}

/// The exact contract of `NewSpread`: the packed arguments value and,
/// beneath it, the construction target leave the stack; the arguments
/// value must be an object (the compiler guarantees it, so anything else
/// is a fatal internal fault); a target without construction capability
/// is a "not constructible" language error.
pub open spec fn new_spread_post(pre: VmView, post: VmView, r: CompletionType) -> bool {
    if pre.stack.len() < 2 {
        post == pre && r == CompletionType::Fault(InternalFault::StackUnderflow)
    } else if !(pre.stack.last() is Object) {
        post == pre && r == CompletionType::Fault(InternalFault::SpreadArgumentsNotAnObject)
    } else {
        let n = pre.stack.len() as int;
        let arr = match pre.stack.last() {
            JsValue::Object(a) => a,
            _ => arbitrary(),
        };
        let func = pre.stack[n - 2];
        &&& post.code == pre.code
        &&& post.pc == pre.pc
        &&& post.stack == pre.stack.subrange(0, n - 2)
        &&& match as_constructor_spec(func) {
            Some(cons) => r matches CompletionType::Construct(ConstructRequest::Spread {
                target,
                arguments_array,
            }) && target == cons && arguments_array == arr,
            None => r == CompletionType::Throw(JsError::NotConstructible),
        }
    }
}

/// `New` implements the operation for the `New` opcode.
///
/// Operation:
///  - Call construct on a function.
pub struct New;

impl New {
    /// Collect `argument_count` values in left-to-right evaluation order,
    /// take the construction target beneath them, and either request the
    /// construction protocol or throw "not constructible".
    pub fn operation(vm: &mut Vm, argument_count: usize) -> (r: CompletionType)
        ensures
            new_operation_post(old(vm)@, argument_count as int, final(vm)@, r),
    {
        let n = vm.stack.len();
        if n <= argument_count {
            return CompletionType::Fault(InternalFault::StackUnderflow);
        }
        let base = n - argument_count - 1;
        let mut arguments: Vec<JsValue> = Vec::new();
        let mut i: usize = 0;
        while i < argument_count
            invariant
                i <= argument_count,
                vm@ == old(vm)@,
                n == vm@.stack.len(),
                base == n - argument_count - 1,
                arguments@ == vm@.stack.subrange(base as int + 1, base as int + 1 + i as int),
            decreases argument_count - i,
        {
            let value = vm.stack[base + 1 + i];
            arguments.push(value);
            proof {
                assert(arguments@ =~= vm@.stack.subrange(
                    base as int + 1,
                    base as int + 1 + (i + 1) as int,
                ));
            }
            i += 1;
        }
        let func = vm.stack[base];
        vm.stack.truncate(base);
        match func.as_constructor() {
            Some(cons) => CompletionType::Construct(
                ConstructRequest::Ordered { target: cons, arguments },
            ),
            None => CompletionType::Throw(JsError::NotConstructible),
        }
    }

    /// `New` with a one-byte argument count.
    pub fn execute(vm: &mut Vm) -> (r: CompletionType)
        ensures
            new_exec_post(old(vm)@, 1, final(vm)@, r),
    {
        if vm.pc >= vm.code.len() {
            return CompletionType::Fault(InternalFault::TruncatedBytecode);
        }
        let argument_count = vm.code[vm.pc] as usize;
        vm.pc = vm.pc + 1;
        New::operation(vm, argument_count)
    }

    /// `New` with a two-byte argument count; the behavior is identical to
    /// the one-byte encoding with the same count.
    pub fn execute_with_u16_operands(vm: &mut Vm) -> (r: CompletionType)
        ensures
            new_exec_post(old(vm)@, 2, final(vm)@, r),
    {
        if vm.pc > vm.code.len() || vm.code.len() - vm.pc < 2 {
            return CompletionType::Fault(InternalFault::TruncatedBytecode);
        }
        let argument_count = read_u16_at(&vm.code, vm.pc) as usize;
        vm.pc = vm.pc + 2;
        New::operation(vm, argument_count)
    }

    /// `New` with a four-byte argument count; the behavior is identical to
    /// the one-byte encoding with the same count.
    pub fn execute_with_u32_operands(vm: &mut Vm) -> (r: CompletionType)
        ensures
            new_exec_post(old(vm)@, 4, final(vm)@, r),
    {
        if vm.pc > vm.code.len() || vm.code.len() - vm.pc < 4 {
            return CompletionType::Fault(InternalFault::TruncatedBytecode);
        }
        let argument_count = read_u32_at(&vm.code, vm.pc) as usize;
        vm.pc = vm.pc + 4;
        New::operation(vm, argument_count)
    }
}

/// `NewSpread` implements the operation for the `NewSpread` opcode.
///
/// Operation:
///  - Call construct on a function where the arguments contain spreads.
pub struct NewSpread;

impl NewSpread {
    /// Take the dense array-like arguments value and the construction
    /// target beneath it, and either request the construction protocol —
    /// the host unpacks the array — or throw "not constructible".
    pub fn execute(vm: &mut Vm) -> (r: CompletionType)
        ensures
            new_spread_post(old(vm)@, final(vm)@, r),
    {
        let n = vm.stack.len();
        if n < 2 {
            return CompletionType::Fault(InternalFault::StackUnderflow);
        }
        let arguments_value = vm.stack[n - 1];
        let arr = match arguments_value {
            JsValue::Object(a) => a,
            _ => {
                return CompletionType::Fault(InternalFault::SpreadArgumentsNotAnObject);
            },
        };
        let func = vm.stack[n - 2];
        vm.stack.truncate(n - 2);
        match func.as_constructor() {
            Some(cons) => CompletionType::Construct(
                ConstructRequest::Spread { target: cons, arguments_array: arr },
            ),
            None => CompletionType::Throw(JsError::NotConstructible),
        }
    }
}

} // verus!
