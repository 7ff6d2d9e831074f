//! The execution frame and the instruction dispatch loop.
//!
//! An instruction is one tag byte followed by a fixed, tag-determined
//! number of little-endian operands, so a disassembler can walk the
//! stream from the per-tag operand widths alone. Each step reads one tag,
//! advances the counter past it, dispatches to that opcode's operation and
//! inspects the completion it returns: `Normal` continues, anything else
//! stops the loop. Calls into the host's object layer (the construction
//! protocol) surface as a [`CompletionType::Construct`] request: the
//! driver performs the construction and pushes the resulting value before
//! resuming.

use vstd::prelude::*;

use crate::errors::{InternalFault, JsError};
use crate::jump::{
    conditional_jump_post, jump_if_not_undefined_post, jump_if_null_or_undefined_post, jump_post,
    jump_table_post, Jump, JumpIfFalse, JumpIfNotUndefined, JumpIfNullOrUndefined, JumpIfTrue,
    JumpTable,
};
use crate::new::{new_exec_post, new_spread_post, New, NewSpread};
use crate::value::{JsObject, JsValue};

verus! {

/// Tag byte of `Jump`.
pub const TAG_JUMP: u8 = 0;

/// Tag byte of `JumpIfTrue`.
pub const TAG_JUMP_IF_TRUE: u8 = 1;

/// Tag byte of `JumpIfFalse`.
pub const TAG_JUMP_IF_FALSE: u8 = 2;

/// Tag byte of `JumpIfNotUndefined`.
pub const TAG_JUMP_IF_NOT_UNDEFINED: u8 = 3;

/// Tag byte of `JumpIfNullOrUndefined`.
pub const TAG_JUMP_IF_NULL_OR_UNDEFINED: u8 = 4;

/// Tag byte of `JumpTable`.
pub const TAG_JUMP_TABLE: u8 = 5;

/// Tag byte of `New` with a one-byte argument count.
pub const TAG_NEW: u8 = 6;

/// Tag byte of `New` with a two-byte argument count.
pub const TAG_NEW_U16: u8 = 7;

/// Tag byte of `New` with a four-byte argument count.
pub const TAG_NEW_U32: u8 = 8;

/// Tag byte of `NewSpread`.
pub const TAG_NEW_SPREAD: u8 = 9;

/// The execution frame: the instruction stream, the program counter (a
/// byte offset into it), and the operand stack.
pub struct Vm {
    /// The instruction stream.
    pub code: Vec<u8>,
    /// The program counter.
    pub pc: usize,
    /// The operand stack; the last element is the top.
    pub stack: Vec<JsValue>,
}

/// The mathematical view of an execution frame.
#[verifier::ext_equal]
pub struct VmView {
    pub code: Seq<u8>,
    pub pc: int,
    pub stack: Seq<JsValue>,
}

impl View for Vm {
    type V = VmView;

    open spec fn view(&self) -> VmView {
        VmView { code: self.code@, pc: self.pc as int, stack: self.stack@ }
    }
}

/// A request to the host's object layer to run the construction protocol.
/// The engine has already checked that the target supports construction;
/// the target serves as its own new-target. The driver pushes the
/// constructed value onto the operand stack before resuming.
#[derive(Debug, Clone, PartialEq, Eq)]
pub enum ConstructRequest {
    /// A fixed-count construction: the arguments are in left-to-right
    /// evaluation order, as authored.
    Ordered { target: JsObject, arguments: Vec<JsValue> },
    /// A spread construction: the arguments are packed as one dense
    /// array-like object that only the host can unpack.
    Spread { target: JsObject, arguments_array: JsObject },
}

/// The completion signal an instruction hands back to the dispatch loop.
#[derive(Debug, Clone, PartialEq, Eq)]
pub enum CompletionType {
    /// Continue with the next instruction.
    Normal,
    /// Return from the current evaluation. The control-flow and
    /// construction families never produce it; return-producing opcodes
    /// lie outside them.
    Return,
    /// A user-visible language error, to be routed to the nearest
    /// exception handler.
    Throw(JsError),
    /// A suspension: the host must run the construction protocol and push
    /// its result before execution resumes.
    Construct(ConstructRequest),
    /// An internal consistency fault; execution short-circuits entirely.
    Fault(InternalFault),
}

/// The little-endian 16-bit operand starting at byte `i`.
pub open spec fn le16_at(code: Seq<u8>, i: int) -> int {
    code[i] + 0x100 * code[i + 1]
}

/// The little-endian 32-bit operand starting at byte `i`.
pub open spec fn le32_at(code: Seq<u8>, i: int) -> int {
    code[i] + 0x100 * code[i + 1] + 0x10000 * code[i + 2] + 0x1000000 * code[i + 3]
}

/// Whether `n` operand bytes are available at the program counter.
pub open spec fn operands_ok(v: VmView, n: int) -> bool {
    v.pc + n <= v.code.len()
}

/// Read the little-endian 16-bit operand at `pos`.
pub fn read_u16_at(code: &Vec<u8>, pos: usize) -> (r: u16)
    requires
        pos + 2 <= code@.len(),
    ensures
        r as int == le16_at(code@, pos as int),
{
    let _len = code.len();
    let b0 = code[pos] as u16;
    let b1 = code[pos + 1] as u16;
    b0 + b1 * 0x100
}

/// Read the little-endian 32-bit operand at `pos`.
pub fn read_u32_at(code: &Vec<u8>, pos: usize) -> (r: u32)
    requires
        pos + 4 <= code@.len(),
    ensures
        r as int == le32_at(code@, pos as int),
{
    let _len = code.len();
    let b0 = code[pos] as u32;
    let b1 = code[pos + 1] as u32;
    let b2 = code[pos + 2] as u32;
    let b3 = code[pos + 3] as u32;
    b0 + b1 * 0x100 + b2 * 0x10000 + b3 * 0x1000000
}

/// The exact contract of one dispatch step: reading the tag at the
/// program counter and running that opcode's operation.
pub open spec fn step_post(pre: VmView, post: VmView, r: CompletionType) -> bool {
    if !(pre.pc < pre.code.len()) {
        post == pre && r == CompletionType::Fault(InternalFault::TruncatedBytecode)
    } else {
        let tag = pre.code[pre.pc];
        let next = VmView { pc: pre.pc + 1, ..pre };
        if tag == TAG_JUMP {
            jump_post(next, post, r)
        } else if tag == TAG_JUMP_IF_TRUE {
            conditional_jump_post(next, post, r, true)
        } else if tag == TAG_JUMP_IF_FALSE {
            conditional_jump_post(next, post, r, false)
        } else if tag == TAG_JUMP_IF_NOT_UNDEFINED {
            jump_if_not_undefined_post(next, post, r)
        } else if tag == TAG_JUMP_IF_NULL_OR_UNDEFINED {
            jump_if_null_or_undefined_post(next, post, r)
        } else if tag == TAG_JUMP_TABLE {
            jump_table_post(next, post, r)
        } else if tag == TAG_NEW {
            new_exec_post(next, 1, post, r)
        } else if tag == TAG_NEW_U16 {
            new_exec_post(next, 2, post, r)
        } else if tag == TAG_NEW_U32 {
            new_exec_post(next, 4, post, r)
        } else if tag == TAG_NEW_SPREAD {
            new_spread_post(next, post, r)
        } else {
            post == pre && r == CompletionType::Fault(InternalFault::UnknownOpcode)
        }
    }
}

impl Vm {
    /// A fresh frame over `code`: program counter 0, empty operand stack.
    pub fn new(code: Vec<u8>) -> (vm: Vm)
        ensures
            vm@.code == code@,
            vm@.pc == 0,
            vm@.stack == Seq::<JsValue>::empty(),
    {
        let vm = Vm { code, pc: 0, stack: Vec::new() };
        proof {
            assert(vm@.stack =~= Seq::<JsValue>::empty());
        }
        vm
    }

    /// Push a value onto the operand stack. The driver also uses this to
    /// hand back the result of a construction request before resuming.
    pub fn push(&mut self, value: JsValue)
        ensures
            final(self)@.stack == old(self)@.stack.push(value),
            final(self)@.code == old(self)@.code,
            final(self)@.pc == old(self)@.pc,
    {
        self.stack.push(value);
    }

    /// Pop the top of the operand stack; an empty stack is an internal
    /// fault, since the compiler guarantees stack discipline.
    pub fn pop(&mut self) -> (r: Result<JsValue, InternalFault>)
        ensures
            old(self)@.stack.len() > 0 ==> r == Ok::<JsValue, InternalFault>(
                old(self)@.stack.last(),
            ) && final(self)@.stack == old(self)@.stack.drop_last() && final(self)@.code == old(
                self,
            )@.code && final(self)@.pc == old(self)@.pc,
            old(self)@.stack.len() == 0 ==> r == Err::<JsValue, InternalFault>(
                InternalFault::StackUnderflow,
            ) && final(self)@ == old(self)@,
    {
        match self.stack.pop() {
            Some(value) => Ok(value),
            None => Err(InternalFault::StackUnderflow),
        }
    }

    /// Execute the single instruction at the program counter: read its
    /// tag, advance past it, and dispatch to the opcode's operation.
    pub fn step(&mut self) -> (r: CompletionType)
        ensures
            step_post(old(self)@, final(self)@, r),
    {
        if self.pc >= self.code.len() {
            return CompletionType::Fault(InternalFault::TruncatedBytecode);
        }
        let tag = self.code[self.pc];
        if tag == TAG_JUMP {
            self.pc = self.pc + 1;
            Jump::execute(self)
        } else if tag == TAG_JUMP_IF_TRUE {
            self.pc = self.pc + 1;
            JumpIfTrue::execute(self)
        } else if tag == TAG_JUMP_IF_FALSE {
            self.pc = self.pc + 1;
            JumpIfFalse::execute(self)
        } else if tag == TAG_JUMP_IF_NOT_UNDEFINED {
            self.pc = self.pc + 1;
            JumpIfNotUndefined::execute(self)
        } else if tag == TAG_JUMP_IF_NULL_OR_UNDEFINED {
            self.pc = self.pc + 1;
            JumpIfNullOrUndefined::execute(self)
        } else if tag == TAG_JUMP_TABLE {
            self.pc = self.pc + 1;
            JumpTable::execute(self)
        } else if tag == TAG_NEW {
            self.pc = self.pc + 1;
            New::execute(self)
        } else if tag == TAG_NEW_U16 {
            self.pc = self.pc + 1;
            New::execute_with_u16_operands(self)
        } else if tag == TAG_NEW_U32 {
            self.pc = self.pc + 1;
            New::execute_with_u32_operands(self)
        } else if tag == TAG_NEW_SPREAD {
            self.pc = self.pc + 1;
            NewSpread::execute(self)
        } else {
            CompletionType::Fault(InternalFault::UnknownOpcode)
        }
    }

    /// Run instructions in program order, inspecting the completion after
    /// every single one, until an instruction completes with anything but
    /// `Normal` or `max_steps` instructions have run. The returned ghost
    /// trace holds the frame before and after every `Normal` step; a
    /// non-`Normal` completion is that of one further step from the last
    /// traced frame.
    pub fn run(&mut self, max_steps: usize) -> (res: (CompletionType, Ghost<Seq<VmView>>))
        ensures
            ({
                let (r, trace) = res;
                &&& trace@.len() >= 1
                &&& trace@[0] == old(self)@
                &&& forall|i: int|
                    0 <= i < trace@.len() - 1 ==> #[trigger] step_post(
                        trace@[i],
                        trace@[i + 1],
                        CompletionType::Normal,
                    )
                &&& (r == CompletionType::Normal ==> trace@.last() == final(self)@ && trace@.len()
                    - 1 == max_steps)
                &&& (r != CompletionType::Normal ==> step_post(trace@.last(), final(self)@, r)
                    && trace@.len() - 1 < max_steps)
            }),
    {
        let ghost mut trace: Seq<VmView> = Seq::empty().push(self@);
        let mut steps: usize = 0;
        while steps < max_steps
            invariant
                steps <= max_steps,
                trace.len() == steps + 1,
                trace[0] == old(self)@,
                trace.last() == self@,
                forall|i: int|
                    0 <= i < trace.len() - 1 ==> #[trigger] step_post(
                        trace[i],
                        trace[i + 1],
                        CompletionType::Normal,
                    ),
            decreases max_steps - steps,
        {
            let r = self.step();
            match r {
                CompletionType::Normal => {
                    proof {
                        trace = trace.push(self@);
                    }
                    steps += 1;
                },
                _ => {
                    return (r, Ghost(trace));
                },
            }
        }
        (CompletionType::Normal, Ghost(trace))
    }
}

} // verus!
