use bytecode_engine::errors::{InternalFault, JsError};
use bytecode_engine::new::New;
use bytecode_engine::value::{JsObject, JsValue};
use bytecode_engine::vm::{
    CompletionType, ConstructRequest, Vm, TAG_JUMP, TAG_JUMP_IF_FALSE,
    TAG_JUMP_IF_NOT_UNDEFINED, TAG_JUMP_IF_NULL_OR_UNDEFINED, TAG_JUMP_IF_TRUE, TAG_JUMP_TABLE,
    TAG_NEW, TAG_NEW_SPREAD, TAG_NEW_U16, TAG_NEW_U32,
};

fn le(address: u32) -> [u8; 4] {
    [
        (address & 0xff) as u8,
        ((address >> 8) & 0xff) as u8,
        ((address >> 16) & 0xff) as u8,
        ((address >> 24) & 0xff) as u8,
    ]
}

fn code(parts: &[&[u8]]) -> Vec<u8> {
    let mut out = Vec::new();
    for part in parts {
        out.extend_from_slice(part);
    }
    out
}

#[test]
fn jump_sets_pc_to_its_encoded_address() {
    let mut vm = Vm::new(code(&[&[TAG_JUMP], &le(42)]));
    vm.push(JsValue::Integer(7));
    vm.push(JsValue::Null);
    assert_eq!(vm.step(), CompletionType::Normal);
    assert_eq!(vm.pc, 42);
    // Independent of stack contents: nothing was popped or pushed.
    assert_eq!(vm.stack, vec![JsValue::Integer(7), JsValue::Null]);
}

#[test]
fn jump_reads_a_little_endian_address() {
    let mut vm = Vm::new(code(&[&[TAG_JUMP], &[0x01, 0x02, 0x03, 0x04]]));
    assert_eq!(vm.step(), CompletionType::Normal);
    assert_eq!(vm.pc, 0x0403_0201);
}

#[test]
fn jump_if_true_pops_and_coerces() {
    let mut vm = Vm::new(code(&[&[TAG_JUMP_IF_TRUE], &le(30)]));
    vm.push(JsValue::Integer(2));
    assert_eq!(vm.step(), CompletionType::Normal);
    assert_eq!(vm.pc, 30);
    assert!(vm.stack.is_empty());

    let mut vm = Vm::new(code(&[&[TAG_JUMP_IF_TRUE], &le(30)]));
    vm.push(JsValue::Integer(0));
    assert_eq!(vm.step(), CompletionType::Normal);
    assert_eq!(vm.pc, 5);
    assert!(vm.stack.is_empty());
}

#[test]
fn jump_if_false_pops_and_coerces() {
    let mut vm = Vm::new(code(&[&[TAG_JUMP_IF_FALSE], &le(30)]));
    vm.push(JsValue::Null);
    assert_eq!(vm.step(), CompletionType::Normal);
    assert_eq!(vm.pc, 30);
    assert!(vm.stack.is_empty());

    let mut vm = Vm::new(code(&[&[TAG_JUMP_IF_FALSE], &le(30)]));
    vm.push(JsValue::Boolean(true));
    assert_eq!(vm.step(), CompletionType::Normal);
    assert_eq!(vm.pc, 5);
    assert!(vm.stack.is_empty());
}

#[test]
fn jump_if_not_undefined_restores_the_value_on_jump() {
    let mut vm = Vm::new(code(&[&[TAG_JUMP_IF_NOT_UNDEFINED], &le(9)]));
    vm.push(JsValue::Integer(5));
    assert_eq!(vm.step(), CompletionType::Normal);
    assert_eq!(vm.pc, 9);
    assert_eq!(vm.stack, vec![JsValue::Integer(5)]);

    let mut vm = Vm::new(code(&[&[TAG_JUMP_IF_NOT_UNDEFINED], &le(9)]));
    vm.push(JsValue::Undefined);
    assert_eq!(vm.step(), CompletionType::Normal);
    assert_eq!(vm.pc, 5);
    assert!(vm.stack.is_empty());
}

#[test]
fn jump_if_null_or_undefined_discards_the_value_on_jump() {
    let mut vm = Vm::new(code(&[&[TAG_JUMP_IF_NULL_OR_UNDEFINED], &le(9)]));
    vm.push(JsValue::Null);
    assert_eq!(vm.step(), CompletionType::Normal);
    assert_eq!(vm.pc, 9);
    assert!(vm.stack.is_empty());

    let mut vm = Vm::new(code(&[&[TAG_JUMP_IF_NULL_OR_UNDEFINED], &le(9)]));
    vm.push(JsValue::Integer(7));
    assert_eq!(vm.step(), CompletionType::Normal);
    assert_eq!(vm.pc, 5);
    assert_eq!(vm.stack, vec![JsValue::Integer(7)]);
}

fn jump_table_code() -> Vec<u8> {
    // default = 100, cases = [10, 20, 30]
    code(&[&[TAG_JUMP_TABLE], &le(100), &le(3), &le(10), &le(20), &le(30)])
}

#[test]
fn jump_table_selects_the_one_based_case() {
    let mut vm = Vm::new(jump_table_code());
    vm.push(JsValue::Integer(2));
    assert_eq!(vm.step(), CompletionType::Normal);
    assert_eq!(vm.pc, 20);
    assert!(vm.stack.is_empty());

    let mut vm = Vm::new(jump_table_code());
    vm.push(JsValue::Integer(1));
    assert_eq!(vm.step(), CompletionType::Normal);
    assert_eq!(vm.pc, 10);
}

#[test]
fn jump_table_out_of_range_selector_takes_the_default() {
    let mut vm = Vm::new(jump_table_code());
    vm.push(JsValue::Integer(5));
    assert_eq!(vm.step(), CompletionType::Normal);
    assert_eq!(vm.pc, 100);
    assert!(vm.stack.is_empty());

    let mut vm = Vm::new(jump_table_code());
    vm.push(JsValue::Integer(0));
    assert_eq!(vm.step(), CompletionType::Normal);
    assert_eq!(vm.pc, 100);
}

#[test]
fn jump_table_selector_must_be_a_small_non_negative_integer() {
    let mut vm = Vm::new(jump_table_code());
    vm.push(JsValue::Boolean(true));
    assert_eq!(
        vm.step(),
        CompletionType::Fault(InternalFault::InvalidJumpTableSelector)
    );

    let mut vm = Vm::new(jump_table_code());
    vm.push(JsValue::Integer(-1));
    assert_eq!(
        vm.step(),
        CompletionType::Fault(InternalFault::InvalidJumpTableSelector)
    );
}

#[test]
fn construct_restores_left_to_right_argument_order() {
    let target = JsObject { id: 1, constructible: true };
    let mut vm = Vm::new(code(&[&[TAG_NEW], &[3]]));
    vm.push(JsValue::Object(target));
    vm.push(JsValue::Integer(1)); // A
    vm.push(JsValue::Integer(2)); // B
    vm.push(JsValue::Integer(3)); // C
    let completion = vm.step();
    assert_eq!(
        completion,
        CompletionType::Construct(ConstructRequest::Ordered {
            target,
            arguments: vec![
                JsValue::Integer(1),
                JsValue::Integer(2),
                JsValue::Integer(3)
            ],
        })
    );
    assert!(vm.stack.is_empty());
    // The driver pushes the constructed value back.
    vm.push(JsValue::Object(JsObject { id: 2, constructible: false }));
    assert_eq!(vm.stack.len(), 1);
}

#[test]
fn construct_with_non_constructible_target_throws_cleanly() {
    let mut vm = Vm::new(code(&[&[TAG_NEW], &[2]]));
    vm.push(JsValue::Integer(9)); // untouched prefix
    vm.push(JsValue::Object(JsObject { id: 1, constructible: false }));
    vm.push(JsValue::Integer(1));
    vm.push(JsValue::Integer(2));
    assert_eq!(
        vm.step(),
        CompletionType::Throw(JsError::NotConstructible)
    );
    // Target and arguments are consumed; the rest of the stack is intact.
    assert_eq!(vm.stack, vec![JsValue::Integer(9)]);
}

#[test]
fn construct_width_encodings_behave_identically() {
    let target = JsObject { id: 4, constructible: true };
    let streams = [
        code(&[&[TAG_NEW], &[2]]),
        code(&[&[TAG_NEW_U16], &[2, 0]]),
        code(&[&[TAG_NEW_U32], &[2, 0, 0, 0]]),
    ];
    for stream in streams {
        let mut vm = Vm::new(stream);
        vm.push(JsValue::Object(target));
        vm.push(JsValue::Boolean(false));
        vm.push(JsValue::Null);
        assert_eq!(
            vm.step(),
            CompletionType::Construct(ConstructRequest::Ordered {
                target,
                arguments: vec![JsValue::Boolean(false), JsValue::Null],
            })
        );
        assert!(vm.stack.is_empty());
    }
}

#[test]
fn construct_u16_count_reads_both_operand_bytes() {
    let target = JsObject { id: 4, constructible: true };
    // 258 = 0x0102 little-endian.
    let mut vm = Vm::new(code(&[&[TAG_NEW_U16], &[2, 1]]));
    vm.push(JsValue::Object(target));
    for k in 0..258 {
        vm.push(JsValue::Integer(k));
    }
    match vm.step() {
        CompletionType::Construct(ConstructRequest::Ordered { target: t, arguments }) => {
            assert_eq!(t, target);
            assert_eq!(arguments.len(), 258);
            assert_eq!(arguments[0], JsValue::Integer(0));
            assert_eq!(arguments[257], JsValue::Integer(257));
        }
        other => panic!("expected a construction request, got {:?}", other),
    }
    assert!(vm.stack.is_empty());
}

#[test]
fn construct_operation_reports_stack_underflow() {
    let mut vm = Vm::new(Vec::new());
    vm.push(JsValue::Integer(1));
    assert_eq!(
        New::operation(&mut vm, 3),
        CompletionType::Fault(InternalFault::StackUnderflow)
    );
    assert_eq!(vm.stack, vec![JsValue::Integer(1)]);
}

#[test]
fn construct_spread_hands_the_packed_array_to_the_host() {
    let target = JsObject { id: 1, constructible: true };
    let array = JsObject { id: 8, constructible: false };
    let mut vm = Vm::new(code(&[&[TAG_NEW_SPREAD]]));
    vm.push(JsValue::Object(target));
    vm.push(JsValue::Object(array));
    assert_eq!(
        vm.step(),
        CompletionType::Construct(ConstructRequest::Spread {
            target,
            arguments_array: array,
        })
    );
    assert!(vm.stack.is_empty());

    let mut vm = Vm::new(code(&[&[TAG_NEW_SPREAD]]));
    vm.push(JsValue::Object(target));
    vm.push(JsValue::Integer(3));
    assert_eq!(
        vm.step(),
        CompletionType::Fault(InternalFault::SpreadArgumentsNotAnObject)
    );

    let mut vm = Vm::new(code(&[&[TAG_NEW_SPREAD]]));
    vm.push(JsValue::Integer(0));
    vm.push(JsValue::Object(array));
    assert_eq!(vm.step(), CompletionType::Throw(JsError::NotConstructible));
}

#[test]
fn truncated_operands_are_an_internal_fault() {
    let mut vm = Vm::new(code(&[&[TAG_JUMP], &[1, 2]]));
    assert_eq!(
        vm.step(),
        CompletionType::Fault(InternalFault::TruncatedBytecode)
    );
    assert_eq!(vm.pc, 1);

    let mut vm = Vm::new(Vec::new());
    assert_eq!(
        vm.step(),
        CompletionType::Fault(InternalFault::TruncatedBytecode)
    );

    // A jump table whose case addresses run past the end of the stream.
    let mut vm = Vm::new(code(&[&[TAG_JUMP_TABLE], &le(100), &le(3), &le(10)]));
    vm.push(JsValue::Integer(1));
    assert_eq!(
        vm.step(),
        CompletionType::Fault(InternalFault::TruncatedBytecode)
    );

    // A construction whose count operand is missing.
    let mut vm = Vm::new(vec![TAG_NEW]);
    assert_eq!(
        vm.step(),
        CompletionType::Fault(InternalFault::TruncatedBytecode)
    );
}

#[test]
fn popping_an_empty_stack_is_an_internal_fault() {
    let mut vm = Vm::new(code(&[&[TAG_JUMP_IF_TRUE], &le(9)]));
    assert_eq!(
        vm.step(),
        CompletionType::Fault(InternalFault::StackUnderflow)
    );
    assert_eq!(vm.pc, 1);
    assert_eq!(vm.pop(), Err(InternalFault::StackUnderflow));
}

#[test]
fn unknown_tag_is_an_internal_fault() {
    let mut vm = Vm::new(vec![0xff]);
    assert_eq!(
        vm.step(),
        CompletionType::Fault(InternalFault::UnknownOpcode)
    );
}

#[test]
fn run_dispatches_in_program_order_until_a_stop() {
    // 0: Jump 5; 5: Jump 10; 10: unknown tag.
    let mut vm = Vm::new(code(&[&[TAG_JUMP], &le(5), &[TAG_JUMP], &le(10), &[0xff]]));
    let (r, _) = vm.run(16);
    assert_eq!(r, CompletionType::Fault(InternalFault::UnknownOpcode));
    assert_eq!(vm.pc, 10);

    // With the fuel exhausted first, the loop stops after one step.
    let mut vm = Vm::new(code(&[&[TAG_JUMP], &le(5), &[TAG_JUMP], &le(10), &[0xff]]));
    let (r, _) = vm.run(1);
    assert_eq!(r, CompletionType::Normal);
    assert_eq!(vm.pc, 5);
}

#[test]
fn run_surfaces_a_construction_request_and_resumes() {
    let target = JsObject { id: 3, constructible: true };
    // 0: New with 1 argument; 2: Jump 9.
    let mut vm = Vm::new(code(&[&[TAG_NEW], &[1], &[TAG_JUMP], &le(9)]));
    vm.push(JsValue::Object(target));
    vm.push(JsValue::Integer(5));
    let (r, _) = vm.run(8);
    assert_eq!(
        r,
        CompletionType::Construct(ConstructRequest::Ordered {
            target,
            arguments: vec![JsValue::Integer(5)],
        })
    );
    // The driver performs the construction and pushes the result.
    let result = JsValue::Object(JsObject { id: 7, constructible: false });
    vm.push(result);
    let (r, _) = vm.run(8);
    assert_eq!(r, CompletionType::Fault(InternalFault::TruncatedBytecode));
    assert_eq!(vm.pc, 9);
    assert_eq!(vm.stack, vec![result]);
}

#[test]
fn truthiness_matches_the_language_coercion() {
    assert!(!JsValue::Undefined.to_boolean());
    assert!(!JsValue::Null.to_boolean());
    assert!(!JsValue::Boolean(false).to_boolean());
    assert!(JsValue::Boolean(true).to_boolean());
    assert!(!JsValue::Integer(0).to_boolean());
    assert!(JsValue::Integer(-3).to_boolean());
    assert!(JsValue::Object(JsObject { id: 0, constructible: false }).to_boolean());
    assert!(JsValue::Undefined.is_undefined());
    assert!(JsValue::Null.is_null_or_undefined());
    assert!(!JsValue::Integer(0).is_null_or_undefined());
    assert_eq!(
        JsValue::Object(JsObject { id: 1, constructible: true }).as_constructor(),
        Some(JsObject { id: 1, constructible: true })
    );
    assert_eq!(JsValue::Integer(1).as_constructor(), None);
}
