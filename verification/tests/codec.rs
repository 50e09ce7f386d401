use counter_program::{
    apply_instruction, decode_instruction, decode_state, encode_state, CounterError, CounterState,
    Instruction,
};

#[test]
fn encode_is_little_endian() {
    let s = CounterState { count: 0x0102_0304 };
    assert_eq!(encode_state(&s), vec![0x04, 0x03, 0x02, 0x01]);
}

#[test]
fn decode_reads_little_endian() {
    let buf = vec![0x04, 0x03, 0x02, 0x01];
    assert_eq!(decode_state(&buf), Ok(CounterState { count: 0x0102_0304 }));
}

#[test]
fn state_round_trips_through_its_wire_form() {
    for count in [0u32, 1, 5, 258, 0x0102_0304, u32::MAX - 1, u32::MAX] {
        let s = CounterState { count };
        assert_eq!(decode_state(&encode_state(&s)), Ok(s));
    }
}

#[test]
fn decode_state_rejects_short_buffers() {
    assert_eq!(decode_state(&vec![]), Err(CounterError::MalformedState));
    assert_eq!(decode_state(&vec![0x01]), Err(CounterError::MalformedState));
    assert_eq!(
        decode_state(&vec![0x01, 0x02, 0x03]),
        Err(CounterError::MalformedState)
    );
}

#[test]
fn decode_state_reads_only_the_first_word() {
    let buf = vec![0x02, 0x00, 0x00, 0x00, 0xFF];
    assert_eq!(decode_state(&buf), Ok(CounterState { count: 2 }));
}

#[test]
fn decode_instruction_reads_both_variants() {
    assert_eq!(
        decode_instruction(&vec![0x00, 0x02, 0x01, 0x00, 0x00]),
        Ok(Instruction::Increase(258))
    );
    assert_eq!(
        decode_instruction(&vec![0x01, 0xFF, 0xFF, 0xFF, 0xFF]),
        Ok(Instruction::Decrease(u32::MAX))
    );
}

#[test]
fn decode_instruction_rejects_unknown_tags() {
    assert_eq!(
        decode_instruction(&vec![0x02, 0x01, 0x00, 0x00, 0x00]),
        Err(CounterError::MalformedInstruction)
    );
    assert_eq!(
        decode_instruction(&vec![0xFF, 0x01, 0x00, 0x00, 0x00]),
        Err(CounterError::MalformedInstruction)
    );
}

#[test]
fn decode_instruction_rejects_wrong_lengths() {
    assert_eq!(
        decode_instruction(&vec![]),
        Err(CounterError::MalformedInstruction)
    );
    assert_eq!(
        decode_instruction(&vec![0x00]),
        Err(CounterError::MalformedInstruction)
    );
    assert_eq!(
        decode_instruction(&vec![0x00, 0x01, 0x00, 0x00]),
        Err(CounterError::MalformedInstruction)
    );
    assert_eq!(
        decode_instruction(&vec![0x00, 0x01, 0x00, 0x00, 0x00, 0x00]),
        Err(CounterError::MalformedInstruction)
    );
}

#[test]
fn increase_adds_modulo_two_to_the_thirty_two() {
    let s = CounterState { count: 7 };
    assert_eq!(
        apply_instruction(s, Instruction::Increase(5)),
        CounterState { count: 12 }
    );
    let near_max = CounterState { count: u32::MAX - 1 };
    assert_eq!(
        apply_instruction(near_max, Instruction::Increase(5)),
        CounterState { count: 3 }
    );
}

#[test]
fn decrease_subtracts_modulo_two_to_the_thirty_two() {
    let s = CounterState { count: 7 };
    assert_eq!(
        apply_instruction(s, Instruction::Decrease(5)),
        CounterState { count: 2 }
    );
    let small = CounterState { count: 3 };
    assert_eq!(
        apply_instruction(small, Instruction::Decrease(5)),
        CounterState { count: 4294967294 }
    );
    let zero = CounterState { count: 0 };
    assert_eq!(
        apply_instruction(zero, Instruction::Decrease(1)),
        CounterState { count: u32::MAX }
    );
}
