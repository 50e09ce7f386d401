//! The counter's data model: the instruction variants, the persisted counter
//! record, the error taxonomy, and the wire codecs for the two layouts.
//!
//! Wire formats:
//! - instruction payload: byte 0 is the discriminant (0 = increase,
//!   1 = decrease), bytes 1..5 the little-endian 32-bit amount; exactly five
//!   bytes in all;
//! - counter state: bytes 0..4 the little-endian 32-bit count.

use crate::codec::{le_bytes, le_word, lemma_le_round_trip, read_le_word, write_le_word};
use vstd::prelude::*;

verus! {

/// A request to mutate the counter, decoded from an instruction payload.
#[derive(Clone, Copy, Debug, PartialEq, Eq, Structural)]
pub enum Instruction {
    /// Add the amount to the counter, wrapping modulo 2^32.
    Increase(u32),
    /// Subtract the amount from the counter, wrapping modulo 2^32.
    Decrease(u32),
}

/// The entire persisted state: one 32-bit counter.
#[derive(Clone, Copy, Debug, PartialEq, Eq, Structural)]
pub struct CounterState {
    pub count: u32,
}

/// Every way an invocation of the handler can fail.
#[derive(Clone, Copy, Debug, PartialEq, Eq, Structural)]
pub enum CounterError {
    /// No account handle was supplied where one is required.
    MissingAccount,
    /// The payload is not a known instruction: wrong length or unknown tag.
    MalformedInstruction,
    /// The account buffer is too short to hold a counter record.
    MalformedState,
    /// The host rejected the write-back of the mutated buffer.
    PersistenceFailure,
}

/// The amount added modulo 2^32.
pub open spec fn wrap_add(a: u32, b: u32) -> u32 {
    ((a + b) % 0x1_0000_0000) as u32
}

/// The amount subtracted modulo 2^32, wrapping on underflow.
pub open spec fn wrap_sub(a: u32, b: u32) -> u32 {
    ((a - b) % 0x1_0000_0000) as u32
}

/// The instruction encoded by `p`, or the error a decoder must report.
pub open spec fn parse_instruction(p: Seq<u8>) -> Result<Instruction, CounterError> {
    if p.len() == 5 && p[0] == 0 {
        Ok(Instruction::Increase(le_word(p.skip(1))))
    } else if p.len() == 5 && p[0] == 1 {
        Ok(Instruction::Decrease(le_word(p.skip(1))))
    } else {
        Err(CounterError::MalformedInstruction)
    }
}

/// The counter record stored in `b`, or the error a decoder must report.
pub open spec fn parse_state(b: Seq<u8>) -> Result<CounterState, CounterError> {
    if b.len() >= 4 {
        Ok(CounterState { count: le_word(b) })
    } else {
        Err(CounterError::MalformedState)
    }
}

/// The wire form of a counter record.
pub open spec fn state_bytes(s: CounterState) -> Seq<u8> {
    le_bytes(s.count)
}

/// The state after `i` is applied to `s`: wrapping 32-bit arithmetic.
pub open spec fn step(s: CounterState, i: Instruction) -> CounterState {
    match i {
        Instruction::Increase(amount) => CounterState { count: wrap_add(s.count, amount) },
        Instruction::Decrease(amount) => CounterState { count: wrap_sub(s.count, amount) },
    }
}

/// Decoding the wire form of any counter record yields the record back.
pub proof fn lemma_state_round_trip(s: CounterState)
    ensures
        parse_state(state_bytes(s)) == Ok::<CounterState, CounterError>(s),
{
    lemma_le_round_trip(s.count);
}

/// Decodes an instruction payload.
///
/// Succeeds exactly on a five-byte payload whose first byte is 0 or 1; any
/// other length or tag is malformed.
pub fn decode_instruction(payload: &Vec<u8>) -> (r: Result<Instruction, CounterError>)
    ensures
        r == parse_instruction(payload@),
{
    if payload.len() != 5 {
        return Err(CounterError::MalformedInstruction);
    }
    let tag = payload[0];
    if tag > 1 {
        return Err(CounterError::MalformedInstruction);
    }
    let b1 = payload[1];
    let b2 = payload[2];
    let b3 = payload[3];
    let b4 = payload[4];
    let amount = (b1 as u32) | ((b2 as u32) << 8) | ((b3 as u32) << 16) | ((b4 as u32) << 24);
    proof {
        assert(payload@.skip(1) =~= seq![b1, b2, b3, b4]);
    }
    if tag == 0 {
        Ok(Instruction::Increase(amount))
    } else {
        Ok(Instruction::Decrease(amount))
    }
}

/// Decodes a counter record from an account buffer.
///
/// Succeeds exactly when the buffer holds at least four bytes, reading the
/// count from the first four; a shorter buffer is malformed.
pub fn decode_state(buf: &Vec<u8>) -> (r: Result<CounterState, CounterError>)
    ensures
        r == parse_state(buf@),
{
    if buf.len() < 4 {
        return Err(CounterError::MalformedState);
    }
    let count = read_le_word(buf);
    Ok(CounterState { count })
}

/// Encodes a counter record into its four-byte wire form.
pub fn encode_state(s: &CounterState) -> (r: Vec<u8>)
    ensures
        r@ == state_bytes(*s),
        r@.len() == 4,
{
    write_le_word(s.count)
}

/// Applies an instruction to a counter state.
///
/// An increase yields `(count + amount) mod 2^32` and a decrease yields
/// `(count - amount) mod 2^32`: overflow and underflow wrap, deliberately.
pub fn apply_instruction(s: CounterState, i: Instruction) -> (r: CounterState)
    ensures
        r == step(s, i),
        (i matches Instruction::Increase(amount) ==> r.count == (s.count + amount)
            % 0x1_0000_0000),
        (i matches Instruction::Decrease(amount) ==> r.count == (s.count - amount)
            % 0x1_0000_0000),
{
    match i {
        Instruction::Increase(amount) => {
            let count = s.count.wrapping_add(amount);
            proof {
                assert(count == wrap_add(s.count, amount)) by {
                    if s.count + amount > u32::MAX {
                        vstd::arithmetic::div_mod::lemma_mod_multiples_vanish(
                            1,
                            s.count + amount - 0x1_0000_0000,
                            0x1_0000_0000,
                        );
                        vstd::arithmetic::div_mod::lemma_small_mod(
                            (s.count + amount - 0x1_0000_0000) as nat,
                            0x1_0000_0000,
                        );
                    } else {
                        vstd::arithmetic::div_mod::lemma_small_mod(
                            (s.count + amount) as nat,
                            0x1_0000_0000,
                        );
                    }
                }
            }
            CounterState { count }
        },
        Instruction::Decrease(amount) => {
            let count = s.count.wrapping_sub(amount);
            proof {
                assert(count == wrap_sub(s.count, amount)) by {
                    if s.count - amount < 0 {
                        vstd::arithmetic::div_mod::lemma_mod_multiples_vanish(
                            1,
                            s.count - amount,
                            0x1_0000_0000,
                        );
                        vstd::arithmetic::div_mod::lemma_small_mod(
                            (s.count - amount + 0x1_0000_0000) as nat,
                            0x1_0000_0000,
                        );
                    } else {
                        vstd::arithmetic::div_mod::lemma_small_mod(
                            (s.count - amount) as nat,
                            0x1_0000_0000,
                        );
                    }
                }
            }
            CounterState { count }
        },
    }
}

} // verus!
