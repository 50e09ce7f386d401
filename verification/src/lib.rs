//! A verified handler for a single on-chain 32-bit counter account.
//!
//! The handler receives an ordered list of account byte buffers and an
//! instruction payload, decodes the payload into an [`Instruction`], decodes
//! the first account's bytes into a [`CounterState`], applies the requested
//! wrapping mutation, and re-encodes the state into the buffer.

mod codec;
mod handler;
mod model;

pub use codec::le_bytes;
pub use codec::le_word;
pub use codec::lemma_le_round_trip;
pub use handler::counter_contract;
pub use handler::handle_outcome;
pub use handler::lemma_malformed_payload_fails;
pub use handler::lemma_missing_account;
pub use model::apply_instruction;
pub use model::decode_instruction;
pub use model::decode_state;
pub use model::encode_state;
pub use model::lemma_state_round_trip;
pub use model::parse_instruction;
pub use model::parse_state;
pub use model::state_bytes;
pub use model::step;
pub use model::wrap_add;
pub use model::wrap_sub;
pub use model::CounterError;
pub use model::CounterState;
pub use model::Instruction;
