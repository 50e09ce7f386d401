//! The instruction handler: decode the payload, decode the first account's
//! state, apply the mutation, encode the state back into the buffer.

use crate::model::{
    apply_instruction, decode_instruction, decode_state, encode_state, parse_instruction,
    parse_state, state_bytes, step, CounterError,
};
use vstd::prelude::*;

verus! {

/// The outcome the handler owes for account buffers `bufs` and payload `p`:
/// either the buffers after the call, with the first one rewritten, or the
/// error, in which case no buffer may change.
///
/// The checks run in a fixed order: a missing account is reported before the
/// payload is inspected, and a malformed payload before the state is. On
/// success the first buffer's leading four bytes are replaced by the mutated
/// counter's wire form and the rest of it is kept.
pub open spec fn handle_outcome(bufs: Seq<Seq<u8>>, p: Seq<u8>) -> Result<
    Seq<Seq<u8>>,
    CounterError,
> {
    if bufs.len() == 0 {
        Err(CounterError::MissingAccount)
    } else {
        match parse_instruction(p) {
            Err(e) => Err(e),
            Ok(i) => match parse_state(bufs[0]) {
                Err(e) => Err(e),
                Ok(s) => Ok(bufs.update(0, state_bytes(step(s, i)) + bufs[0].skip(4))),
            },
        }
    }
}

/// With no account supplied the handler owes `MissingAccount`.
pub proof fn lemma_missing_account(bufs: Seq<Seq<u8>>, p: Seq<u8>)
    requires
        bufs.len() == 0,
    ensures
        handle_outcome(bufs, p) == Err::<Seq<Seq<u8>>, CounterError>(
            CounterError::MissingAccount,
        ),
{
}

/// A malformed payload never leads to a successful outcome, so, by the
/// handler's contract, it never mutates any buffer.
pub proof fn lemma_malformed_payload_fails(bufs: Seq<Seq<u8>>, p: Seq<u8>)
    requires
        p.len() != 5 || (p[0] != 0 && p[0] != 1),
    ensures
        handle_outcome(bufs, p) is Err,
{
}

/// Handles one invocation against `accounts` with the given payload.
///
/// Exactly the outcome of [`handle_outcome`] on the buffers' contents: on
/// success the first buffer is rewritten in place and every other buffer is
/// kept; on any error the result names it and no buffer changes at all.
pub fn counter_contract(accounts: &mut Vec<Vec<u8>>, payload: &Vec<u8>) -> (r: Result<
    (),
    CounterError,
>)
    ensures
        (match handle_outcome(old(accounts).deep_view(), payload@) {
            Ok(bufs) => r == Ok::<(), CounterError>(()) && final (accounts).deep_view() == bufs,
            Err(e) => r == Err::<(), CounterError>(e) && final (accounts).deep_view() == old(
                accounts,
            ).deep_view(),
        }),
{
    if accounts.len() == 0 {
        return Err(CounterError::MissingAccount);
    }
    let instruction = match decode_instruction(payload) {
        Ok(i) => i,
        Err(e) => {
            return Err(e);
        },
    };
    let first = &accounts[0];
    let state = match decode_state(first) {
        Ok(s) => s,
        Err(e) => {
            return Err(e);
        },
    };
    let new_state = apply_instruction(state, instruction);
    let mut new_buf = encode_state(&new_state);
    let mut i: usize = 4;
    let n = first.len();
    while i < n
        invariant
            4 <= i <= n,
            n == first@.len(),
            first == &old(accounts)@[0],
            new_buf@ == state_bytes(new_state) + first@.subrange(4, i as int),
        decreases n - i,
    {
        let b = first[i];
        new_buf.push(b);
        proof {
            assert(new_buf@ =~= state_bytes(new_state) + first@.subrange(4, i + 1));
        }
        i += 1;
    }
    proof {
        assert(new_buf@ =~= state_bytes(new_state) + old(accounts).deep_view()[0].skip(4));
    }
    let _old_first = accounts.remove(0);
    accounts.insert(0, new_buf);
    proof {
        let before = old(accounts).deep_view();
        let after = accounts.deep_view();
        assert forall|k: int| 0 <= k < after.len() implies after[k] == before.update(
            0,
            state_bytes(step(state, instruction)) + before[0].skip(4),
        )[k] by {
            if k > 0 {
                assert(accounts@[k] == old(accounts)@[k]);
            }
        }
        assert(after =~= before.update(
            0,
            state_bytes(step(state, instruction)) + before[0].skip(4),
        ));
    }
    Ok(())
}

} // verus!
