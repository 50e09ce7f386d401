//! Little-endian encoding of 32-bit words, the wire form of both the
//! instruction amount and the persisted counter.

use vstd::prelude::*;

verus! {

/// The 32-bit word stored little-endian in the first four bytes of `b`.
pub open spec fn le_word(b: Seq<u8>) -> u32
    recommends
        b.len() >= 4,
{
    (b[0] as u32) | ((b[1] as u32) << 8) | ((b[2] as u32) << 16) | ((b[3] as u32) << 24)
}

/// The four little-endian bytes of `x`.
pub open spec fn le_bytes(x: u32) -> Seq<u8> {
    seq![
        (x & 0xff) as u8,
        ((x >> 8) & 0xff) as u8,
        ((x >> 16) & 0xff) as u8,
        ((x >> 24) & 0xff) as u8,
    ]
}

/// Reading back the four little-endian bytes of a word yields the word.
pub proof fn lemma_le_round_trip(x: u32)
    ensures
        le_word(le_bytes(x)) == x,
{
    assert(((((x & 0xff) as u8) as u32) | ((((x >> 8) & 0xff) as u8) as u32) << 8 | ((((x >> 16)
        & 0xff) as u8) as u32) << 16 | ((((x >> 24) & 0xff) as u8) as u32) << 24) == x)
        by (bit_vector);
}

/// Reads the word stored little-endian in the first four bytes of `buf`.
pub fn read_le_word(buf: &Vec<u8>) -> (r: u32)
    requires
        buf@.len() >= 4,
    ensures
        r == le_word(buf@),
{
    let b0 = buf[0];
    let b1 = buf[1];
    let b2 = buf[2];
    let b3 = buf[3];
    (b0 as u32) | ((b1 as u32) << 8) | ((b2 as u32) << 16) | ((b3 as u32) << 24)
}

/// Writes `x` as four little-endian bytes.
pub fn write_le_word(x: u32) -> (r: Vec<u8>)
    ensures
        r@ == le_bytes(x),
{
    proof {
        assert((x & 0xff) < 256 && ((x >> 8) & 0xff) < 256 && ((x >> 16) & 0xff) < 256 && ((x
            >> 24) & 0xff) < 256) by (bit_vector);
    }
    let mut out: Vec<u8> = Vec::new();
    out.push((x & 0xff) as u8);
    out.push(((x >> 8) & 0xff) as u8);
    out.push(((x >> 16) & 0xff) as u8);
    out.push(((x >> 24) & 0xff) as u8);
    proof {
        assert(out@ =~= le_bytes(x));
    }
    out
}

} // verus!
