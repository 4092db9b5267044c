//! The integer part of the poll loop's jitter.
use vstd::prelude::*;

verus! {

/// A tick counter and a clock reading mixed into 53 bits.
pub open spec fn mixed(tick_seq: u64, now: u64) -> u64 {
    let seeded = tick_seq.wrapping_mul(0x9E37_79B9_7F4A_7C15) ^ now;
    let once = (seeded ^ (seeded >> 30)).wrapping_mul(0xBF58_476D_1CE4_E5B9);
    let twice = (once ^ (once >> 27)).wrapping_mul(0x94D0_49BB_1331_11EB);
    (twice ^ (twice >> 31)) >> 11
}

/// Mix a tick counter and a clock reading into 53 bits, to be taken as a fraction.
pub fn jitter_bits(tick_seq: u64, now: u64) -> (bits: u64)
    ensures
        bits == mixed(tick_seq, now),
        bits < 0x20_0000_0000_0000,
{
    let seeded: u64 = tick_seq.wrapping_mul(0x9E37_79B9_7F4A_7C15) ^ now;
    let once: u64 = (seeded ^ (seeded >> 30)).wrapping_mul(0xBF58_476D_1CE4_E5B9);
    let twice: u64 = (once ^ (once >> 27)).wrapping_mul(0x94D0_49BB_1331_11EB);
    let last: u64 = twice ^ (twice >> 31);
    assert(last >> 11 < 0x20_0000_0000_0000) by (bit_vector);
    last >> 11
}

} // verus!
