//! Interpreter core for a 32-bit ARM7TDMI-class processor (ARM and Thumb
//! encodings) together with the segmented memory bus it fetches, loads and
//! stores through.
use vstd::prelude::*;

pub mod cpu;
pub mod gba;
pub mod memory;
pub mod ppu;

verus! {

/// Masking never yields more than the mask.
pub(crate) proof fn lemma_and_le(a: u32, m: u32)
    ensures
        a & m <= m,
{
    assert(a & m <= m) by (bit_vector);
}

/// Masking never yields more than the mask.
pub(crate) proof fn lemma_and_le16(a: u16, m: u16)
    ensures
        a & m <= m,
{
    assert(a & m <= m) by (bit_vector);
}

} // verus!
