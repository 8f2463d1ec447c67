//! Scanline counter driven alongside the processor. Rendering is outside
//! this library; the frame buffer is only held.
use vstd::prelude::*;

use crate::memory::Memory;

verus! {

/// Scanlines per frame, visible and blanking.
pub const SCANLINES: u16 = 228;

pub const SCREEN_WIDTH: usize = 240;

pub const SCREEN_HEIGHT: usize = 160;

#[derive(Debug)]
pub struct Ppu {
    pub vcount: u16,
    pub frame_buffer: Vec<u16>,
}

impl Ppu {
    /// Scanline zero and a black frame.
    pub fn new() -> (p: Ppu)
        ensures
            p.vcount == 0,
            p.frame_buffer@ == Seq::new((SCREEN_WIDTH * SCREEN_HEIGHT) as nat, |_i: int| 0u16),
    {
        let frame_buffer = vec![0u16; SCREEN_WIDTH * SCREEN_HEIGHT];
        assert(frame_buffer@ =~= Seq::new((SCREEN_WIDTH * SCREEN_HEIGHT) as nat, |_i: int| 0u16));
        Ppu { vcount: 0, frame_buffer }
    }

    /// Advances the scanline counter by one, wrapping after the last line.
    pub fn step(&mut self, _memory: &Memory)
        ensures
            final(self).vcount == (old(self).vcount + 1) % (SCANLINES as int),
            final(self).frame_buffer@ == old(self).frame_buffer@,
    {
        self.vcount = ((self.vcount as u32 + 1) % (SCANLINES as u32)) as u16;
    }
}

} // verus!
