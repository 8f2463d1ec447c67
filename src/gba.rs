//! The whole machine: processor, bus and scanline counter, stepped in
//! lockstep.
use vstd::prelude::*;

use vstd::arithmetic::div_mod::lemma_add_mod_noop;

use crate::cpu::{cpu_step, reset_state, Cpu, CpuView};
use crate::memory::{power_on, MemView, Memory};
use crate::ppu::{Ppu, SCANLINES, SCREEN_HEIGHT, SCREEN_WIDTH};

verus! {

/// Steps in one frame.
pub const CYCLES_PER_FRAME: u64 = 280_896;

/// Processor and bus after `n` processor steps.
pub open spec fn run_steps(s: CpuView, m: MemView, n: nat) -> (CpuView, MemView)
    decreases n,
{
    if n == 0 {
        (s, m)
    } else {
        let (s1, m1) = run_steps(s, m, (n - 1) as nat);
        cpu_step(s1, m1)
    }
}

pub struct Gba {
    pub cpu: Cpu,
    pub memory: Memory,
    pub ppu: Ppu,
    pub cycles: u64,
}

impl Gba {
    pub fn new() -> (g: Gba)
        ensures
            g.cpu@ == reset_state(),
            g.memory@ == power_on(),
            g.ppu.vcount == 0,
            g.ppu.frame_buffer@ == Seq::new((SCREEN_WIDTH * SCREEN_HEIGHT) as nat, |_i: int| 0u16),
            g.cycles == 0,
    {
        Gba { cpu: Cpu::new(), memory: Memory::new(), ppu: Ppu::new(), cycles: 0 }
    }

    /// Installs a cartridge image, replacing the previous one.
    pub fn load_rom(&mut self, image: Vec<u8>)
        ensures
            final(self).memory@ == (MemView { rom: image@, ..old(self).memory@ }),
            final(self).cpu@ == old(self).cpu@,
            final(self).ppu.vcount == old(self).ppu.vcount,
            final(self).ppu.frame_buffer@ == old(self).ppu.frame_buffer@,
            final(self).cycles == old(self).cycles,
    {
        self.memory.load_rom(image);
    }

    /// One processor step, then one scanline-counter tick.
    pub fn step(&mut self)
        requires
            old(self).cycles < u64::MAX,
        ensures
            (final(self).cpu@, final(self).memory@) == cpu_step(old(self).cpu@, old(self).memory@),
            final(self).ppu.vcount == (old(self).ppu.vcount + 1) % (SCANLINES as int),
            final(self).ppu.frame_buffer@ == old(self).ppu.frame_buffer@,
            final(self).cycles == old(self).cycles + 1,
    {
        self.cpu.step(&mut self.memory);
        self.ppu.step(&self.memory);
        self.cycles += 1;
    }

    /// Runs the steps of one frame.
    pub fn run_frame(&mut self)
        requires
            old(self).cycles + CYCLES_PER_FRAME <= u64::MAX,
        ensures
            (final(self).cpu@, final(self).memory@) == run_steps(
                old(self).cpu@,
                old(self).memory@,
                CYCLES_PER_FRAME as nat,
            ),
            final(self).ppu.vcount == (old(self).ppu.vcount + CYCLES_PER_FRAME) % (
            SCANLINES as int),
            final(self).ppu.frame_buffer@ == old(self).ppu.frame_buffer@,
            final(self).cycles == old(self).cycles + CYCLES_PER_FRAME,
    {
        let ghost s0 = self.cpu@;
        let ghost m0 = self.memory@;
        let ghost v0 = self.ppu.vcount;
        let ghost c0 = self.cycles;
        let ghost f0 = self.ppu.frame_buffer@;
        let target_cycles = self.cycles + CYCLES_PER_FRAME;
        while self.cycles < target_cycles
            invariant
                c0 <= self.cycles <= target_cycles,
                target_cycles == c0 + CYCLES_PER_FRAME,
                target_cycles <= u64::MAX,
                (self.cpu@, self.memory@) == run_steps(s0, m0, (self.cycles - c0) as nat),
                self.ppu.frame_buffer@ == f0,
                self.cycles == c0 ==> self.ppu.vcount == v0,
                self.cycles > c0 ==> self.ppu.vcount == (v0 + (self.cycles - c0)) % (
                SCANLINES as int),
            decreases target_cycles - self.cycles,
        {
            proof {
                lemma_add_mod_noop(v0 + (self.cycles - c0), 1, SCANLINES as int);
            }
            self.step();
        }
    }
}

} // verus!
