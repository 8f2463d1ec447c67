use gba_emu::gba::{Gba, CYCLES_PER_FRAME};
use gba_emu::ppu::{Ppu, SCANLINES, SCREEN_HEIGHT, SCREEN_WIDTH};

#[test]
fn machine_starts_at_cartridge_entry() {
    let gba = Gba::new();
    assert_eq!(gba.cpu.pc, 0x0800_0000);
    assert_eq!(gba.cpu.sp, 0x0300_7F00);
    assert_eq!(gba.cycles, 0);
    assert_eq!(gba.ppu.vcount, 0);
    assert_eq!(gba.ppu.frame_buffer, vec![0u16; SCREEN_WIDTH * SCREEN_HEIGHT]);
    assert_eq!(gba.memory.read_u8(0x0800_0000), 0xFF);
}

#[test]
fn step_runs_one_instruction_and_one_tick() {
    let mut gba = Gba::new();
    gba.load_rom(vec![0x2A, 0x30, 0xA0, 0xE3, 0x01, 0x00, 0x00, 0xEA]);
    gba.step();
    assert_eq!(gba.cpu.registers[3], 0x2A);
    assert_eq!(gba.cpu.pc, 0x0800_0004);
    assert_eq!(gba.cycles, 1);
    assert_eq!(gba.ppu.vcount, 1);
    gba.step();
    assert_eq!(gba.cpu.pc, 0x0800_0010);
    assert_eq!(gba.cycles, 2);
}

#[test]
fn empty_cartridge_steps_over_open_bus() {
    let mut gba = Gba::new();
    for _ in 0..5 {
        gba.step();
    }
    assert_eq!(gba.cpu.pc, 0x0800_0014);
    assert_eq!(gba.cycles, 5);
}

#[test]
fn run_frame_advances_one_frame() {
    let mut gba = Gba::new();
    gba.load_rom(vec![0xFE, 0xFF, 0xFF, 0xEA]);
    gba.run_frame();
    assert_eq!(gba.cycles, CYCLES_PER_FRAME);
    assert_eq!(gba.cycles, 280_896);
    assert_eq!(gba.ppu.vcount, 0);
    assert_eq!(gba.cpu.pc, 0x0800_0000);
}

#[test]
fn scanline_counter_wraps() {
    let m = gba_emu::memory::Memory::new();
    let mut ppu = Ppu::new();
    assert_eq!(ppu.frame_buffer.len(), SCREEN_WIDTH * SCREEN_HEIGHT);
    for _ in 0..227 {
        ppu.step(&m);
    }
    assert_eq!(ppu.vcount, 227);
    ppu.step(&m);
    assert_eq!(ppu.vcount, 0);
    assert_eq!(SCANLINES, 228);
    ppu.vcount = 500;
    ppu.step(&m);
    assert_eq!(ppu.vcount, 501 % 228);
}
