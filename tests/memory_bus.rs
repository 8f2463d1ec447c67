use gba_emu::memory::{Memory, Region};

const WRITABLE_BASES: [u32; 5] = [0x0200_0000, 0x0300_0000, 0x0500_0000, 0x0600_0000, 0x0700_0000];

#[test]
fn new_memory_is_zero_filled() {
    let m = Memory::new();
    for base in [0x0000_0000u32, 0x0200_0000, 0x0300_0000, 0x0500_0000, 0x0600_0000, 0x0700_0000] {
        assert_eq!(m.read_u32(base), 0);
    }
}

#[test]
fn word_round_trip_in_each_writable_region() {
    let mut m = Memory::new();
    for (i, base) in WRITABLE_BASES.iter().enumerate() {
        let a = base + 0x10 + i as u32 * 4;
        m.write_u32(a, 0xDEAD_BEEF);
        assert_eq!(m.read_u32(a), 0xDEAD_BEEF);
    }
}

#[test]
fn half_and_byte_round_trip_in_each_writable_region() {
    let mut m = Memory::new();
    for base in WRITABLE_BASES {
        m.write_u16(base + 0x21, 0xBEEF);
        assert_eq!(m.read_u16(base + 0x21), 0xBEEF);
        m.write_u8(base + 0x30, 0x5A);
        assert_eq!(m.read_u8(base + 0x30), 0x5A);
    }
}

#[test]
fn word_is_little_endian() {
    let mut m = Memory::new();
    m.write_u32(0x0200_0100, 0x1122_3344);
    assert_eq!(m.read_u8(0x0200_0100), 0x44);
    assert_eq!(m.read_u8(0x0200_0101), 0x33);
    assert_eq!(m.read_u8(0x0200_0102), 0x22);
    assert_eq!(m.read_u8(0x0200_0103), 0x11);
    assert_eq!(m.read_u16(0x0200_0102), 0x1122);
}

#[test]
fn word_at_end_of_region_round_trips() {
    let mut m = Memory::new();
    m.write_u32(0x0203_FFFC, 0xCAFE_F00D);
    assert_eq!(m.read_u32(0x0203_FFFC), 0xCAFE_F00D);
    m.write_u32(0x0601_7FFC, 0x0BAD_CAFE);
    assert_eq!(m.read_u32(0x0601_7FFC), 0x0BAD_CAFE);
}

#[test]
fn regions_mirror_at_their_size() {
    let mut m = Memory::new();
    let regions: [(u32, u32); 4] =
        [(0x0200_0000, 0x40000), (0x0300_0000, 0x8000), (0x0500_0000, 0x400), (0x0700_0000, 0x400)];
    for (base, size) in regions {
        m.write_u32(base, 0x8765_4321);
        assert_eq!(m.read_u32(base + size), 0x8765_4321);
        assert_eq!(m.read_u16(base + size), 0x4321);
        assert_eq!(m.read_u8(base + size), 0x21);
        m.write_u8(base + size + 1, 0x99);
        assert_eq!(m.read_u8(base + 1), 0x99);
    }
    assert_eq!(m.read_u32(0x4000), m.read_u32(0));
}

#[test]
fn video_ram_folds_through_its_mask() {
    let mut m = Memory::new();
    m.write_u8(0x0601_0000, 0x77);
    assert_eq!(m.read_u8(0x0601_8000), 0x77);
}

#[test]
fn video_ram_is_addressed_linearly() {
    let mut m = Memory::new();
    m.write_u8(0x0600_0000, 1);
    assert_eq!(m.read_u8(0x0600_8000), 0);
    m.write_u8(0x0600_8000, 2);
    assert_eq!(m.read_u8(0x0600_0000), 1);
    assert_eq!(m.read_u8(0x0600_8000), 2);
    m.write_u8(0x0601_7FFF, 3);
    assert_eq!(m.read_u8(0x0601_7FFF), 3);
    assert_eq!(m.read_u8(0x0600_7FFF), 0);
}

#[test]
fn video_ram_repeats_every_128_kib() {
    let mut m = Memory::new();
    m.write_u32(0x0600_1000, 0x0A0B_0C0D);
    assert_eq!(m.read_u32(0x0602_1000), 0x0A0B_0C0D);
    m.write_u32(0x0601_7FFE, 0x4433_2211);
    assert_eq!(m.read_u32(0x0601_7FFE), 0x4433_2211);
    assert_eq!(m.read_u16(0x0601_0000), 0x4433);
}

#[test]
fn unmapped_read_is_open_bus() {
    let m = Memory::new();
    assert_eq!(m.read_u8(0x0A00_0000), 0xFF);
    assert_eq!(m.read_u16(0x0A00_0000), 0xFFFF);
    assert_eq!(m.read_u32(0x0A00_0000), 0xFFFF_FFFF);
    assert_eq!(m.read_u8(0x0100_0000), 0xFF);
    assert_eq!(Region::of(0x0A00_0000), Region::Unmapped);
}

#[test]
fn unmapped_write_changes_nothing() {
    let mut m = Memory::new();
    m.write_u32(0x0200_0000, 0x0102_0304);
    m.write_u32(0x0A00_0000, 0xFFFF_FFFF);
    m.write_u8(0x0A00_0000, 0x12);
    m.write_u16(0x0F00_0000, 0x3456);
    assert_eq!(m.read_u32(0x0A00_0000), 0xFFFF_FFFF);
    assert_eq!(m.read_u32(0x0200_0000), 0x0102_0304);
    assert_eq!(m.read_u32(0x0000_0000), 0);
    assert_eq!(m.read_u32(0x0300_0000), 0);
}

#[test]
fn read_only_regions_ignore_writes() {
    let mut m = Memory::new();
    m.load_rom(vec![1, 2, 3, 4]);
    m.write_u8(0x0000_0010, 0xAA);
    m.write_u32(0x0800_0000, 0);
    m.write_u8(0x0400_0000, 0x55);
    assert_eq!(m.read_u8(0x0000_0010), 0);
    assert_eq!(m.read_u32(0x0800_0000), 0x0403_0201);
    assert_eq!(m.read_u8(0x0400_0000), 0);
}

#[test]
fn cartridge_reads_past_image_are_open_bus() {
    let mut m = Memory::new();
    m.load_rom(vec![0x10, 0x20, 0x30]);
    assert_eq!(m.read_u8(0x0800_0002), 0x30);
    assert_eq!(m.read_u8(0x0800_0003), 0xFF);
    assert_eq!(m.read_u32(0x0800_0000), 0xFF30_2010);
    assert_eq!(m.read_u8(0x09FF_FFFF), 0xFF);
}

#[test]
fn cartridge_load_replaces_image() {
    let mut m = Memory::new();
    m.load_rom(vec![1, 2, 3, 4, 5]);
    m.load_rom(vec![9]);
    assert_eq!(m.read_u8(0x0800_0000), 9);
    assert_eq!(m.read_u8(0x0800_0001), 0xFF);
}

#[test]
fn io_window_reads_zero() {
    let m = Memory::new();
    assert_eq!(m.read_u8(0x0400_0000), 0);
    assert_eq!(m.read_u32(0x0400_03FC), 0);
    assert_eq!(Region::of(0x0400_0400), Region::Unmapped);
}

#[test]
fn word_straddling_two_regions_reads_each_byte_from_its_own() {
    let mut m = Memory::new();
    m.load_rom(vec![0xAB, 0xCD]);
    m.write_u16(0x07FF_FFFE, 0x1234);
    assert_eq!(m.read_u32(0x07FF_FFFE), 0xCDAB_1234);
}

#[test]
fn top_of_address_space_wraps_to_zero() {
    let m = Memory::new();
    assert_eq!(m.read_u16(0xFFFF_FFFF), 0x00FF);
}

#[test]
fn region_dispatch_table() {
    assert_eq!(Region::of(0x0000_0000), Region::Bios);
    assert_eq!(Region::of(0x02FF_FFFF), Region::Ewram);
    assert_eq!(Region::of(0x0300_0000), Region::Iwram);
    assert_eq!(Region::of(0x0400_03FF), Region::Io);
    assert_eq!(Region::of(0x0500_0000), Region::Palette);
    assert_eq!(Region::of(0x0600_0000), Region::Vram);
    assert_eq!(Region::of(0x0700_0000), Region::Oam);
    assert_eq!(Region::of(0x09FF_FFFF), Region::Rom);
    assert_eq!(Region::of(0x0A00_0000), Region::Unmapped);
}
