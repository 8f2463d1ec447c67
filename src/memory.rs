//! The guest address space: fixed-size byte regions, a cartridge image, an
//! inert I/O window, and the little-endian bus built on byte accesses.
use vstd::prelude::*;

use crate::lemma_and_le;

verus! {

pub const BIOS_SIZE: usize = 0x4000;

pub const EWRAM_SIZE: usize = 0x40000;

pub const IWRAM_SIZE: usize = 0x8000;

pub const VRAM_SIZE: usize = 0x18000;

pub const PALETTE_SIZE: usize = 0x400;

pub const OAM_SIZE: usize = 0x400;

/// First address of the cartridge window.
pub const ROM_BASE: u32 = 0x0800_0000;

/// Value seen on reads of unmapped addresses and past the cartridge image.
pub const OPEN_BUS: u8 = 0xFF;

/// The window an address falls in, checked in a fixed priority order.
#[derive(PartialEq, Eq, Structural, Clone, Copy, Debug)]
pub enum Region {
    Bios,
    Ewram,
    Iwram,
    Io,
    Palette,
    Vram,
    Oam,
    Rom,
    Unmapped,
}

/// Dispatch table of the bus. Each RAM-like region owns a 16 MiB window and
/// is mirrored through it by its mask; video RAM repeats every 128 KiB, the
/// last 32 KiB of each repeat folding back onto the buffer's last 32 KiB.
/// The I/O window is 1 KiB and the cartridge window is 32 MiB.
pub open spec fn region_at(a: u32) -> Region {
    if a <= 0x00FF_FFFF {
        Region::Bios
    } else if 0x0200_0000 <= a <= 0x02FF_FFFF {
        Region::Ewram
    } else if 0x0300_0000 <= a <= 0x03FF_FFFF {
        Region::Iwram
    } else if 0x0400_0000 <= a <= 0x0400_03FF {
        Region::Io
    } else if 0x0500_0000 <= a <= 0x05FF_FFFF {
        Region::Palette
    } else if 0x0600_0000 <= a <= 0x06FF_FFFF {
        Region::Vram
    } else if 0x0700_0000 <= a <= 0x07FF_FFFF {
        Region::Oam
    } else if 0x0800_0000 <= a <= 0x09FF_FFFF {
        Region::Rom
    } else {
        Region::Unmapped
    }
}

impl Region {
    /// Classifies an address; an `Unmapped` result is what makes an
    /// open-bus read or a discarded write observable to a caller.
    pub fn of(address: u32) -> (r: Region)
        ensures
            r == region_at(address),
        no_unwind
    {
        if address <= 0x00FF_FFFF {
            Region::Bios
        } else if 0x0200_0000 <= address && address <= 0x02FF_FFFF {
            Region::Ewram
        } else if 0x0300_0000 <= address && address <= 0x03FF_FFFF {
            Region::Iwram
        } else if 0x0400_0000 <= address && address <= 0x0400_03FF {
            Region::Io
        } else if 0x0500_0000 <= address && address <= 0x05FF_FFFF {
            Region::Palette
        } else if 0x0600_0000 <= address && address <= 0x06FF_FFFF {
            Region::Vram
        } else if 0x0700_0000 <= address && address <= 0x07FF_FFFF {
            Region::Oam
        } else if 0x0800_0000 <= address && address <= 0x09FF_FFFF {
            Region::Rom
        } else {
            Region::Unmapped
        }
    }

    /// Mask that folds an address onto an index of the region's buffer.
    pub open spec fn mask(self) -> u32 {
        match self {
            Region::Bios => 0x3FFF,
            Region::Ewram => 0x3FFFF,
            Region::Iwram => 0x7FFF,
            Region::Palette => 0x3FF,
            Region::Vram => 0x1FFFF,
            Region::Oam => 0x3FF,
            _ => 0,
        }
    }

    /// Length of the region's buffer.
    pub open spec fn size(self) -> nat {
        match self {
            Region::Bios => BIOS_SIZE as nat,
            Region::Ewram => EWRAM_SIZE as nat,
            Region::Iwram => IWRAM_SIZE as nat,
            Region::Palette => PALETTE_SIZE as nat,
            Region::Vram => VRAM_SIZE as nat,
            Region::Oam => OAM_SIZE as nat,
            _ => 0,
        }
    }

    /// Regions whose buffer size is a power of two, the mask being that size
    /// less one; video RAM (96 KiB) is the one buffer that is not.
    pub open spec fn is_power_of_two_sized(self) -> bool {
        match self {
            Region::Bios | Region::Ewram | Region::Iwram | Region::Palette | Region::Oam => true,
            _ => false,
        }
    }

    /// Regions backed by a buffer that a store changes.
    pub open spec fn is_writable(self) -> bool {
        match self {
            Region::Ewram | Region::Iwram | Region::Palette | Region::Vram | Region::Oam => true,
            _ => false,
        }
    }
}

/// Index of an address within the buffer of its region: the masked address,
/// and for video RAM past its 96 KiB, that less 0x8000.
pub open spec fn offset_in(a: u32) -> int {
    let i = (a & region_at(a).mask()) as int;
    if region_at(a) == Region::Vram && i >= VRAM_SIZE {
        i - 0x8000
    } else {
        i
    }
}

/// Abstract contents of the address space.
#[verifier::ext_equal]
pub struct MemView {
    pub bios: Seq<u8>,
    pub ewram: Seq<u8>,
    pub iwram: Seq<u8>,
    pub vram: Seq<u8>,
    pub palette_ram: Seq<u8>,
    pub oam: Seq<u8>,
    pub rom: Seq<u8>,
}

impl MemView {
    /// Every fixed region has its documented size; the cartridge image may
    /// have any length.
    pub open spec fn wf(self) -> bool {
        &&& self.bios.len() == BIOS_SIZE
        &&& self.ewram.len() == EWRAM_SIZE
        &&& self.iwram.len() == IWRAM_SIZE
        &&& self.vram.len() == VRAM_SIZE
        &&& self.palette_ram.len() == PALETTE_SIZE
        &&& self.oam.len() == OAM_SIZE
    }

    pub open spec fn load_byte(self, a: u32) -> u8 {
        let i = offset_in(a);
        match region_at(a) {
            Region::Bios => self.bios[i],
            Region::Ewram => self.ewram[i],
            Region::Iwram => self.iwram[i],
            Region::Vram => self.vram[i],
            Region::Palette => self.palette_ram[i],
            Region::Oam => self.oam[i],
            Region::Rom => {
                let k = a - ROM_BASE;
                if k < self.rom.len() {
                    self.rom[k]
                } else {
                    OPEN_BUS
                }
            },
            Region::Io => 0,
            Region::Unmapped => OPEN_BUS,
        }
    }

    /// Little-endian halfword: the byte at `a`, then the byte after it.
    pub open spec fn load_half(self, a: u32) -> u16 {
        (self.load_byte(a) as u16) | ((self.load_byte(a.wrapping_add(1)) as u16) << 8u16)
    }

    /// Little-endian word: the halfword at `a`, then the halfword after it.
    pub open spec fn load_word(self, a: u32) -> u32 {
        (self.load_half(a) as u32) | ((self.load_half(a.wrapping_add(2)) as u32) << 16u32)
    }

    pub open spec fn store_byte(self, a: u32, v: u8) -> MemView {
        let i = offset_in(a);
        match region_at(a) {
            Region::Ewram => MemView { ewram: self.ewram.update(i, v), ..self },
            Region::Iwram => MemView { iwram: self.iwram.update(i, v), ..self },
            Region::Vram => MemView { vram: self.vram.update(i, v), ..self },
            Region::Palette => MemView { palette_ram: self.palette_ram.update(i, v), ..self },
            Region::Oam => MemView { oam: self.oam.update(i, v), ..self },
            _ => self,
        }
    }

    pub open spec fn store_half(self, a: u32, v: u16) -> MemView {
        self.store_byte(a, v as u8).store_byte(a.wrapping_add(1), (v >> 8u16) as u8)
    }

    pub open spec fn store_word(self, a: u32, v: u32) -> MemView {
        self.store_half(a, v as u16).store_half(a.wrapping_add(2), (v >> 16u32) as u16)
    }
}

pub open spec fn zeros(n: nat) -> Seq<u8> {
    Seq::new(n, |_i: int| 0u8)
}

/// Contents at power-on: every region zero-filled, no cartridge image.
pub open spec fn power_on() -> MemView {
    MemView {
        bios: zeros(BIOS_SIZE as nat),
        ewram: zeros(EWRAM_SIZE as nat),
        iwram: zeros(IWRAM_SIZE as nat),
        vram: zeros(VRAM_SIZE as nat),
        palette_ram: zeros(PALETTE_SIZE as nat),
        oam: zeros(OAM_SIZE as nat),
        rom: Seq::empty(),
    }
}

/// Addresses one to three apart never share an index under a power-of-two
/// region mask.
proof fn lemma_nearby_indices_differ(a: u32, b: u32, m: u32)
    requires
        m == 0x3FF || m == 0x7FFF || m == 0x3FFF || m == 0x3FFFF,
        a < b,
        b - a <= 3,
    ensures
        a & m != b & m,
{
    assert(a & m != b & m) by (bit_vector)
        requires
            m == 0x3FF || m == 0x7FFF || m == 0x3FFF || m == 0x3FFFF,
            a < b,
            b - a <= 3,
    ;
}

/// Addresses one to three apart never share a video RAM index, the upper
/// 32 KiB of each 128 KiB mirror folding back by 0x8000.
proof fn lemma_nearby_vram_indices_differ(a: u32, b: u32)
    requires
        a < b,
        b - a <= 3,
    ensures
        (if a & 0x1FFFF >= 0x18000 { (a & 0x1FFFF) - 0x8000 } else { (a & 0x1FFFF) as int }) != (
        if b & 0x1FFFF >= 0x18000 { (b & 0x1FFFF) - 0x8000 } else { (b & 0x1FFFF) as int }),
{
    assert((if a & 0x1FFFF >= 0x18000 { (a & 0x1FFFF) - 0x8000 } else { (a & 0x1FFFF) as int })
        != (if b & 0x1FFFF >= 0x18000 { (b & 0x1FFFF) - 0x8000 } else { (b & 0x1FFFF) as int }))
        by (bit_vector)
        requires
            a < b,
            b - a <= 3,
    ;
}

/// Addresses one to three apart in one buffer-backed region are different
/// cells.
proof fn lemma_nearby_offsets_differ(a: u32, b: u32)
    requires
        region_at(a) == region_at(b),
        region_at(a).size() > 0,
        a < b,
        b - a <= 3,
    ensures
        offset_in(a) != offset_in(b),
{
    if region_at(a) == Region::Vram {
        lemma_nearby_vram_indices_differ(a, b);
    } else {
        lemma_nearby_indices_differ(a, b, region_at(a).mask());
    }
}

/// Adding the size of a power-of-two region keeps the masked index.
proof fn lemma_mirror_index(a: u32, b: u32, m: u32)
    requires
        m == 0x3FF || m == 0x7FFF || m == 0x3FFF || m == 0x3FFFF,
        b == a + m + 1,
    ensures
        a & m == b & m,
{
    assert(a & m == b & m) by (bit_vector)
        requires
            m == 0x3FF || m == 0x7FFF || m == 0x3FFF || m == 0x3FFFF,
            b == a + m + 1,
    ;
}

proof fn lemma_half_bytes(v: u16)
    ensures
        ((v as u8) as u16) | ((((v >> 8u16) as u8) as u16) << 8u16) == v,
{
    assert(((v as u8) as u16) | ((((v >> 8u16) as u8) as u16) << 8u16) == v) by (bit_vector);
}

proof fn lemma_word_halves(v: u32)
    ensures
        ((v as u16) as u32) | ((((v >> 16u32) as u16) as u32) << 16u32) == v,
{
    assert(((v as u16) as u32) | ((((v >> 16u32) as u16) as u32) << 16u32) == v) by (bit_vector);
}

/// A byte store changes no byte held at another place.
proof fn lemma_store_byte_frame(m: MemView, a: u32, v: u8, b: u32)
    requires
        m.wf(),
        region_at(a) != region_at(b) || offset_in(a) != offset_in(b),
    ensures
        m.store_byte(a, v).load_byte(b) == m.load_byte(b),
{
    lemma_and_le(a, region_at(a).mask());
    lemma_and_le(b, region_at(b).mask());
}

/// Byte stores keep the region sizes.
proof fn lemma_store_byte_wf(m: MemView, a: u32, v: u8)
    requires
        m.wf(),
    ensures
        m.store_byte(a, v).wf(),
{
    lemma_and_le(a, region_at(a).mask());
}

/// A byte written to a writable region reads back unchanged.
pub proof fn lemma_byte_round_trip(m: MemView, a: u32, v: u8)
    requires
        m.wf(),
        region_at(a).is_writable(),
    ensures
        m.store_byte(a, v).load_byte(a) == v,
{
    lemma_and_le(a, region_at(a).mask());
}

/// Facts on two neighbouring bytes `a` and `a + 1` of one writable region.
proof fn lemma_half_cells(m: MemView, a: u32)
    requires
        m.wf(),
        region_at(a).is_writable(),
        region_at(a.wrapping_add(1)) == region_at(a),
    ensures
        a.wrapping_add(1) == a + 1,
        offset_in(a) != offset_in(a.wrapping_add(1)),
{
    lemma_nearby_offsets_differ(a, a.wrapping_add(1));
}

/// A halfword written within one writable region reads back unchanged.
pub proof fn lemma_half_round_trip(m: MemView, a: u32, v: u16)
    requires
        m.wf(),
        region_at(a).is_writable(),
        region_at(a.wrapping_add(1)) == region_at(a),
    ensures
        m.store_half(a, v).load_half(a) == v,
{
    let a1 = a.wrapping_add(1);
    let m1 = m.store_byte(a, v as u8);
    lemma_half_cells(m, a);
    lemma_store_byte_wf(m, a, v as u8);
    lemma_byte_round_trip(m, a, v as u8);
    lemma_byte_round_trip(m1, a1, (v >> 8u16) as u8);
    lemma_store_byte_frame(m1, a1, (v >> 8u16) as u8, a);
    lemma_half_bytes(v);
}

/// A halfword store at `b` changes no byte held at another place.
proof fn lemma_store_half_frame(m: MemView, b: u32, v: u16, a: u32)
    requires
        m.wf(),
        region_at(a) != region_at(b) || offset_in(a) != offset_in(b),
        region_at(a) != region_at(b.wrapping_add(1)) || offset_in(a) != offset_in(
            b.wrapping_add(1),
        ),
    ensures
        m.store_half(b, v).load_byte(a) == m.load_byte(a),
{
    lemma_store_byte_frame(m, b, v as u8, a);
    lemma_store_byte_wf(m, b, v as u8);
    lemma_store_byte_frame(m.store_byte(b, v as u8), b.wrapping_add(1), (v >> 8u16) as u8, a);
}

/// A word written within one writable region reads back unchanged.
pub proof fn lemma_word_round_trip(m: MemView, a: u32, v: u32)
    requires
        m.wf(),
        region_at(a).is_writable(),
        region_at(a.wrapping_add(3)) == region_at(a),
    ensures
        m.store_word(a, v).load_word(a) == v,
{
    let r = region_at(a);
    let a1 = a.wrapping_add(1);
    let a2 = a.wrapping_add(2);
    let a3 = a.wrapping_add(3);
    let lo = v as u16;
    let hi = (v >> 16u32) as u16;
    let m1 = m.store_half(a, lo);
    assert(a1 == a + 1 && a2 == a + 2 && a3 == a + 3);
    assert(a2.wrapping_add(1) == a3);
    assert(region_at(a1) == r && region_at(a2) == r);
    lemma_half_round_trip(m, a, lo);
    lemma_store_byte_wf(m, a, lo as u8);
    lemma_store_byte_wf(m.store_byte(a, lo as u8), a1, (lo >> 8u16) as u8);
    lemma_half_round_trip(m1, a2, hi);
    lemma_nearby_offsets_differ(a, a2);
    lemma_nearby_offsets_differ(a, a3);
    lemma_nearby_offsets_differ(a1, a2);
    lemma_nearby_offsets_differ(a1, a3);
    lemma_store_half_frame(m1, a2, hi, a);
    lemma_store_half_frame(m1, a2, hi, a1);
    lemma_word_halves(v);
}

/// Bytes one region size apart inside one power-of-two region are the same
/// cell.
proof fn lemma_mirror_byte(m: MemView, a: u32, b: u32)
    requires
        region_at(a) == region_at(b),
        region_at(a).is_power_of_two_sized(),
        b == a + region_at(a).size(),
    ensures
        m.load_byte(b) == m.load_byte(a),
{
    lemma_mirror_index(a, b, region_at(a).mask());
}

/// Each region whose size is a power of two is mirrored through its
/// window: byte, halfword and word reads at `a + size` equal those at `a`
/// while all bytes involved stay in the window.
pub proof fn lemma_mirror(m: MemView, a: u32)
    requires
        region_at(a).is_power_of_two_sized(),
        a + region_at(a).size() + 3 <= u32::MAX,
        region_at((a + region_at(a).size() + 3) as u32) == region_at(a),
    ensures
        m.load_byte((a + region_at(a).size()) as u32) == m.load_byte(a),
        m.load_half((a + region_at(a).size()) as u32) == m.load_half(a),
        m.load_word((a + region_at(a).size()) as u32) == m.load_word(a),
{
    let r = region_at(a);
    let b = (a + r.size()) as u32;
    assert(a.wrapping_add(1) == a + 1 && a.wrapping_add(2) == a + 2);
    assert(b.wrapping_add(1) == b + 1 && b.wrapping_add(2) == b + 2);
    assert(a.wrapping_add(2).wrapping_add(1) == a + 3);
    assert(b.wrapping_add(2).wrapping_add(1) == b + 3);
    assert(region_at(b) == r && region_at((b + 1) as u32) == r);
    assert(region_at((b + 2) as u32) == r && region_at((b + 3) as u32) == r);
    assert(region_at((a + 1) as u32) == r && region_at((a + 2) as u32) == r);
    assert(region_at((a + 3) as u32) == r);
    lemma_mirror_byte(m, a, b);
    lemma_mirror_byte(m, (a + 1) as u32, (b + 1) as u32);
    lemma_mirror_byte(m, (a + 2) as u32, (b + 2) as u32);
    lemma_mirror_byte(m, (a + 3) as u32, (b + 3) as u32);
}

/// An unmapped byte reads as open bus and ignores stores.
pub proof fn lemma_unmapped_byte(m: MemView, a: u32, v: u8)
    requires
        region_at(a) == Region::Unmapped,
    ensures
        m.load_byte(a) == OPEN_BUS,
        m.store_byte(a, v) == m,
{
}

/// A word access whose four bytes are all unmapped reads as all ones and
/// leaves the memory as it was.
pub proof fn lemma_unmapped_word(m: MemView, a: u32, v: u32)
    requires
        forall|k: u32| 0 <= k < 4 ==> region_at(#[trigger] a.wrapping_add(k)) == Region::Unmapped,
    ensures
        m.load_word(a) == 0xFFFF_FFFFu32,
        m.store_word(a, v) == m,
{
    let a1 = a.wrapping_add(1);
    let a2 = a.wrapping_add(2);
    let a3 = a2.wrapping_add(1);
    assert(region_at(a.wrapping_add(0)) == Region::Unmapped);
    assert(a.wrapping_add(0) == a);
    assert(region_at(a1) == Region::Unmapped);
    assert(region_at(a2) == Region::Unmapped);
    assert(a3 == a.wrapping_add(3));
    assert(region_at(a.wrapping_add(3)) == Region::Unmapped);
    assert(((0xFFu8 as u16) | ((0xFFu8 as u16) << 8u16)) == 0xFFFFu16) by (bit_vector);
    assert(((0xFFFFu16 as u32) | ((0xFFFFu16 as u32) << 16u32)) == 0xFFFF_FFFFu32)
        by (bit_vector);
}

/// Index into video RAM of an address in its window: 17 address bits, the
/// upper 32 KiB of each 128 KiB folding back onto the last 32 KiB.
fn vram_index(address: u32) -> (i: usize)
    requires
        region_at(address) == Region::Vram,
    ensures
        i == offset_in(address),
        i < VRAM_SIZE,
    no_unwind
{
    proof {
        lemma_and_le(address, 0x1FFFF);
    }
    let i = address & 0x1FFFF;
    if i >= 0x18000 {
        (i - 0x8000) as usize
    } else {
        i as usize
    }
}

#[derive(Debug)]
pub struct Memory {
    bios: Vec<u8>,
    ewram: Vec<u8>,
    iwram: Vec<u8>,
    vram: Vec<u8>,
    palette_ram: Vec<u8>,
    oam: Vec<u8>,
    rom: Vec<u8>,
}

impl View for Memory {
    type V = MemView;

    closed spec fn view(&self) -> MemView {
        MemView {
            bios: self.bios@,
            ewram: self.ewram@,
            iwram: self.iwram@,
            vram: self.vram@,
            palette_ram: self.palette_ram@,
            oam: self.oam@,
            rom: self.rom@,
        }
    }
}

fn zeroed(n: usize) -> (v: Vec<u8>)
    ensures
        v@ == zeros(n as nat),
{
    let v = vec![0u8; n];
    assert(v@ =~= zeros(n as nat));
    v
}

impl Memory {
    #[verifier::type_invariant]
    closed spec fn sized(&self) -> bool {
        self@.wf()
    }

    /// Zero-filled regions and an empty cartridge image.
    pub fn new() -> (m: Memory)
        ensures
            m@ == power_on(),
            m@.wf(),
    {
        let m = Memory {
            bios: zeroed(BIOS_SIZE),
            ewram: zeroed(EWRAM_SIZE),
            iwram: zeroed(IWRAM_SIZE),
            vram: zeroed(VRAM_SIZE),
            palette_ram: zeroed(PALETTE_SIZE),
            oam: zeroed(OAM_SIZE),
            rom: Vec::new(),
        };
        assert(m@ =~= power_on());
        m
    }

    /// Replaces the cartridge image wholesale.
    pub fn load_rom(&mut self, image: Vec<u8>)
        ensures
            final(self)@ == (MemView { rom: image@, ..old(self)@ }),
            final(self)@.wf(),
    {
        proof {
            use_type_invariant(&*self);
        }
        self.rom = image;
    }

    pub fn read_u8(&self, address: u32) -> (r: u8)
        ensures
            r == self@.load_byte(address),
    {
        proof {
            use_type_invariant(self);
            lemma_and_le(address, region_at(address).mask());
        }
        match Region::of(address) {
            Region::Bios => self.bios[(address & 0x3FFF) as usize],
            Region::Ewram => self.ewram[(address & 0x3FFFF) as usize],
            Region::Iwram => self.iwram[(address & 0x7FFF) as usize],
            Region::Vram => self.vram[vram_index(address)],
            Region::Palette => self.palette_ram[(address & 0x3FF) as usize],
            Region::Oam => self.oam[(address & 0x3FF) as usize],
            Region::Rom => {
                let k = (address - ROM_BASE) as usize;
                if k < self.rom.len() {
                    self.rom[k]
                } else {
                    OPEN_BUS
                }
            },
            Region::Io => 0,
            Region::Unmapped => OPEN_BUS,
        }
    }

    pub fn read_u16(&self, address: u32) -> (r: u16)
        ensures
            r == self@.load_half(address),
    {
        let low = self.read_u8(address) as u16;
        let high = self.read_u8(address.wrapping_add(1)) as u16;
        low | (high << 8u16)
    }

    pub fn read_u32(&self, address: u32) -> (r: u32)
        ensures
            r == self@.load_word(address),
    {
        let low = self.read_u16(address) as u32;
        let high = self.read_u16(address.wrapping_add(2)) as u32;
        low | (high << 16u32)
    }

    pub fn write_u8(&mut self, address: u32, value: u8)
        ensures
            final(self)@ == old(self)@.store_byte(address, value),
            final(self)@.wf(),
        no_unwind
    {
        proof {
            use_type_invariant(&*self);
            lemma_and_le(address, region_at(address).mask());
        }
        match Region::of(address) {
            Region::Ewram => self.ewram[(address & 0x3FFFF) as usize] = value,
            Region::Iwram => self.iwram[(address & 0x7FFF) as usize] = value,
            Region::Vram => self.vram[vram_index(address)] = value,
            Region::Palette => self.palette_ram[(address & 0x3FF) as usize] = value,
            Region::Oam => self.oam[(address & 0x3FF) as usize] = value,
            _ => {},
        }
    }

    pub fn write_u16(&mut self, address: u32, value: u16)
        ensures
            final(self)@ == old(self)@.store_half(address, value),
            final(self)@.wf(),
    {
        self.write_u8(address, value as u8);
        self.write_u8(address.wrapping_add(1), (value >> 8u16) as u8);
    }

    pub fn write_u32(&mut self, address: u32, value: u32)
        ensures
            final(self)@ == old(self)@.store_word(address, value),
            final(self)@.wf(),
    {
        self.write_u16(address, value as u16);
        self.write_u16(address.wrapping_add(2), (value >> 16u32) as u16);
    }
}

} // verus!
