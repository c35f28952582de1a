use vstd::prelude::*;

use crate::utils::{high_of, low_of, word_of, Address, Byte, Word};

verus! {

pub const MEMORY_SIZE: usize = 0x10000;

pub const ROM_END: usize = 0x8000;

pub const MBC_TYPE_ADDRESS: Address = 0x0147;

pub const OAM_ADDRESS: Address = 0xFE00;

pub const OAM_SIZE: Address = 160;

pub const JOYPAD_ADDRESS: Address = 0xFF00;

pub const SERIAL_DATA_ADDRESS: Address = 0xFF01;

pub const SERIAL_CONTROL_ADDRESS: Address = 0xFF02;

pub const DIV_ADDRESS: Address = 0xFF04;

pub const TIMA_ADDRESS: Address = 0xFF05;

pub const TMA_ADDRESS: Address = 0xFF06;

pub const TAC_ADDRESS: Address = 0xFF07;

pub const INTERRUPT_FLAG_ADDRESS: Address = 0xFF0F;

pub const LCDC_ADDRESS: Address = 0xFF40;

pub const STAT_ADDRESS: Address = 0xFF41;

pub const SCY_ADDRESS: Address = 0xFF42;

pub const SCX_ADDRESS: Address = 0xFF43;

pub const LY_ADDRESS: Address = 0xFF44;

pub const LYC_ADDRESS: Address = 0xFF45;

pub const DMA_ADDRESS: Address = 0xFF46;

pub const BGP_ADDRESS: Address = 0xFF47;

pub const OBP0_ADDRESS: Address = 0xFF48;

pub const OBP1_ADDRESS: Address = 0xFF49;

pub const WY_ADDRESS: Address = 0xFF4A;

pub const WX_ADDRESS: Address = 0xFF4B;

pub const BOOT_ADDRESS: Address = 0xFF50;

pub const BOOT_SIZE: usize = 0x100;

pub const INTERRUPT_ENABLE_ADDRESS: Address = 0xFFFF;

/// T-cycles during which an OAM DMA occupies the bus (160 machine cycles).
pub const DMA_CYCLES: u16 = 640;

/// Cartridge mapper kinds this core knows.
#[derive(Debug, Clone, Copy, PartialEq, Eq, Structural)]
pub enum RomType {
    RomOnly,
    MBC1,
}

/// Errors reported when a cartridge is loaded.
#[derive(Debug, Clone, Copy, PartialEq, Eq, Structural)]
pub enum LoadError {
    /// The header declares a mapper this core does not implement.
    UnsupportedMapper(Byte),
}

/// The mathematical state of the bus.
pub struct BusView {
    /// Backing store of the 64 KiB address space, I/O registers included.
    pub ram: Seq<u8>,
    /// Internal 16-bit divider counter; DIV is its high byte.
    pub counter: u16,
    /// T-cycles of OAM DMA bus occupancy left.
    pub dma: u16,
    /// Pressed buttons: bits 0-3 Right, Left, Up, Down; bits 4-7 A, B, Select, Start.
    pub buttons: u8,
    /// Boot ROM image.
    pub boot: Seq<u8>,
    /// Whether the boot ROM overlays the cartridge.
    pub boot_active: bool,
    /// T-cycles left before TIMA is reloaded from TMA after an overflow
    /// (0: none pending).
    pub reload: u8,
}

pub open spec fn in_hram(a: u16) -> bool {
    0xFF80 <= a <= 0xFFFE
}

pub open spec fn in_echo(a: u16) -> bool {
    0xE000 <= a <= 0xFDFF
}

pub open spec fn in_unusable(a: u16) -> bool {
    0xFEA0 <= a <= 0xFEFF
}

/// Low nibble of the joypad register: active-low lines of the selected groups.
pub open spec fn joypad_lines(select: u8, buttons: u8) -> u8 {
    let dpad: u8 = if select & 0x10 == 0 { buttons & 0x0F } else { 0 };
    let keys: u8 = if select & 0x20 == 0 { buttons >> 4u8 } else { 0 };
    !(dpad | keys) & 0x0F
}

pub open spec fn joypad_value(select: u8, buttons: u8) -> u8 {
    0xC0 | (select & 0x30) | joypad_lines(select, buttons)
}

/// T-cycles between a TIMA overflow and its reload from TMA.
pub const RELOAD_DELAY: u8 = 4;

/// Whether the divider bit that clocks TIMA is set, for the clock select
/// `sel` of TAC: bit 9, 3, 5 or 7 for 4096, 262144, 65536 or 16384 Hz.
pub open spec fn timer_bit(counter: u16, sel: u8) -> bool {
    if sel == 0 {
        counter / 512 % 2 == 1
    } else if sel == 1 {
        counter / 8 % 2 == 1
    } else if sel == 2 {
        counter / 32 % 2 == 1
    } else {
        counter / 128 % 2 == 1
    }
}

/// The signal whose falling edges clock TIMA: the enable bit of TAC AND the
/// selected divider bit.
pub open spec fn timer_signal(m: BusView) -> bool {
    m.ram[TAC_ADDRESS as int] / 4 % 2 == 1 && timer_bit(m.counter, m.ram[TAC_ADDRESS as int] % 4)
}

/// One TIMA increment; an overflow leaves TIMA at 0 and starts the reload.
pub open spec fn tima_tick(m: BusView) -> BusView {
    let tima = m.ram[TIMA_ADDRESS as int];
    if tima == 0xFF {
        BusView { ram: m.ram.update(TIMA_ADDRESS as int, 0), reload: RELOAD_DELAY, ..m }
    } else {
        BusView { ram: m.ram.update(TIMA_ADDRESS as int, (tima + 1) as u8), ..m }
    }
}

/// `after` with TIMA ticked when the timer signal fell from `before`.
pub open spec fn tima_edge(before: BusView, after: BusView) -> BusView {
    if timer_signal(before) && !timer_signal(after) {
        tima_tick(after)
    } else {
        after
    }
}

/// Source address of byte `i` of an OAM DMA started with `v`.
pub open spec fn dma_source(v: u8, i: int) -> u16 {
    (v as int * 256 + i) as u16
}

impl BusView {
    pub open spec fn wf(self) -> bool {
        self.ram.len() == MEMORY_SIZE
    }

    /// What a read of `a` returns, ignoring the DMA lockout.
    #[verifier::opaque]
    pub open spec fn peek(self, a: u16) -> u8 {
        if self.boot_active && a < BOOT_SIZE && (a as int) < self.boot.len() {
            self.boot[a as int]
        } else if in_echo(a) {
            self.ram[a - 0x2000]
        } else if in_unusable(a) {
            0xFF
        } else if a == JOYPAD_ADDRESS {
            joypad_value(self.ram[a as int], self.buttons)
        } else if a == DIV_ADDRESS {
            high_of(self.counter)
        } else {
            self.ram[a as int]
        }
    }

    /// What a CPU read of `a` returns.
    #[verifier::opaque]
    pub open spec fn read(self, a: u16) -> u8 {
        if self.dma > 0 && !in_hram(a) {
            0xFF
        } else {
            self.peek(a)
        }
    }

    pub open spec fn read_word(self, a: u16) -> u16 {
        word_of(self.read(a), self.read(a.wrapping_add(1)))
    }

    /// The store after an OAM DMA from page `v`.
    #[verifier::opaque]
    pub open spec fn dma_ram(self, v: u8) -> Seq<u8> {
        Seq::new(
            MEMORY_SIZE as nat,
            |k: int|
                if k == DMA_ADDRESS {
                    v
                } else if OAM_ADDRESS <= k < OAM_ADDRESS + OAM_SIZE {
                    self.peek(dma_source(v, k - OAM_ADDRESS))
                } else {
                    self.ram[k]
                },
        )
    }

    /// The bus after a CPU write of `v` to `a`.
    #[verifier::opaque]
    pub open spec fn write(self, a: u16, v: u8) -> BusView {
        if a < ROM_END || in_unusable(a) {
            self
        } else if in_echo(a) {
            BusView { ram: self.ram.update(a - 0x2000, v), ..self }
        } else if a == JOYPAD_ADDRESS {
            BusView { ram: self.ram.update(a as int, v & 0x30), ..self }
        } else if a == DIV_ADDRESS {
            tima_edge(self, BusView { counter: 0, ..self })
        } else if a == TAC_ADDRESS {
            tima_edge(self, BusView { ram: self.ram.update(a as int, v), ..self })
        } else if a == INTERRUPT_FLAG_ADDRESS {
            BusView { ram: self.ram.update(a as int, v & 0x1F), ..self }
        } else if a == STAT_ADDRESS {
            BusView { ram: self.ram.update(a as int, (self.ram[a as int] & 0x87) | (v & 0x78)), ..self }
        } else if a == LY_ADDRESS {
            BusView { ram: self.ram.update(a as int, 0), ..self }
        } else if a == DMA_ADDRESS {
            BusView { ram: self.dma_ram(v), dma: DMA_CYCLES, ..self }
        } else if a == BOOT_ADDRESS {
            BusView { ram: self.ram.update(a as int, v), boot_active: self.boot_active && v == 0, ..self }
        } else {
            BusView { ram: self.ram.update(a as int, v), ..self }
        }
    }

    pub open spec fn write_word(self, a: u16, w: u16) -> BusView {
        self.write(a, low_of(w)).write(a.wrapping_add(1), high_of(w))
    }
}

/// The 64 KiB address space with the side effects of its I/O registers.
pub struct Memory {
    memory: Vec<Byte>,
    counter: u16,
    dma: u16,
    buttons: u8,
    boot: Vec<Byte>,
    boot_active: bool,
    reload: u8,
}

impl View for Memory {
    type V = BusView;

    closed spec fn view(&self) -> BusView {
        BusView {
            ram: self.memory@,
            counter: self.counter,
            dma: self.dma,
            buttons: self.buttons,
            boot: self.boot@,
            boot_active: self.boot_active,
            reload: self.reload,
        }
    }
}

impl Memory {
    pub open spec fn wf(&self) -> bool {
        self@.wf()
    }

    pub fn new() -> (r: Self)
        ensures
            r.wf(),
            forall|k: int| 0 <= k < MEMORY_SIZE ==> #[trigger] r@.ram[k] == 0,
            r@.counter == 0,
            r@.dma == 0,
            r@.buttons == 0,
            r@.boot.len() == 0,
            !r@.boot_active,
            r@.reload == 0,
    {
        let mut memory: Vec<Byte> = Vec::new();
        let mut i: usize = 0;
        while i < MEMORY_SIZE
            invariant
                i <= MEMORY_SIZE,
                memory@.len() == i,
                forall|k: int| 0 <= k < i ==> #[trigger] memory@[k] == 0,
            decreases MEMORY_SIZE - i,
        {
            memory.push(0);
            i = i + 1;
        }
        Memory {
            memory,
            counter: 0,
            dma: 0,
            buttons: 0,
            boot: Vec::new(),
            boot_active: false,
            reload: 0,
        }
    }

    /// Load a cartridge image at address 0.
    pub fn load_rom(&mut self, rom_data: Vec<Byte>)
        requires
            old(self).wf(),
        ensures
            final(self).wf(),
            final(self)@ == (BusView { ram: loaded(old(self)@.ram, rom_data@, 0), ..old(self)@ }),
    {
        self.load_rom_offset(rom_data, 0);
    }

    /// Copy the bytes of `rom_data` from index `offset` on into the ROM window
    /// at the same addresses; the bytes below `offset` are left as they are.
    pub fn load_rom_offset(&mut self, rom_data: Vec<Byte>, offset: Address)
        requires
            old(self).wf(),
        ensures
            final(self).wf(),
            final(self)@ == (BusView { ram: loaded(old(self)@.ram, rom_data@, offset as int), ..old(self)@ }),
    {
        let end: usize = if rom_data.len() < ROM_END { rom_data.len() } else { ROM_END };
        let mut i: usize = offset as usize;
        while i < end
            invariant
                self.wf(),
                end <= ROM_END,
                end <= rom_data@.len(),
                offset <= i || end <= i,
                self.counter == old(self).counter,
                self.dma == old(self).dma,
                self.buttons == old(self).buttons,
                self.boot == old(self).boot,
                self.boot_active == old(self).boot_active,
                self.reload == old(self).reload,
                forall|k: int|
                    0 <= k < MEMORY_SIZE ==> #[trigger] self.memory@[k] == (if offset <= k < i && k < end {
                        rom_data@[k]
                    } else {
                        old(self).memory@[k]
                    }),
            decreases end - i,
        {
            self.memory.set(i, rom_data[i]);
            i = i + 1;
        }
        assert(self.memory@ =~= loaded(old(self)@.ram, rom_data@, offset as int));
    }

    /// A CPU read through the bus.
    pub fn read_byte(&self, address: Address) -> (r: Byte)
        requires
            self.wf(),
        ensures
            r == self@.read(address),
    {
        reveal(BusView::read);
        if self.dma > 0 && !(0xFF80 <= address && address <= 0xFFFE) {
            0xFF
        } else {
            self.peek(address)
        }
    }

    fn peek(&self, address: Address) -> (r: Byte)
        requires
            self.wf(),
        ensures
            r == self@.peek(address),
    {
        reveal(BusView::peek);
        if self.boot_active && (address as usize) < BOOT_SIZE && (address as usize) < self.boot.len() {
            self.boot[address as usize]
        } else if 0xE000 <= address && address <= 0xFDFF {
            self.memory[(address - 0x2000) as usize]
        } else if 0xFEA0 <= address && address <= 0xFEFF {
            0xFF
        } else if address == JOYPAD_ADDRESS {
            let select = self.memory[address as usize];
            let dpad: u8 = if select & 0x10 == 0 { self.buttons & 0x0F } else { 0 };
            let keys: u8 = if select & 0x20 == 0 { self.buttons >> 4u8 } else { 0 };
            0xC0 | (select & 0x30) | (!(dpad | keys) & 0x0F)
        } else if address == DIV_ADDRESS {
            let c = self.counter;
            assert(c >> 8 == c / 256) by (bit_vector);
            (c >> 8) as u8
        } else {
            self.memory[address as usize]
        }
    }

    /// Little-endian word at `address` and the address after it.
    pub fn read_word(&self, address: Address) -> (r: Word)
        requires
            self.wf(),
        ensures
            r == self@.read_word(address),
    {
        reveal(BusView::read);
        let lsb = self.read_byte(address);
        let msb = self.read_byte(address.wrapping_add(1));
        crate::utils::to_word(lsb, msb)
    }

    /// A CPU write through the bus.
    pub fn write_byte(&mut self, address: Address, byte: Byte)
        requires
            old(self).wf(),
        ensures
            final(self).wf(),
            final(self)@ == old(self)@.write(address, byte),
    {
        reveal(BusView::write);
        if address < 0x8000 || (0xFEA0 <= address && address <= 0xFEFF) {
        } else if 0xE000 <= address && address <= 0xFDFF {
            self.memory.set((address - 0x2000) as usize, byte);
        } else if address == JOYPAD_ADDRESS {
            self.memory.set(address as usize, byte & 0x30);
        } else if address == DIV_ADDRESS {
            let before = self.timer_signal();
            self.counter = 0;
            self.tima_edge(before);
        } else if address == TAC_ADDRESS {
            let before = self.timer_signal();
            self.memory.set(address as usize, byte);
            self.tima_edge(before);
        } else if address == INTERRUPT_FLAG_ADDRESS {
            self.memory.set(address as usize, byte & 0x1F);
        } else if address == STAT_ADDRESS {
            let old_stat = self.memory[address as usize];
            self.memory.set(address as usize, (old_stat & 0x87) | (byte & 0x78));
        } else if address == LY_ADDRESS {
            self.memory.set(address as usize, 0);
        } else if address == DMA_ADDRESS {
            self.start_dma(byte);
        } else if address == BOOT_ADDRESS {
            self.memory.set(address as usize, byte);
            self.boot_active = self.boot_active && byte == 0;
        } else {
            self.memory.set(address as usize, byte);
        }
    }

    /// Copy the 160 bytes of page `page` into OAM and occupy the bus.
    fn start_dma(&mut self, page: Byte)
        requires
            old(self).wf(),
        ensures
            final(self).wf(),
            final(self)@ == (BusView { ram: old(self)@.dma_ram(page), dma: DMA_CYCLES, ..old(self)@ }),
    {
        let ghost start = self@;
        reveal(BusView::dma_ram);
        reveal(BusView::peek);
        let mut i: u16 = 0;
        while i < OAM_SIZE
            invariant
                self.wf(),
                i <= OAM_SIZE,
                self.counter == start.counter,
                self.dma == start.dma,
                self.buttons == start.buttons,
                self.boot@ == start.boot,
                self.boot_active == start.boot_active,
                self.reload == start.reload,
                forall|k: int|
                    0 <= k < MEMORY_SIZE ==> #[trigger] self.memory@[k] == (if OAM_ADDRESS <= k < OAM_ADDRESS + i {
                        start.peek(dma_source(page, k - OAM_ADDRESS))
                    } else {
                        start.ram[k]
                    }),
            decreases OAM_SIZE - i,
        {
            reveal(BusView::peek);
            let src: u16 = (page as u16) * 256 + i;
            assert(src == dma_source(page, i as int));
            assert(self@.peek(src) == start.peek(src));
            let b = self.peek(src);
            self.memory.set((OAM_ADDRESS + i) as usize, b);
            i = i + 1;
        }
        self.memory.set(DMA_ADDRESS as usize, page);
        self.dma = DMA_CYCLES;
        assert(self.memory@ =~= start.dma_ram(page));
    }

    pub fn write_word(&mut self, address: Address, word: Word)
        requires
            old(self).wf(),
        ensures
            final(self).wf(),
            final(self)@ == old(self)@.write_word(address, word),
    {
        self.write_byte(address, (word % 256) as u8);
        self.write_byte(address.wrapping_add(1), (word / 256) as u8);
    }

    /// Read the backing store directly. Unlike `read_byte`, none of the bus rules
    /// apply: no echo, no unusable region, no DIV counter, no joypad lines,
    /// no boot overlay and no DMA lockout. The components that own an I/O
    /// register use it.
    pub fn read_raw(&self, address: Address) -> (r: Byte)
        requires
            self.wf(),
        ensures
            r == self@.ram[address as int],
    {
        self.memory[address as usize]
    }

    /// Store a byte directly. Unlike `write_byte`, none of the bus rules apply:
    /// ROM and the unusable region are written, and DIV, STAT, LY, IF, DMA,
    /// the joypad select and the boot switch have no side effect.
    pub fn write_raw(&mut self, address: Address, byte: Byte)
        requires
            old(self).wf(),
        ensures
            final(self).wf(),
            final(self)@ == (BusView { ram: old(self)@.ram.update(address as int, byte), ..old(self)@ }),
    {
        self.memory.set(address as usize, byte);
    }

    /// The mapper declared by the cartridge header.
    pub fn get_rom_type(&self) -> (r: Result<RomType, LoadError>)
        requires
            self.wf(),
        ensures
            r == rom_type_of(self@.ram[MBC_TYPE_ADDRESS as int]),
    {
        let rom_type = self.read_raw(MBC_TYPE_ADDRESS);
        if rom_type == 0x00 {
            Ok(RomType::RomOnly)
        } else if 0x01 <= rom_type && rom_type <= 0x03 {
            Ok(RomType::MBC1)
        } else {
            Err(LoadError::UnsupportedMapper(rom_type))
        }
    }

    /// Wrapping add `value` to the stored byte at `address`.
    pub fn wrapping_add(&mut self, address: Address, value: Byte)
        requires
            old(self).wf(),
        ensures
            final(self).wf(),
            final(self)@ == (BusView {
                ram: old(self)@.ram.update(address as int, ((old(self)@.ram[address as int] + value) % 256) as u8),
                ..old(self)@
            }),
    {
        let mem_val = self.read_raw(address);
        self.write_raw(address, mem_val.wrapping_add(value));
    }

    /// Map a boot ROM over the start of the cartridge until a non-zero
    /// write to 0xFF50.
    pub fn load_boot(&mut self, boot_data: Vec<Byte>)
        requires
            old(self).wf(),
        ensures
            final(self).wf(),
            final(self)@ == (BusView { boot: boot_data@, boot_active: true, ..old(self)@ }),
    {
        self.boot = boot_data;
        self.boot_active = true;
    }

    /// The signal whose falling edges clock TIMA.
    pub fn timer_signal(&self) -> (r: bool)
        requires
            self.wf(),
        ensures
            r == timer_signal(self@),
    {
        let tac = self.memory[TAC_ADDRESS as usize];
        let sel = tac % 4;
        let divisor: u16 = if sel == 0 {
            512
        } else if sel == 1 {
            8
        } else if sel == 2 {
            32
        } else {
            128
        };
        tac / 4 % 2 == 1 && self.counter / divisor % 2 == 1
    }

    /// One TIMA increment, starting the reload on overflow.
    pub fn tick_tima(&mut self)
        requires
            old(self).wf(),
        ensures
            final(self).wf(),
            final(self)@ == tima_tick(old(self)@),
    {
        let tima = self.memory[TIMA_ADDRESS as usize];
        if tima == 0xFF {
            self.memory.set(TIMA_ADDRESS as usize, 0);
            self.reload = RELOAD_DELAY;
        } else {
            self.memory.set(TIMA_ADDRESS as usize, tima + 1);
        }
    }

    /// Tick TIMA if the timer signal, `before` a change, has now fallen.
    fn tima_edge(&mut self, before: bool)
        requires
            old(self).wf(),
        ensures
            final(self).wf(),
            final(self)@ == (if before && !timer_signal(old(self)@) {
                tima_tick(old(self)@)
            } else {
                old(self)@
            }),
    {
        if before && !self.timer_signal() {
            self.tick_tima();
        }
    }

    /// T-cycles left before the pending TIMA reload.
    pub fn reload(&self) -> (r: u8)
        ensures
            r == self@.reload,
    {
        self.reload
    }

    pub fn set_reload(&mut self, reload: u8)
        requires
            old(self).wf(),
        ensures
            final(self).wf(),
            final(self)@ == (BusView { reload, ..old(self)@ }),
    {
        self.reload = reload;
    }

    /// The internal divider counter whose high byte DIV shows.
    pub fn div_counter(&self) -> (r: u16)
        ensures
            r == self@.counter,
    {
        self.counter
    }

    pub fn set_div_counter(&mut self, counter: u16)
        requires
            old(self).wf(),
        ensures
            final(self).wf(),
            final(self)@ == (BusView { counter, ..old(self)@ }),
    {
        self.counter = counter;
    }

    /// Record the pressed buttons (bit set = pressed).
    pub fn set_buttons(&mut self, buttons: u8)
        requires
            old(self).wf(),
        ensures
            final(self).wf(),
            final(self)@ == (BusView { buttons, ..old(self)@ }),
    {
        self.buttons = buttons;
    }

    /// Advance the DMA bus occupancy by `cycles` T-cycles.
    pub fn tick_dma(&mut self, cycles: u16)
        requires
            old(self).wf(),
        ensures
            final(self).wf(),
            final(self)@ == (BusView {
                dma: if old(self)@.dma > cycles { (old(self)@.dma - cycles) as u16 } else { 0 },
                ..old(self)@
            }),
    {
        self.dma = if self.dma > cycles { self.dma - cycles } else { 0 };
    }
}

/// A write to DIV zeroes the divider, so the next read of DIV returns 0
/// (outside an OAM DMA, during which reads outside HRAM return 0xFF).
pub proof fn lemma_div_write_read(m: BusView, v: u8)
    requires
        m.wf(),
        m.dma == 0,
    ensures
        m.write(DIV_ADDRESS, v).read(DIV_ADDRESS) == 0,
{
    reveal(BusView::write);
    reveal(BusView::read);
    reveal(BusView::peek);
}

/// Every interrupt request (bit) set in `a` is still set in `b`.
pub open spec fn requests_kept(a: u8, b: u8) -> bool {
    a & b == a
}

pub proof fn lemma_requests_kept_trans(a: u8, b: u8, c: u8)
    requires
        requests_kept(a, b),
        requests_kept(b, c),
    ensures
        requests_kept(a, c),
{
    assert(a & b == a && b & c == b ==> a & c == a) by (bit_vector);
}

/// The store after loading `rom` from index `offset` into the ROM window.
pub open spec fn loaded(ram: Seq<u8>, rom: Seq<u8>, offset: int) -> Seq<u8> {
    Seq::new(
        ram.len(),
        |k: int|
            if offset <= k < rom.len() && k < ROM_END {
                rom[k]
            } else {
                ram[k]
            },
    )
}

pub open spec fn rom_type_of(code: u8) -> Result<RomType, LoadError> {
    if code == 0 {
        Ok(RomType::RomOnly)
    } else if 1 <= code <= 3 {
        Ok(RomType::MBC1)
    } else {
        Err(LoadError::UnsupportedMapper(code))
    }
}

} // verus!
