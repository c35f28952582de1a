use vstd::prelude::*;

use crate::clock::Clock;
use crate::cpu::CPU;
use crate::decoder::{decoded, fetch_window, DecodeError, SizedInstruction};
use crate::graphics::{bit, mode_at, Graphics};
use crate::instruction::Instruction;
use crate::joypad::{joypad_after, pressed_after, Button, Joypad};
use crate::memory::{
    lemma_requests_kept_trans, requests_kept, LoadError, Memory, RomType, INTERRUPT_FLAG_ADDRESS,
    LCDC_ADDRESS, LY_ADDRESS, MEMORY_SIZE,
    SERIAL_CONTROL_ADDRESS, SERIAL_DATA_ADDRESS, STAT_ADDRESS, TIMA_ADDRESS,
};
use crate::semantics::{dispatched, executed, instruction_stream};
use crate::utils::{Address, Byte};

verus! {

/// Where the debugger stops: before an instruction or at an address.
#[derive(Debug, Clone, Copy, PartialEq, Eq, Structural)]
pub enum Breakpoint {
    Inst(Instruction),
    Addr(Address),
}

/// Whether a breakpoint of `bps` is hit by the CPU at `pc`, where `found`
/// is what decoding at `pc` gave.
pub open spec fn breakpoint_hit(
    bps: Seq<Breakpoint>,
    pc: u16,
    found: Result<SizedInstruction, DecodeError>,
) -> bool {
    exists|i: int|
        0 <= i < bps.len() && (bps[i] == Breakpoint::Addr(pc) || (found is Ok && bps[i]
            == Breakpoint::Inst(found->Ok_0.instruction)))
}

/// Pause, single-step and breakpoint controls of the run loop.
pub struct Debugger {
    pub pause: bool,
    pub step: bool,
    pub breakpoints: Vec<Breakpoint>,
}

impl Debugger {
    pub fn new() -> (r: Self)
        ensures
            !r.pause,
            !r.step,
            r.breakpoints@.len() == 0,
    {
        Debugger { pause: false, step: false, breakpoints: Vec::new() }
    }

    pub fn toggle_pause(&mut self)
        ensures
            final(self).pause == !old(self).pause,
            final(self).step == old(self).step,
            final(self).breakpoints == old(self).breakpoints,
    {
        self.pause = !self.pause;
    }

    /// Run one instruction, then pause again.
    pub fn toggle_step(&mut self)
        ensures
            final(self).step,
            !final(self).pause,
            final(self).breakpoints == old(self).breakpoints,
    {
        self.step = true;
        self.pause = false;
    }

    pub fn add_breakpoint(&mut self, breakpoint: Breakpoint)
        ensures
            final(self).breakpoints@ == old(self).breakpoints@.push(breakpoint),
            final(self).pause == old(self).pause,
            final(self).step == old(self).step,
    {
        self.breakpoints.push(breakpoint);
    }

    /// Whether the CPU stands on a breakpoint.
    pub fn check_breakpoints(&self, cpu: &CPU, memory: &Memory) -> (r: bool)
        requires
            memory.wf(),
        ensures
            exists|found: Result<SizedInstruction, DecodeError>|
                decoded(found, fetch_window(memory@, cpu.pc)) && r == breakpoint_hit(
                    self.breakpoints@,
                    cpu.pc,
                    found,
                ),
    {
        let found = SizedInstruction::decode(memory, cpu.pc);
        let mut i: usize = 0;
        while i < self.breakpoints.len()
            invariant
                i <= self.breakpoints@.len(),
                memory.wf(),
                decoded(found, fetch_window(memory@, cpu.pc)),
                forall|k: int|
                    0 <= k < i ==> !(#[trigger] self.breakpoints@[k] == Breakpoint::Addr(cpu.pc) || (
                    found is Ok && self.breakpoints@[k] == Breakpoint::Inst(
                        found->Ok_0.instruction,
                    ))),
            decreases self.breakpoints@.len() - i,
        {
            let bp = self.breakpoints[i];
            if bp == Breakpoint::Addr(cpu.pc) {
                assert(breakpoint_hit(self.breakpoints@, cpu.pc, found));
                return true;
            }
            match found {
                Ok(si) => {
                    if bp == Breakpoint::Inst(si.instruction) {
                        assert(breakpoint_hit(self.breakpoints@, cpu.pc, found));
                        return true;
                    }
                },
                Err(_) => {},
            }
            i = i + 1;
        }
        assert(!breakpoint_hit(self.breakpoints@, cpu.pc, found));
        false
    }

    /// Whether the run loop should wait this turn: while paused; after a
    /// single step, which then pauses; or on reaching a breakpoint, which
    /// pauses too.
    pub fn check_pause(&mut self, cpu: &CPU, memory: &Memory) -> (r: bool)
        requires
            memory.wf(),
        ensures
            final(self).breakpoints == old(self).breakpoints,
            old(self).pause ==> r && final(self).pause && final(self).step == old(self).step,
            !old(self).pause && old(self).step ==> !r && final(self).pause && !final(self).step,
            !old(self).pause && !old(self).step ==> (exists|
                found: Result<SizedInstruction, DecodeError>,
            |
                decoded(found, fetch_window(memory@, cpu.pc)) && r == breakpoint_hit(
                    old(self).breakpoints@,
                    cpu.pc,
                    found,
                )) && final(self).pause == r && !final(self).step,
    {
        if self.pause {
            true
        } else if self.step {
            self.pause = true;
            self.step = false;
            false
        } else if self.check_breakpoints(cpu, memory) {
            self.pause = true;
            true
        } else {
            false
        }
    }
}

/// The console: CPU, bus, timer, PPU, joypad and debugger, driven by
/// T-cycles.
pub struct GameBoy {
    pub cpu: CPU,
    pub memory: Memory,
    pub graphics: Graphics,
    pub clock: Clock,
    pub joypad: Joypad,
    pub dbg: Debugger,
}

/// The CPU part of one step from `s` over bus `m`: a halted CPU idles for 4
/// T-cycles, otherwise it executes the instruction `si` at PC.
pub open spec fn cpu_part(
    s: CPU,
    m: crate::memory::BusView,
    si: SizedInstruction,
) -> (CPU, crate::memory::BusView, u8) {
    if s.halt {
        (s, m, 4)
    } else {
        executed(s, m, si)
    }
}

impl GameBoy {
    pub open spec fn wf(&self) -> bool {
        &&& self.cpu.wf()
        &&& self.memory.wf()
        &&& self.graphics.wf()
    }

    /// A console without a boot ROM, in the state the boot ROM would leave.
    pub fn new() -> (r: Self)
        ensures
            r.wf(),
            r.cpu == CPU::start_spec(),
    {
        GameBoy {
            cpu: CPU::new(),
            memory: Memory::new(),
            graphics: Graphics::new(),
            clock: Clock::new(),
            joypad: Joypad::new(),
            dbg: Debugger::new(),
        }
    }

    /// Load a cartridge image at address 0 and report its mapper.
    pub fn load_rom(&mut self, rom_data: Vec<u8>) -> (r: Result<RomType, LoadError>)
        requires
            old(self).wf(),
        ensures
            final(self).wf(),
            final(self).cpu == old(self).cpu,
            final(self).memory@ == (crate::memory::BusView {
                ram: crate::memory::loaded(old(self).memory@.ram, rom_data@, 0),
                ..old(self).memory@
            }),
            r == crate::memory::rom_type_of(final(self).memory@.ram[0x0147]),
    {
        self.memory.load_rom(rom_data);
        self.memory.get_rom_type()
    }

    /// Map a boot ROM over the cartridge and start the CPU at address 0.
    pub fn load_boot(&mut self, boot_data: Vec<u8>)
        requires
            old(self).wf(),
        ensures
            final(self).wf(),
            final(self).cpu.pc == 0,
            final(self).memory@ == (crate::memory::BusView {
                boot: boot_data@,
                boot_active: true,
                ..old(self).memory@
            }),
    {
        self.memory.load_boot(boot_data);
        self.cpu = CPU::power_on();
    }

    /// A byte sent on the serial port: when SC has its transfer bit (7)
    /// set, returns SB and clears the bit.
    pub fn take_serial(&mut self) -> (r: Option<Byte>)
        requires
            old(self).wf(),
        ensures
            final(self).wf(),
            final(self).cpu == old(self).cpu,
            old(self).memory@.ram[SERIAL_CONTROL_ADDRESS as int] >= 128 ==> {
                &&& r == Some(old(self).memory@.ram[SERIAL_DATA_ADDRESS as int])
                &&& final(self).memory@ == (crate::memory::BusView {
                    ram: old(self).memory@.ram.update(
                        SERIAL_CONTROL_ADDRESS as int,
                        (old(self).memory@.ram[SERIAL_CONTROL_ADDRESS as int] - 128) as u8,
                    ),
                    ..old(self).memory@
                })
            },
            old(self).memory@.ram[SERIAL_CONTROL_ADDRESS as int] < 128 ==> r is None
                && final(self).memory@ == old(self).memory@,
    {
        let sc = self.memory.read_raw(SERIAL_CONTROL_ADDRESS);
        if sc >= 128 {
            let sb = self.memory.read_raw(SERIAL_DATA_ADDRESS);
            self.memory.write_raw(SERIAL_CONTROL_ADDRESS, sc - 128);
            Some(sb)
        } else {
            None
        }
    }

    /// Press or release a button.
    pub fn handle_button(&mut self, button: Button, down: bool)
        requires
            old(self).wf(),
        ensures
            final(self).wf(),
            final(self).cpu == old(self).cpu,
            final(self).joypad.pressed() == pressed_after(old(self).joypad.pressed(), button, down),
            final(self).memory@ == joypad_after(
                old(self).memory@,
                old(self).joypad.pressed(),
                button,
                down,
            ),
    {
        self.joypad.handle_button(button, down, &mut self.memory);
    }

    /// Run the timer, the PPU and the DMA countdown for `cycles` T-cycles.
    fn advance(&mut self, cycles: u8)
        requires
            old(self).wf(),
        ensures
            final(self).wf(),
            final(self).cpu == old(self).cpu,
            final(self).memory@.counter == (old(self).memory@.counter + cycles) % 65536,
            final(self).memory@.dma == (if old(self).memory@.dma > cycles {
                (old(self).memory@.dma - cycles) as u16
            } else {
                0
            }),
            final(self).memory@.buttons == old(self).memory@.buttons,
            final(self).memory@.boot == old(self).memory@.boot,
            final(self).memory@.boot_active == old(self).memory@.boot_active,
            forall|k: int|
                0 <= k < MEMORY_SIZE && k != TIMA_ADDRESS && k != INTERRUPT_FLAG_ADDRESS && k
                    != LY_ADDRESS && k != STAT_ADDRESS
                    ==> #[trigger] final(self).memory@.ram[k] == old(self).memory@.ram[k],
            cycles > 0 && bit(old(self).memory@.ram[LCDC_ADDRESS as int], 7) ==> {
                &&& final(self).memory@.ram[LY_ADDRESS as int] == final(self).graphics.line()
                &&& final(self).memory@.ram[STAT_ADDRESS as int] % 4 == mode_at(
                    final(self).graphics.line(),
                    final(self).graphics.dot(),
                    final(self).graphics.mode3_end(),
                )
            },
            cycles > 0 && !bit(old(self).memory@.ram[LCDC_ADDRESS as int], 7) ==> {
                &&& final(self).memory@.ram[LY_ADDRESS as int] == 0
                &&& final(self).memory@.ram[STAT_ADDRESS as int] % 4 == 0
            },
            requests_kept(
                old(self).memory@.ram[INTERRUPT_FLAG_ADDRESS as int],
                final(self).memory@.ram[INTERRUPT_FLAG_ADDRESS as int],
            ),
    {
        let ghost m0 = self.memory@;
        self.clock.tick(cycles, &mut self.memory);
        let ghost m1 = self.memory@;
        self.graphics.render(&mut self.memory, cycles);
        let ghost m2 = self.memory@;
        self.memory.tick_dma(cycles as u16);
        assert(m1.ram[LCDC_ADDRESS as int] == m0.ram[LCDC_ADDRESS as int]);
        proof {
            lemma_requests_kept_trans(
                m0.ram[INTERRUPT_FLAG_ADDRESS as int],
                m1.ram[INTERRUPT_FLAG_ADDRESS as int],
                m2.ram[INTERRUPT_FLAG_ADDRESS as int],
            );
        }
        assert forall|k: int|
            0 <= k < MEMORY_SIZE && k != TIMA_ADDRESS && k != INTERRUPT_FLAG_ADDRESS && k
                != LY_ADDRESS && k != STAT_ADDRESS implies #[trigger] self.memory@.ram[k] == m0.ram[k] by {
            assert(m1.ram[k] == m0.ram[k]);
            assert(m2.ram[k] == m1.ram[k]);
        }
    }

    /// One step of the run loop: the CPU executes an instruction (or idles
    /// 4 T-cycles while halted), pending interrupts are dispatched, and the
    /// timer, PPU and DMA advance by the same T-cycles.  Returns the
    /// T-cycles, or the illegal opcode at PC, in which case nothing changes.
    #[verifier::rlimit(100)]
    #[verifier::spinoff_prover]
    pub fn step(&mut self) -> (r: Result<u16, DecodeError>)
        requires
            old(self).wf(),
        ensures
            final(self).wf(),
            match r {
                Ok(total) => exists|si: SizedInstruction|
                    (old(self).cpu.halt || decoded(
                        Ok(si),
                        instruction_stream(old(self).cpu, old(self).memory@),
                    )) && {
                        let (s1, m1, c1) = #[trigger] cpu_part(old(self).cpu, old(self).memory@, si);
                        let m2 = dispatched(s1, m1).1;
                        &&& final(self).cpu == dispatched(s1, m1).0
                        &&& total == c1 + dispatched(s1, m1).2
                        &&& final(self).memory@.counter == (m2.counter + total) % 65536
                        &&& final(self).memory@.dma == (if m2.dma > total {
                            (m2.dma - total) as u16
                        } else {
                            0
                        })
                        &&& final(self).memory@.buttons == m2.buttons
                        &&& final(self).memory@.boot == m2.boot
                        &&& final(self).memory@.boot_active == m2.boot_active
                        &&& forall|k: int|
                            0 <= k < MEMORY_SIZE && k != TIMA_ADDRESS && k != INTERRUPT_FLAG_ADDRESS
                                && k != LY_ADDRESS && k != STAT_ADDRESS
                                ==> #[trigger] final(self).memory@.ram[k] == m2.ram[k]
                        &&& requests_kept(
                            m2.ram[INTERRUPT_FLAG_ADDRESS as int],
                            final(self).memory@.ram[INTERRUPT_FLAG_ADDRESS as int],
                        )
                        &&& total > 0 && bit(m2.ram[LCDC_ADDRESS as int], 7) ==> {
                            &&& final(self).memory@.ram[LY_ADDRESS as int] == final(self).graphics.line()
                            &&& final(self).memory@.ram[STAT_ADDRESS as int] % 4 == mode_at(
                                final(self).graphics.line(),
                                final(self).graphics.dot(),
                                final(self).graphics.mode3_end(),
                            )
                        }
                        &&& total > 0 && !bit(m2.ram[LCDC_ADDRESS as int], 7) ==> {
                            &&& final(self).memory@.ram[LY_ADDRESS as int] == 0
                            &&& final(self).memory@.ram[STAT_ADDRESS as int] % 4 == 0
                        }
                    },
                Err(err) => {
                    &&& !old(self).cpu.halt
                    &&& decoded(Err(err), instruction_stream(old(self).cpu, old(self).memory@))
                    &&& final(self).cpu == old(self).cpu
                    &&& final(self).memory@ == old(self).memory@
                },
            },
    {
        let ghost s = self.cpu;
        let ghost m = self.memory@;
        let ghost mut w: SizedInstruction = arbitrary();
        let cycles = if self.cpu.halt {
            4
        } else {
            match self.cpu.execute(&mut self.memory) {
                Ok(c) => {
                    proof {
                        w = choose|si: SizedInstruction|
                            decoded(Ok(si), instruction_stream(s, m)) && (self.cpu, self.memory@, c)
                                == #[trigger] executed(s, m, si);
                    }
                    c
                },
                Err(err) => return Err(err),
            }
        };
        let ghost s1 = self.cpu;
        let ghost m1 = self.memory@;
        let irq = self.cpu.handle_interrupts(&mut self.memory);
        let ghost m2 = self.memory@;
        self.advance(cycles);
        let ghost m3 = self.memory@;
        if irq > 0 {
            self.advance(irq);
            proof {
                lemma_requests_kept_trans(
                    m2.ram[INTERRUPT_FLAG_ADDRESS as int],
                    m3.ram[INTERRUPT_FLAG_ADDRESS as int],
                    self.memory@.ram[INTERRUPT_FLAG_ADDRESS as int],
                );
            }
        }
        assert(cpu_part(s, m, w) == (s1, m1, cycles));
        assert(dispatched(s1, m1).1 == m2);
        Ok(cycles as u16 + irq as u16)
    }
}

} // verus!
