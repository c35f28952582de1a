use gb_rs::alu::{add8, daa, shift, sub8};
use gb_rs::audio::{Audio, Channel, PulseA};
use gb_rs::clock::Clock;
use gb_rs::cpu::CPU;
use gb_rs::decoder::{DecodeError, OpCode, SizedInstruction};
use gb_rs::gb::{Breakpoint, Debugger, GameBoy};
use gb_rs::graphics::{Graphics, ObjFIFO, PPUMode, PixelSource, Tile};
use gb_rs::instruction::{Condition, Instruction, Register, Register16};
use gb_rs::joypad::{Button, Joypad};
use gb_rs::memory::{LoadError, Memory, RomType};
use gb_rs::utils::{to_word, ByteOP, WordOP};

fn rom_at(address: usize, bytes: &[u8]) -> Vec<u8> {
    let mut rom = vec![0u8; address + bytes.len()];
    rom[address..].copy_from_slice(bytes);
    rom
}

#[test]
fn xor_a_clears_a_and_sets_z() {
    let mut cpu = CPU::power_on();
    let mut memory = Memory::new();
    memory.load_rom(vec![0xAF]);
    cpu.a = 0x5A;
    let cycles = cpu.execute(&mut memory).unwrap();
    assert_eq!(cpu.a, 0x00);
    assert_eq!(cpu.f, 0x80);
    assert_eq!(cpu.pc, 1);
    assert_eq!(cycles, 4);
}

#[test]
fn add_a_with_half_carry() {
    let mut cpu = CPU::power_on();
    let mut memory = Memory::new();
    memory.load_rom(vec![0x80]);
    cpu.a = 0x0F;
    cpu.b = 0x01;
    cpu.execute(&mut memory).unwrap();
    assert_eq!(cpu.a, 0x10);
    assert_eq!(cpu.f, 0x20);
}

#[test]
fn dec_b_from_one() {
    let mut cpu = CPU::power_on();
    let mut memory = Memory::new();
    memory.load_rom(vec![0x05]);
    cpu.b = 0x01;
    cpu.f = 0x00;
    cpu.execute(&mut memory).unwrap();
    assert_eq!(cpu.b, 0x00);
    assert_eq!(cpu.f, 0xC0);
}

#[test]
fn jp_nn_control_flow() {
    let mut cpu = CPU::new();
    let mut memory = Memory::new();
    memory.load_rom(rom_at(0x0100, &[0xC3, 0x50, 0x01]));
    let cycles = cpu.execute(&mut memory).unwrap();
    assert_eq!(cpu.pc, 0x0150);
    assert_eq!(cycles, 16);
}

#[test]
fn interrupt_dispatch() {
    let mut cpu = CPU::power_on();
    let mut memory = Memory::new();
    cpu.ime = true;
    cpu.sp = 0xFFFE;
    cpu.pc = 0x0200;
    memory.write_byte(0xFFFF, 0x01);
    memory.write_byte(0xFF0F, 0x01);
    let cycles = cpu.handle_interrupts(&mut memory);
    assert_eq!(cycles, 20);
    assert_eq!(cpu.sp, 0xFFFC);
    assert_eq!(memory.read_raw(0xFFFD), 0x02);
    assert_eq!(memory.read_raw(0xFFFC), 0x00);
    assert_eq!(cpu.pc, 0x0040);
    assert!(!cpu.ime);
    assert_eq!(memory.read_raw(0xFF0F), 0x00);
}

#[test]
fn interrupt_priority_and_halt_wake() {
    let mut cpu = CPU::power_on();
    let mut memory = Memory::new();
    cpu.halt = true;
    memory.write_byte(0xFFFF, 0x1F);
    memory.write_byte(0xFF0F, 0x14);
    assert_eq!(cpu.handle_interrupts(&mut memory), 0);
    assert!(!cpu.halt);
    cpu.ime = true;
    assert_eq!(cpu.handle_interrupts(&mut memory), 20);
    assert_eq!(cpu.pc, 0x0050);
    assert_eq!(memory.read_raw(0xFF0F), 0x10);
}

#[test]
fn timer_overflow() {
    let mut cpu = CPU::power_on();
    let mut memory = Memory::new();
    let mut clock = Clock::new();
    memory.write_byte(0xFF07, 0x05);
    memory.write_byte(0xFF05, 0xFF);
    memory.write_byte(0xFF06, 0x30);
    memory.write_byte(0xFFFF, 0x04);
    cpu.ime = true;
    clock.tick(16, &mut memory);
    assert_eq!(memory.read_byte(0xFF05), 0x00);
    clock.tick(4, &mut memory);
    assert_eq!(memory.read_byte(0xFF05), 0x30);
    assert_eq!(memory.read_byte(0xFF0F) & 0x04, 0x04);
    cpu.handle_interrupts(&mut memory);
    assert_eq!(cpu.pc, 0x0050);
}

#[test]
fn timer_disabled_does_not_count() {
    let mut memory = Memory::new();
    let mut clock = Clock::new();
    memory.write_byte(0xFF07, 0x01);
    clock.tick(200, &mut memory);
    assert_eq!(memory.read_byte(0xFF05), 0x00);
    assert_eq!(memory.read_byte(0xFF04), 0x00);
    clock.tick(100, &mut memory);
    assert_eq!(memory.read_byte(0xFF04), 0x01);
}

#[test]
fn dma_lockout() {
    let mut cpu = CPU::power_on();
    let mut memory = Memory::new();
    for i in 0..160u16 {
        memory.write_byte(0xC000 + i, (i as u8).wrapping_mul(3));
    }
    memory.write_byte(0xFF80, 0xE0);
    memory.write_byte(0xFF81, 0x46);
    cpu.pc = 0xFF80;
    cpu.a = 0xC0;
    cpu.execute(&mut memory).unwrap();
    assert_eq!(memory.read_byte(0xC000), 0xFF);
    assert_eq!(memory.read_byte(0x0000), 0xFF);
    assert_eq!(memory.read_byte(0xFF81), 0x46);
    for _ in 0..159 {
        memory.tick_dma(4);
        assert_eq!(memory.read_byte(0xC001), 0xFF);
    }
    memory.tick_dma(4);
    for i in 0..160u16 {
        assert_eq!(memory.read_byte(0xFE00 + i), memory.read_byte(0xC000 + i));
    }
}

#[test]
fn div_write_then_read_is_zero() {
    let mut memory = Memory::new();
    let mut clock = Clock::new();
    clock.tick(255, &mut memory);
    clock.tick(255, &mut memory);
    assert_eq!(memory.read_byte(0xFF04), 0x01);
    memory.write_byte(0xFF04, 0x7B);
    assert_eq!(memory.read_byte(0xFF04), 0x00);
}

#[test]
fn echo_unusable_and_rom_regions() {
    let mut memory = Memory::new();
    memory.write_byte(0xE010, 0x42);
    assert_eq!(memory.read_byte(0xC010), 0x42);
    memory.write_byte(0xC020, 0x24);
    assert_eq!(memory.read_byte(0xE020), 0x24);
    memory.write_byte(0xFEA5, 0x11);
    assert_eq!(memory.read_byte(0xFEA5), 0xFF);
    memory.write_byte(0x1234, 0x99);
    assert_eq!(memory.read_byte(0x1234), 0x00);
}

#[test]
fn stat_and_ly_writes() {
    let mut memory = Memory::new();
    memory.write_raw(0xFF41, 0x05);
    memory.write_byte(0xFF41, 0xFF);
    assert_eq!(memory.read_byte(0xFF41), 0x7D);
    memory.write_raw(0xFF44, 0x33);
    memory.write_byte(0xFF44, 0x99);
    assert_eq!(memory.read_byte(0xFF44), 0x00);
}

#[test]
fn joypad_register_and_interrupt() {
    let mut memory = Memory::new();
    let mut joypad = Joypad::new();
    memory.write_byte(0xFF00, 0x20);
    joypad.handle_button(Button::Left, true, &mut memory);
    assert_eq!(memory.read_byte(0xFF00), 0xE0 | 0x0D);
    assert_eq!(memory.read_byte(0xFF0F) & 0x10, 0x10);
    memory.write_byte(0xFF0F, 0x00);
    joypad.handle_button(Button::A, true, &mut memory);
    assert_eq!(memory.read_byte(0xFF0F) & 0x10, 0x00);
    joypad.handle_button(Button::Left, false, &mut memory);
    assert_eq!(memory.read_byte(0xFF00), 0xEF);
    joypad.update(&mut memory);
    memory.write_byte(0xFF00, 0x10);
    assert_eq!(memory.read_byte(0xFF00), 0xDE);
}

#[test]
fn adc_and_sbc_flags() {
    assert_eq!(add8(0xFF, 0x00, true), (0x00, 0xB0));
    assert_eq!(add8(0x0E, 0x01, true), (0x10, 0x20));
    assert_eq!(add8(0x12, 0x34, false), (0x46, 0x00));
    assert_eq!(sub8(0x00, 0x00, true), (0xFF, 0x70));
    assert_eq!(sub8(0x10, 0x01, false), (0x0F, 0x60));
    assert_eq!(sub8(0x42, 0x42, false), (0x00, 0xC0));
}

#[test]
fn daa_after_bcd_addition() {
    let (sum, f) = add8(0x45, 0x38, false);
    assert_eq!(daa(sum, f), (0x83, 0x00));
    let (sum, f) = add8(0x99, 0x01, false);
    assert_eq!(daa(sum, f), (0x00, 0x90));
}

#[test]
fn rotates_and_shifts() {
    assert_eq!(shift(0, 0x85, 0x00, false), (0x0B, 0x10));
    assert_eq!(shift(3, 0x01, 0x00, false), (0x00, 0x90));
    assert_eq!(shift(6, 0xF1, 0x00, false), (0x1F, 0x00));
    assert_eq!(shift(5, 0x81, 0x00, false), (0xC0, 0x10));
    assert_eq!(shift(2, 0x80, 0x00, true), (0x00, 0x10));
}

#[test]
fn register_pair_round_trip() {
    let mut cpu = CPU::power_on();
    for rr in [Register16::BC, Register16::DE, Register16::HL, Register16::SP] {
        for v in [0x0000u16, 0x1234, 0xFFFF, 0x8001] {
            cpu.set_register16(rr, v);
            assert_eq!(cpu.get_register16(rr), v);
        }
    }
    cpu.set_register16(Register16::AF, 0x12F0);
    assert_eq!(cpu.get_register16(Register16::AF), 0x12F0);
    cpu.set_register16(Register16::AF, 0x12FF);
    assert_eq!(cpu.get_register16(Register16::AF), 0x12F0);
}

#[test]
fn flag_low_nibble_stays_clear() {
    let mut cpu = CPU::power_on();
    let mut memory = Memory::new();
    memory.load_rom(vec![0x3E, 0x0F, 0xC6, 0x01, 0xD6, 0x20, 0x37, 0x3F, 0xC5, 0xF1, 0x27]);
    cpu.b = 0xFF;
    cpu.c = 0xFF;
    for _ in 0..9 {
        cpu.execute(&mut memory).unwrap();
        assert_eq!(cpu.f & 0x0F, 0);
    }
}

#[test]
fn size_matches_pc_advance() {
    let program = vec![0x00, 0x06, 0x12, 0x21, 0x34, 0x12, 0xCB, 0x37, 0xE6, 0x0F, 0x10, 0x00];
    let mut memory = Memory::new();
    memory.load_rom(program);
    let mut cpu = CPU::power_on();
    for _ in 0..6 {
        let pc = cpu.pc;
        let ins = SizedInstruction::decode(&memory, pc).unwrap();
        cpu.execute(&mut memory).unwrap();
        assert_eq!(cpu.pc, pc + ins.size);
    }
    assert_eq!(cpu.pc, 12);
}

#[test]
fn call_and_ret() {
    let mut cpu = CPU::new();
    let mut memory = Memory::new();
    let mut rom = rom_at(0x0100, &[0xCD, 0x00, 0x02]);
    rom.resize(0x0201, 0);
    rom[0x0200] = 0xC9;
    memory.load_rom(rom);
    assert_eq!(cpu.execute(&mut memory).unwrap(), 24);
    assert_eq!(cpu.pc, 0x0200);
    assert_eq!(cpu.sp, 0xFFFC);
    assert_eq!(cpu.execute(&mut memory).unwrap(), 16);
    assert_eq!(cpu.pc, 0x0103);
    assert_eq!(cpu.sp, 0xFFFE);
}

#[test]
fn conditional_jump_costs() {
    let mut cpu = CPU::power_on();
    let mut memory = Memory::new();
    memory.load_rom(vec![0x20, 0x05, 0x28, 0x05]);
    cpu.f = 0x80;
    assert_eq!(cpu.execute(&mut memory).unwrap(), 8);
    assert_eq!(cpu.pc, 2);
    assert_eq!(cpu.execute(&mut memory).unwrap(), 12);
    assert_eq!(cpu.pc, 9);
}

#[test]
fn ei_takes_effect_after_next_instruction() {
    let mut cpu = CPU::power_on();
    let mut memory = Memory::new();
    memory.load_rom(vec![0xFB, 0x00, 0x00]);
    cpu.execute(&mut memory).unwrap();
    assert!(!cpu.ime);
    cpu.execute(&mut memory).unwrap();
    assert!(cpu.ime);
}

#[test]
fn halt_bug_reads_opcode_twice() {
    let mut cpu = CPU::power_on();
    let mut memory = Memory::new();
    memory.load_rom(vec![0x76, 0x3C]);
    memory.write_byte(0xFFFF, 0x01);
    memory.write_byte(0xFF0F, 0x01);
    cpu.execute(&mut memory).unwrap();
    assert!(cpu.halt_bug);
    assert!(!cpu.halt);
    cpu.execute(&mut memory).unwrap();
    assert_eq!(cpu.a, 1);
    assert_eq!(cpu.pc, 1);
    cpu.execute(&mut memory).unwrap();
    assert_eq!(cpu.a, 2);
    assert_eq!(cpu.pc, 2);
}

#[test]
fn unknown_opcode_is_an_error() {
    let mut memory = Memory::new();
    memory.load_rom(vec![0xD3]);
    assert_eq!(
        SizedInstruction::decode(&memory, 0),
        Err(DecodeError::UnknownOpcode(0xD3))
    );
    let mut cpu = CPU::power_on();
    assert_eq!(cpu.execute(&mut memory), Err(DecodeError::UnknownOpcode(0xD3)));
    assert_eq!(cpu.pc, 0);
    for op in [0xDBu8, 0xDD, 0xE3, 0xE4, 0xEB, 0xEC, 0xED, 0xF4, 0xFC, 0xFD] {
        assert_eq!(
            SizedInstruction::decode_bytes(op, 0, 0),
            Err(DecodeError::UnknownOpcode(op))
        );
    }
}

#[test]
fn every_legal_opcode_decodes() {
    let illegal = [0xD3u8, 0xDB, 0xDD, 0xE3, 0xE4, 0xEB, 0xEC, 0xED, 0xF4, 0xFC, 0xFD];
    for op in 0..=255u8 {
        let r = SizedInstruction::decode_bytes(op, 0x01, 0x02);
        assert_eq!(r.is_err(), illegal.contains(&op));
        if let Ok(si) = r {
            assert!(si.size >= 1 && si.size <= 3);
        }
    }
    for op in 0..=255u8 {
        let si = SizedInstruction::decode_bytes(0xCB, op, 0).unwrap();
        assert_eq!(si.size, 2);
    }
}

#[test]
fn decode_stop_and_cb() {
    assert_eq!(
        SizedInstruction::decode_bytes(0x10, 0x00, 0x00).unwrap(),
        SizedInstruction { instruction: Instruction::STOP, size: 2 }
    );
    assert_eq!(
        SizedInstruction::decode_bytes(0xCB, 0x7E, 0x00).unwrap(),
        SizedInstruction { instruction: Instruction::BIT_HL(7), size: 2 }
    );
    assert_eq!(
        SizedInstruction::decode_bytes(0xF1, 0x00, 0x00).unwrap().instruction,
        Instruction::POP(Register16::AF)
    );
    assert_eq!(
        SizedInstruction::decode_bytes(0x31, 0x00, 0xD0).unwrap().instruction,
        Instruction::LD_RR_NN(Register16::SP, 0xD000)
    );
}

#[test]
fn unsupported_mapper() {
    let mut memory = Memory::new();
    memory.load_rom(rom_at(0x0147, &[0x05]));
    assert_eq!(memory.get_rom_type(), Err(LoadError::UnsupportedMapper(0x05)));
    memory.load_rom(rom_at(0x0147, &[0x00]));
    assert_eq!(memory.get_rom_type(), Ok(RomType::RomOnly));
    memory.load_rom(rom_at(0x0147, &[0x03]));
    assert_eq!(memory.get_rom_type(), Ok(RomType::MBC1));
}

#[test]
fn load_rom_offset_keeps_lower_bytes() {
    let mut memory = Memory::new();
    memory.load_rom(vec![0xAA; 0x200]);
    memory.load_rom_offset(vec![0xBB; 0x200], 0x100);
    assert_eq!(memory.read_raw(0x00FF), 0xAA);
    assert_eq!(memory.read_raw(0x0100), 0xBB);
    assert_eq!(memory.read_raw(0x0200), 0x00);
    memory.wrapping_add(0x0100, 0x50);
    assert_eq!(memory.read_raw(0x0100), 0x0B);
    assert_eq!(memory.read_word(0x00FF), 0x0BAA);
}

#[test]
fn one_vblank_per_frame() {
    let mut memory = Memory::new();
    let mut graphics = Graphics::new();
    memory.write_byte(0xFF40, 0x80);
    let mut vblanks = 0;
    let mut cycles: u32 = 0;
    while cycles < 70224 {
        graphics.render(&mut memory, 16);
        cycles += 16;
        if graphics.take_frame_ready() {
            vblanks += 1;
        }
    }
    assert_eq!(cycles, 70224);
    assert_eq!(vblanks, 1);
    assert_eq!(memory.read_byte(0xFF0F) & 0x01, 0x01);
    assert_eq!(memory.read_byte(0xFF44), 0);
}

#[test]
fn lcd_off_holds_ly_and_mode() {
    let mut memory = Memory::new();
    let mut graphics = Graphics::new();
    memory.write_byte(0xFF40, 0x80);
    for _ in 0..20 {
        graphics.render(&mut memory, 250);
    }
    assert_eq!(memory.read_byte(0xFF44), 10);
    memory.write_byte(0xFF40, 0x00);
    graphics.render(&mut memory, 10);
    assert_eq!(memory.read_byte(0xFF44), 0);
    assert_eq!(memory.read_byte(0xFF41) & 0x03, 0);
}

#[test]
fn background_line_is_drawn() {
    let mut memory = Memory::new();
    let mut graphics = Graphics::new();
    memory.write_byte(0x8010, 0xFF);
    memory.write_byte(0x8011, 0x00);
    memory.write_byte(0x9800, 0x01);
    memory.write_byte(0xFF47, 0xE4);
    memory.write_byte(0xFF40, 0x91);
    graphics.render(&mut memory, 100);
    assert_eq!(graphics.pixel(0, 0), 1);
    assert_eq!(graphics.pixel(7, 0), 1);
    assert_eq!(graphics.pixel(8, 0), 0);
    assert_eq!(graphics.pixel(0, 1), 0);
}

#[test]
fn tile_fetch() {
    let mut memory = Memory::new();
    memory.write_byte(0x8000, 0b1010_0000);
    memory.write_byte(0x8001, 0b1100_0000);
    let tile = Tile::fetch_tile(&memory, PixelSource::Background, 0x8000);
    assert_eq!(tile.get_pixel(0, 0).color_ref, 3);
    assert_eq!(tile.get_pixel(1, 0).color_ref, 2);
    assert_eq!(tile.get_pixel(2, 0).color_ref, 1);
    assert_eq!(tile.get_pixel(3, 0).color_ref, 0);
    assert_eq!(tile.get_range(6, 0).len(), 2);
    assert!(!tile.all_zero());
    assert_eq!(PPUMode::Mode3(5).to_num(), 3);
}

#[test]
fn debugger_breakpoints() {
    let mut memory = Memory::new();
    memory.load_rom(vec![0x00, 0xFB]);
    let mut cpu = CPU::power_on();
    let mut dbg = Debugger::new();
    dbg.add_breakpoint(Breakpoint::Inst(Instruction::EI));
    assert!(!dbg.check_pause(&cpu, &memory));
    cpu.pc = 1;
    assert!(dbg.check_pause(&cpu, &memory));
    assert!(dbg.check_pause(&cpu, &memory));
    dbg.toggle_step();
    assert!(!dbg.check_pause(&cpu, &memory));
    assert!(dbg.pause);
    dbg.toggle_pause();
    dbg.add_breakpoint(Breakpoint::Addr(0x0000));
    cpu.pc = 0;
    assert!(dbg.check_breakpoints(&cpu, &memory));
}

#[test]
fn gameboy_runs_and_prints_serial() {
    let mut gb = GameBoy::new();
    let rom = rom_at(0x0100, &[0x3E, 0x41, 0xE0, 0x01, 0x3E, 0x81, 0xE0, 0x02, 0x76]);
    assert_eq!(gb.load_rom(rom), Ok(RomType::RomOnly));
    let mut out = Vec::new();
    for _ in 0..6 {
        gb.step().unwrap();
        if let Some(b) = gb.take_serial() {
            out.push(b);
        }
    }
    assert_eq!(out, vec![0x41]);
    assert!(gb.cpu.halt);
    assert_eq!(gb.step(), Ok(4));
}

#[test]
fn byte_and_word_helpers() {
    assert_eq!(to_word(0x34, 0x12), 0x1234);
    assert_eq!(0xABu8.get_low_nibble(), 0x0B);
    assert_eq!(0xABu8.get_high_nibble(), 0x0A);
    assert_eq!(ByteOP::mask(&0xABu8, 0x0F), 0x0B);
    assert_eq!(0x1234u16.get_low(), 0x34);
    assert_eq!(0x1234u16.get_high(), 0x12);
    assert_eq!(0x1234u16.set_low(0xFF), 0x12FF);
    assert_eq!(0x1234u16.set_high(0xFF), 0xFF34);
    assert_eq!(WordOP::mask(&0x1234u16, 0x00FF), 0x0034);
    assert!(OpCode(0b0100_0000, 0b1100_0000).matches(0x41));
    assert_eq!(Register::get_rr(0x41), (Register::B, Register::C));
    assert_eq!(Register16::get_rr(3, false), Register16::AF);
    assert_eq!(Condition::get_cond(3), Condition::Carry);
    assert_eq!(Channel::Wave.enable_flag(), 4);
}

#[test]
fn sprites_drawn_by_priority() {
    let mut memory = Memory::new();
    let mut graphics = Graphics::new();
    memory.write_byte(0x8020, 0xFF);
    memory.write_byte(0x8021, 0xFF);
    memory.write_byte(0x8030, 0xFF);
    memory.write_byte(0x8031, 0x00);
    memory.write_byte(0x8040, 0x00);
    memory.write_byte(0x8041, 0xFF);
    let sprites: [[u8; 4]; 3] = [[16, 8, 2, 0x00], [16, 8, 3, 0x00], [16, 4, 4, 0x10]];
    for (i, s) in sprites.iter().enumerate() {
        for (k, b) in s.iter().enumerate() {
            memory.write_byte(0xFE00 + (4 * i + k) as u16, *b);
        }
    }
    memory.write_byte(0xFF47, 0xE4);
    memory.write_byte(0xFF48, 0xE4);
    memory.write_byte(0xFF49, 0x1B);
    memory.write_byte(0xFF40, 0x93);
    graphics.render(&mut memory, 100);
    assert_eq!(graphics.pixel(0, 0), 1);
    assert_eq!(graphics.pixel(3, 0), 1);
    assert_eq!(graphics.pixel(4, 0), 3);
    assert_eq!(graphics.pixel(7, 0), 3);
    assert_eq!(graphics.pixel(8, 0), 0);
}

#[test]
fn boot_rom_overlay_until_disabled() {
    let mut memory = Memory::new();
    memory.load_rom(vec![0x11; 0x200]);
    memory.load_boot(vec![0x22; 0x100]);
    assert_eq!(memory.read_byte(0x0000), 0x22);
    assert_eq!(memory.read_byte(0x00FF), 0x22);
    assert_eq!(memory.read_byte(0x0100), 0x11);
    memory.write_byte(0xFF50, 0x00);
    assert_eq!(memory.read_byte(0x0000), 0x22);
    memory.write_byte(0xFF50, 0x01);
    assert_eq!(memory.read_byte(0x0000), 0x11);
    memory.write_byte(0xFF50, 0x00);
    assert_eq!(memory.read_byte(0x0000), 0x11);
}

#[test]
fn pulse_channel_registers_and_trigger() {
    let mut memory = Memory::new();
    let mut pulse = PulseA::new();
    memory.write_byte(0xFF11, 0x80);
    memory.write_byte(0xFF12, 0xF0);
    memory.write_byte(0xFF13, 0xFF);
    memory.write_byte(0xFF14, 0xC7);
    pulse.enabled = false;
    pulse.step(&mut memory);
    assert!(pulse.enabled);
    assert_eq!(memory.read_byte(0xFF14), 0x47);
    assert_eq!(pulse.period, 4);
    assert_eq!(pulse.volume, 15);
    assert_eq!(pulse.duty_wave, 2);
    assert!(pulse.length_enable);
    assert_eq!(pulse.sample(), -15);
    for _ in 0..4 {
        pulse.step(&mut memory);
    }
    assert_eq!(pulse.duty_step, 1);
    for _ in 0..12 {
        pulse.step(&mut memory);
    }
    assert_eq!(pulse.duty_step, 4);
    assert_eq!(pulse.sample(), 15);
}

#[test]
fn audio_samples_every_95_cycles() {
    let mut memory = Memory::new();
    let mut audio = Audio::new();
    let mut out = Vec::new();
    audio.handle_audio(&mut memory, 200, &mut out);
    assert_eq!(out, vec![0, 0]);
    assert_eq!(audio.sample_clock, 10);
    memory.write_byte(0xFF26, 0x80);
    memory.write_byte(0xFF12, 0x30);
    audio.handle_audio(&mut memory, 85, &mut out);
    assert_eq!(out.len(), 3);
    assert_eq!(out[2].abs(), 3);
}

#[test]
fn window_uses_its_own_line_counter() {
    let mut memory = Memory::new();
    let mut graphics = Graphics::new();
    memory.write_byte(0x8010, 0xFF);
    memory.write_byte(0x8011, 0x00);
    memory.write_byte(0x8012, 0x00);
    memory.write_byte(0x8013, 0xFF);
    memory.write_byte(0x9C00, 0x01);
    memory.write_byte(0xFF47, 0xE4);
    memory.write_byte(0xFF4A, 0x00);
    memory.write_byte(0xFF4B, 0x07);
    memory.write_byte(0xFF40, 0xF1);
    graphics.render(&mut memory, 100);
    assert_eq!(graphics.pixel(0, 0), 1);
    memory.write_byte(0xFF40, 0xD1);
    graphics.render(&mut memory, 228);
    graphics.render(&mut memory, 228);
    assert_eq!(graphics.pixel(0, 1), 0);
    memory.write_byte(0xFF40, 0xF1);
    graphics.render(&mut memory, 228);
    graphics.render(&mut memory, 228);
    assert_eq!(graphics.pixel(0, 2), 2);
}

#[test]
fn start_state_without_boot_rom() {
    let cpu = CPU::new();
    assert_eq!(cpu.pc, 0x0100);
    assert_eq!(cpu.sp, 0xFFFE);
    assert_eq!(cpu.get_register16(Register16::AF), 0x01B0);
    assert_eq!(cpu.get_register16(Register16::BC), 0x0013);
    assert_eq!(cpu.get_register16(Register16::DE), 0x00D8);
    assert_eq!(cpu.get_register16(Register16::HL), 0x014D);
    assert!(!cpu.ime);
}

#[test]
fn stat_lyc_flag_and_interrupt() {
    let mut memory = Memory::new();
    let mut graphics = Graphics::new();
    memory.write_byte(0xFF45, 2);
    memory.write_byte(0xFF41, 0x40);
    memory.write_byte(0xFF40, 0x80);
    for _ in 0..3 {
        graphics.render(&mut memory, 228);
    }
    assert_eq!(memory.read_byte(0xFF44), 1);
    assert_eq!(memory.read_byte(0xFF41) & 0x04, 0);
    assert_eq!(memory.read_byte(0xFF0F) & 0x02, 0);
    graphics.render(&mut memory, 228);
    assert_eq!(memory.read_byte(0xFF44), 2);
    assert_eq!(memory.read_byte(0xFF41) & 0x04, 0x04);
    assert_eq!(memory.read_byte(0xFF41) & 0x78, 0x40);
    assert_eq!(memory.read_byte(0xFF0F) & 0x02, 0x02);
    assert!(!graphics.take_frame_ready());
}

#[test]
fn gameboy_button_press_requests_joypad_interrupt() {
    let mut gb = GameBoy::new();
    gb.handle_button(Button::Start, true);
    assert_eq!(gb.memory.read_byte(0xFF0F) & 0x10, 0x10);
    assert_eq!(gb.memory.read_byte(0xFF00) & 0x0F, 0x07);
    gb.handle_button(Button::Start, false);
    assert_eq!(gb.memory.read_byte(0xFF00) & 0x0F, 0x0F);
}

#[test]
fn window_latch_holds_for_the_frame() {
    let mut memory = Memory::new();
    let mut graphics = Graphics::new();
    memory.write_byte(0x8010, 0xFF);
    memory.write_byte(0x8011, 0x00);
    memory.write_byte(0x8012, 0x00);
    memory.write_byte(0x8013, 0xFF);
    memory.write_byte(0x9C00, 0x01);
    memory.write_byte(0xFF47, 0xE4);
    memory.write_byte(0xFF4A, 0x00);
    memory.write_byte(0xFF4B, 0x07);
    memory.write_byte(0xFF40, 0xF1);
    graphics.render(&mut memory, 100);
    assert_eq!(graphics.pixel(0, 0), 1);
    memory.write_byte(0xFF4A, 100);
    graphics.render(&mut memory, 228);
    graphics.render(&mut memory, 228);
    assert_eq!(graphics.pixel(0, 1), 2);
}

#[test]
fn div_and_tac_writes_clock_tima_on_falling_edge() {
    let mut memory = Memory::new();
    let mut clock = Clock::new();
    memory.write_byte(0xFF07, 0x05);
    clock.tick(8, &mut memory);
    assert_eq!(memory.read_byte(0xFF05), 0);
    memory.write_byte(0xFF04, 0x00);
    assert_eq!(memory.read_byte(0xFF05), 1);
    clock.tick(8, &mut memory);
    memory.write_byte(0xFF07, 0x01);
    assert_eq!(memory.read_byte(0xFF05), 2);
    memory.write_byte(0xFF07, 0x05);
    assert_eq!(memory.read_byte(0xFF05), 2);
}

#[test]
fn oam_scan_keeps_ten_sprites() {
    let mut memory = Memory::new();
    for i in 0..12u16 {
        memory.write_byte(0xFE00 + 4 * i, 16);
        memory.write_byte(0xFE00 + 4 * i + 1, 8 + i as u8);
    }
    memory.write_byte(0xFE00 + 4 * 3, 100);
    let fifo = ObjFIFO::scan(&memory, 0);
    assert_eq!(fifo.sprites, vec![0, 1, 2, 4, 5, 6, 7, 8, 9, 10]);
}
