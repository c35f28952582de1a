use vstd::prelude::*;

use crate::memory::Memory;
use crate::utils::{to_word, word_of, Address};

verus! {

pub const MASTER_CONTROL_ADDRESS: Address = 0xFF26;

pub const C1_LENGTH_DUTY_CYCLE: Address = 0xFF11;

pub const C1_VOLUME_ENVELOPE: Address = 0xFF12;

pub const C1_PERIOD_LOW: Address = 0xFF13;

pub const C1_PERIOD_HIGH_CONTROL: Address = 0xFF14;

/// T-cycles between two output samples (4 194 304 Hz / 44 100 Hz).
pub const CYCLE_PER_SAMPLE: u32 = 95;

/// The four sound channels.
#[derive(Debug, Clone, Copy, PartialEq, Eq, Structural)]
pub enum Channel {
    PulseA,
    PulseB,
    Wave,
    Noise,
}

impl Channel {
    /// The channel's on/off bit in the sound master control register (NR52).
    pub fn enable_flag(&self) -> (r: u8)
        ensures
            r == match self {
                Channel::PulseA => 1u8,
                Channel::PulseB => 2u8,
                Channel::Wave => 4u8,
                Channel::Noise => 8u8,
            },
    {
        match self {
            Channel::PulseA => 0b0001,
            Channel::PulseB => 0b0010,
            Channel::Wave => 0b0100,
            Channel::Noise => 0b1000,
        }
    }
}

/// Output level of step `step` of duty pattern `wave`: 12.5%, 25%, 50%
/// and 75% high.
pub open spec fn duty_high(wave: u8, step: u8) -> bool {
    if wave == 0 {
        step == 7
    } else if wave == 1 {
        step >= 6
    } else if wave == 2 {
        step >= 4
    } else {
        step < 6
    }
}

/// The first pulse channel.
pub struct PulseA {
    /// T-cycles per duty step
    pub period: u32,
    /// T-cycles into the current duty step
    pub tick: u32,
    pub duty_wave: u8,
    pub duty_step: u8,
    /// Volume 0-15
    pub volume: u8,
    pub length: u32,
    pub length_enable: bool,
    pub enabled: bool,
}

impl PulseA {
    pub open spec fn wf(&self) -> bool {
        self.tick <= 8192 && self.duty_wave < 4 && self.duty_step < 8 && self.volume < 16
    }

    pub fn new() -> (r: Self)
        ensures
            r.wf(),
            r.enabled,
            r.period == 0 && r.tick == 0 && r.duty_step == 0,
    {
        PulseA {
            period: 0,
            tick: 0,
            duty_wave: 0,
            duty_step: 0,
            volume: 0,
            length: 0,
            length_enable: false,
            enabled: true,
        }
    }

    /// Volume from the high nibble of NR12.
    pub fn initialize_volume(&mut self, memory: &Memory)
        requires
            memory.wf(),
        ensures
            final(self).volume == memory@.ram[C1_VOLUME_ENVELOPE as int] / 16,
            *final(self) == (PulseA { volume: final(self).volume, ..*old(self) }),
    {
        self.volume = memory.read_raw(C1_VOLUME_ENVELOPE) / 16;
    }

    /// Period from the 11-bit frequency in NR13 and NR14: (2048 - f) * 4.
    pub fn update_period(&mut self, memory: &Memory)
        requires
            memory.wf(),
        ensures
            final(self).period == (2048 - word_of(
                memory@.ram[C1_PERIOD_LOW as int],
                memory@.ram[C1_PERIOD_HIGH_CONTROL as int] % 8,
            )) * 4,
            *final(self) == (PulseA { period: final(self).period, ..*old(self) }),
    {
        let msb = memory.read_raw(C1_PERIOD_HIGH_CONTROL) % 8;
        let lsb = memory.read_raw(C1_PERIOD_LOW);
        let freq = to_word(lsb, msb);
        self.period = (2048 - freq as u32) * 4;
    }

    /// Duty pattern from the top two bits of NR11.
    pub fn update_duty_cycle(&mut self, memory: &Memory)
        requires
            memory.wf(),
        ensures
            final(self).duty_wave == memory@.ram[C1_LENGTH_DUTY_CYCLE as int] / 64,
            *final(self) == (PulseA { duty_wave: final(self).duty_wave, ..*old(self) }),
    {
        self.duty_wave = memory.read_raw(C1_LENGTH_DUTY_CYCLE) / 64;
    }

    /// Whether the trigger bit (7) of NR14 was written; it is write-only,
    /// so it is cleared.
    pub fn check_trigger(&self, memory: &mut Memory) -> (r: bool)
        requires
            old(memory).wf(),
        ensures
            final(memory).wf(),
            r == (old(memory)@.ram[C1_PERIOD_HIGH_CONTROL as int] >= 128),
            final(memory)@ == (crate::memory::BusView {
                ram: old(memory)@.ram.update(
                    C1_PERIOD_HIGH_CONTROL as int,
                    (old(memory)@.ram[C1_PERIOD_HIGH_CONTROL as int] % 128) as u8,
                ),
                ..old(memory)@
            }),
    {
        let flag_byte = memory.read_raw(C1_PERIOD_HIGH_CONTROL);
        memory.write_raw(C1_PERIOD_HIGH_CONTROL, flag_byte % 128);
        flag_byte >= 128
    }

    /// Length enable from bit 6 of NR14.
    pub fn update_length_enable(&mut self, memory: &Memory)
        requires
            memory.wf(),
        ensures
            final(self).length_enable == (memory@.ram[C1_PERIOD_HIGH_CONTROL as int] / 64 % 2 == 1),
            *final(self) == (PulseA { length_enable: final(self).length_enable, ..*old(self) }),
    {
        self.length_enable = memory.read_raw(C1_PERIOD_HIGH_CONTROL) / 64 % 2 == 1;
    }

    /// One T-cycle: reload the registers, start on a trigger, and move to
    /// the next duty step once the period has elapsed.
    pub fn step(&mut self, memory: &mut Memory)
        requires
            old(self).wf(),
            old(memory).wf(),
        ensures
            final(self).wf(),
            final(memory).wf(),
            final(self).enabled == (old(self).enabled || old(memory)@.ram[C1_PERIOD_HIGH_CONTROL as int]
                >= 128),
            final(self).period == (2048 - word_of(
                old(memory)@.ram[C1_PERIOD_LOW as int],
                old(memory)@.ram[C1_PERIOD_HIGH_CONTROL as int] % 8,
            )) * 4,
            final(self).volume == old(memory)@.ram[C1_VOLUME_ENVELOPE as int] / 16,
            final(self).duty_wave == old(memory)@.ram[C1_LENGTH_DUTY_CYCLE as int] / 64,
            final(self).length_enable == (old(memory)@.ram[C1_PERIOD_HIGH_CONTROL as int] / 64 % 2
                == 1),
            final(self).duty_step == if old(self).tick >= final(self).period {
                (old(self).duty_step + 1) % 8
            } else {
                old(self).duty_step as int
            },
            final(self).tick == if old(self).tick >= final(self).period {
                1
            } else {
                old(self).tick + 1
            },
            final(memory)@ == (crate::memory::BusView {
                ram: old(memory)@.ram.update(
                    C1_PERIOD_HIGH_CONTROL as int,
                    (old(memory)@.ram[C1_PERIOD_HIGH_CONTROL as int] % 128) as u8,
                ),
                ..old(memory)@
            }),
    {
        self.update_period(memory);
        if self.check_trigger(memory) {
            self.enabled = true;
        }
        self.initialize_volume(memory);
        self.update_duty_cycle(memory);
        self.update_length_enable(memory);
        if self.tick >= self.period {
            self.duty_step = (self.duty_step + 1) % 8;
            self.tick = 0;
        }
        self.tick = self.tick + 1;
    }

    /// The current output: plus or minus the volume by the duty pattern,
    /// 0 when the channel is off.
    pub fn sample(&self) -> (r: i8)
        requires
            self.wf(),
        ensures
            r == if !self.enabled {
                0
            } else if duty_high(self.duty_wave, self.duty_step) {
                self.volume as int
            } else {
                -(self.volume as int)
            },
    {
        if !self.enabled {
            return 0;
        }
        let w = self.duty_wave;
        let s = self.duty_step;
        let high = if w == 0 {
            s == 7
        } else if w == 1 {
            s >= 6
        } else if w == 2 {
            s >= 4
        } else {
            s < 6
        };
        if high {
            self.volume as i8
        } else {
            -(self.volume as i8)
        }
    }
}

/// The sound unit: the first pulse channel, sampled at 44 100 Hz.
pub struct Audio {
    pub pulse_a: PulseA,
    /// T-cycles since the last sample
    pub sample_clock: u32,
}

impl Audio {
    pub open spec fn wf(&self) -> bool {
        self.pulse_a.wf() && self.sample_clock < CYCLE_PER_SAMPLE
    }

    pub fn new() -> (r: Self)
        ensures
            r.wf(),
            r.sample_clock == 0,
    {
        Audio { pulse_a: PulseA::new(), sample_clock: 0 }
    }

    /// Whether sound is on (bit 7 of NR52).
    pub fn audio_enabled(&self, memory: &Memory) -> (r: bool)
        requires
            memory.wf(),
        ensures
            r == (memory@.ram[MASTER_CONTROL_ADDRESS as int] >= 128),
    {
        memory.read_raw(MASTER_CONTROL_ADDRESS) >= 128
    }

    /// Run `cycles` T-cycles, appending one sample every 95 of them (0 while
    /// sound is off).
    pub fn handle_audio(&mut self, memory: &mut Memory, cycles: u8, out: &mut Vec<i8>)
        requires
            old(self).wf(),
            old(memory).wf(),
        ensures
            final(self).wf(),
            final(memory).wf(),
            final(self).sample_clock == (old(self).sample_clock + cycles) % (CYCLE_PER_SAMPLE as int),
            final(out)@.len() == old(out)@.len() + (old(self).sample_clock + cycles) / (
            CYCLE_PER_SAMPLE as int),
            final(out)@.subrange(0, old(out)@.len() as int) == old(out)@,
            forall|k: int|
                old(out)@.len() <= k < final(out)@.len() ==> {
                    let v = old(memory)@.ram[C1_VOLUME_ENVELOPE as int] / 16;
                    &&& old(memory)@.ram[MASTER_CONTROL_ADDRESS as int] < 128 ==> #[trigger] final(out)@[k] == 0
                    &&& final(out)@[k] == 0 || final(out)@[k] == v || final(out)@[k] == -v
                },
    {
        let mut i: u8 = 0;
        while i < cycles
            invariant
                i <= cycles,
                self.wf(),
                memory.wf(),
                self.sample_clock == (old(self).sample_clock + i) % (CYCLE_PER_SAMPLE as int),
                out@.len() == old(out)@.len() + (old(self).sample_clock + i) / (CYCLE_PER_SAMPLE as int),
                out@.subrange(0, old(out)@.len() as int) == old(out)@,
                memory@.ram[MASTER_CONTROL_ADDRESS as int] == old(memory)@.ram[MASTER_CONTROL_ADDRESS as int],
                memory@.ram[C1_VOLUME_ENVELOPE as int] == old(memory)@.ram[C1_VOLUME_ENVELOPE as int],
                self.pulse_a.volume == old(memory)@.ram[C1_VOLUME_ENVELOPE as int] / 16 || i == 0,
                forall|k: int|
                    old(out)@.len() <= k < out@.len() ==> {
                        let v = old(memory)@.ram[C1_VOLUME_ENVELOPE as int] / 16;
                        &&& old(memory)@.ram[MASTER_CONTROL_ADDRESS as int] < 128 ==> #[trigger] out@[k] == 0
                        &&& out@[k] == 0 || out@[k] == v || out@[k] == -v
                    },
            decreases cycles - i,
        {
            self.pulse_a.step(memory);
            self.sample_clock = self.sample_clock + 1;
            if self.sample_clock == CYCLE_PER_SAMPLE {
                self.sample_clock = 0;
                let data = if self.audio_enabled(memory) {
                    self.pulse_a.sample()
                } else {
                    0
                };
                out.push(data);
                assert(out@.subrange(0, old(out)@.len() as int) =~= old(out)@);
            }
            i = i + 1;
        }
    }
}

} // verus!
