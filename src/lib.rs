//! A cycle-driven Game Boy (DMG) core: memory bus, instruction decoder,
//! CPU, timer, picture-processing unit, joypad latch, the first sound
//! channel and the run-loop step with its debugger controls.

pub mod utils;
pub mod memory;
pub mod instruction;
pub mod decoder;
pub mod alu;
pub mod semantics;
pub mod cpu;
pub mod clock;
pub mod graphics;
pub mod joypad;
pub mod audio;
pub mod gb;
