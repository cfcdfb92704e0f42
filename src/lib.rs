//! A CHIP-8 virtual machine: instruction decoding and the processor's
//! fetch-decode-execute cycle, with timers, keypad wait and a 64x32 display.
pub mod cartridge;
pub mod font;
pub mod instruction;
pub mod laws;
pub mod processor;

pub use cartridge::CartridgeModule;
pub use processor::{OutputState, Processor};
