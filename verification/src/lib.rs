//! Core library for the Starbyte SNES emulator.

use vstd::prelude::*;

pub mod apu;
pub mod bus;
pub mod error;
pub mod input;
pub mod timing;
pub mod cpu_65816;
pub mod text;
pub mod paths;
pub mod manifest;
pub mod cartridge;
pub mod coprocessor;
pub mod dma;
pub mod ppu;
pub mod system;
pub mod emulator;
pub mod testing;
pub mod cli;
pub mod frontend;
