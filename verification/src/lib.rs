//! The timing engine and the cartridge decoder of an emulator for the NES.
//!
//! [`hw`] holds the clocks: a [`hw::clock::Clock`] counts ticks of one
//! period and has its components step at their fractions of that rate, and
//! a [`hw::device::Device`] runs its clocks by the time that the machine has
//! been active. [`rom`] takes a ROM image apart and tells whether this
//! emulator can run it.

pub mod hw;
pub mod rom;
