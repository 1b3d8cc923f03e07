//! Timing-critical core of an Atari 2600 style console emulator: operand
//! address resolution for the 6507 processor and the position counters of the
//! video chip's movable objects.

pub mod bus;
pub mod cpu6507;
pub mod signed;
pub mod tia;
