//! The processor state that operand resolution works on.

use vstd::prelude::*;
use crate::bus::{Access, Bus, Traced};

pub mod addr;

verus! {

/// Program counter, index registers and the bus of a 6507.
pub struct CPU6507<B> {
    pub pc: u16,
    pub x: u8,
    pub y: u8,
    pub bus: Traced<B>,
}

impl<B: Bus> CPU6507<B> {
    /// A processor attached to `bus`, with all registers zero and no read made yet.
    pub fn new(bus: B) -> (cpu: Self)
        ensures
            cpu.pc == 0,
            cpu.x == 0,
            cpu.y == 0,
            cpu.bus.wrapped() == bus,
            cpu.bus.reads() == Seq::<Access>::empty(),
    {
        CPU6507 { pc: 0, x: 0, y: 0, bus: Traced::new(bus) }
    }
}

impl<B: Bus> Bus for CPU6507<B> {
    /// Reads the byte at `address` from the bus; the registers stay as they are.
    fn read(&mut self, address: u16) -> (byte: u8)
        ensures
            final(self).pc == old(self).pc,
            final(self).x == old(self).x,
            final(self).y == old(self).y,
            final(self).bus.reads() == old(self).bus.reads().push(Access { address, byte }),
    {
        self.bus.read(address)
    }
}

} // verus!
