//! Operand address resolution.
//!
//! Given the addressing mode of a decoded instruction and the processor state
//! after the instruction was fetched, [`AddressingMode::get_data`] computes the
//! effective address and tells whether the access costs an extra bus cycle.
//! The arithmetic of each step is a function of its own, so that the quirks of
//! the hardware (wraparound inside page zero, the pointer that does not leave
//! its page) can be stated and used apart from the bus.

use vstd::prelude::*;
use vstd::wrapping::u16_specs;
use vstd::wrapping::u8_specs;
use crate::bus::{addresses, bytes, consecutive_reads, Access, Bus};
use crate::cpu6507::CPU6507;
use crate::signed::{byte_to_signed, byte_value};

verus! {

/// How an instruction finds its operand.
#[derive(Debug, Clone, Copy, PartialEq, Eq)]
pub enum AddressingMode {
    /// No mode: the mark of an opcode that does not decode.
    Invalid,
    Immediate,
    Absolute,
    Implied,
    Accumulator,
    AbsoluteX,
    AbsoluteY,
    ZeroPage,
    ZeroPageX,
    ZeroPageY,
    Indirect,
    IndexedIndirect,
    IndirectIndexed,
    Relative,
}

/// Why an addressing mode could not be used.
#[derive(Debug, Clone, Copy, PartialEq, Eq)]
pub enum AddrError {
    /// The mode is [`AddressingMode::Invalid`], which encodes no instruction.
    InvalidAddressingMode,
}

/// The 16-bit value with low byte `lo` and high byte `hi`.
pub open spec fn spec_word(lo: u8, hi: u8) -> u16 {
    (hi as int * 256 + lo as int) as u16
}

/// The 256-byte page that `addr` lies in.
pub open spec fn page(addr: u16) -> int {
    addr as int / 256
}

/// Whether two addresses lie in different pages.
pub open spec fn spec_pages_differ(addr_a: u16, addr_b: u16) -> bool {
    page(addr_a) != page(addr_b)
}

/// Where the high byte of a 16-bit value stored at `pointer` is read from: the
/// next address, except that the last address of a page is followed by the
/// first address of the same page.
pub open spec fn spec_pointer_high(pointer: u16) -> u16 {
    if pointer as int % 256 == 255 {
        (pointer as int - 255) as u16
    } else {
        (pointer as int + 1) as u16
    }
}

/// `base + index` within 16 bits, and whether the sum left the page of `base`.
pub open spec fn spec_index_absolute(base: u16, index: u8) -> (u16, bool) {
    let sum: u16 = ((base as int + index as int) % 0x1_0000) as u16;
    (sum, page(base) != page(sum))
}

/// `base + index` within 8 bits: the sum never leaves page zero.
pub open spec fn spec_index_zero_page(base: u8, index: u8) -> u16 {
    ((base as int + index as int) % 0x100) as u16
}

/// `pc` moved by the signed displacement that `offset` stands for, within 16 bits.
pub open spec fn spec_branch_target(pc: u16, offset: u8) -> u16 {
    ((pc as int + byte_value(offset as int)) % 0x1_0000) as u16
}

/// Joins two bytes, low byte first, into a 16-bit value.
#[verifier::when_used_as_spec(spec_word)]
pub fn word(lo: u8, hi: u8) -> (w: u16)
    ensures
        w == spec_word(lo, hi),
{
    let w: u16 = ((hi as u16) << 8) | (lo as u16);
    assert(w == hi as int * 256 + lo as int) by (bit_vector)
        requires
            w == ((hi as u16) << 8) | (lo as u16),
    ;
    w
}

/// Tells whether two addresses lie in different 256-byte pages.
#[verifier::when_used_as_spec(spec_pages_differ)]
pub fn pages_differ(addr_a: u16, addr_b: u16) -> (differ: bool)
    ensures
        differ == spec_pages_differ(addr_a, addr_b),
{
    proof {
        lemma_page_mask(addr_a);
        lemma_page_mask(addr_b);
    }
    (addr_a & 0xff00) != (addr_b & 0xff00)
}

/// The address that the high byte of a pointer stored at `pointer` is fetched
/// from. The processor increments only the low byte of the address, so a
/// pointer at the end of a page has its high byte at the start of that page.
#[verifier::when_used_as_spec(spec_pointer_high)]
pub fn pointer_high(pointer: u16) -> (high: u16)
    ensures
        high == spec_pointer_high(pointer),
{
    proof {
        lemma_page_mask(pointer);
    }
    if pointer & 0xff == 0xff {
        pointer & 0xff00
    } else {
        pointer + 1
    }
}

/// Adds an index register to a 16-bit base address, wrapping at 16 bits, and
/// tells whether the sum lies in another page than the base.
#[verifier::when_used_as_spec(spec_index_absolute)]
pub fn index_absolute(base: u16, index: u8) -> (res: (u16, bool))
    ensures
        res == spec_index_absolute(base, index),
{
    let sum: u16 = base.wrapping_add(index as u16);
    (sum, pages_differ(base, sum))
}

/// Adds an index register to a zero-page address, wrapping at 8 bits.
#[verifier::when_used_as_spec(spec_index_zero_page)]
pub fn index_zero_page(base: u8, index: u8) -> (addr: u16)
    ensures
        addr == spec_index_zero_page(base, index),
        addr < 0x100,
{
    base.wrapping_add(index) as u16
}

/// The address a branch goes to: the program counter after the branch
/// instruction, moved by the two's-complement displacement `offset`, wrapping
/// at 16 bits.
#[verifier::when_used_as_spec(spec_branch_target)]
pub fn branch_target(pc: u16, offset: u8) -> (target: u16)
    ensures
        target == spec_branch_target(pc, offset),
{
    pc.wrapping_add_signed(byte_to_signed(offset) as i16)
}

impl AddressingMode {
    /// Whether the mode encodes an instruction: every mode but the sentinel does.
    pub open spec fn is_valid(self) -> bool {
        self !is Invalid
    }

    /// The length in bytes of an instruction with this mode, opcode included
    /// (0 for the sentinel, which encodes none).
    pub open spec fn length(self) -> int {
        match self {
            AddressingMode::Invalid => 0,
            AddressingMode::Implied | AddressingMode::Accumulator => 1,
            AddressingMode::Immediate
            | AddressingMode::ZeroPage
            | AddressingMode::Relative
            | AddressingMode::ZeroPageX
            | AddressingMode::ZeroPageY
            | AddressingMode::IndexedIndirect
            | AddressingMode::IndirectIndexed => 2,
            AddressingMode::Absolute
            | AddressingMode::AbsoluteX
            | AddressingMode::AbsoluteY
            | AddressingMode::Indirect => 3,
        }
    }

    /// The address of byte `k` of the instruction (byte 0 is the opcode) when
    /// `pc` is the program counter after the fetch, that is the address just
    /// behind the instruction. Addresses wrap at 16 bits.
    pub open spec fn byte_address(self, pc: u16, k: int) -> u16 {
        ((pc as int - self.length() + k) % 0x1_0000) as u16
    }

    /// The addresses that resolution reads, in order, when `bytes` are the
    /// bytes that come back: the operand bytes first, low byte before high
    /// byte, then for the indirect modes the pointer and the address its high
    /// byte is fetched from. A later address may depend on earlier bytes.
    pub open spec fn operand_reads(self, pc: u16, x: u8, bytes: Seq<u8>) -> Seq<u16> {
        match self {
            AddressingMode::Invalid
            | AddressingMode::Implied
            | AddressingMode::Accumulator
            | AddressingMode::Immediate => seq![],
            AddressingMode::ZeroPage
            | AddressingMode::ZeroPageX
            | AddressingMode::ZeroPageY
            | AddressingMode::Relative => seq![self.byte_address(pc, 1)],
            AddressingMode::Absolute
            | AddressingMode::AbsoluteX
            | AddressingMode::AbsoluteY => seq![self.byte_address(pc, 1), self.byte_address(pc, 2)],
            AddressingMode::Indirect => {
                let pointer = spec_word(bytes[0], bytes[1]);
                seq![
                    self.byte_address(pc, 1),
                    self.byte_address(pc, 2),
                    pointer,
                    spec_pointer_high(pointer),
                ]
            },
            AddressingMode::IndexedIndirect => {
                let pointer = spec_index_zero_page(bytes[0], x);
                seq![self.byte_address(pc, 1), pointer, spec_pointer_high(pointer)]
            },
            AddressingMode::IndirectIndexed => {
                let pointer = bytes[0] as u16;
                seq![self.byte_address(pc, 1), pointer, spec_pointer_high(pointer)]
            },
        }
    }

    /// The effective address and the extra-cycle flag, when `bytes` are the
    /// bytes that the reads of [`Self::operand_reads`] gave.
    pub open spec fn resolution(self, pc: u16, x: u8, y: u8, bytes: Seq<u8>) -> (u16, bool) {
        match self {
            AddressingMode::Invalid | AddressingMode::Implied | AddressingMode::Accumulator => (
                0u16,
                false,
            ),
            AddressingMode::Immediate => (self.byte_address(pc, 1), false),
            AddressingMode::Absolute => (spec_word(bytes[0], bytes[1]), false),
            AddressingMode::ZeroPage => (bytes[0] as u16, false),
            AddressingMode::ZeroPageX => (spec_index_zero_page(bytes[0], x), false),
            AddressingMode::ZeroPageY => (spec_index_zero_page(bytes[0], y), false),
            AddressingMode::AbsoluteX => spec_index_absolute(spec_word(bytes[0], bytes[1]), x),
            AddressingMode::AbsoluteY => spec_index_absolute(spec_word(bytes[0], bytes[1]), y),
            AddressingMode::Indirect => (spec_word(bytes[2], bytes[3]), false),
            AddressingMode::IndexedIndirect => (spec_word(bytes[1], bytes[2]), false),
            AddressingMode::IndirectIndexed => spec_index_absolute(
                spec_word(bytes[1], bytes[2]),
                y,
            ),
            AddressingMode::Relative => (spec_branch_target(pc, bytes[0]), false),
        }
    }

    /// What a resolution with program counter `pc` and index registers `x` and
    /// `y` amounts to: `reads` are the bus reads it made and `res` is what it
    /// returned. The sentinel reads nothing and fails. Every other mode reads
    /// exactly the addresses of [`Self::operand_reads`], in that order, and
    /// returns the [`Self::resolution`] of the bytes that came back.
    pub open spec fn resolves(
        self,
        pc: u16,
        x: u8,
        y: u8,
        reads: Seq<Access>,
        res: Result<(u16, bool), AddrError>,
    ) -> bool {
        if self.is_valid() {
            &&& addresses(reads) == self.operand_reads(pc, x, bytes(reads))
            &&& res == Ok::<(u16, bool), AddrError>(self.resolution(pc, x, y, bytes(reads)))
        } else {
            &&& reads.len() == 0
            &&& res == Err::<(u16, bool), AddrError>(AddrError::InvalidAddressingMode)
        }
    }

    /// The length in bytes of an instruction with this mode, opcode included.
    /// The sentinel has no length: asking for it is an error.
    pub fn n_bytes(&self) -> (res: Result<usize, AddrError>)
        ensures
            self.is_valid() ==> res == Ok::<usize, AddrError>(self.length() as usize),
            !self.is_valid() ==> res == Err::<usize, AddrError>(AddrError::InvalidAddressingMode),
    {
        match *self {
            AddressingMode::Implied | AddressingMode::Accumulator => Ok(1),
            AddressingMode::Immediate
            | AddressingMode::ZeroPage
            | AddressingMode::Relative
            | AddressingMode::ZeroPageX
            | AddressingMode::ZeroPageY
            | AddressingMode::IndexedIndirect
            | AddressingMode::IndirectIndexed => Ok(2),
            AddressingMode::Absolute
            | AddressingMode::AbsoluteX
            | AddressingMode::AbsoluteY
            | AddressingMode::Indirect => Ok(3),
            AddressingMode::Invalid => Err(AddrError::InvalidAddressingMode),
        }
    }
}

impl AddressingMode {
    /// Resolves the operand of an instruction with this mode.
    ///
    /// `cpu.pc` must already point behind the instruction. On success the
    /// result is the effective address and whether the access costs an extra
    /// cycle because indexing crossed a page. The registers are left as they
    /// are; the bus is read exactly as [`Self::resolves`] says. The sentinel
    /// mode fails without touching the bus.
    pub fn get_data<B: Bus>(&self, cpu: &mut CPU6507<B>) -> (res: Result<(u16, bool), AddrError>)
        ensures
            final(cpu).pc == old(cpu).pc,
            final(cpu).x == old(cpu).x,
            final(cpu).y == old(cpu).y,
            final(cpu).bus.continues(&old(cpu).bus),
            self.resolves(
                old(cpu).pc,
                old(cpu).x,
                old(cpu).y,
                final(cpu).bus.reads_since(&old(cpu).bus),
                res,
            ),
    {
        let ghost before = cpu.bus;
        let ghost more: Seq<Access> = seq![];
        let len: usize = match self.n_bytes() {
            Ok(len) => len,
            Err(e) => {
                proof {
                    cpu.bus.lemma_reads_since(&before, more);
                }
                return Err(e);
            },
        };
        // cpu.pc points behind the instruction; go back to its operand bytes.
        let opcode_at: u16 = cpu.pc.wrapping_sub(len as u16);
        let first: u16 = opcode_at.wrapping_add(1);
        let second: u16 = opcode_at.wrapping_add(2);
        proof {
            assert(first == self.byte_address(cpu.pc, 1));
            assert(len == 3 ==> second == self.byte_address(cpu.pc, 2));
        }
        let res: (u16, bool) = match *self {
            AddressingMode::Immediate => (first, false),
            AddressingMode::Absolute => {
                let lo: u8 = cpu.read(first);
                let hi: u8 = cpu.read(second);
                proof {
                    more = seq![Access { address: first, byte: lo }, Access { address: second, byte: hi }];
                }
                (word(lo, hi), false)
            },
            AddressingMode::Implied | AddressingMode::Accumulator => (0, false),
            AddressingMode::ZeroPage => {
                let addr: u8 = cpu.read(first);
                proof {
                    more = seq![Access { address: first, byte: addr }];
                }
                (addr as u16, false)
            },
            AddressingMode::Relative => {
                let offset: u8 = cpu.read(first);
                proof {
                    more = seq![Access { address: first, byte: offset }];
                }
                // The displacement counts from the instruction after the branch.
                (branch_target(cpu.pc, offset), false)
            },
            AddressingMode::AbsoluteX => {
                let lo: u8 = cpu.read(first);
                let hi: u8 = cpu.read(second);
                proof {
                    more = seq![Access { address: first, byte: lo }, Access { address: second, byte: hi }];
                }
                index_absolute(word(lo, hi), cpu.x)
            },
            AddressingMode::AbsoluteY => {
                let lo: u8 = cpu.read(first);
                let hi: u8 = cpu.read(second);
                proof {
                    more = seq![Access { address: first, byte: lo }, Access { address: second, byte: hi }];
                }
                index_absolute(word(lo, hi), cpu.y)
            },
            AddressingMode::Indirect => {
                let ptr_lo: u8 = cpu.read(first);
                let ptr_hi: u8 = cpu.read(second);
                let pointer: u16 = word(ptr_lo, ptr_hi);
                let high_at: u16 = pointer_high(pointer);
                let lo: u8 = cpu.read(pointer);
                let hi: u8 = cpu.read(high_at);
                proof {
                    more = seq![
                        Access { address: first, byte: ptr_lo },
                        Access { address: second, byte: ptr_hi },
                        Access { address: pointer, byte: lo },
                        Access { address: high_at, byte: hi },
                    ];
                }
                (word(lo, hi), false)
            },
            AddressingMode::ZeroPageX => {
                let base: u8 = cpu.read(first);
                proof {
                    more = seq![Access { address: first, byte: base }];
                }
                (index_zero_page(base, cpu.x), false)
            },
            AddressingMode::ZeroPageY => {
                let base: u8 = cpu.read(first);
                proof {
                    more = seq![Access { address: first, byte: base }];
                }
                (index_zero_page(base, cpu.y), false)
            },
            AddressingMode::IndexedIndirect => {
                let base: u8 = cpu.read(first);
                let pointer: u16 = index_zero_page(base, cpu.x);
                let high_at: u16 = pointer_high(pointer);
                let lo: u8 = cpu.read(pointer);
                let hi: u8 = cpu.read(high_at);
                proof {
                    more = seq![
                        Access { address: first, byte: base },
                        Access { address: pointer, byte: lo },
                        Access { address: high_at, byte: hi },
                    ];
                }
                (word(lo, hi), false)
            },
            AddressingMode::IndirectIndexed => {
                let base: u8 = cpu.read(first);
                let pointer: u16 = base as u16;
                let high_at: u16 = pointer_high(pointer);
                let lo: u8 = cpu.read(pointer);
                let hi: u8 = cpu.read(high_at);
                proof {
                    more = seq![
                        Access { address: first, byte: base },
                        Access { address: pointer, byte: lo },
                        Access { address: high_at, byte: hi },
                    ];
                }
                index_absolute(word(lo, hi), cpu.y)
            },
            // The sentinel has no length, so it never gets this far.
            AddressingMode::Invalid => {
                proof {
                    cpu.bus.lemma_reads_since(&before, more);
                }
                return Err(AddrError::InvalidAddressingMode);
            },
        };
        proof {
            assert(cpu.bus.reads() =~= before.reads() + more);
            cpu.bus.lemma_reads_since(&before, more);
            assert(addresses(more) =~= self.operand_reads(cpu.pc, cpu.x, bytes(more)));
        }
        Ok(res)
    }
}

impl AddressingMode {
    /// Reads the bytes of an instruction with this mode, opcode first, from
    /// the addresses `cpu.pc`, `cpu.pc + 1`, ... (wrapping at 16 bits), one
    /// read per byte in ascending order. The sentinel mode fails without
    /// touching the bus.
    pub fn get_bytes<B: Bus>(&self, cpu: &mut CPU6507<B>) -> (res: Result<Vec<u8>, AddrError>)
        ensures
            final(cpu).pc == old(cpu).pc,
            final(cpu).x == old(cpu).x,
            final(cpu).y == old(cpu).y,
            final(cpu).bus.continues(&old(cpu).bus),
            match res {
                Ok(data) => {
                    &&& self.is_valid()
                    &&& data@.len() == self.length()
                    &&& final(cpu).bus.reads_since(&old(cpu).bus) == consecutive_reads(
                        old(cpu).pc,
                        data@,
                    )
                },
                Err(e) => {
                    &&& !self.is_valid()
                    &&& e == AddrError::InvalidAddressingMode
                    &&& final(cpu).bus.reads_since(&old(cpu).bus).len() == 0
                },
            },
    {
        let ghost before = cpu.bus;
        let len: usize = match self.n_bytes() {
            Ok(len) => len,
            Err(e) => {
                proof {
                    cpu.bus.lemma_reads_since(&before, seq![]);
                }
                return Err(e);
            },
        };
        let mut data: Vec<u8> = Vec::new();
        let mut k: u16 = 0;
        while (k as usize) < len
            invariant
                k <= len <= 3,
                data@.len() == k,
                cpu.pc == old(cpu).pc,
                cpu.x == old(cpu).x,
                cpu.y == old(cpu).y,
                cpu.bus.reads() == before.reads() + consecutive_reads(cpu.pc, data@),
            decreases len - k,
        {
            let byte: u8 = cpu.read(cpu.pc.wrapping_add(k));
            data.push(byte);
            k = k + 1;
            assert(cpu.bus.reads() =~= before.reads() + consecutive_reads(cpu.pc, data@));
        }
        proof {
            cpu.bus.lemma_reads_since(&before, consecutive_reads(cpu.pc, data@));
        }
        Ok(data)
    }
}

/// Masking an address relates to its page and to its place in the page as division does.
pub proof fn lemma_page_mask(addr: u16)
    ensures
        (addr & 0xff00) == page(addr) * 256,
        (addr & 0xff) == addr as int % 256,
{
    assert((addr & 0xff00) == (addr / 256) * 256) by (bit_vector);
    assert((addr & 0xff) == addr % 256) by (bit_vector);
}

/// Indexing an absolute address costs an extra cycle exactly when the high
/// byte of the sum is not the high byte of the base.
pub proof fn lemma_index_absolute_page_cross(base: u16, index: u8)
    ensures
        spec_index_absolute(base, index).0 == u16_specs::wrapping_add(base, index as u16),
        spec_index_absolute(base, index).1 <==> (base & 0xff00) != (u16_specs::wrapping_add(
            base,
            index as u16,
        ) & 0xff00),
{
    let sum = u16_specs::wrapping_add(base, index as u16);
    lemma_page_mask(base);
    lemma_page_mask(sum);
}

/// For the absolute indexed modes the base is the operand word and the index
/// is X or Y; for the post-indexed indirect mode the base is the word the
/// pointer leads to and the index is Y. In each the address is the wrapped
/// sum, and the extra cycle is signalled exactly when the sum lies in another
/// page than the base.
pub proof fn lemma_extra_cycle_iff_page_crossed(
    mode: AddressingMode,
    pc: u16,
    x: u8,
    y: u8,
    bytes: Seq<u8>,
)
    requires
        mode is AbsoluteX || mode is AbsoluteY || mode is IndirectIndexed,
    ensures
        ({
            let base = if mode is IndirectIndexed {
                spec_word(bytes[1], bytes[2])
            } else {
                spec_word(bytes[0], bytes[1])
            };
            let index = if mode is AbsoluteX {
                x
            } else {
                y
            };
            let sum = u16_specs::wrapping_add(base, index as u16);
            mode.resolution(pc, x, y, bytes) == (sum, (base & 0xff00) != (sum & 0xff00))
        }),
{
    let base = if mode is IndirectIndexed {
        spec_word(bytes[1], bytes[2])
    } else {
        spec_word(bytes[0], bytes[1])
    };
    let index = if mode is AbsoluteX {
        x
    } else {
        y
    };
    lemma_index_absolute_page_cross(base, index);
}

/// The high byte of a pointer is fetched from the page of its low byte: from
/// the start of that page when the low byte sits at its end, from the next
/// address otherwise.
pub proof fn lemma_pointer_high_stays_in_page(pointer: u16)
    ensures
        (pointer & 0xff) == 0xff ==> spec_pointer_high(pointer) == (pointer & 0xff00),
        (pointer & 0xff) != 0xff ==> spec_pointer_high(pointer) == pointer + 1,
        page(spec_pointer_high(pointer)) == page(pointer),
{
    lemma_page_mask(pointer);
}

/// Each indirect mode ends with two reads, the pointer's low byte and then
/// its high byte, and the second never leaves the page of the first. The
/// pointer of the two modes that go through page zero lies in page zero, so
/// both of their reads do.
pub proof fn lemma_indirect_dereference(mode: AddressingMode, pc: u16, x: u8, bytes: Seq<u8>)
    requires
        mode is Indirect || mode is IndexedIndirect || mode is IndirectIndexed,
    ensures
        ({
            let reads = mode.operand_reads(pc, x, bytes);
            let pointer = reads[reads.len() - 2];
            let high_at = reads[reads.len() - 1];
            &&& reads.len() == if mode is Indirect {
                4nat
            } else {
                3nat
            }
            &&& pointer == match mode {
                AddressingMode::Indirect => spec_word(bytes[0], bytes[1]),
                AddressingMode::IndexedIndirect => u8_specs::wrapping_add(bytes[0], x) as u16,
                _ => bytes[0] as u16,
            }
            &&& (pointer & 0xff) == 0xff ==> high_at == (pointer & 0xff00)
            &&& (pointer & 0xff) != 0xff ==> high_at == pointer + 1
            &&& mode !is Indirect ==> pointer < 0x100 && high_at < 0x100
        }),
{
    let reads = mode.operand_reads(pc, x, bytes);
    let pointer = reads[reads.len() - 2];
    lemma_pointer_high_stays_in_page(pointer);
}

/// Indexing inside page zero never carries into page one: the address is the
/// sum of operand and index within 8 bits, and no extra cycle is signalled.
pub proof fn lemma_zero_page_indexed_wraps(
    mode: AddressingMode,
    pc: u16,
    x: u8,
    y: u8,
    bytes: Seq<u8>,
)
    requires
        mode is ZeroPageX || mode is ZeroPageY,
    ensures
        ({
            let index = if mode is ZeroPageX {
                x
            } else {
                y
            };
            let (addr, extra_cycle) = mode.resolution(pc, x, y, bytes);
            &&& addr == u8_specs::wrapping_add(bytes[0], index)
            &&& addr < 0x100
            &&& !extra_cycle
        }),
{
}

/// A branch goes to the program counter behind the branch instruction plus
/// the displacement, within 16 bits: forward by `offset` for `0x00 ..= 0x7f`,
/// back by `0x100 - offset` for `0x80 ..= 0xff`. The displacement `0xfe` goes
/// back by two, whatever the program counter.
pub proof fn lemma_branch_target(pc: u16, x: u8, y: u8, offset: u8)
    ensures
        AddressingMode::Relative.resolution(pc, x, y, seq![offset]) == (
            spec_branch_target(pc, offset),
            false,
        ),
        offset < 0x80 ==> spec_branch_target(pc, offset) == u16_specs::wrapping_add(
            pc,
            offset as u16,
        ),
        offset >= 0x80 ==> spec_branch_target(pc, offset) == u16_specs::wrapping_sub(
            pc,
            (0x100 - offset) as u16,
        ),
        spec_branch_target(pc, 0xfe) == u16_specs::wrapping_sub(pc, 2),
{
}

} // verus!
