//! The byte-addressable bus that the processor reads through.

use vstd::prelude::*;

verus! {

/// Read access to the machine's address space.
///
/// A read always yields a byte. It may change the state of whatever sits at the
/// address (a chip register may clear a latch when it is read), so nothing is
/// promised about the byte and callers must not repeat, reorder or drop reads.
pub trait Bus {
    /// Reads the byte at `address`.
    fn read(&mut self, address: u16) -> u8;
}

/// One read that went over a bus: the address asked for and the byte that came back.
pub struct Access {
    pub address: u16,
    pub byte: u8,
}

/// The addresses of a run of reads, in order.
pub open spec fn addresses(reads: Seq<Access>) -> Seq<u16> {
    reads.map_values(|a: Access| a.address)
}

/// The bytes that a run of reads gave, in order.
pub open spec fn bytes(reads: Seq<Access>) -> Seq<u8> {
    reads.map_values(|a: Access| a.byte)
}

/// The reads that fetch `data` from consecutive addresses, lowest first,
/// starting at `start` and wrapping at 16 bits.
pub open spec fn consecutive_reads(start: u16, data: Seq<u8>) -> Seq<Access> {
    Seq::new(
        data.len(),
        |k: int| Access { address: ((start as int + k) % 0x1_0000) as u16, byte: data[k] },
    )
}

/// A bus together with the history of the reads made through it.
///
/// The history is ghost state: it costs nothing at run time and lets a contract
/// say which reads a function performed, in which order, and what it did with
/// the bytes that came back.
pub struct Traced<B> {
    inner: B,
    history: Ghost<Seq<Access>>,
}

impl<B: Bus> Traced<B> {
    /// The reads made through this bus so far, oldest first.
    pub closed spec fn reads(&self) -> Seq<Access> {
        self.history@
    }

    /// The reads made since the bus was in the state `before`.
    pub open spec fn reads_since(&self, before: &Self) -> Seq<Access> {
        self.reads().skip(before.reads().len() as int)
    }

    /// Whether the history of this bus is that of `before` followed by more
    /// reads: nothing was forgotten or inserted.
    pub open spec fn continues(&self, before: &Self) -> bool {
        self.reads() == before.reads() + self.reads_since(before)
    }

    /// The bus that the reads are passed on to.
    pub closed spec fn wrapped(&self) -> B {
        self.inner
    }

    /// Wraps `inner`, with no read made yet.
    pub fn new(inner: B) -> (bus: Self)
        ensures
            bus.wrapped() == inner,
            bus.reads() == Seq::<Access>::empty(),
    {
        Traced { inner, history: Ghost(Seq::empty()) }
    }

    /// The wrapped bus.
    pub fn inner(&self) -> (inner: &B)
        ensures
            *inner == self.wrapped(),
    {
        &self.inner
    }

    /// Gives the wrapped bus back.
    pub fn into_inner(self) -> (inner: B)
        ensures
            inner == self.wrapped(),
    {
        self.inner
    }
}

impl<B: Bus> Bus for Traced<B> {
    /// Reads the byte at `address` from the wrapped bus and records the read.
    fn read(&mut self, address: u16) -> (byte: u8)
        ensures
            final(self).reads() == old(self).reads().push(Access { address, byte }),
    {
        let byte: u8 = self.inner.read(address);
        self.history = Ghost(self.history@.push(Access { address, byte }));
        byte
    }
}

impl<B: Bus> Traced<B> {
    /// A bus whose history is that of `before` followed by `more` has made
    /// exactly the reads `more` since then.
    pub proof fn lemma_reads_since(&self, before: &Self, more: Seq<Access>)
        requires
            self.reads() == before.reads() + more,
        ensures
            self.reads_since(before) == more,
            self.continues(before),
    {
        assert(self.reads().skip(before.reads().len() as int) =~= more);
    }
}

} // verus!
