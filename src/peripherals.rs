use vstd::prelude::*;

use crate::message::{Envelope, Message};
use crate::queue::RequestQueue;

verus! {

/// The byte every address of the stub simple peripheral reads as.
pub const PPI_SENTINEL: u8 = 0xFE;

/// The simple addressable peripheral: it answers a read of any of the 65536
/// addresses with one fixed byte.
#[derive(Clone, Copy, Debug, PartialEq, Eq, Structural)]
pub struct Ppi {
    answer: u8,
}

impl Ppi {
    /// What a read of `addr` returns.
    pub closed spec fn byte_at(&self, addr: u16) -> u8 {
        self.answer
    }

    /// The stub peripheral, which reads as `PPI_SENTINEL` everywhere.
    pub fn new() -> (p: Ppi)
        ensures
            forall|addr: u16| p.byte_at(addr) == PPI_SENTINEL,
    {
        Ppi { answer: PPI_SENTINEL }
    }

    /// A stand-in peripheral that reads as `data` everywhere.
    pub fn answering(data: u8) -> (p: Ppi)
        ensures
            forall|addr: u16| p.byte_at(addr) == data,
    {
        Ppi { answer: data }
    }

    pub fn read_byte(&self, addr: u16) -> (r: u8)
        ensures
            r == self.byte_at(addr),
    {
        self.answer
    }
}

/// The interrupt-capable peripheral. It keeps no state: raising its line
/// interrupt only forwards an interrupt-enable request to the processing
/// unit through the bus.
#[derive(Clone, Copy, Debug, PartialEq, Eq, Structural)]
pub struct Vdp {}

impl Vdp {
    pub fn new() -> (v: Vdp) {
        Vdp {}
    }

    /// Queues exactly one `CpuEnableInterrupt`, behind whatever is queued.
    pub fn enable_line_interrupt(&self, q: &mut RequestQueue)
        ensures
            final(q)@ == old(q)@.push(Envelope::plain_spec(Message::CpuEnableInterrupt)),
            final(q).sent() == old(q).sent().push(Message::CpuEnableInterrupt),
    {
        q.send(Envelope::plain(Message::CpuEnableInterrupt));
    }
}

} // verus!
