use vstd::prelude::*;

use crate::bus::{dispatch_front, drain, Bus, BusState};
use crate::cpu::{Cpu, STEP_READ_ADDR};
use crate::message::{Envelope, Message};
use crate::peripherals::{Ppi, Vdp, PPI_SENTINEL};

verus! {

/// What one `step` of a machine at rest dispatches, given the byte that its
/// processing unit reads.
pub open spec fn step_trace(data: u8) -> Seq<Message> {
    if data == 0 {
        seq![
            Message::CpuStep,
            Message::ReadByte(STEP_READ_ADDR),
            Message::PortWrite(0, 1),
            Message::VdpEnableLineInterrupt,
            Message::CpuEnableInterrupt,
            Message::PortWrite(1, 1),
        ]
    } else {
        seq![Message::CpuStep, Message::ReadByte(STEP_READ_ADDR)]
    }
}

/// A step taken at rest runs to completion and comes back to rest: the
/// processing unit reads its byte, and only when that byte is 0 does it
/// write port 0 once, which raises the line interrupt, which enables the
/// processing unit's interrupts, in that order.
pub proof fn lemma_step_at_rest(s: BusState)
    requires
        s.wf(),
        s.queue.len() == 0,
    ensures
        ({
            let (t, r) = drain(s.send(Envelope::plain_spec(Message::CpuStep)));
            &&& r is Ok
            &&& t.at_rest()
            &&& t.ppi == s.ppi
            &&& t.dispatched == s.dispatched + step_trace(s.ppi.byte_at(STEP_READ_ADDR))
            &&& t.sent == s.sent + step_trace(s.ppi.byte_at(STEP_READ_ADDR))
        }),
{
    let s0 = s.send(Envelope::plain_spec(Message::CpuStep));
    assert(s.awaiting is None);
    assert(s0.queue[0] == Envelope::plain_spec(Message::CpuStep));
    let s1 = dispatch_front(s0).0;
    assert(s1.queue =~= seq![Envelope::cpu_read(STEP_READ_ADDR)]);
    let s2 = dispatch_front(s1).0;
    assert(drain(s0) == drain(s1));
    assert(drain(s1) == drain(s2));
    if s.ppi.byte_at(STEP_READ_ADDR) == 0 {
        assert(s2.queue =~= seq![Envelope::plain_spec(Message::PortWrite(0, 1))]);
        let s3 = dispatch_front(s2).0;
        assert(s3.queue =~= seq![Envelope::plain_spec(Message::VdpEnableLineInterrupt)]);
        let s4 = dispatch_front(s3).0;
        assert(s4.queue =~= seq![Envelope::plain_spec(Message::CpuEnableInterrupt)]);
        let s5 = dispatch_front(s4).0;
        assert(s5.queue =~= seq![Envelope::plain_spec(Message::PortWrite(1, 1))]);
        let s6 = dispatch_front(s5).0;
        assert(s6.queue =~= Seq::<Envelope>::empty());
        assert(drain(s2) == drain(s3));
        assert(drain(s3) == drain(s4));
        assert(drain(s4) == drain(s5));
        assert(drain(s5) == drain(s6));
        assert(drain(s6) == (s6, Ok::<(), crate::message::BusError>(())));
        assert(s6.dispatched =~= s.dispatched + step_trace(0));
        assert(s6.sent =~= s.sent + step_trace(0));
    } else {
        assert(s2.queue =~= Seq::<Envelope>::empty());
        assert(drain(s2) == (s2, Ok::<(), crate::message::BusError>(())));
        assert(s2.dispatched =~= s.dispatched + step_trace(s.ppi.byte_at(STEP_READ_ADDR)));
        assert(s2.sent =~= s.sent + step_trace(s.ppi.byte_at(STEP_READ_ADDR)));
    }
}

/// The whole machine: a bus around one processing unit, one interrupt
/// peripheral and one simple peripheral.
pub struct Machine {
    bus: Bus,
}

impl Machine {
    pub closed spec fn model(&self) -> BusState {
        self.bus.model()
    }

    pub open spec fn wf(&self) -> bool {
        self.model().wf()
    }

    /// A machine at rest whose simple peripheral is the stub.
    pub fn new() -> (m: Machine)
        ensures
            m.wf(),
            m.model().at_rest(),
            m.model().sent.len() == 0,
            m.model().dispatched.len() == 0,
            forall|addr: u16| m.model().ppi.byte_at(addr) == PPI_SENTINEL,
    {
        Machine::with_ppi(Ppi::new())
    }

    /// A machine at rest around the given simple peripheral.
    pub fn with_ppi(ppi: Ppi) -> (m: Machine)
        ensures
            m.wf(),
            m.model().at_rest(),
            m.model().sent.len() == 0,
            m.model().dispatched.len() == 0,
            m.model().ppi == ppi,
    {
        let cpu = Cpu::new();
        let vdp = Vdp::new();
        let bus = Bus::new(cpu, vdp, ppi);
        Machine { bus }
    }

    /// One machine cycle: the bus's step, run until its queue is empty or a
    /// dispatch fails.
    pub fn step(&mut self) -> (r: Result<(), crate::message::BusError>)
        requires
            old(self).wf(),
        ensures
            final(self).wf(),
            (final(self).model(), r) == drain(
                old(self).model().send(Envelope::plain_spec(Message::CpuStep)),
            ),
            old(self).model().queue.len() == 0 ==> {
                &&& r is Ok
                &&& final(self).model().at_rest()
                &&& final(self).model().dispatched == old(self).model().dispatched + step_trace(
                    old(self).model().ppi.byte_at(STEP_READ_ADDR),
                )
            },
    {
        proof {
            if self.model().queue.len() == 0 {
                lemma_step_at_rest(self.model());
            }
        }
        self.bus.step()
    }

    pub fn bus(&self) -> (r: &Bus)
        ensures
            r.model() == self.model(),
    {
        &self.bus
    }
}

} // verus!
