use vstd::prelude::*;

use crate::cpu::{Cpu, STEP_READ_ADDR};
use crate::message::{
    lemma_load_drop_first, lemma_load_push, load, messages, weight, BusError, Envelope, Message,
    Response,
};
use crate::peripherals::{Ppi, Vdp};
use crate::queue::RequestQueue;

verus! {

/// What the bus is, mathematically.
pub struct BusState {
    /// Requests not yet dispatched, oldest first.
    pub queue: Seq<Envelope>,
    /// Every message ever sent to the bus, in order.
    pub sent: Seq<Message>,
    /// Every message the arbitration loop has dispatched, in order.
    pub dispatched: Seq<Message>,
    /// The address the processing unit is blocked reading, if any.
    pub awaiting: Option<u16>,
    pub ppi: Ppi,
}

impl BusState {
    pub open spec fn send(self, e: Envelope) -> BusState {
        BusState { queue: self.queue.push(e), sent: self.sent.push(e.message), ..self }
    }

    /// Nothing queued, nobody blocked.
    pub open spec fn at_rest(self) -> bool {
        self.queue.len() == 0 && self.awaiting is None
    }

    /// The state's invariant: the queue is first in, first out over all
    /// sent messages, and the processing unit is blocked exactly when its
    /// one read is queued.
    pub open spec fn wf(self) -> bool {
        &&& self.dispatched + messages(self.queue) == self.sent
        &&& forall|i: int, j: int|
            0 <= i < j < self.queue.len() && #[trigger] self.queue[i].from_cpu ==> !(
            #[trigger] self.queue[j].from_cpu)
        &&& forall|i: int|
            0 <= i < self.queue.len() && #[trigger] self.queue[i].from_cpu ==> self.awaiting is Some
                && self.queue[i] == Envelope::cpu_read(self.awaiting->0)
        &&& self.awaiting is Some ==> exists|i: int|
            0 <= i < self.queue.len() && #[trigger] self.queue[i].from_cpu
    }
}

/// What dispatching `e` does to `t`, the state it was taken from.
pub open spec fn react(t: BusState, e: Envelope) -> (BusState, Result<(), BusError>) {
    match e.message {
        Message::CpuStep => if t.awaiting is Some {
            (t, Err(BusError::ProtocolViolation))
        } else {
            (
                BusState {
                    awaiting: Some(STEP_READ_ADDR),
                    ..t.send(Envelope::cpu_read(STEP_READ_ADDR))
                },
                Ok(()),
            )
        },
        Message::ReadByte(addr) => if e.from_cpu && t.awaiting == Some(addr) {
            let u = BusState { awaiting: None, ..t };
            if t.ppi.byte_at(addr) == 0 {
                (u.send(Envelope::plain_spec(Message::PortWrite(0, 1))), Ok(()))
            } else {
                (u, Ok(()))
            }
        } else {
            (t, Err(BusError::ProtocolViolation))
        },
        Message::WriteByte(_, _) => (t, Ok(())),
        Message::PortRead(_) => (t, Err(BusError::UnimplementedOperation)),
        Message::PortWrite(port, _) => if port == 0 {
            (t.send(Envelope::plain_spec(Message::VdpEnableLineInterrupt)), Ok(()))
        } else {
            (t, Ok(()))
        },
        Message::VdpEnableLineInterrupt => (
            t.send(Envelope::plain_spec(Message::CpuEnableInterrupt)),
            Ok(()),
        ),
        Message::CpuEnableInterrupt => (
            t.send(Envelope::plain_spec(Message::PortWrite(1, 1))),
            Ok(()),
        ),
    }
}

/// `s` with its oldest request taken off the queue and recorded as
/// dispatched.
pub open spec fn pop_front(s: BusState) -> BusState {
    BusState { queue: s.queue.drop_first(), dispatched: s.dispatched.push(s.queue[0].message), ..s }
}

/// One turn of the arbitration loop.
pub open spec fn dispatch_front(s: BusState) -> (BusState, Result<(), BusError>) {
    react(pop_front(s), s.queue[0])
}

/// The arbitration loop run to its end: until the queue is empty, or up to
/// and including the first dispatch that fails.
pub open spec fn drain(s: BusState) -> (BusState, Result<(), BusError>)
    decreases load(s.queue),
    via drain_decreases
{
    if s.queue.len() == 0 {
        (s, Ok(()))
    } else {
        let (t, r) = dispatch_front(s);
        if r is Err {
            (t, r)
        } else {
            drain(t)
        }
    }
}

#[via_fn]
proof fn drain_decreases(s: BusState) {
    if s.queue.len() > 0 {
        lemma_dispatch_front_load(s);
    }
}

/// Every dispatch lowers the queue's load.
pub proof fn lemma_dispatch_front_load(s: BusState)
    requires
        s.queue.len() > 0,
    ensures
        load(dispatch_front(s).0.queue) < load(s.queue),
{
    let e = s.queue[0];
    let rest = s.queue.drop_first();
    lemma_load_drop_first(s.queue);
    match e.message {
        Message::CpuStep => {
            lemma_load_push(rest, Envelope::cpu_read(STEP_READ_ADDR));
        },
        Message::ReadByte(addr) => {
            lemma_load_push(rest, Envelope::plain_spec(Message::PortWrite(0, 1)));
        },
        Message::PortWrite(port, _) => {
            lemma_load_push(rest, Envelope::plain_spec(Message::VdpEnableLineInterrupt));
        },
        Message::VdpEnableLineInterrupt => {
            lemma_load_push(rest, Envelope::plain_spec(Message::CpuEnableInterrupt));
        },
        Message::CpuEnableInterrupt => {
            lemma_load_push(rest, Envelope::plain_spec(Message::PortWrite(1, 1)));
        },
        _ => {},
    }
}

proof fn lemma_messages_push(q: Seq<Envelope>, e: Envelope)
    ensures
        messages(q.push(e)) == messages(q).push(e.message),
{
    assert(messages(q.push(e)) =~= messages(q).push(e.message));
}

/// Sending a request that nobody waits on keeps the invariant.
proof fn lemma_send_plain_wf(t: BusState, e: Envelope)
    requires
        t.wf(),
        !e.from_cpu,
    ensures
        t.send(e).wf(),
{
    let u = t.send(e);
    lemma_messages_push(t.queue, e);
    assert(u.dispatched + messages(u.queue) =~= (t.dispatched + messages(t.queue)).push(e.message));
    if t.awaiting is Some {
        let i = choose|i: int| 0 <= i < t.queue.len() && #[trigger] t.queue[i].from_cpu;
        assert(u.queue[i].from_cpu);
    }
}

/// Taking the oldest request off the queue keeps the queue's part of the
/// invariant, when that request is not the processing unit's read.
proof fn lemma_pop_front_wf(s: BusState)
    requires
        s.wf(),
        s.queue.len() > 0,
        !s.queue[0].from_cpu,
    ensures
        pop_front(s).wf(),
{
    let t = pop_front(s);
    assert(t.dispatched + messages(t.queue) =~= s.dispatched + messages(s.queue));
    assert forall|i: int, j: int|
        0 <= i < j < t.queue.len() && #[trigger] t.queue[i].from_cpu implies !(
        #[trigger] t.queue[j].from_cpu) by {
        assert(s.queue[i + 1].from_cpu);
        assert(t.queue[j] == s.queue[j + 1]);
    }
    assert forall|i: int| 0 <= i < t.queue.len() && #[trigger] t.queue[i].from_cpu implies t.awaiting is Some
        && t.queue[i] == Envelope::cpu_read(t.awaiting->0) by {
        assert(s.queue[i + 1].from_cpu);
    }
    if s.awaiting is Some {
        let i = choose|i: int| 0 <= i < s.queue.len() && #[trigger] s.queue[i].from_cpu;
        assert(i > 0);
        assert(t.queue[i - 1].from_cpu);
    }
}

/// Every turn of the arbitration loop keeps the invariant.
pub proof fn lemma_dispatch_front_wf(s: BusState)
    requires
        s.wf(),
        s.queue.len() > 0,
    ensures
        dispatch_front(s).0.wf(),
{
    let e = s.queue[0];
    let t = pop_front(s);
    if e.from_cpu {
        assert(t.dispatched + messages(t.queue) =~= s.dispatched + messages(s.queue));
        assert forall|i: int| 0 <= i < t.queue.len() implies !(#[trigger] t.queue[i].from_cpu) by {
            assert(s.queue[i + 1] == t.queue[i]);
        }
        let u = BusState { awaiting: None, ..t };
        assert(u.wf());
        if t.ppi.byte_at(e.message->ReadByte_0) == 0 {
            lemma_send_plain_wf(u, Envelope::plain_spec(Message::PortWrite(0, 1)));
        }
    } else {
        lemma_pop_front_wf(s);
        match e.message {
            Message::CpuStep => {
                if t.awaiting is None {
                    let c = Envelope::cpu_read(STEP_READ_ADDR);
                    let u = BusState { awaiting: Some(STEP_READ_ADDR), ..t.send(c) };
                    lemma_messages_push(t.queue, c);
                    assert(u.dispatched + messages(u.queue) =~= (t.dispatched + messages(
                        t.queue,
                    )).push(c.message));
                    assert(u.queue[t.queue.len() as int].from_cpu);
                }
            },
            Message::PortWrite(port, _) => {
                if port == 0 {
                    lemma_send_plain_wf(t, Envelope::plain_spec(Message::VdpEnableLineInterrupt));
                }
            },
            Message::VdpEnableLineInterrupt => {
                lemma_send_plain_wf(t, Envelope::plain_spec(Message::CpuEnableInterrupt));
            },
            Message::CpuEnableInterrupt => {
                lemma_send_plain_wf(t, Envelope::plain_spec(Message::PortWrite(1, 1)));
            },
            _ => {},
        }
    }
}

/// The arbitration loop keeps the invariant.
pub proof fn lemma_drain_wf(s: BusState)
    requires
        s.wf(),
    ensures
        drain(s).0.wf(),
    decreases load(s.queue),
{
    if s.queue.len() > 0 {
        lemma_dispatch_front_wf(s);
        lemma_dispatch_front_load(s);
        lemma_drain_wf(dispatch_front(s).0);
    }
}

/// The loop only ever appends: to what was sent and to what was dispatched.
/// When it ends without error the queue is empty.
proof fn lemma_drain_extends(s: BusState)
    ensures
        ({
            let (t, r) = drain(s);
            &&& s.sent.len() <= t.sent.len()
            &&& t.sent.subrange(0, s.sent.len() as int) == s.sent
            &&& s.dispatched.len() <= t.dispatched.len()
            &&& t.dispatched.subrange(0, s.dispatched.len() as int) == s.dispatched
            &&& t.ppi == s.ppi
            &&& r is Ok ==> t.queue.len() == 0
        }),
    decreases load(s.queue),
{
    if s.queue.len() > 0 {
        lemma_dispatch_front_load(s);
        let u = dispatch_front(s).0;
        assert(s.sent.len() <= u.sent.len() && u.sent.subrange(0, s.sent.len() as int) =~= s.sent);
        assert(u.dispatched.subrange(0, s.dispatched.len() as int) =~= s.dispatched);
        lemma_drain_extends(u);
        let t = drain(u).0;
        assert(t.sent.subrange(0, s.sent.len() as int) =~= u.sent.subrange(
            0,
            u.sent.len() as int,
        ).subrange(0, s.sent.len() as int));
        assert(t.dispatched.subrange(0, s.dispatched.len() as int) =~= u.dispatched.subrange(
            0,
            u.dispatched.len() as int,
        ).subrange(0, s.dispatched.len() as int));
    }
}

/// Requests leave the bus in the order they reached it. Whatever the loop
/// dispatches is a prefix of everything sent, in sending order; and when
/// it runs to completion, it has dispatched every request that was queued
/// when it started, in queue order, followed by every request sent during
/// the run, in sending order.
pub proof fn lemma_dispatch_in_submission_order(s: BusState)
    requires
        s.wf(),
    ensures
        ({
            let (t, r) = drain(s);
            &&& t.dispatched.len() <= t.sent.len()
            &&& t.dispatched == t.sent.subrange(0, t.dispatched.len() as int)
            &&& t.sent.subrange(0, s.sent.len() as int) == s.sent
            &&& r is Ok ==> t.dispatched == t.sent
            &&& r is Ok ==> t.dispatched.subrange(0, s.sent.len() as int) == s.dispatched
                + messages(s.queue)
        }),
{
    lemma_drain_wf(s);
    lemma_drain_extends(s);
    let t = drain(s).0;
    assert(t.dispatched =~= t.sent.subrange(0, t.dispatched.len() as int));
    if drain(s).1 is Ok {
        assert(messages(t.queue) =~= Seq::<Message>::empty());
        assert(t.dispatched =~= t.sent);
    }
}

/// A synchronous read never outlives the loop: once the arbitration loop
/// has run to completion, the processing unit is no longer blocked.
pub proof fn lemma_read_resolved_on_completion(s: BusState)
    requires
        s.wf(),
    ensures
        drain(s).1 is Ok ==> drain(s).0.awaiting is None,
{
    lemma_drain_wf(s);
    lemma_drain_extends(s);
}

/// A response reaches only the read it answers. While the processing unit
/// waits on a read, exactly one queued request is that read, and the unit
/// stops waiting only when that very request is dispatched.
pub proof fn lemma_response_only_to_its_reader(s: BusState)
    requires
        s.wf(),
        s.queue.len() > 0,
        s.awaiting is Some,
    ensures
        exists|i: int|
            0 <= i < s.queue.len() && #[trigger] s.queue[i] == Envelope::cpu_read(s.awaiting->0),
        forall|i: int, j: int|
            0 <= i < s.queue.len() && 0 <= j < s.queue.len() && #[trigger] s.queue[i].from_cpu
                && #[trigger] s.queue[j].from_cpu ==> i == j,
        dispatch_front(s).0.awaiting != s.awaiting ==> s.queue[0] == Envelope::cpu_read(
            s.awaiting->0,
        ),
{
    let i = choose|i: int| 0 <= i < s.queue.len() && #[trigger] s.queue[i].from_cpu;
    assert(s.queue[i] == Envelope::cpu_read(s.awaiting->0));
}

/// Raising the line interrupt forwards exactly one interrupt-enable request
/// to the processing unit, queued behind everything already waiting.
pub proof fn lemma_line_interrupt_forwarded(s: BusState)
    requires
        s.wf(),
        s.queue.len() > 0,
        s.queue[0].message == Message::VdpEnableLineInterrupt,
    ensures
        dispatch_front(s).1 is Ok,
        dispatch_front(s).0.queue == s.queue.drop_first().push(
            Envelope::plain_spec(Message::CpuEnableInterrupt),
        ),
        dispatch_front(s).0.sent == s.sent.push(Message::CpuEnableInterrupt),
        dispatch_front(s).0.awaiting == s.awaiting,
{
}

/// The bus: sole owner of the processing unit and the peripherals, and the
/// one point through which every request passes, in arrival order.
pub struct Bus {
    cpu: Cpu,
    vdp: Vdp,
    ppi: Ppi,
    requests: RequestQueue,
    dispatched: Vec<Message>,
}

impl Bus {
    pub closed spec fn model(&self) -> BusState {
        BusState {
            queue: self.requests@,
            sent: self.requests.sent(),
            dispatched: self.dispatched@,
            awaiting: self.cpu.awaiting(),
            ppi: self.ppi,
        }
    }

    pub open spec fn wf(&self) -> bool {
        self.model().wf()
    }

    /// A bus with nothing queued, around a processing unit that is not
    /// blocked on a read.
    pub fn new(cpu: Cpu, vdp: Vdp, ppi: Ppi) -> (b: Bus)
        requires
            cpu.awaiting() is None,
        ensures
            b.wf(),
            b.model() == (BusState {
                queue: Seq::empty(),
                sent: Seq::empty(),
                dispatched: Seq::empty(),
                awaiting: None,
                ppi,
            }),
    {
        let b = Bus { cpu, vdp, ppi, requests: RequestQueue::new(), dispatched: Vec::new() };
        assert(b.model().dispatched + messages(b.model().queue) =~= b.model().sent);
        b
    }

    /// Queues a request from outside the bus, behind everything queued.
    /// Nobody waits on its response: a read sent this way is answered to no
    /// one, which the arbitration loop reports as a protocol violation.
    pub fn submit(&mut self, m: Message)
        requires
            old(self).wf(),
        ensures
            final(self).wf(),
            final(self).model() == old(self).model().send(Envelope::plain_spec(m)),
    {
        self.requests.send(Envelope::plain(m));
        proof {
            lemma_send_plain_wf(old(self).model(), Envelope::plain_spec(m));
        }
    }

    /// Carries out one request taken off the queue.
    fn dispatch(&mut self, e: Envelope) -> (r: Result<(), BusError>)
        ensures
            (final(self).model(), r) == react(old(self).model(), e),
    {
        match e.message {
            Message::CpuStep => self.cpu.step(&mut self.requests),
            Message::ReadByte(addr) => {
                if e.from_cpu {
                    let data: u8 = self.ppi.read_byte(addr);
                    self.cpu.deliver(addr, Response::ByteRead(data), &mut self.requests)
                } else {
                    Err(BusError::ProtocolViolation)
                }
            },
            Message::WriteByte(_, _) => Ok(()),
            Message::PortRead(_) => Err(BusError::UnimplementedOperation),
            Message::PortWrite(port, _) => {
                if port == 0 {
                    self.requests.send(Envelope::plain(Message::VdpEnableLineInterrupt));
                }
                Ok(())
            },
            Message::VdpEnableLineInterrupt => {
                self.vdp.enable_line_interrupt(&mut self.requests);
                Ok(())
            },
            Message::CpuEnableInterrupt => {
                self.cpu.enable_interrupt(&mut self.requests);
                Ok(())
            },
        }
    }

    /// The arbitration loop: dispatches queued requests oldest first,
    /// including those that dispatching queues, until the queue is empty or
    /// a dispatch fails.
    pub fn run(&mut self) -> (r: Result<(), BusError>)
        requires
            old(self).wf(),
        ensures
            final(self).wf(),
            (final(self).model(), r) == drain(old(self).model()),
            r is Ok ==> final(self).model().at_rest(),
    {
        proof {
            lemma_read_resolved_on_completion(self.model());
            lemma_drain_extends(self.model());
        }
        loop
            invariant
                self.wf(),
                drain(self.model()) == drain(old(self).model()),
            decreases load(self.model().queue),
        {
            let ghost before = self.model();
            match self.requests.recv() {
                None => {
                    return Ok(());
                },
                Some(e) => {
                    self.dispatched.push(e.message);
                    proof {
                        assert(self.model() == pop_front(before));
                        lemma_dispatch_front_wf(before);
                        lemma_dispatch_front_load(before);
                    }
                    let r = self.dispatch(e);
                    if r.is_err() {
                        return r;
                    }
                },
            }
        }
    }

    /// Queues one `CpuStep` and runs the arbitration loop.
    pub fn step(&mut self) -> (r: Result<(), BusError>)
        requires
            old(self).wf(),
        ensures
            final(self).wf(),
            (final(self).model(), r) == drain(
                old(self).model().send(Envelope::plain_spec(Message::CpuStep)),
            ),
            r is Ok ==> final(self).model().at_rest(),
    {
        self.submit(Message::CpuStep);
        self.run()
    }

    /// The messages dispatched so far, in dispatch order.
    pub fn dispatched(&self) -> (r: &Vec<Message>)
        ensures
            r@ == self.model().dispatched,
    {
        &self.dispatched
    }

    /// How many requests wait in the queue.
    pub fn pending(&self) -> (r: usize)
        ensures
            r == self.model().queue.len(),
    {
        self.requests.len()
    }

    /// The address the processing unit is blocked reading, if any.
    pub fn cpu_awaiting(&self) -> (r: Option<u16>)
        ensures
            r == self.model().awaiting,
    {
        self.cpu.awaited()
    }
}

} // verus!
