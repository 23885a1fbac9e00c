use vstd::prelude::*;

verus! {

/// A request travelling over the bus.
#[derive(Clone, Copy, Debug, PartialEq, Eq, Structural)]
pub enum Message {
    /// Run one execution unit of the processing unit.
    CpuStep,
    /// Read one byte of the address space; answered by exactly one response.
    ReadByte(u16),
    /// Write one byte of the address space (fire and forget).
    WriteByte(u16, u8),
    /// Read an I/O port; not implemented by this core.
    PortRead(u8),
    /// Write an I/O port (fire and forget); port 0 raises the line interrupt.
    PortWrite(u8, u8),
    /// Ask the interrupt peripheral to raise its line interrupt.
    VdpEnableLineInterrupt,
    /// Ask the processing unit to enable interrupts.
    CpuEnableInterrupt,
}

/// The answer to a read, handed only to the caller that issued the read.
#[derive(Clone, Copy, Debug, PartialEq, Eq, Structural)]
pub enum Response {
    ByteRead(u8),
}

/// Why the arbitration loop stopped.
#[derive(Clone, Copy, Debug, PartialEq, Eq, Structural)]
pub enum BusError {
    /// A response had no waiting caller, or a caller issued a second
    /// synchronous read before its first one was answered.
    ProtocolViolation,
    /// A port read, which this core does not implement.
    UnimplementedOperation,
}

/// A request as it sits in the bus queue: the message, and whether the
/// processing unit is blocked waiting for its response.
#[derive(Clone, Copy, Debug, PartialEq, Eq, Structural)]
pub struct Envelope {
    pub message: Message,
    pub from_cpu: bool,
}

impl Envelope {
    /// A request that nobody waits on.
    pub fn plain(message: Message) -> (r: Envelope)
        ensures
            r == Envelope::plain_spec(message),
    {
        Envelope { message, from_cpu: false }
    }

    pub open spec fn plain_spec(message: Message) -> Envelope {
        Envelope { message, from_cpu: false }
    }

    /// The processing unit's own synchronous read of `addr`.
    pub open spec fn cpu_read(addr: u16) -> Envelope {
        Envelope { message: Message::ReadByte(addr), from_cpu: true }
    }
}

/// How many dispatches a message can still cause, itself included: every
/// message only ever enqueues messages of smaller weight.
pub open spec fn weight(m: Message) -> nat {
    match m {
        Message::CpuStep => 6,
        Message::ReadByte(_) => 5,
        Message::PortWrite(port, _) => if port == 0 { 4 } else { 1 },
        Message::VdpEnableLineInterrupt => 3,
        Message::CpuEnableInterrupt => 2,
        Message::WriteByte(_, _) => 1,
        Message::PortRead(_) => 1,
    }
}

/// The total weight of a queue.
pub open spec fn load(q: Seq<Envelope>) -> nat
    decreases q.len(),
{
    if q.len() == 0 {
        0
    } else {
        load(q.drop_last()) + weight(q.last().message)
    }
}

pub proof fn lemma_load_push(q: Seq<Envelope>, e: Envelope)
    ensures
        load(q.push(e)) == load(q) + weight(e.message),
{
    assert(q.push(e).drop_last() =~= q);
}

pub proof fn lemma_load_drop_first(q: Seq<Envelope>)
    requires
        q.len() > 0,
    ensures
        load(q) == weight(q[0].message) + load(q.drop_first()),
    decreases q.len(),
{
    if q.len() > 1 {
        lemma_load_drop_first(q.drop_last());
        assert(q.drop_last().drop_first() =~= q.drop_first().drop_last());
        assert(q.drop_first().last() == q.last());
        assert(load(q.drop_first()) == load(q.drop_first().drop_last()) + weight(q.last().message));
    } else {
        assert(load(q.drop_first()) == 0);
        assert(load(q.drop_last()) == 0);
    }
}

/// The messages of a queue, in queue order.
pub open spec fn messages(q: Seq<Envelope>) -> Seq<Message> {
    q.map_values(|e: Envelope| e.message)
}

} // verus!
