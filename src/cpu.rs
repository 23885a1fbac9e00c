use vstd::prelude::*;

use crate::message::{BusError, Envelope, Message, Response};
use crate::queue::RequestQueue;

verus! {

/// The memory and port interface handed to the processing unit. It turns
/// accesses into bus requests; a synchronous read leaves the unit blocked on
/// exactly one outstanding request until its response is handed back.
pub struct Io {
    pending: Option<u16>,
}

impl Io {
    /// The address of the outstanding synchronous read, if one is.
    pub closed spec fn awaiting(&self) -> Option<u16> {
        self.pending
    }

    pub fn new() -> (io: Io)
        ensures
            io.awaiting() is None,
    {
        Io { pending: None }
    }

    pub fn awaited(&self) -> (r: Option<u16>)
        ensures
            r == self.awaiting(),
    {
        self.pending
    }

    /// Issues a synchronous read of `addr`: the request goes to the bus and
    /// this interface blocks until `take_response` hands the answer back.
    /// A second read while one is outstanding is refused.
    pub fn read(&mut self, addr: u16, q: &mut RequestQueue) -> (r: Result<(), BusError>)
        ensures
            old(self).awaiting() is Some ==> {
                &&& r == Err::<(), BusError>(BusError::ProtocolViolation)
                &&& final(self).awaiting() == old(self).awaiting()
                &&& final(q)@ == old(q)@
                &&& final(q).sent() == old(q).sent()
            },
            old(self).awaiting() is None ==> {
                &&& r == Ok::<(), BusError>(())
                &&& final(self).awaiting() == Some(addr)
                &&& final(q)@ == old(q)@.push(Envelope::cpu_read(addr))
                &&& final(q).sent() == old(q).sent().push(Message::ReadByte(addr))
            },
    {
        if self.pending.is_some() {
            return Err(BusError::ProtocolViolation);
        }
        q.send(Envelope { message: Message::ReadByte(addr), from_cpu: true });
        self.pending = Some(addr);
        Ok(())
    }

    /// Hands the response to a read of `addr` to the blocked caller; only
    /// the read that is outstanding can be answered.
    pub fn take_response(&mut self, addr: u16, resp: Response) -> (r: Result<u8, BusError>)
        ensures
            old(self).awaiting() == Some(addr) ==> {
                &&& r == Ok::<u8, BusError>(resp->ByteRead_0)
                &&& final(self).awaiting() is None
            },
            old(self).awaiting() != Some(addr) ==> {
                &&& r == Err::<u8, BusError>(BusError::ProtocolViolation)
                &&& final(self).awaiting() == old(self).awaiting()
            },
    {
        if self.pending != Some(addr) {
            return Err(BusError::ProtocolViolation);
        }
        self.pending = None;
        match resp {
            Response::ByteRead(data) => Ok(data),
        }
    }

    /// Writes one byte of the address space, without waiting.
    pub fn write(&self, addr: u16, data: u8, q: &mut RequestQueue)
        ensures
            final(q)@ == old(q)@.push(Envelope::plain_spec(Message::WriteByte(addr, data))),
            final(q).sent() == old(q).sent().push(Message::WriteByte(addr, data)),
    {
        q.send(Envelope::plain(Message::WriteByte(addr, data)));
    }

    /// Port reads have no defined behaviour in this core: always refused.
    pub fn read_port(&self, port: u8) -> (r: Result<u8, BusError>)
        ensures
            r == Err::<u8, BusError>(BusError::UnimplementedOperation),
    {
        Err(BusError::UnimplementedOperation)
    }

    /// Writes an I/O port, without waiting.
    pub fn write_port(&self, port: u8, data: u8, q: &mut RequestQueue)
        ensures
            final(q)@ == old(q)@.push(Envelope::plain_spec(Message::PortWrite(port, data))),
            final(q).sent() == old(q).sent().push(Message::PortWrite(port, data)),
    {
        q.send(Envelope::plain(Message::PortWrite(port, data)));
    }
}

/// The address the processing unit reads at the start of every step.
pub const STEP_READ_ADDR: u16 = 0;

/// The execution core. One step reads `STEP_READ_ADDR` and, when that byte
/// is 0, writes 1 to port 0. Its read is synchronous: the step is suspended
/// until `finish_step` brings the byte.
pub struct ExtCpu {
    io: Io,
}

impl ExtCpu {
    pub closed spec fn awaiting(&self) -> Option<u16> {
        self.io.awaiting()
    }

    pub fn new(io: Io) -> (c: ExtCpu)
        ensures
            c.awaiting() == io.awaiting(),
    {
        ExtCpu { io }
    }

    /// Starts a step: issues its read.
    pub fn step(&mut self, q: &mut RequestQueue) -> (r: Result<(), BusError>)
        ensures
            old(self).awaiting() is Some ==> {
                &&& r == Err::<(), BusError>(BusError::ProtocolViolation)
                &&& final(self).awaiting() == old(self).awaiting()
                &&& final(q)@ == old(q)@
                &&& final(q).sent() == old(q).sent()
            },
            old(self).awaiting() is None ==> {
                &&& r == Ok::<(), BusError>(())
                &&& final(self).awaiting() == Some(STEP_READ_ADDR)
                &&& final(q)@ == old(q)@.push(Envelope::cpu_read(STEP_READ_ADDR))
                &&& final(q).sent() == old(q).sent().push(Message::ReadByte(STEP_READ_ADDR))
            },
    {
        self.io.read(STEP_READ_ADDR, q)
    }

    /// Resumes the suspended step with the answer to its read of `addr`.
    /// Exactly one `PortWrite(0, 1)` is issued when the byte is 0, none
    /// otherwise.
    pub fn finish_step(&mut self, addr: u16, resp: Response, q: &mut RequestQueue) -> (r: Result<
        (),
        BusError,
    >)
        ensures
            old(self).awaiting() == Some(addr) ==> {
                &&& r == Ok::<(), BusError>(())
                &&& final(self).awaiting() is None
                &&& resp->ByteRead_0 == 0 ==> final(q)@ == old(q)@.push(
                    Envelope::plain_spec(Message::PortWrite(0, 1)),
                ) && final(q).sent() == old(q).sent().push(Message::PortWrite(0, 1))
                &&& resp->ByteRead_0 != 0 ==> final(q)@ == old(q)@ && final(q).sent()
                    == old(q).sent()
            },
            old(self).awaiting() != Some(addr) ==> {
                &&& r == Err::<(), BusError>(BusError::ProtocolViolation)
                &&& final(self).awaiting() == old(self).awaiting()
                &&& final(q)@ == old(q)@
                &&& final(q).sent() == old(q).sent()
            },
    {
        let data: u8 = match self.io.take_response(addr, resp) {
            Ok(d) => d,
            Err(e) => return Err(e),
        };
        if data == 0 {
            self.io.write_port(0, 1, q);
        }
        Ok(())
    }

    /// Enables interrupts, which the core acknowledges on port 1.
    pub fn enable_interrupt(&self, q: &mut RequestQueue)
        ensures
            final(q)@ == old(q)@.push(Envelope::plain_spec(Message::PortWrite(1, 1))),
            final(q).sent() == old(q).sent().push(Message::PortWrite(1, 1)),
    {
        self.io.write_port(1, 1, q);
    }
}

/// The processing unit as the bus sees it.
pub struct Cpu {
    ext_cpu: ExtCpu,
}

impl Cpu {
    /// The address of its outstanding synchronous read, if it is blocked.
    pub closed spec fn awaiting(&self) -> Option<u16> {
        self.ext_cpu.awaiting()
    }

    pub fn new() -> (c: Cpu)
        ensures
            c.awaiting() is None,
    {
        Cpu { ext_cpu: ExtCpu::new(Io::new()) }
    }

    pub fn awaited(&self) -> (r: Option<u16>)
        ensures
            r == self.awaiting(),
    {
        self.ext_cpu.io.awaited()
    }

    /// Starts one execution unit; see `ExtCpu::step`.
    pub fn step(&mut self, q: &mut RequestQueue) -> (r: Result<(), BusError>)
        ensures
            old(self).awaiting() is Some ==> {
                &&& r == Err::<(), BusError>(BusError::ProtocolViolation)
                &&& final(self).awaiting() == old(self).awaiting()
                &&& final(q)@ == old(q)@
                &&& final(q).sent() == old(q).sent()
            },
            old(self).awaiting() is None ==> {
                &&& r == Ok::<(), BusError>(())
                &&& final(self).awaiting() == Some(STEP_READ_ADDR)
                &&& final(q)@ == old(q)@.push(Envelope::cpu_read(STEP_READ_ADDR))
                &&& final(q).sent() == old(q).sent().push(Message::ReadByte(STEP_READ_ADDR))
            },
    {
        self.ext_cpu.step(q)
    }

    /// Hands the response to its read of `addr` back to the blocked step;
    /// see `ExtCpu::finish_step`.
    pub fn deliver(&mut self, addr: u16, resp: Response, q: &mut RequestQueue) -> (r: Result<
        (),
        BusError,
    >)
        ensures
            old(self).awaiting() == Some(addr) ==> {
                &&& r == Ok::<(), BusError>(())
                &&& final(self).awaiting() is None
                &&& resp->ByteRead_0 == 0 ==> final(q)@ == old(q)@.push(
                    Envelope::plain_spec(Message::PortWrite(0, 1)),
                ) && final(q).sent() == old(q).sent().push(Message::PortWrite(0, 1))
                &&& resp->ByteRead_0 != 0 ==> final(q)@ == old(q)@ && final(q).sent()
                    == old(q).sent()
            },
            old(self).awaiting() != Some(addr) ==> {
                &&& r == Err::<(), BusError>(BusError::ProtocolViolation)
                &&& final(self).awaiting() == old(self).awaiting()
                &&& final(q)@ == old(q)@
                &&& final(q).sent() == old(q).sent()
            },
    {
        self.ext_cpu.finish_step(addr, resp, q)
    }

    pub fn enable_interrupt(&self, q: &mut RequestQueue)
        ensures
            final(q)@ == old(q)@.push(Envelope::plain_spec(Message::PortWrite(1, 1))),
            final(q).sent() == old(q).sent().push(Message::PortWrite(1, 1)),
    {
        self.ext_cpu.enable_interrupt(q);
    }
}

} // verus!
