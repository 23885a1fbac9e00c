use mmio_bus::bus::Bus;
use mmio_bus::cpu::{Cpu, Io};
use mmio_bus::machine::Machine;
use mmio_bus::message::{BusError, Envelope, Message, Response};
use mmio_bus::peripherals::{Ppi, Vdp, PPI_SENTINEL};
use mmio_bus::queue::RequestQueue;

fn stub_bus() -> Bus {
    Bus::new(Cpu::new(), Vdp::new(), Ppi::new())
}

#[test]
fn stub_reads_sentinel_everywhere() {
    let ppi = Ppi::new();
    for addr in [0x0000u16, 0x0001, 0x1234, 0x8000, 0xFFFF] {
        assert_eq!(ppi.read_byte(addr), 0xFE);
    }
    assert_eq!(PPI_SENTINEL, 0xFE);
}

#[test]
fn stand_in_peripheral_reads_its_byte() {
    let ppi = Ppi::answering(0);
    assert_eq!(ppi.read_byte(0), 0);
    assert_eq!(ppi.read_byte(0xFFFF), 0);
}

#[test]
fn machine_step_on_stub_never_writes_port() {
    let mut machine = Machine::new();
    assert_eq!(machine.step(), Ok(()));
    assert_eq!(
        machine.bus().dispatched(),
        &vec![Message::CpuStep, Message::ReadByte(0x0000)]
    );
    assert_eq!(machine.bus().pending(), 0);
    assert_eq!(machine.bus().cpu_awaiting(), None);
}

#[test]
fn machine_step_with_zero_byte_raises_interrupt_path() {
    let mut machine = Machine::with_ppi(Ppi::answering(0));
    assert_eq!(machine.step(), Ok(()));
    assert_eq!(
        machine.bus().dispatched(),
        &vec![
            Message::CpuStep,
            Message::ReadByte(0x0000),
            Message::PortWrite(0, 1),
            Message::VdpEnableLineInterrupt,
            Message::CpuEnableInterrupt,
            Message::PortWrite(1, 1),
        ]
    );
    assert_eq!(machine.bus().pending(), 0);
    assert_eq!(machine.bus().cpu_awaiting(), None);
}

#[test]
fn zero_byte_gives_exactly_one_port_zero_write() {
    let mut machine = Machine::with_ppi(Ppi::answering(0));
    assert_eq!(machine.step(), Ok(()));
    let writes = machine
        .bus()
        .dispatched()
        .iter()
        .filter(|m| **m == Message::PortWrite(0, 1))
        .count();
    assert_eq!(writes, 1);
    let enables = machine
        .bus()
        .dispatched()
        .iter()
        .filter(|m| **m == Message::CpuEnableInterrupt)
        .count();
    assert_eq!(enables, 1);
}

#[test]
fn repeated_steps_return_to_rest() {
    let mut machine = Machine::new();
    assert_eq!(machine.step(), Ok(()));
    assert_eq!(machine.step(), Ok(()));
    assert_eq!(machine.step(), Ok(()));
    assert_eq!(machine.bus().dispatched().len(), 6);
    assert_eq!(machine.bus().dispatched()[4], Message::CpuStep);
    assert_eq!(machine.bus().dispatched()[5], Message::ReadByte(0));
}

#[test]
fn dispatch_follows_submission_order() {
    let mut bus = stub_bus();
    bus.submit(Message::VdpEnableLineInterrupt);
    bus.submit(Message::CpuStep);
    bus.submit(Message::WriteByte(0x4000, 7));
    bus.submit(Message::VdpEnableLineInterrupt);
    assert_eq!(bus.pending(), 4);
    assert_eq!(bus.run(), Ok(()));
    assert_eq!(
        bus.dispatched(),
        &vec![
            Message::VdpEnableLineInterrupt,
            Message::CpuStep,
            Message::WriteByte(0x4000, 7),
            Message::VdpEnableLineInterrupt,
            Message::CpuEnableInterrupt,
            Message::ReadByte(0),
            Message::CpuEnableInterrupt,
            Message::PortWrite(1, 1),
            Message::PortWrite(1, 1),
        ]
    );
    assert_eq!(bus.pending(), 0);
}

#[test]
fn write_byte_is_dispatched_without_effect() {
    let mut bus = stub_bus();
    bus.submit(Message::WriteByte(0, 0));
    assert_eq!(bus.run(), Ok(()));
    assert_eq!(bus.dispatched(), &vec![Message::WriteByte(0, 0)]);
    assert_eq!(bus.pending(), 0);
}

#[test]
fn other_ports_are_no_ops() {
    let mut bus = stub_bus();
    bus.submit(Message::PortWrite(7, 3));
    assert_eq!(bus.run(), Ok(()));
    assert_eq!(bus.dispatched(), &vec![Message::PortWrite(7, 3)]);
}

#[test]
fn port_zero_write_raises_line_interrupt() {
    let mut bus = stub_bus();
    bus.submit(Message::PortWrite(0, 9));
    assert_eq!(bus.run(), Ok(()));
    assert_eq!(
        bus.dispatched(),
        &vec![
            Message::PortWrite(0, 9),
            Message::VdpEnableLineInterrupt,
            Message::CpuEnableInterrupt,
            Message::PortWrite(1, 1),
        ]
    );
}

#[test]
fn port_read_is_unimplemented() {
    let mut bus = stub_bus();
    bus.submit(Message::PortRead(1));
    assert_eq!(bus.run(), Err(BusError::UnimplementedOperation));
    let io = Io::new();
    assert_eq!(io.read_port(0), Err(BusError::UnimplementedOperation));
}

#[test]
fn read_without_caller_is_protocol_violation() {
    let mut bus = stub_bus();
    bus.submit(Message::ReadByte(0x1234));
    assert_eq!(bus.run(), Err(BusError::ProtocolViolation));
    assert_eq!(bus.dispatched(), &vec![Message::ReadByte(0x1234)]);
}

#[test]
fn second_step_while_blocked_is_protocol_violation() {
    let mut bus = stub_bus();
    bus.submit(Message::CpuStep);
    bus.submit(Message::CpuStep);
    assert_eq!(bus.run(), Err(BusError::ProtocolViolation));
    assert_eq!(bus.dispatched(), &vec![Message::CpuStep, Message::CpuStep]);
    assert_eq!(bus.cpu_awaiting(), Some(0));
    assert_eq!(bus.pending(), 1);
}

#[test]
fn foreign_read_response_does_not_reach_blocked_step() {
    let mut bus = Bus::new(Cpu::new(), Vdp::new(), Ppi::answering(0));
    bus.submit(Message::CpuStep);
    bus.submit(Message::ReadByte(0x0000));
    assert_eq!(bus.run(), Err(BusError::ProtocolViolation));
    // The step's own read is still outstanding and still queued.
    assert_eq!(bus.cpu_awaiting(), Some(0));
    assert_eq!(bus.pending(), 1);
    assert_eq!(bus.run(), Ok(()));
    assert_eq!(bus.cpu_awaiting(), None);
    assert_eq!(
        bus.dispatched(),
        &vec![
            Message::CpuStep,
            Message::ReadByte(0x0000),
            Message::ReadByte(0x0000),
            Message::PortWrite(0, 1),
            Message::VdpEnableLineInterrupt,
            Message::CpuEnableInterrupt,
            Message::PortWrite(1, 1),
        ]
    );
}

#[test]
fn io_answers_only_the_outstanding_read() {
    let mut q = RequestQueue::new();
    let mut io = Io::new();
    assert_eq!(io.read(0x0000, &mut q), Ok(()));
    assert_eq!(io.read(0x0001, &mut q), Err(BusError::ProtocolViolation));
    assert_eq!(q.len(), 1);
    assert_eq!(
        io.take_response(0x1234, Response::ByteRead(5)),
        Err(BusError::ProtocolViolation)
    );
    assert_eq!(io.awaited(), Some(0x0000));
    assert_eq!(io.take_response(0x0000, Response::ByteRead(5)), Ok(5));
    assert_eq!(io.awaited(), None);
    assert_eq!(
        io.take_response(0x0000, Response::ByteRead(5)),
        Err(BusError::ProtocolViolation)
    );
    assert_eq!(
        q.recv(),
        Some(Envelope {
            message: Message::ReadByte(0),
            from_cpu: true
        })
    );
}

#[test]
fn cpu_step_with_zero_writes_port_zero_once() {
    let mut q = RequestQueue::new();
    let mut cpu = Cpu::new();
    assert_eq!(cpu.step(&mut q), Ok(()));
    assert_eq!(cpu.awaited(), Some(0));
    assert_eq!(cpu.deliver(0, Response::ByteRead(0), &mut q), Ok(()));
    assert_eq!(cpu.awaited(), None);
    assert_eq!(q.len(), 2);
    assert_eq!(q.recv().map(|e| e.message), Some(Message::ReadByte(0)));
    assert_eq!(
        q.recv(),
        Some(Envelope::plain(Message::PortWrite(0, 1)))
    );
    assert_eq!(q.recv(), None);
}

#[test]
fn cpu_step_with_nonzero_writes_nothing() {
    let mut q = RequestQueue::new();
    let mut cpu = Cpu::new();
    assert_eq!(cpu.step(&mut q), Ok(()));
    assert_eq!(cpu.deliver(0, Response::ByteRead(0xFE), &mut q), Ok(()));
    assert_eq!(q.len(), 1);
}

#[test]
fn cpu_enable_interrupt_acknowledges_on_port_one() {
    let mut q = RequestQueue::new();
    let cpu = Cpu::new();
    cpu.enable_interrupt(&mut q);
    assert_eq!(q.recv(), Some(Envelope::plain(Message::PortWrite(1, 1))));
}

#[test]
fn line_interrupt_queues_one_enable_at_the_back() {
    let mut q = RequestQueue::new();
    q.send(Envelope::plain(Message::WriteByte(1, 2)));
    q.send(Envelope::plain(Message::CpuStep));
    Vdp::new().enable_line_interrupt(&mut q);
    assert_eq!(q.len(), 3);
    assert_eq!(q.recv().map(|e| e.message), Some(Message::WriteByte(1, 2)));
    assert_eq!(q.recv().map(|e| e.message), Some(Message::CpuStep));
    assert_eq!(
        q.recv(),
        Some(Envelope::plain(Message::CpuEnableInterrupt))
    );
    assert_eq!(q.recv(), None);
}
