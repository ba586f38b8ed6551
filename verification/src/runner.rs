//! The service loop of the driver.
use vstd::prelude::*;

use crate::bits;
use crate::phy::{DA1E, DA1F};
use crate::regs::{SpiRegisters, Status0, Status1};
use crate::{AEResult, AdinError, MDIO_PHY_ADDR};

verus! {

/// What the runner waits for.
#[derive(Debug, Clone, Copy)]
pub enum RunCommand {
    /// Wait until the interrupt line is low or there is a frame to send.
    WaitForWork,
    /// Wait until there is a buffer for a received frame or a frame to send.
    WaitForBuffer,
    /// Read a register.
    ReadReg(SpiRegisters),
    /// Write a register.
    WriteReg(SpiRegisters, u32),
    /// Read a Clause 45 register of the PHY.
    ReadCl45(u8, (u8, u16)),
    /// Read the received frame into the buffer.
    ReadFifo,
    /// Send the frame.
    WriteFifo,
    /// Stop: an access has failed that must not.
    Halt,
}

/// What came of it.
#[derive(Debug)]
pub enum RunEvent<E> {
    /// The interrupt line is low.
    Interrupt,
    /// There is a frame to send.
    TxFrame,
    /// There is a buffer for a received frame.
    RxBuffer,
    /// A register was read.
    Register(AEResult<u32, E>),
    /// A register or a frame was written.
    Written(AEResult<(), E>),
    /// A register of the PHY was read.
    Phy(AEResult<u16, E>),
    /// A received frame was read.
    Received(AEResult<usize, E>),
}

/// What the network stack is told.
#[derive(Debug, Clone, Copy, PartialEq, Eq)]
pub enum Notice {
    /// The buffer holds a frame of this length.
    RxDone(usize),
    /// The frame was sent.
    TxDone,
    /// The link went up or down.
    LinkState(bool),
}

/// Where the runner stands.
#[derive(Debug, Clone, Copy)]
pub enum Phase {
    /// Nothing to do.
    Idle,
    /// A frame is sent, with no interrupt under service.
    Sending,
    /// Status 1 is read.
    Status1,
    /// The device has a frame, and a buffer is waited for.
    Buffer,
    /// The frame is read.
    Receiving,
    /// The receive FIFO is cleared.
    Dropping,
    /// A frame is sent while the device has one.
    SendingFirst,
    /// Status 0 is read, after this status 1.
    Status0 { status1: u32 },
    /// The service is brought to its end; so many steps of that are done.
    Closing { status0: u32, status1: u32, at: usize },
    /// An access has failed.
    Halted,
}

/// The bits of status 1 that are cleared when they have been served: ECC errors
/// of both FIFOs, SPI errors, the end of a transmission and a change of the
/// link.
pub const ACK_MASK: u32 = 0x0000_1C0A;

/// Written to status 0 to clear all of it.
pub const STATUS0_ALL: u32 = 0xFFF;

/// Written to `FIFO_CLR` to drop the received frames.
pub const CLEAR_RX: u32 = 1;

/// Written to `FIFO_CLR` to drop the frames to be sent.
pub const CLEAR_TX: u32 = 2;

/// What brings the service of an interrupt to its end: the transmit FIFO is
/// cleared after an ECC error of it, the interrupts of the PHY are read when it
/// has any, and both status registers are cleared.
pub open spec fn closing(status0: u32, status1: u32) -> Seq<RunCommand> {
    (if bits::bit(status1, 12) {
        seq![RunCommand::WriteReg(SpiRegisters::FIFO_CLR, CLEAR_TX)]
    } else {
        Seq::empty()
    }) + (if bits::bit(status0, 7) {
        seq![
            RunCommand::ReadCl45(MDIO_PHY_ADDR, DA1E::CRSM_IRQ_STATUS.addr()),
            RunCommand::ReadCl45(MDIO_PHY_ADDR, DA1F::PHY_SYBSYS_IRQ_STATUS.addr()),
        ]
    } else {
        Seq::empty()
    }) + seq![
        RunCommand::WriteReg(SpiRegisters::STATUS0, STATUS0_ALL),
        RunCommand::WriteReg(SpiRegisters::STATUS1, status1 & ACK_MASK),
    ]
}

/// Decides what the driver does next.
#[derive(Debug, Clone, Copy)]
pub struct Runner {
    /// Where the runner stands.
    pub phase: Phase,
    /// The link is up.
    pub is_link_up: bool,
}

impl Runner {
    /// There is always a next step while a service is brought to its end.
    pub open spec fn wf(self) -> bool {
        self.phase matches Phase::Closing { status0, status1, at } ==> at < closing(
            status0,
            status1,
        ).len()
    }

    /// What the runner waits for.
    pub open spec fn pending(self) -> RunCommand {
        match self.phase {
            Phase::Idle => RunCommand::WaitForWork,
            Phase::Sending => RunCommand::WriteFifo,
            Phase::Status1 => RunCommand::ReadReg(SpiRegisters::STATUS1),
            Phase::Buffer => RunCommand::WaitForBuffer,
            Phase::Receiving => RunCommand::ReadFifo,
            Phase::Dropping => RunCommand::WriteReg(SpiRegisters::FIFO_CLR, CLEAR_RX),
            Phase::SendingFirst => RunCommand::WriteFifo,
            Phase::Status0 { .. } => RunCommand::ReadReg(SpiRegisters::STATUS0),
            Phase::Closing { status0, status1, at } => if at < closing(status0, status1).len() {
                closing(status0, status1)[at as int]
            } else {
                RunCommand::WaitForWork
            },
            Phase::Halted => RunCommand::Halt,
        }
    }

    /// The runner in another phase.
    pub open spec fn to(self, phase: Phase) -> Runner {
        Runner { phase, is_link_up: self.is_link_up }
    }

    /// The runner after one more step of the end of a service.
    pub open spec fn closed_further(self) -> Runner {
        match self.phase {
            Phase::Closing { status0, status1, at } => if at + 1 < closing(
                status0,
                status1,
            ).len() {
                self.to(Phase::Closing { status0, status1, at: (at + 1) as usize })
            } else {
                self.to(Phase::Idle)
            },
            _ => self,
        }
    }

    /// What an event leads to: the next state, and what the network stack is
    /// told. An event that the pending command cannot have changes nothing.
    pub open spec fn next<E>(self, event: RunEvent<E>) -> (Runner, Option<Notice>) {
        match (self.phase, event) {
            (Phase::Idle, RunEvent::Interrupt) => (self.to(Phase::Status1), None),
            (Phase::Idle, RunEvent::TxFrame) => (self.to(Phase::Sending), None),
            (Phase::Sending, RunEvent::Written(Ok(_))) => (
                self.to(Phase::Idle),
                Some(Notice::TxDone),
            ),
            (Phase::Status1, RunEvent::Register(Ok(status1))) => if bits::bit(status1, 4) {
                (self.to(Phase::Buffer), None)
            } else {
                (self.to(Phase::Status0 { status1 }), None)
            },
            (Phase::Buffer, RunEvent::RxBuffer) => (self.to(Phase::Receiving), None),
            (Phase::Buffer, RunEvent::TxFrame) => (self.to(Phase::SendingFirst), None),
            (Phase::Receiving, RunEvent::Received(Ok(n))) => (
                self.to(Phase::Status1),
                Some(Notice::RxDone(n)),
            ),
            (Phase::Receiving, RunEvent::Received(Err(AdinError::PACKET_TOO_BIG))) => (
                self.to(Phase::Dropping),
                None,
            ),
            (Phase::Receiving, RunEvent::Received(Err(_))) => (self.to(Phase::Status1), None),
            (Phase::Dropping, RunEvent::Written(Ok(_))) => (self.to(Phase::Status1), None),
            (Phase::SendingFirst, RunEvent::Written(Ok(_))) => (
                self.to(Phase::Status1),
                Some(Notice::TxDone),
            ),
            (Phase::Status0 { status1 }, RunEvent::Register(Ok(status0))) => {
                let phase = Phase::Closing { status0, status1, at: 0 };
                let up = bits::bit(status1, 0);
                if bits::bit(status1, 1) {
                    (Runner { phase, is_link_up: up }, Some(Notice::LinkState(up)))
                } else {
                    (self.to(phase), None)
                }
            },
            (Phase::Closing { .. }, RunEvent::Written(Ok(_))) => if self.pending() is WriteReg {
                (self.closed_further(), None)
            } else {
                (self, None)
            },
            (Phase::Closing { .. }, RunEvent::Phy(Ok(_))) => if self.pending() is ReadCl45 {
                (self.closed_further(), None)
            } else {
                (self, None)
            },
            _ => if self.fails_on(event) {
                (self.to(Phase::Halted), None)
            } else {
                (self, None)
            },
        }
    }

    /// The event is the failure of the pending command, and one after which the
    /// runner cannot go on.
    pub open spec fn fails_on<E>(self, event: RunEvent<E>) -> bool {
        match (self.pending(), event) {
            (RunCommand::ReadReg(_), RunEvent::Register(Err(_))) => true,
            (RunCommand::WriteReg(_, _), RunEvent::Written(Err(_))) => true,
            (RunCommand::ReadCl45(_, _), RunEvent::Phy(Err(_))) => true,
            (RunCommand::WriteFifo, RunEvent::Written(Err(_))) => true,
            _ => false,
        }
    }

    /// A runner with nothing to do, and the link down.
    pub fn new() -> (runner: Runner)
        ensures
            runner == (Runner { phase: Phase::Idle, is_link_up: false }),
            runner.wf(),
    {
        Runner { phase: Phase::Idle, is_link_up: false }
    }

    /// What the runner waits for.
    pub fn command(&self) -> (command: RunCommand)
        ensures
            command == self.pending(),
    {
        match self.phase {
            Phase::Idle => RunCommand::WaitForWork,
            Phase::Sending => RunCommand::WriteFifo,
            Phase::Status1 => RunCommand::ReadReg(SpiRegisters::STATUS1),
            Phase::Buffer => RunCommand::WaitForBuffer,
            Phase::Receiving => RunCommand::ReadFifo,
            Phase::Dropping => RunCommand::WriteReg(SpiRegisters::FIFO_CLR, CLEAR_RX),
            Phase::SendingFirst => RunCommand::WriteFifo,
            Phase::Status0 { .. } => RunCommand::ReadReg(SpiRegisters::STATUS0),
            Phase::Closing { status0, status1, at } => match closing_step(status0, status1, at) {
                Some(command) => command,
                None => RunCommand::WaitForWork,
            },
            Phase::Halted => RunCommand::Halt,
        }
    }

    /// Takes what came of the pending command. Gives what the network stack is to
    /// be told.
    pub fn run<E>(&mut self, event: RunEvent<E>) -> (notice: Option<Notice>)
        ensures
            (*final(self), notice) == old(self).next(event),
            old(self).wf() ==> final(self).wf(),
    {
        let pending = self.command();
        match (self.phase, event) {
            (Phase::Idle, RunEvent::Interrupt) => {
                self.phase = Phase::Status1;
                None
            },
            (Phase::Idle, RunEvent::TxFrame) => {
                self.phase = Phase::Sending;
                None
            },
            (Phase::Sending, RunEvent::Written(result)) => match result {
                Ok(()) => {
                    self.phase = Phase::Idle;
                    Some(Notice::TxDone)
                },
                Err(_) => {
                    self.phase = Phase::Halted;
                    None
                },
            },
            (Phase::Status1, RunEvent::Register(result)) => {
                match result {
                    Ok(status1) => {
                        if Status1(status1).p1_rx_rdy() {
                            self.phase = Phase::Buffer;
                        } else {
                            self.phase = Phase::Status0 { status1 };
                        }
                    },
                    Err(_) => {
                        self.phase = Phase::Halted;
                    },
                }
                None
            },
            (Phase::Buffer, RunEvent::RxBuffer) => {
                self.phase = Phase::Receiving;
                None
            },
            (Phase::Buffer, RunEvent::TxFrame) => {
                self.phase = Phase::SendingFirst;
                None
            },
            (Phase::Receiving, RunEvent::Received(result)) => match result {
                Ok(n) => {
                    self.phase = Phase::Status1;
                    Some(Notice::RxDone(n))
                },
                Err(AdinError::PACKET_TOO_BIG) => {
                    self.phase = Phase::Dropping;
                    None
                },
                Err(_) => {
                    self.phase = Phase::Status1;
                    None
                },
            },
            (Phase::Dropping, RunEvent::Written(result)) => {
                self.phase =
                match result {
                    Ok(()) => Phase::Status1,
                    Err(_) => Phase::Halted,
                };
                None
            },
            (Phase::SendingFirst, RunEvent::Written(result)) => match result {
                Ok(()) => {
                    self.phase = Phase::Status1;
                    Some(Notice::TxDone)
                },
                Err(_) => {
                    self.phase = Phase::Halted;
                    None
                },
            },
            (Phase::Status0 { status1 }, RunEvent::Register(result)) => match result {
                Ok(status0) => {
                    self.phase = Phase::Closing { status0, status1, at: 0 };
                    if Status1(status1).link_change() {
                        let link = Status1(status1).p1_link_status();
                        self.is_link_up = link;
                        Some(Notice::LinkState(link))
                    } else {
                        None
                    }
                },
                Err(_) => {
                    self.phase = Phase::Halted;
                    None
                },
            },
            (Phase::Closing { status0, status1, at }, RunEvent::Written(result)) => {
                if let RunCommand::WriteReg(_, _) = pending {
                    self.phase =
                    match result {
                        Ok(()) => close_further(status0, status1, at),
                        Err(_) => Phase::Halted,
                    };
                }
                None
            },
            (Phase::Closing { status0, status1, at }, RunEvent::Phy(result)) => {
                if let RunCommand::ReadCl45(_, _) = pending {
                    self.phase =
                    match result {
                        Ok(_) => close_further(status0, status1, at),
                        Err(_) => Phase::Halted,
                    };
                }
                None
            },
            _ => None,
        }
    }
}

/// The bits of status 1 that have been served.
fn acknowledged(status1: u32) -> (clr: u32)
    ensures
        clr == status1 & ACK_MASK,
{
    let seen = Status1(status1);
    let mut status1_clr = Status1(0);
    if seen.tx_rdy() {
        status1_clr.set_tx_rdy(true);
    }
    if seen.link_change() {
        status1_clr.set_link_change(true);
    }
    if seen.tx_ecc_err() {
        status1_clr.set_tx_ecc_err(true);
    }
    if seen.rx_ecc_err() {
        status1_clr.set_rx_ecc_err(true);
    }
    if seen.spi_err() {
        status1_clr.set_spi_err(true);
    }
    proof {
        let s = status1;
        let a = if bits::bit(s, 3) { bits::with_bit(0, 3, true) } else { 0 };
        let b = if bits::bit(s, 1) { bits::with_bit(a, 1, true) } else { a };
        let c = if bits::bit(s, 12) { bits::with_bit(b, 12, true) } else { b };
        let d = if bits::bit(s, 11) { bits::with_bit(c, 11, true) } else { c };
        let e = if bits::bit(s, 10) { bits::with_bit(d, 10, true) } else { d };
        assert(e == s & 0x0000_1C0A) by (bit_vector)
            requires
                a == (if bits::bit(s, 3) { bits::with_bit(0, 3, true) } else { 0 }),
                b == (if bits::bit(s, 1) { bits::with_bit(a, 1, true) } else { a }),
                c == (if bits::bit(s, 12) { bits::with_bit(b, 12, true) } else { b }),
                d == (if bits::bit(s, 11) { bits::with_bit(c, 11, true) } else { c }),
                e == (if bits::bit(s, 10) { bits::with_bit(d, 10, true) } else { d }),
        ;
    }
    status1_clr.0
}

/// A step of the end of a service.
fn closing_step(status0: u32, status1: u32, at: usize) -> (command: Option<RunCommand>)
    ensures
        command == (if at < closing(status0, status1).len() {
            Some(closing(status0, status1)[at as int])
        } else {
            None
        }),
{
    let mut step: usize = at;
    if Status1(status1).tx_ecc_err() {
        if step == 0 {
            return Some(RunCommand::WriteReg(SpiRegisters::FIFO_CLR, CLEAR_TX));
        }
        step = step - 1;
    }
    if Status0(status0).phyint() {
        if step == 0 {
            return Some(RunCommand::ReadCl45(MDIO_PHY_ADDR, DA1E::CRSM_IRQ_STATUS.addr()));
        }
        if step == 1 {
            return Some(RunCommand::ReadCl45(MDIO_PHY_ADDR, DA1F::PHY_SYBSYS_IRQ_STATUS.addr()));
        }
        step = step - 2;
    }
    match step {
        0 => Some(RunCommand::WriteReg(SpiRegisters::STATUS0, STATUS0_ALL)),
        1 => Some(RunCommand::WriteReg(SpiRegisters::STATUS1, acknowledged(status1))),
        _ => None,
    }
}

/// The phase after one more step of the end of a service.
fn close_further(status0: u32, status1: u32, at: usize) -> (phase: Phase)
    ensures
        phase == (if at + 1 < closing(status0, status1).len() {
            Phase::Closing { status0, status1, at: (at + 1) as usize }
        } else {
            Phase::Idle
        }),
{
    if at < usize::MAX && closing_step(status0, status1, at + 1).is_some() {
        Phase::Closing { status0, status1, at: at + 1 }
    } else {
        Phase::Idle
    }
}

/// A frame is reported as sent when, and only when, it went out without an
/// error.
pub proof fn law_sent_frames_are_reported<E>(runner: Runner, event: RunEvent<E>)
    ensures
        runner.next(event).1 == Some(Notice::TxDone) <==> (runner.pending() is WriteFifo
            && (event matches RunEvent::Written(Ok(_)))),
{
    if let Phase::Closing { status0, status1, at } = runner.phase {
        if at < closing(status0, status1).len() {
            let step = closing(status0, status1)[at as int];
            assert(step is WriteReg || step is ReadCl45);
        }
    }
}

/// A buffer is handed up when, and only when, a frame was read into it without
/// an error, with the length that the read gave.
pub proof fn law_received_frames_are_reported<E>(runner: Runner, event: RunEvent<E>, len: usize)
    ensures
        runner.next(event).1 == Some(Notice::RxDone(len)) <==> (runner.pending() is ReadFifo
            && event == RunEvent::<E>::Received(Ok(len))),
{
}

/// The event completes the reading of both status registers, and status 1 says
/// that the link changed and is now `up`, or down.
pub open spec fn link_changed<E>(runner: Runner, event: RunEvent<E>, up: bool) -> bool {
    match (runner.phase, event) {
        (Phase::Status0 { status1 }, RunEvent::Register(Ok(_))) => bits::bit(status1, 1)
            && bits::bit(status1, 0) == up,
        _ => false,
    }
}

/// A change of the link is reported when, and only when, the device said that
/// there was one, and the runner keeps what it last reported.
pub proof fn law_link_changes_are_reported<E>(runner: Runner, event: RunEvent<E>, up: bool)
    ensures
        runner.next(event).1 == Some(Notice::LinkState(up)) <==> link_changed(runner, event, up),
        runner.next(event).0.is_link_up == (if link_changed(runner, event, true) {
            true
        } else if link_changed(runner, event, false) {
            false
        } else {
            runner.is_link_up
        }),
{
}

/// The runner stops when, and only when, an access fails other than the read of
/// a received frame, and then it stays so.
pub proof fn law_only_failures_stop_the_runner<E>(runner: Runner, event: RunEvent<E>)
    requires
        runner.wf(),
    ensures
        runner.phase is Halted ==> runner.next(event) == (runner, None::<Notice>),
        !(runner.phase is Halted) ==> (runner.next(event).0.phase is Halted <==> runner.fails_on(
            event,
        )),
{
}

/// As long as the device says that it has a frame, its service goes on with
/// frames; only then comes the rest.
pub proof fn law_frames_come_first<E>(runner: Runner, status1: u32)
    requires
        runner.phase is Status1,
    ensures
        runner.next(RunEvent::<E>::Register(Ok(status1))).0.phase == (if bits::bit(status1, 4) {
            Phase::Buffer
        } else {
            Phase::Status0 { status1 }
        }),
{
}

/// A frame that does not fit its buffer is dropped from the receive FIFO, and
/// the device is asked again after that.
pub proof fn law_oversized_frames_are_dropped<E>(runner: Runner)
    requires
        runner.phase is Receiving,
    ensures
        ({
            let (after, notice) = runner.next(
                RunEvent::<E>::Received(Err(AdinError::PACKET_TOO_BIG)),
            );
            &&& notice is None
            &&& after.pending() == RunCommand::WriteReg(SpiRegisters::FIFO_CLR, CLEAR_RX)
            &&& after.next(RunEvent::<E>::Written(Ok(()))).0.pending() == RunCommand::ReadReg(
                SpiRegisters::STATUS1,
            )
        }),
{
}

/// Of status 1, only bits are cleared that the device had set, and of these all
/// that have been served.
pub proof fn law_only_seen_bits_are_cleared(status1: u32, index: u32)
    by (bit_vector)
    requires
        index < 32,
    ensures
        bits::bit(status1 & ACK_MASK, index) == (bits::bit(status1, index) && (index == 12
            || index == 11 || index == 10 || index == 3 || index == 1)),
{
}

/// The event with which the pending step of the end of a service goes well.
pub open spec fn going_well<E>(runner: Runner, value: u16) -> RunEvent<E> {
    if runner.pending() is WriteReg {
        RunEvent::Written(Ok(()))
    } else {
        RunEvent::Phy(Ok(value))
    }
}

/// The runner after steps of the end of a service that went well, where the PHY
/// gave these values.
pub open spec fn closed_with<E>(runner: Runner, values: Seq<u16>) -> Runner
    decreases values.len(),
{
    if values.len() == 0 {
        runner
    } else {
        let before = closed_with::<E>(runner, values.drop_last());
        before.next(going_well::<E>(before, values.last())).0
    }
}

/// Whatever the PHY says, the steps that end a service are taken one after the
/// other, each once and in order, up to the clearing of both status registers,
/// and then the runner is idle.
pub proof fn law_service_comes_to_its_end<E>(
    runner: Runner,
    status0: u32,
    status1: u32,
    values: Seq<u16>,
)
    requires
        runner.phase == (Phase::Closing { status0, status1, at: 0 }),
        values.len() <= closing(status0, status1).len(),
    ensures
        closed_with::<E>(runner, values).is_link_up == runner.is_link_up,
        values.len() < closing(status0, status1).len() ==> closed_with::<E>(
            runner,
            values,
        ).pending() == closing(status0, status1)[values.len() as int],
        values.len() == closing(status0, status1).len() ==> closed_with::<E>(
            runner,
            values,
        ).phase is Idle,
        closing(status0, status1).len() >= 2,
        closing(status0, status1)[closing(status0, status1).len() - 2] == RunCommand::WriteReg(
            SpiRegisters::STATUS0,
            STATUS0_ALL,
        ),
        closing(status0, status1).last() == RunCommand::WriteReg(
            SpiRegisters::STATUS1,
            status1 & ACK_MASK,
        ),
{
    lemma_closed_with::<E>(runner, status0, status1, values);
}

proof fn lemma_closed_with<E>(runner: Runner, status0: u32, status1: u32, values: Seq<u16>)
    requires
        runner.phase == (Phase::Closing { status0, status1, at: 0 }),
        values.len() <= closing(status0, status1).len(),
    ensures
        closed_with::<E>(runner, values).is_link_up == runner.is_link_up,
        closed_with::<E>(runner, values).phase == (if values.len() < closing(
            status0,
            status1,
        ).len() {
            Phase::Closing { status0, status1, at: values.len() as usize }
        } else {
            Phase::Idle
        }),
    decreases values.len(),
{
    if values.len() > 0 {
        lemma_closed_with::<E>(runner, status0, status1, values.drop_last());
    }
}

/// Which steps end a service, for every value of both status registers. The
/// transmit FIFO is cleared, as the first step, exactly when bit 12 of status 1 is
/// set. Both interrupt registers of the PHY are read exactly when bit 7 of status
/// 0 is set. Clearing both status registers comes last, and there is nothing
/// else.
pub proof fn law_steps_that_end_a_service(status0: u32, status1: u32)
    ensures
        ({
            let steps = closing(status0, status1);
            let clear = RunCommand::WriteReg(SpiRegisters::FIFO_CLR, 2);
            let system = RunCommand::ReadCl45(1, (0x1E, 0x0010));
            let phy = RunCommand::ReadCl45(1, (0x1F, 0x0011));
            let tx_error = status1 / 0x1000 % 2 == 1;
            let phy_interrupt = status0 / 0x80 % 2 == 1;
            &&& steps.len() == 2 + (if tx_error { 1int } else { 0 }) + (if phy_interrupt {
                2int
            } else {
                0
            })
            &&& steps.contains(clear) <==> tx_error
            &&& tx_error ==> steps[0] == clear
            &&& steps.contains(system) <==> phy_interrupt
            &&& steps.contains(phy) <==> phy_interrupt
            &&& phy_interrupt ==> steps[steps.len() - 4] == system && steps[steps.len() - 3] == phy
            &&& steps[steps.len() - 2] == RunCommand::WriteReg(SpiRegisters::STATUS0, 0xFFF)
            &&& steps.last() == RunCommand::WriteReg(SpiRegisters::STATUS1, status1 & 0x1C0A)
        }),
{
    bits::lemma_digits(status0);
    bits::lemma_digits(status1);
    let steps = closing(status0, status1);
    if bits::bit(status1, 12) {
        assert(steps[0] == RunCommand::WriteReg(SpiRegisters::FIFO_CLR, 2));
    }
    if bits::bit(status0, 7) {
        assert(steps[steps.len() - 4] == RunCommand::ReadCl45(1, (0x1E, 0x0010)));
        assert(steps[steps.len() - 3] == RunCommand::ReadCl45(1, (0x1F, 0x0011)));
    }
}

/// While a service is brought to its end, the command is the step that its phase
/// names.
pub proof fn law_command_while_closing(
    runner: Runner,
    status0: u32,
    status1: u32,
    at: usize,
    command: RunCommand,
)
    requires
        runner.phase == (Phase::Closing { status0, status1, at }),
        at < closing(status0, status1).len(),
        call_ensures(Runner::command, (&runner,), command),
    ensures
        command == closing(status0, status1)[at as int],
        command == runner.pending(),
{
}

/// What the runner waits for in every other phase.
pub proof fn law_command_in_each_phase(runner: Runner, command: RunCommand)
    requires
        call_ensures(Runner::command, (&runner,), command),
    ensures
        command == runner.pending(),
        runner.phase is Idle ==> command is WaitForWork,
        runner.phase is Sending ==> command is WriteFifo,
        runner.phase is Status1 ==> command == RunCommand::ReadReg(SpiRegisters::STATUS1),
        runner.phase is Buffer ==> command is WaitForBuffer,
        runner.phase is Receiving ==> command is ReadFifo,
        runner.phase is Dropping ==> command == RunCommand::WriteReg(SpiRegisters::FIFO_CLR, 1),
        runner.phase is SendingFirst ==> command is WriteFifo,
        runner.phase is Status0 ==> command == RunCommand::ReadReg(SpiRegisters::STATUS0),
        runner.phase is Halted ==> command is Halt,
{
}

/// An idle runner answers an interrupt by reading status 1, and a frame by sending
/// it. A frame that went out is reported, and the runner is idle again.
pub proof fn law_idle_runner_takes_work<E>(
    runner: &mut Runner,
    event: RunEvent<E>,
    notice: Option<Notice>,
)
    requires
        call_ensures(Runner::run::<E>, (runner, event), notice),
    ensures
        old(runner).phase is Idle && event is Interrupt ==> final(runner).phase is Status1
            && notice is None,
        old(runner).phase is Idle && event is TxFrame ==> final(runner).phase is Sending
            && notice is None,
        old(runner).phase is Sending && (event matches RunEvent::Written(Ok(_))) ==> final(runner).phase is Idle && notice == Some(Notice::TxDone),
{
}

/// Bit 4 of status 1, and nothing else of it, decides whether a buffer is waited
/// for or the service goes on with status 0, which then knows status 1.
pub proof fn law_status_1_decides<E>(
    runner: &mut Runner,
    status1: u32,
    notice: Option<Notice>,
)
    requires
        old(runner).phase is Status1,
        call_ensures(Runner::run::<E>, (runner, RunEvent::<E>::Register(Ok(status1))), notice),
    ensures
        status1 / 0x10 % 2 == 1 ==> final(runner).phase is Buffer,
        status1 / 0x10 % 2 == 0 ==> final(runner).phase == (Phase::Status0 { status1 }),
        notice is None,
        final(runner).is_link_up == old(runner).is_link_up,
{
    bits::lemma_digits(status1);
}

/// While the device has a frame, a buffer leads to the reading of the frame, and a
/// frame to be sent is sent first. Either way status 1 is read again after that.
/// So it is after every read that fails, except that a frame which is too big is
/// dropped before.
pub proof fn law_frames_are_taken_from_the_device<E>(
    runner: &mut Runner,
    event: RunEvent<E>,
    notice: Option<Notice>,
)
    requires
        call_ensures(Runner::run::<E>, (runner, event), notice),
    ensures
        old(runner).phase is Buffer && event is RxBuffer ==> final(runner).phase is Receiving
            && notice is None,
        old(runner).phase is Buffer && event is TxFrame ==> final(runner).phase is SendingFirst
            && notice is None,
        old(runner).phase is SendingFirst && (event matches RunEvent::Written(Ok(_))) ==> final(runner).phase is Status1 && notice == Some(Notice::TxDone),
        old(runner).phase is Receiving ==> {
            &&& event matches RunEvent::Received(Ok(len)) ==> final(runner).phase is Status1
                && notice == Some(Notice::RxDone(len))
            &&& event matches RunEvent::Received(Err(error)) ==> notice is None && (if error
                is PACKET_TOO_BIG {
                final(runner).phase is Dropping
            } else {
                final(runner).phase is Status1
            })
        },
        old(runner).phase is Dropping && (event matches RunEvent::Written(Ok(_))) ==> final(runner).phase is Status1 && notice is None,
{
}

/// When status 0 has been read, the service is brought to its end with both
/// status registers as they were read. Bit 1 of status 1 decides whether the link
/// is reported and remembered, and bit 0 how it is.
pub proof fn law_status_0_begins_the_end<E>(
    runner: &mut Runner,
    status0: u32,
    status1: u32,
    notice: Option<Notice>,
)
    requires
        old(runner).phase == (Phase::Status0 { status1 }),
        call_ensures(Runner::run::<E>, (runner, RunEvent::<E>::Register(Ok(status0))), notice),
    ensures
        final(runner).phase == (Phase::Closing { status0, status1, at: 0 }),
        status1 / 2 % 2 == 1 ==> {
            &&& notice == Some(Notice::LinkState(status1 % 2 == 1))
            &&& final(runner).is_link_up == (status1 % 2 == 1)
        },
        status1 / 2 % 2 == 0 ==> notice is None && final(runner).is_link_up == old(runner).is_link_up,
{
    bits::lemma_digits(status1);
}

/// Each step of the end of a service that goes well leads to the next, and the
/// last one leaves the runner idle.
pub proof fn law_each_step_of_the_end<E>(
    runner: &mut Runner,
    event: RunEvent<E>,
    status0: u32,
    status1: u32,
    at: usize,
    notice: Option<Notice>,
)
    requires
        old(runner).phase == (Phase::Closing { status0, status1, at }),
        at < closing(status0, status1).len(),
        (closing(status0, status1)[at as int] is WriteReg && (event matches RunEvent::Written(Ok(_))))
            || (closing(status0, status1)[at as int] is ReadCl45 && (event matches RunEvent::Phy(
            Ok(_),
        ))),
        call_ensures(Runner::run::<E>, (runner, event), notice),
    ensures
        at + 1 < closing(status0, status1).len() ==> {
            &&& final(runner).phase matches Phase::Closing { status0: s0, status1: s1, at: now }
            &&& s0 == status0 && s1 == status1 && now == at + 1
        },
        at + 1 == closing(status0, status1).len() ==> final(runner).phase is Idle,
        notice is None,
        final(runner).is_link_up == old(runner).is_link_up,
{
}

/// The event can come of the command.
pub open spec fn can_come_of<E>(event: RunEvent<E>, command: RunCommand) -> bool {
    match command {
        RunCommand::WaitForWork => event is Interrupt || event is TxFrame,
        RunCommand::WaitForBuffer => event is RxBuffer || event is TxFrame,
        RunCommand::ReadReg(_) => event is Register,
        RunCommand::WriteReg(_, _) => event is Written,
        RunCommand::ReadCl45(_, _) => event is Phy,
        RunCommand::ReadFifo => event is Received,
        RunCommand::WriteFifo => event is Written,
        RunCommand::Halt => false,
    }
}

/// An event that cannot come of the pending command changes nothing. Of the
/// others, an error stops the runner, with nothing to report, unless it is one of
/// reading a received frame; nothing else stops it.
pub proof fn law_errors_stop_the_runner<E>(
    runner: &mut Runner,
    event: RunEvent<E>,
    notice: Option<Notice>,
)
    requires
        old(runner).wf(),
        call_ensures(Runner::run::<E>, (runner, event), notice),
    ensures
        !can_come_of(event, old(runner).pending()) ==> *final(runner) == *old(runner) && notice
            is None,
        can_come_of(event, old(runner).pending()) ==> {
            let failed = match event {
                RunEvent::Register(result) => result is Err,
                RunEvent::Written(result) => result is Err,
                RunEvent::Phy(result) => result is Err,
                _ => false,
            };
            &&& final(runner).phase is Halted <==> failed
            &&& failed ==> notice is None && final(runner).is_link_up == old(runner).is_link_up
        },
        final(runner).wf(),
{
    if let Phase::Closing { status0, status1, at } = old(runner).phase {
        let step = closing(status0, status1)[at as int];
        assert(step is WriteReg || step is ReadCl45);
    }
}

/// Whether the link is up plays no part in what the runner does: two runners in
/// the same phase go on in the same way and report the same.
pub proof fn law_link_state_does_not_steer<E>(
    a: &mut Runner,
    b: &mut Runner,
    event: RunEvent<E>,
    notice_a: Option<Notice>,
    notice_b: Option<Notice>,
)
    requires
        old(a).phase == old(b).phase,
        call_ensures(Runner::run::<E>, (a, event), notice_a),
        call_ensures(Runner::run::<E>, (b, event), notice_b),
    ensures
        final(a).phase == final(b).phase,
        final(a).pending() == final(b).pending(),
        notice_a == notice_b,
        old(a).is_link_up == old(b).is_link_up ==> final(a).is_link_up == final(b).is_link_up,
{
}

/// A new runner is idle, with the link down.
pub proof fn law_new_runner_is_idle(runner: Runner)
    requires
        call_ensures(Runner::new, (), runner),
    ensures
        runner.pending() is WaitForWork,
        !runner.is_link_up,
        runner.wf(),
{
}

} // verus!
