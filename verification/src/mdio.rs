//! Access to the registers of the PHY, over the MDIO bus of the MAC.
//!
//! A frame for the MDIO bus is written to the `MDIO_ACC` register, which is then
//! read until the device marks the frame as done.
use vstd::prelude::*;

use crate::buffer::Contents;
use crate::mac;
use crate::mac::{ReadReg, WriteReg, ADIN1110};
use crate::regs::SpiRegisters;
use crate::{AEResult, AdinError};

verus! {

/// How often `MDIO_ACC` is read before the PHY is given up.
pub const MDIO_POLLS: u32 = 100_000;

/// Set in `MDIO_ACC` when the frame is done.
pub const MDIO_READY: u32 = 0x8000_0000;

/// Operation: address a Clause 45 register.
pub const OP_ADDRESS: u32 = 0;

/// Operation: write.
pub const OP_WRITE: u32 = 1;

/// Operation: read.
pub const OP_READ: u32 = 3;

/// A frame for the MDIO bus: which clause it follows, the operation, the PHY,
/// the register (Clause 22) or device (Clause 45), and the data.
pub open spec fn frame(clause22: bool, op: u32, phy_id: u8, dev: u8, data: u16) -> u32 {
    ((if clause22 {
        0x1000_0000int
    } else {
        0
    }) + op * 0x400_0000 + (phy_id % 32) * 0x20_0000 + (dev % 32) * 0x1_0000 + data) as u32
}

/// Each part of a frame can be read back from it.
pub proof fn law_frame_is_unambiguous(clause22: bool, op: u32, phy_id: u8, dev: u8, data: u16)
    requires
        op < 4,
    ensures
        ({
            let word = frame(clause22, op, phy_id, dev, data);
            &&& word / 0x1000_0000 == (if clause22 { 1int } else { 0 })
            &&& word / 0x400_0000 % 4 == op
            &&& word / 0x20_0000 % 32 == phy_id % 32
            &&& word / 0x1_0000 % 32 == dev % 32
            &&& word % 0x1_0000 == data
        }),
{
}

/// The value that a value of `MDIO_ACC` carries: its lower half.
pub open spec fn value_of(word: u32) -> u16 {
    (word % 0x1_0000) as u16
}

/// The device has marked the frame as done.
pub open spec fn is_ready(word: u32) -> bool {
    word >= MDIO_READY
}

/// A frame is being handed to the MDIO bus.
#[derive(Debug, Clone, Copy)]
pub struct MdioFrame {
    /// Checksums are in use.
    pub crc: bool,
    /// The frame.
    pub word: u32,
    /// The frame that comes after it.
    pub next: Option<u32>,
}

/// A frame is under way.
#[derive(Debug, Clone, Copy)]
pub struct MdioPoll {
    /// Checksums are in use.
    pub crc: bool,
    /// The frame that comes after it.
    pub next: Option<u32>,
    /// How often the device may still be asked.
    pub left: u32,
}

/// How an access to the PHY goes on.
#[derive(Debug)]
pub enum MdioNext<E> {
    /// A frame is handed over.
    Frame(MdioFrame),
    /// The device is asked whether the frame is done.
    Poll(MdioPoll),
    /// The access is over, with the last value of `MDIO_ACC`.
    Done(AEResult<u32, E>),
}

/// After the write of a frame: the device is asked for the first time.
pub open spec fn after_write<E>(op: MdioFrame, reply: Result<(), E>) -> MdioNext<E> {
    match mac::write_reply(reply) {
        Err(e) => MdioNext::Done(Err(e)),
        Ok(_) => MdioNext::Poll(MdioPoll { crc: op.crc, next: op.next, left: MDIO_POLLS }),
    }
}

/// After the device was asked: the next frame or the result when it is done,
/// otherwise it is asked once more while that is allowed.
pub open spec fn after_poll<E>(op: MdioPoll, reply: Result<[u8; 5], E>) -> MdioNext<E> {
    match mac::read_reply(op.crc, reply) {
        Err(e) => MdioNext::Done(Err(e)),
        Ok(word) => if is_ready(word) {
            when_ready(op, word)
        } else if op.left > 1 {
            MdioNext::Poll(MdioPoll { crc: op.crc, next: op.next, left: (op.left - 1) as u32 })
        } else {
            MdioNext::Done(Err(AdinError::MDIO_ACC_TIMEOUT))
        },
    }
}

/// Once the frame is done: the next frame, or the result when there is none.
pub open spec fn when_ready<E>(op: MdioPoll, word: u32) -> MdioNext<E> {
    match op.next {
        Some(next) => MdioNext::Frame(MdioFrame { crc: op.crc, word: next, next: None }),
        None => MdioNext::Done(Ok(word)),
    }
}

impl MdioFrame {
    /// The write of the frame.
    pub fn request(&self) -> (op: WriteReg)
        ensures
            op.tx.contents() == mac::write_request(self.crc, SpiRegisters::MDIO_ACC, self.word),
    {
        WriteReg { tx: mac::write_message(self.crc, SpiRegisters::MDIO_ACC, self.word) }
    }

    /// Takes how the write ended.
    pub fn written<E>(self, reply: Result<(), E>) -> (next: MdioNext<E>)
        ensures
            next == after_write(self, reply),
    {
        match reply {
            Err(e) => MdioNext::Done(Err(AdinError::Spi(e))),
            Ok(()) => MdioNext::Poll(MdioPoll { crc: self.crc, next: self.next, left: MDIO_POLLS }),
        }
    }
}

impl MdioPoll {
    /// The read with which the device is asked.
    pub fn request(&self) -> (op: ReadReg)
        ensures
            op.tx.contents() == mac::read_request(self.crc, SpiRegisters::MDIO_ACC),
            op.crc == self.crc,
    {
        ReadReg { tx: mac::read_message(self.crc, SpiRegisters::MDIO_ACC), crc: self.crc }
    }

    /// Takes the reply of the device.
    pub fn polled<E>(self, reply: Result<[u8; 5], E>) -> (next: MdioNext<E>)
        ensures
            next == after_poll(self, reply),
    {
        let word: u32 = match self.request().finish(reply) {
            Err(e) => {
                return MdioNext::Done(Err(e));
            },
            Ok(word) => word,
        };
        assert((word & 0x8000_0000 != 0) == (word >= 0x8000_0000)) by (bit_vector);
        if word & MDIO_READY != 0 {
            match self.next {
                Some(next) => MdioNext::Frame(
                    MdioFrame { crc: self.crc, word: next, next: None },
                ),
                None => MdioNext::Done(Ok(word)),
            }
        } else if self.left > 1 {
            MdioNext::Poll(MdioPoll { crc: self.crc, next: self.next, left: self.left - 1 })
        } else {
            MdioNext::Done(Err(AdinError::MDIO_ACC_TIMEOUT))
        }
    }
}

/// Puts a frame together.
fn make_frame(clause22: bool, op: u32, phy_id: u8, dev: u8, data: u16) -> (word: u32)
    requires
        op < 4,
    ensures
        word == frame(clause22, op, phy_id, dev, data),
{
    let start: u32 = if clause22 { 1 } else { 0 };
    let phy: u32 = (phy_id & 0x1F) as u32;
    let reg: u32 = (dev & 0x1F) as u32;
    assert(phy_id & 0x1F == phy_id % 32 && dev & 0x1F == dev % 32) by (bit_vector);
    let low: u32 = data as u32;
    assert(start << 28 | phy << 21 | reg << 16 | op << 26 | low == start * 0x1000_0000 + op
        * 0x400_0000 + phy * 0x20_0000 + reg * 0x1_0000 + low) by (bit_vector)
        requires
            start <= 1,
            phy < 32,
            reg < 32,
            op < 4,
            low <= 0xFFFF,
    ;
    start << 28 | phy << 21 | reg << 16 | op << 26 | low
}

impl<SPI> ADIN1110<SPI> {
    /// Read from the PHY Registers as Clause 22.
    pub fn read_cl22(&self, phy_id: u8, reg: u8) -> (op: MdioFrame)
        ensures
            op == (MdioFrame {
                crc: self.crc(),
                word: frame(true, OP_READ, phy_id, reg, 0),
                next: None,
            }),
    {
        MdioFrame { crc: self.crc(), word: make_frame(true, OP_READ, phy_id, reg, 0), next: None }
    }

    /// Read from the PHY Registers as Clause 45.
    pub fn read_cl45(&self, phy_id: u8, regc45: (u8, u16)) -> (op: MdioFrame)
        ensures
            op == (MdioFrame {
                crc: self.crc(),
                word: frame(false, OP_ADDRESS, phy_id, regc45.0, regc45.1),
                next: Some(frame(false, OP_READ, phy_id, regc45.0, 0)),
            }),
    {
        MdioFrame {
            crc: self.crc(),
            word: make_frame(false, OP_ADDRESS, phy_id, regc45.0, regc45.1),
            next: Some(make_frame(false, OP_READ, phy_id, regc45.0, 0)),
        }
    }

    /// Write to the PHY Registers as Clause 22.
    pub fn write_cl22(&self, phy_id: u8, reg: u8, val: u16) -> (op: MdioFrame)
        ensures
            op == (MdioFrame {
                crc: self.crc(),
                word: frame(true, OP_WRITE, phy_id, reg, val),
                next: None,
            }),
    {
        MdioFrame { crc: self.crc(), word: make_frame(true, OP_WRITE, phy_id, reg, val), next: None }
    }

    /// Write to the PHY Registers as Clause 45.
    pub fn write_cl45(&self, phy_id: u8, regc45: (u8, u16), value: u16) -> (op: MdioFrame)
        ensures
            op == (MdioFrame {
                crc: self.crc(),
                word: frame(false, OP_ADDRESS, phy_id, regc45.0, regc45.1),
                next: Some(frame(false, OP_WRITE, phy_id, regc45.0, value)),
            }),
    {
        MdioFrame {
            crc: self.crc(),
            word: make_frame(false, OP_ADDRESS, phy_id, regc45.0, regc45.1),
            next: Some(make_frame(false, OP_WRITE, phy_id, regc45.0, value)),
        }
    }
}

/// What a read of a PHY register gives.
pub fn read_result<E>(done: AEResult<u32, E>) -> (value: AEResult<u16, E>)
    ensures
        value == (match done {
            Err(e) => Err::<u16, AdinError<E>>(e),
            Ok(word) => Ok::<u16, AdinError<E>>(value_of(word)),
        }),
{
    match done {
        Err(e) => Err(e),
        // Result is in the lower half of the answer.
        Ok(word) => Ok((word % 0x1_0000) as u16),
    }
}

/// What a write of a PHY register gives.
pub fn write_result<E>(done: AEResult<u32, E>) -> (value: AEResult<(), E>)
    ensures
        value == (match done {
            Err(e) => Err::<(), AdinError<E>>(e),
            Ok(_) => Ok::<(), AdinError<E>>(()),
        }),
{
    match done {
        Err(e) => Err(e),
        Ok(_) => Ok(()),
    }
}

/// The reply says that the frame is not done yet.
pub open spec fn is_busy<E>(crc: bool, reply: Result<[u8; 5], E>) -> bool {
    mac::read_reply(crc, reply) matches Ok(word) && !is_ready(word)
}

/// How the access stands after the device was asked and gave these replies, one
/// after the other.
pub open spec fn polled_with<E>(op: MdioPoll, replies: Seq<Result<[u8; 5], E>>) -> MdioNext<E>
    decreases replies.len(),
{
    if replies.len() == 0 {
        MdioNext::Poll(op)
    } else {
        match polled_with(op, replies.drop_last()) {
            MdioNext::Poll(now) => after_poll(now, replies.last()),
            over => over,
        }
    }
}

/// While the device is busy it is asked again, as long as that is allowed.
pub proof fn law_busy_device_is_asked_again<E>(op: MdioPoll, replies: Seq<Result<[u8; 5], E>>)
    requires
        replies.len() < op.left,
        forall|i: int| 0 <= i < replies.len() ==> is_busy(op.crc, #[trigger] replies[i]),
    ensures
        polled_with(op, replies) == MdioNext::<E>::Poll(
            (MdioPoll { crc: op.crc, next: op.next, left: (op.left - replies.len()) as u32 }),
        ),
    decreases replies.len(),
{
    if replies.len() > 0 {
        assert forall|i: int| 0 <= i < replies.drop_last().len() implies is_busy(
            op.crc,
            #[trigger] replies.drop_last()[i],
        ) by {
            assert(replies.drop_last()[i] == replies[i]);
        }
        law_busy_device_is_asked_again(op, replies.drop_last());
        assert(is_busy(op.crc, replies[replies.len() - 1]));
    }
}

/// A device that is busy for as long as it may be asked is given up, with a
/// timeout, and not before.
pub proof fn law_busy_device_times_out<E>(op: MdioPoll, replies: Seq<Result<[u8; 5], E>>)
    requires
        0 < op.left == replies.len(),
        forall|i: int| 0 <= i < replies.len() ==> is_busy(op.crc, #[trigger] replies[i]),
    ensures
        polled_with(op, replies) == MdioNext::<E>::Done(Err(AdinError::MDIO_ACC_TIMEOUT)),
{
    assert forall|i: int| 0 <= i < replies.drop_last().len() implies is_busy(
        op.crc,
        #[trigger] replies.drop_last()[i],
    ) by {
        assert(replies.drop_last()[i] == replies[i]);
    }
    law_busy_device_is_asked_again(op, replies.drop_last());
    assert(is_busy(op.crc, replies[replies.len() - 1]));
}

/// A device that is done within the time it has is taken at its word: the access
/// goes on to its next frame, or ends with the value that the device gave.
pub proof fn law_ready_device_is_heard<E>(
    op: MdioPoll,
    busy: Seq<Result<[u8; 5], E>>,
    last: Result<[u8; 5], E>,
    word: u32,
)
    requires
        busy.len() < op.left,
        forall|i: int| 0 <= i < busy.len() ==> is_busy(op.crc, #[trigger] busy[i]),
        mac::read_reply(op.crc, last) == Ok::<u32, AdinError<E>>(word),
        is_ready(word),
    ensures
        polled_with(op, busy.push(last)) == when_ready::<E>(op, word),
{
    law_busy_device_is_asked_again(op, busy);
    assert(busy.push(last).drop_last() =~= busy);
}

/// An access in two frames hands over the second one when the device is done with
/// the first, and ends with the value that the device gave for the second.
pub proof fn law_access_in_two_frames<E>(
    op: MdioFrame,
    second: u32,
    busy1: Seq<Result<[u8; 5], E>>,
    last1: Result<[u8; 5], E>,
    word1: u32,
    busy2: Seq<Result<[u8; 5], E>>,
    last2: Result<[u8; 5], E>,
    word2: u32,
)
    requires
        op.next == Some(second),
        busy1.len() < MDIO_POLLS,
        forall|i: int| 0 <= i < busy1.len() ==> is_busy(op.crc, #[trigger] busy1[i]),
        mac::read_reply(op.crc, last1) == Ok::<u32, AdinError<E>>(word1),
        is_ready(word1),
        busy2.len() < MDIO_POLLS,
        forall|i: int| 0 <= i < busy2.len() ==> is_busy(op.crc, #[trigger] busy2[i]),
        mac::read_reply(op.crc, last2) == Ok::<u32, AdinError<E>>(word2),
        is_ready(word2),
    ensures
        ({
            &&& after_write(op, Ok::<(), E>(())) matches MdioNext::Poll(p1)
            &&& polled_with(p1, busy1.push(last1)) matches MdioNext::Frame(f2)
            &&& f2.word == second
            &&& after_write(f2, Ok::<(), E>(())) matches MdioNext::Poll(p2)
            &&& polled_with(p2, busy2.push(last2)) == MdioNext::<E>::Done(Ok(word2))
        }),
{
    let p1 = MdioPoll { crc: op.crc, next: op.next, left: MDIO_POLLS };
    let p2 = MdioPoll { crc: op.crc, next: None, left: MDIO_POLLS };
    law_ready_device_is_heard(p1, busy1, last1, word1);
    law_ready_device_is_heard(p2, busy2, last2, word2);
}

/// The word is a frame of this clause, operation, PHY and register (Clause 22) or
/// device (Clause 45), with this data.
pub open spec fn is_frame(
    word: u32,
    clause: int,
    op: int,
    phy_id: u8,
    dev: u8,
    data: int,
) -> bool {
    &&& word / 0x1000_0000 == (if clause == 22 { 1int } else { 0 })
    &&& word / 0x400_0000 % 4 == op
    &&& word / 0x20_0000 % 32 == phy_id % 32
    &&& word / 0x1_0000 % 32 == dev % 32
    &&& word % 0x1_0000 == data
}

/// A Clause 22 access is one frame, which names the PHY and the register; a write
/// carries its value in it.
pub proof fn law_clause_22_frames<SPI>(
    mac: ADIN1110<SPI>,
    phy_id: u8,
    reg: u8,
    val: u16,
    op: MdioFrame,
)
    ensures
        call_ensures(ADIN1110::<SPI>::read_cl22, (&mac, phy_id, reg), op) ==> {
            &&& is_frame(op.word, 22, 3, phy_id, reg, 0)
            &&& op.next is None
            &&& op.crc == mac.crc()
        },
        call_ensures(ADIN1110::<SPI>::write_cl22, (&mac, phy_id, reg, val), op) ==> {
            &&& is_frame(op.word, 22, 1, phy_id, reg, val as int)
            &&& op.next is None
            &&& op.crc == mac.crc()
        },
{
    law_frame_is_unambiguous(true, OP_READ, phy_id, reg, 0);
    law_frame_is_unambiguous(true, OP_WRITE, phy_id, reg, val);
}

/// A Clause 45 access is two frames to the same device of the same PHY: the first
/// addresses the register, the second reads it or carries the value.
pub proof fn law_clause_45_frames<SPI>(
    mac: ADIN1110<SPI>,
    phy_id: u8,
    regc45: (u8, u16),
    value: u16,
    op: MdioFrame,
)
    ensures
        call_ensures(ADIN1110::<SPI>::read_cl45, (&mac, phy_id, regc45), op) ==> {
            &&& is_frame(op.word, 45, 0, phy_id, regc45.0, regc45.1 as int)
            &&& op.next matches Some(second)
            &&& is_frame(second, 45, 3, phy_id, regc45.0, 0)
            &&& op.crc == mac.crc()
        },
        call_ensures(ADIN1110::<SPI>::write_cl45, (&mac, phy_id, regc45, value), op) ==> {
            &&& is_frame(op.word, 45, 0, phy_id, regc45.0, regc45.1 as int)
            &&& op.next matches Some(second)
            &&& is_frame(second, 45, 1, phy_id, regc45.0, value as int)
            &&& op.crc == mac.crc()
        },
{
    law_frame_is_unambiguous(false, OP_ADDRESS, phy_id, regc45.0, regc45.1);
    law_frame_is_unambiguous(false, OP_READ, phy_id, regc45.0, 0);
    law_frame_is_unambiguous(false, OP_WRITE, phy_id, regc45.0, value);
}

/// Every frame is stored in the register at 0x20, and the device is asked by
/// reading that register.
pub proof fn law_frames_go_through_one_register(
    frame: MdioFrame,
    poll: MdioPoll,
    write: WriteReg,
    read: ReadReg,
)
    ensures
        call_ensures(MdioFrame::request, (&frame,), write) ==> mac::stores(
            write.tx.contents(),
            frame.crc,
            0x20,
            frame.word as int,
        ),
        call_ensures(MdioPoll::request, (&poll,), read) ==> {
            &&& mac::asks_for(read.tx.contents(), poll.crc, 0x20)
            &&& read.crc == poll.crc
        },
{
    mac::lemma_write_request(frame.crc, SpiRegisters::MDIO_ACC, frame.word);
    mac::lemma_read_request(poll.crc, SpiRegisters::MDIO_ACC);
}

/// Once a frame is written the device may be asked a hundred thousand times, with
/// the rest of the access kept for later; an error of the bus ends the access.
pub proof fn law_written_frame_is_waited_for<E>(
    frame: MdioFrame,
    fault: E,
    next: MdioNext<E>,
)
    ensures
        call_ensures(MdioFrame::written::<E>, (frame, Ok::<(), E>(())), next) ==> {
            &&& next matches MdioNext::Poll(poll)
            &&& poll.left == 100_000
            &&& poll.crc == frame.crc
            &&& poll.next == frame.next
        },
        call_ensures(MdioFrame::written::<E>, (frame, Err::<(), E>(fault)), next) ==> next
            == MdioNext::<E>::Done(Err(AdinError::Spi(fault))),
{
}

/// What every answer of the device leads to. When its highest bit is set the
/// frame is done: the access goes on with its second frame or ends with the
/// answer. Otherwise the device is asked once more, as long as it may be.
pub proof fn law_answer_is_heeded<E>(
    poll: MdioPoll,
    rx: [u8; 5],
    word: u32,
    next: MdioNext<E>,
)
    requires
        call_ensures(MdioPoll::polled::<E>, (poll, Ok::<[u8; 5], E>(rx)), next),
        mac::carries(rx, poll.crc, word as int),
    ensures
        word / 0x8000_0000 == 1 && poll.next is None ==> next == MdioNext::<E>::Done(Ok(word)),
        word / 0x8000_0000 == 1 && poll.next is Some ==> {
            &&& next matches MdioNext::Frame(frame)
            &&& Some(frame.word) == poll.next
            &&& frame.crc == poll.crc
            &&& frame.next is None
        },
        word / 0x8000_0000 == 0 && poll.left > 1 ==> {
            &&& next matches MdioNext::Poll(again)
            &&& again.left + 1 == poll.left
            &&& again.crc == poll.crc
            &&& again.next == poll.next
        },
        word / 0x8000_0000 == 0 && poll.left <= 1 ==> next == MdioNext::<E>::Done(
            Err(AdinError::MDIO_ACC_TIMEOUT),
        ),
{
    mac::lemma_reply::<E>(poll.crc, rx, word);
}

/// An answer that cannot be read ends the access: with a checksum error when
/// checksums are in use and the bytes do not cancel, and with the error of the
/// bus when it has one.
pub proof fn law_unreadable_answer_ends_the_access<E>(
    poll: MdioPoll,
    rx: [u8; 5],
    fault: E,
    next: MdioNext<E>,
)
    ensures
        call_ensures(MdioPoll::polled::<E>, (poll, Ok::<[u8; 5], E>(rx)), next) && poll.crc
            && crate::crc8::checksum(rx@) != 0 ==> next == MdioNext::<E>::Done(
            Err(AdinError::CRC),
        ),
        call_ensures(MdioPoll::polled::<E>, (poll, Err::<[u8; 5], E>(fault)), next) ==> next
            == MdioNext::<E>::Done(Err(AdinError::Spi(fault))),
{
    mac::lemma_reply::<E>(poll.crc, rx, 0);
}

/// A read of a PHY register gives the sixteen bits that the device put in the
/// lower half of its answer, whatever stands in the upper half.
pub proof fn law_phy_read_gives_the_data<E>(
    word: u32,
    upper: int,
    data: u16,
    value: AEResult<u16, E>,
)
    requires
        word == upper * 0x1_0000 + data,
        call_ensures(read_result::<E>, (Ok::<u32, AdinError<E>>(word),), value),
    ensures
        value == Ok::<u16, AdinError<E>>(data),
{
}

/// A device that fills the data into the frame of a read and marks it as done is
/// understood: the read gives that data, for every PHY, register and clause.
pub proof fn law_phy_read_round_trip<E>(
    clause: int,
    phy_id: u8,
    dev: u8,
    asked: u32,
    answer: u32,
    data: u16,
    poll: MdioPoll,
    rx: [u8; 5],
    next: MdioNext<E>,
    done: AEResult<u32, E>,
    value: AEResult<u16, E>,
)
    requires
        is_frame(asked, clause, 3, phy_id, dev, 0),
        answer == asked + data + 0x8000_0000,
        mac::carries(rx, poll.crc, answer as int),
        poll.next is None,
        call_ensures(MdioPoll::polled::<E>, (poll, Ok::<[u8; 5], E>(rx)), next),
        next == MdioNext::<E>::Done(done),
        call_ensures(read_result::<E>, (done,), value),
    ensures
        value == Ok::<u16, AdinError<E>>(data),
{
    law_answer_is_heeded(poll, rx, answer, next);
    assert(asked % 0x1_0000 == 0);
    let upper = (answer - data) / 0x1_0000;
    assert(answer == upper * 0x1_0000 + data);
    law_phy_read_gives_the_data(answer, upper, data, value);
}

/// An access to the PHY that failed gives its error, and a write that did not
/// fail is a success whatever the device answered.
pub proof fn law_phy_errors_are_passed_on<E>(
    error: AdinError<E>,
    word: u32,
    value: AEResult<u16, E>,
    written: AEResult<(), E>,
)
    ensures
        call_ensures(read_result::<E>, (Err::<u32, AdinError<E>>(error),), value) ==> value
            == Err::<u16, AdinError<E>>(error),
        call_ensures(write_result::<E>, (Err::<u32, AdinError<E>>(error),), written) ==> written
            == Err::<(), AdinError<E>>(error),
        call_ensures(write_result::<E>, (Ok::<u32, AdinError<E>>(word),), written) ==> written is Ok,
{
}

} // verus!
