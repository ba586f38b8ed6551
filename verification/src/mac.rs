//! Access to the registers of the MAC.
use vstd::prelude::*;

use crate::buffer;
use crate::buffer::{Contents, TxBuf};
use crate::bytes;
use crate::crc8;
use crate::regs;
use crate::regs::SpiRegisters;
use crate::{AEResult, AdinError, TURN_AROUND_BYTE};

verus! {

/// The start of every message: the header of the access and, where checksums
/// are in use, its checksum.
pub open spec fn preamble(crc: bool, write: bool, reg: SpiRegisters) -> Seq<u8> {
    let header = bytes::be16(regs::header(write, reg));
    if crc {
        header.push(crc8::checksum(header))
    } else {
        header
    }
}

/// What is written to the bus to read `reg`.
pub open spec fn read_request(crc: bool, reg: SpiRegisters) -> Seq<u8> {
    preamble(crc, false, reg).push(TURN_AROUND_BYTE)
}

/// What is written to the bus to write `value` to `reg`.
pub open spec fn write_request(crc: bool, reg: SpiRegisters, value: u32) -> Seq<u8> {
    let data = bytes::be32(value);
    preamble(crc, true, reg) + (if crc {
        data.push(crc8::checksum(data))
    } else {
        data
    })
}

/// What the reply to a read means: four bytes of value and, where checksums are
/// in use, the checksum of these.
pub open spec fn read_reply<E>(crc: bool, reply: Result<[u8; 5], E>) -> AEResult<u32, E> {
    match reply {
        Err(e) => Err(AdinError::Spi(e)),
        Ok(rx) => if crc && crc8::checksum(rx@.take(4)) != rx@[4] {
            Err(AdinError::CRC)
        } else {
            Ok(bytes::be32_value(rx@.take(4)))
        },
    }
}

/// What the reply to a write means.
pub open spec fn write_reply<E>(reply: Result<(), E>) -> AEResult<(), E> {
    match reply {
        Err(e) => Err(AdinError::Spi(e)),
        Ok(_) => Ok(()),
    }
}

/// One piece of an SPI transaction.
#[derive(Debug, Clone, Copy)]
pub enum SpiOp<'a> {
    /// These bytes go out.
    Write(&'a [u8]),
    /// So many bytes come in.
    Read(usize),
}

impl<'a> SpiOp<'a> {
    /// The piece sends `bytes`.
    pub open spec fn writes(self, bytes: Seq<u8>) -> bool {
        self matches SpiOp::Write(out) && out@ == bytes
    }

    /// The piece receives `count` bytes.
    pub open spec fn reads(self, count: nat) -> bool {
        self matches SpiOp::Read(n) && n == count
    }
}

/// The MAC, and the bus on which it is found.
#[derive(Debug)]
pub struct ADIN1110<SPI> {
    /// SPI bus
    spi: SPI,
    /// Enable CRC on SPI transfer.
    /// This must match with the hardware pin `SPI_CFG0` where low = CRC enable, high = CRC disabled.
    crc: bool,
}

/// A register is being read.
#[derive(Debug)]
pub struct ReadReg {
    /// What goes out on the bus.
    pub tx: TxBuf,
    /// Checksums are in use.
    pub crc: bool,
}

/// A register is being written.
#[derive(Debug)]
pub struct WriteReg {
    /// What goes out on the bus.
    pub tx: TxBuf,
}

/// Starts a message.
fn start_message(crc: bool, write: bool, reg: SpiRegisters) -> (tx: TxBuf)
    ensures
        tx.contents() == preamble(crc, write, reg),
{
    let mut tx = buffer::new_tx();
    let header = bytes::be16_bytes(regs::spi_header(write, reg).0);
    let _ = buffer::extend_from_slice(&mut tx, header.as_slice());
    assert(tx.contents() =~= bytes::be16(regs::header(write, reg)));
    if crc {
        let sum = crc8::crc8(buffer::as_slice(&tx));
        let _ = buffer::push(&mut tx, sum);
    }
    tx
}

/// Puts together what is written to the bus to read `reg`.
pub(crate) fn read_message(crc: bool, reg: SpiRegisters) -> (tx: TxBuf)
    ensures
        tx.contents() == read_request(crc, reg),
{
    let mut tx = start_message(crc, false, reg);
    let _ = buffer::push(&mut tx, TURN_AROUND_BYTE);
    tx
}

/// Puts together what is written to the bus to write `value` to `reg`.
pub(crate) fn write_message(crc: bool, reg: SpiRegisters, value: u32) -> (tx: TxBuf)
    ensures
        tx.contents() == write_request(crc, reg, value),
{
    let mut tx = start_message(crc, true, reg);
    let data = bytes::be32_bytes(value);
    let _ = buffer::extend_from_slice(&mut tx, data.as_slice());
    if crc {
        let _ = buffer::push(&mut tx, crc8::crc8(data.as_slice()));
    }
    assert(tx.contents() =~= write_request(crc, reg, value));
    tx
}

impl<SPI> ADIN1110<SPI> {
    /// Checksums are in use.
    pub closed spec fn spec_crc(&self) -> bool {
        self.crc
    }

    /// The bus.
    pub closed spec fn bus(&self) -> SPI {
        self.spi
    }

    /// A MAC on the bus `spi`.
    pub fn new(spi: SPI, crc: bool) -> (mac: Self)
        ensures
            mac.bus() == spi,
            mac.crc() == crc,
    {
        ADIN1110 { spi, crc }
    }

    /// Checksums are in use.
    #[verifier::when_used_as_spec(spec_crc)]
    pub fn crc(&self) -> (crc: bool)
        ensures
            crc == self.spec_crc(),
    {
        self.crc
    }

    /// The bus.
    pub fn spi(&mut self) -> (spi: &mut SPI)
        ensures
            *spi == old(self).bus(),
            final(self).bus() == *final(spi),
            final(self).crc() == old(self).crc(),
    {
        &mut self.spi
    }

    /// Reads the register `reg`.
    pub fn read_reg(&self, reg: SpiRegisters) -> (op: ReadReg)
        ensures
            op.tx.contents() == read_request(self.crc(), reg),
            op.crc == self.crc(),
    {
        ReadReg { tx: read_message(self.crc, reg), crc: self.crc }
    }

    /// Writes `value` to the register `reg`.
    pub fn write_reg(&self, reg: SpiRegisters, value: u32) -> (op: WriteReg)
        ensures
            op.tx.contents() == write_request(self.crc(), reg, value),
    {
        WriteReg { tx: write_message(self.crc, reg, value) }
    }
}

impl ReadReg {
    /// The transaction: the request goes out, then the value comes in, with its
    /// checksum where these are in use.
    pub fn transaction(&self) -> (ops: [SpiOp<'_>; 2])
        ensures
            ops@[0].writes(self.tx.contents()),
            ops@[1].reads(if self.crc { 5 } else { 4 }),
    {
        let len: usize = if self.crc { 5 } else { 4 };
        [SpiOp::Write(buffer::as_slice(&self.tx)), SpiOp::Read(len)]
    }

    /// Takes what came in, from the start of `rx` on, and gives the value of the
    /// register.
    pub fn finish<E>(&self, reply: Result<[u8; 5], E>) -> (value: AEResult<u32, E>)
        ensures
            value == read_reply(self.crc, reply),
    {
        match reply {
            Err(e) => Err(AdinError::Spi(e)),
            Ok(rx) => {
                if self.crc {
                    let data = [rx[0], rx[1], rx[2], rx[3]];
                    assert(data@ =~= rx@.take(4));
                    if crc8::crc8(data.as_slice()) != rx[4] {
                        return Err(AdinError::CRC);
                    }
                }
                assert(seq![rx@[0], rx@[1], rx@[2], rx@[3]] =~= rx@.take(4));
                Ok(bytes::be32_from(rx[0], rx[1], rx[2], rx[3]))
            },
        }
    }
}

impl WriteReg {
    /// The transaction: the request goes out.
    pub fn transaction(&self) -> (ops: [SpiOp<'_>; 1])
        ensures
            ops@[0].writes(self.tx.contents()),
    {
        [SpiOp::Write(buffer::as_slice(&self.tx))]
    }

    /// Takes how the transaction ended.
    pub fn finish<E>(&self, reply: Result<(), E>) -> (done: AEResult<(), E>)
        ensures
            done == write_reply(reply),
    {
        match reply {
            Err(e) => Err(AdinError::Spi(e)),
            Ok(()) => Ok(()),
        }
    }
}

/// Every message fits the buffer it is put together in.
pub proof fn law_messages_fit(crc: bool, reg: SpiRegisters, value: u32)
    ensures
        read_request(crc, reg).len() <= buffer::TX_LEN,
        write_request(crc, reg, value).len() <= buffer::TX_LEN,
{
}

/// A message determines what is asked: its first two bytes hold the direction
/// and the register, and a write holds the value behind the preamble.
pub proof fn law_requests_are_unambiguous(crc: bool, reg: SpiRegisters, value: u32)
    ensures
        bytes::be16_value(read_request(crc, reg).take(2)) == regs::header(false, reg),
        bytes::be16_value(write_request(crc, reg, value).take(2)) == regs::header(true, reg),
        bytes::be32_value(
            write_request(crc, reg, value).skip(preamble(crc, true, reg).len() as int),
        ) == value,
{
    bytes::lemma_be16_round_trip(regs::header(false, reg));
    bytes::lemma_be16_round_trip(regs::header(true, reg));
    bytes::lemma_be32_round_trip(value);
    assert(read_request(crc, reg).take(2) =~= bytes::be16(regs::header(false, reg)));
    assert(write_request(crc, reg, value).take(2) =~= bytes::be16(regs::header(true, reg)));
}

/// With checksums in use, both parts of a write cancel when the device takes
/// each through the checksum together with the byte behind it.
pub proof fn law_device_accepts_write(reg: SpiRegisters, value: u32)
    ensures
        crc8::checksum(write_request(true, reg, value).take(3)) == 0,
        crc8::checksum(write_request(true, reg, value).skip(3)) == 0,
{
    let header = bytes::be16(regs::header(true, reg));
    let data = bytes::be32(value);
    crc8::law_appended_checksum_cancels(header);
    crc8::law_appended_checksum_cancels(data);
    assert(write_request(true, reg, value).take(3) =~= header.push(crc8::checksum(header)));
    assert(write_request(true, reg, value).skip(3) =~= data.push(crc8::checksum(data)));
}

/// A device that answers with the bytes of `value` and their checksum is
/// understood, whether or not checksums are in use.
pub proof fn law_read_gives_what_the_device_sent<E>(crc: bool, value: u32, rx: [u8; 5])
    requires
        rx@ == bytes::be32(value).push(crc8::checksum(bytes::be32(value))),
    ensures
        read_reply(crc, Ok::<[u8; 5], E>(rx)) == Ok::<u32, AdinError<E>>(value),
{
    assert(rx@.take(4) =~= bytes::be32(value));
    bytes::lemma_be32_round_trip(value);
}

/// With checksums in use, a good reply in which one byte was changed on the way
/// is refused.
pub proof fn law_corrupted_reply_is_refused<E>(sent: [u8; 5], rx: [u8; 5], at: int)
    requires
        crc8::checksum(sent@.take(4)) == sent@[4],
        0 <= at < 5,
        sent@[at] != rx@[at],
        forall|i: int| 0 <= i < 5 && i != at ==> sent@[i] == rx@[i],
    ensures
        read_reply(true, Ok::<[u8; 5], E>(rx)) == Err::<u32, AdinError<E>>(AdinError::CRC),
{
    if at < 4 {
        crc8::law_single_byte_change_is_seen(sent@.take(4), rx@.take(4), at);
    } else {
        assert(sent@.take(4) =~= rx@.take(4));
    }
}

/// The device takes `message` for a read of the register at `addr`: a header with
/// the control bit and the address, its checksum where these are in use, and the
/// turn-around byte.
pub open spec fn asks_for(message: Seq<u8>, crc: bool, addr: int) -> bool {
    &&& message.len() == (if crc { 4int } else { 3 })
    &&& bytes::number2(message, 0) == 0x8000 + addr
    &&& crc ==> crc8::checksum(message.take(3)) == 0
    &&& message.last() == 0
}

/// The device takes `message` for a write of `value` to the register at `addr`: a
/// header with the control bit, the write bit and the address, then the value,
/// each with its checksum where these are in use.
pub open spec fn stores(message: Seq<u8>, crc: bool, addr: int, value: int) -> bool {
    &&& message.len() == (if crc { 8int } else { 6 })
    &&& bytes::number2(message, 0) == 0xA000 + addr
    &&& crc ==> crc8::checksum(message.take(3)) == 0
    &&& bytes::number4(message, if crc { 3 } else { 2 }) == value
    &&& crc ==> crc8::checksum(message.skip(3)) == 0
}

/// The reply carries `value`, and its checksum is right where these are in use.
pub open spec fn carries(rx: [u8; 5], crc: bool, value: int) -> bool {
    &&& bytes::number4(rx@, 0) == value
    &&& crc ==> crc8::checksum(rx@) == 0
}

pub(crate) proof fn lemma_preamble(crc: bool, write: bool, reg: SpiRegisters)
    ensures
        ({
            let start = preamble(crc, write, reg);
            &&& start.len() == (if crc { 3int } else { 2 })
            &&& bytes::number2(start, 0) == (if write { 0xA000int } else { 0x8000 }) + reg.addr()
            &&& crc ==> crc8::checksum(start) == 0
        }),
{
    let header = regs::header(write, reg);
    regs::law_header_layout(write, reg);
    bytes::lemma_be16_round_trip(header);
    crc8::law_appended_checksum_cancels(bytes::be16(header));
}

pub(crate) proof fn lemma_read_request(crc: bool, reg: SpiRegisters)
    ensures
        asks_for(read_request(crc, reg), crc, reg.addr() as int),
{
    lemma_preamble(crc, false, reg);
    let start = preamble(crc, false, reg);
    assert(read_request(crc, reg).take(start.len() as int) =~= start);
}

pub(crate) proof fn lemma_write_request(crc: bool, reg: SpiRegisters, value: u32)
    ensures
        stores(write_request(crc, reg, value), crc, reg.addr() as int, value as int),
{
    lemma_preamble(crc, true, reg);
    bytes::lemma_be32_round_trip(value);
    let message = write_request(crc, reg, value);
    let start = preamble(crc, true, reg);
    assert(message.take(start.len() as int) =~= start);
    if crc {
        law_device_accepts_write(reg, value);
    }
}

/// Reading a register, whichever it is, sends the read of that register: with
/// checksums four bytes, of which the first three cancel, and without them three;
/// the last one is the turn-around byte.
pub proof fn law_read_asks_for_the_register<SPI>(
    mac: ADIN1110<SPI>,
    reg: SpiRegisters,
    op: ReadReg,
)
    requires
        call_ensures(ADIN1110::<SPI>::read_reg, (&mac, reg), op),
    ensures
        asks_for(op.tx.contents(), mac.crc(), reg.addr() as int),
        op.crc == mac.crc(),
{
    lemma_read_request(mac.crc(), reg);
}

/// Writing a register, whichever it is, sends the write of that value to that
/// register.
pub proof fn law_write_stores_the_value<SPI>(
    mac: ADIN1110<SPI>,
    reg: SpiRegisters,
    value: u32,
    op: WriteReg,
)
    requires
        call_ensures(ADIN1110::<SPI>::write_reg, (&mac, reg, value), op),
    ensures
        stores(op.tx.contents(), mac.crc(), reg.addr() as int, value as int),
{
    lemma_write_request(mac.crc(), reg, value);
}

/// In the transaction of a read the message goes out unchanged, and then come in
/// the four bytes of the value, with one more where checksums are in use.
pub proof fn law_read_takes_in_the_reply(op: ReadReg, ops: [SpiOp<'_>; 2])
    requires
        call_ensures(ReadReg::transaction, (&op,), ops),
    ensures
        ops@[0] matches SpiOp::Write(out) && out@ == op.tx.contents(),
        ops@[1] matches SpiOp::Read(count) && count == (if op.crc { 5int } else { 4 }),
{
}

/// In the transaction of a write the message goes out unchanged.
pub proof fn law_write_sends_the_message(op: WriteReg, ops: [SpiOp<'_>; 1])
    requires
        call_ensures(WriteReg::transaction, (&op,), ops),
    ensures
        ops@[0] matches SpiOp::Write(out) && out@ == op.tx.contents(),
{
}

pub(crate) proof fn lemma_reply<E>(crc: bool, rx: [u8; 5], value: u32)
    ensures
        carries(rx, crc, value as int) ==> read_reply(crc, Ok::<[u8; 5], E>(rx)) == Ok::<
            u32,
            AdinError<E>,
        >(value),
        crc && crc8::checksum(rx@) != 0 ==> read_reply(crc, Ok::<[u8; 5], E>(rx)) == Err::<
            u32,
            AdinError<E>,
        >(AdinError::CRC),
{
    bytes::lemma_be32_value_round_trip(rx@.take(4));
    crc8::law_only_the_checksum_cancels(rx@.take(4), rx@[4]);
    assert(rx@.take(4).push(rx@[4]) =~= rx@);
}

/// A reply whose first four bytes are those of a value, the most significant one
/// first, gives that value: without checksums whatever the fifth byte is, and
/// with them when the five bytes cancel.
pub proof fn law_reply_gives_its_value<E>(
    op: ReadReg,
    rx: [u8; 5],
    value: u32,
    result: AEResult<u32, E>,
)
    requires
        call_ensures(ReadReg::finish::<E>, (&op, Ok::<[u8; 5], E>(rx)), result),
        rx@[0] * 0x100_0000 + rx@[1] * 0x1_0000 + rx@[2] * 0x100 + rx@[3] == value,
        op.crc ==> crc8::checksum(rx@) == 0,
    ensures
        result == Ok::<u32, AdinError<E>>(value),
{
    lemma_reply::<E>(op.crc, rx, value);
}

/// With checksums in use, every reply whose bytes do not cancel is refused.
pub proof fn law_reply_is_held_to_its_checksum<E>(
    op: ReadReg,
    rx: [u8; 5],
    result: AEResult<u32, E>,
)
    requires
        call_ensures(ReadReg::finish::<E>, (&op, Ok::<[u8; 5], E>(rx)), result),
        op.crc,
        crc8::checksum(rx@) != 0,
    ensures
        result == Err::<u32, AdinError<E>>(AdinError::CRC),
{
    lemma_reply::<E>(op.crc, rx, 0);
}

/// An error of the bus is what the access gives, whether it reads or writes; a
/// write that the bus takes is a success.
pub proof fn law_bus_errors_are_passed_on<E>(
    read: ReadReg,
    write: WriteReg,
    fault: E,
    value: AEResult<u32, E>,
    done: AEResult<(), E>,
)
    ensures
        call_ensures(ReadReg::finish::<E>, (&read, Err::<[u8; 5], E>(fault)), value) ==> value
            == Err::<u32, AdinError<E>>(AdinError::Spi(fault)),
        call_ensures(WriteReg::finish::<E>, (&write, Err::<(), E>(fault)), done) ==> done == Err::<
            (),
            AdinError<E>,
        >(AdinError::Spi(fault)),
        call_ensures(WriteReg::finish::<E>, (&write, Ok::<(), E>(())), done) ==> done is Ok,
{
}

/// A MAC has the bus and the use of checksums that it was made with, and handing
/// out the bus leaves the use of checksums alone.
pub proof fn law_mac_is_what_it_was_made_with<SPI>(
    spi: SPI,
    crc: bool,
    mac: ADIN1110<SPI>,
    told: bool,
    lent: &mut ADIN1110<SPI>,
    bus: &mut SPI,
)
    ensures
        call_ensures(ADIN1110::<SPI>::new, (spi, crc), mac) ==> mac.bus() == spi && mac.crc() == crc,
        call_ensures(ADIN1110::<SPI>::new, (spi, crc), mac) && call_ensures(
            ADIN1110::<SPI>::crc,
            (&mac,),
            told,
        ) ==> told == crc,
        call_ensures(ADIN1110::<SPI>::spi, (lent,), bus) ==> {
            &&& *old(bus) == old(lent).bus()
            &&& final(lent).bus() == *final(bus)
            &&& final(lent).crc() == old(lent).crc()
        },
{
}

} // verus!
