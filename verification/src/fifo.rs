//! Frames in and out of the packet memory of the MAC.
use vstd::prelude::*;

use crate::buffer;
use crate::buffer::{Contents, HeadBuf, TailBuf, TxBuf};
use crate::bytes;
use crate::crc32;
use crate::crc32::ETH_FSC;
use crate::crc8;
use crate::mac;
use crate::mac::{ReadReg, SpiOp, WriteReg, ADIN1110};
use crate::regs;
use crate::regs::SpiRegisters;
use crate::{
    AEResult, AdinError, DONT_CARE_BYTE, ETH_HEADER_LEN, ETH_MIN_LEN, FRAME_HEADER_LEN, FSC_LEN,
    MAX_BUFF, PORT_ID_BYTE, SPI_HEADER_LEN,
};

verus! {

/// The next multiple of four.
pub open spec fn round_up4(n: nat) -> nat {
    (n + 3) / 4 * 4
}

/// How many zero bytes bring a frame of `len` bytes to the least length that
/// the MAC takes.
pub open spec fn padding(len: nat) -> nat {
    if len < ETH_MIN_LEN - FSC_LEN {
        (ETH_MIN_LEN - FSC_LEN - len) as nat
    } else {
        0
    }
}

/// The frame as it goes over the wire, without its check sequence.
pub open spec fn padded(frame: Seq<u8>) -> Seq<u8> {
    frame + bytes::zeros(padding(frame.len()))
}

/// The size that is announced for a frame: frame header, padded frame and check
/// sequence.
pub open spec fn announced(frame: Seq<u8>) -> nat {
    FRAME_HEADER_LEN as nat + padded(frame).len() + FSC_LEN as nat
}

/// What goes ahead of every frame: the header of the access and the port.
pub open spec fn head(crc: bool) -> Seq<u8> {
    mac::preamble(crc, true, SpiRegisters::TX) + bytes::be16(PORT_ID_BYTE as u16)
}

/// What follows a frame: the padding, the check sequence over all of it, and
/// what brings the transfer to a multiple of four bytes.
pub open spec fn tail(frame: Seq<u8>) -> Seq<u8> {
    bytes::zeros(padding(frame.len())) + bytes::le32(crc32::fcs(padded(frame))) + Seq::new(
        (round_up4(announced(frame)) - announced(frame)) as nat,
        |i: int| DONT_CARE_BYTE,
    )
}

/// The size of the received frame is being asked for.
#[derive(Debug)]
pub struct ReadFifo {
    /// The read of the size.
    pub size: ReadReg,
    /// How many bytes there is room for.
    pub capacity: usize,
}

/// A received frame is being read.
#[derive(Debug)]
pub struct FifoRead {
    /// What goes out on the bus.
    pub tx: TxBuf,
    /// Size of the frame, also includes the appended header.
    pub packet_size: usize,
    /// How many bytes are read into the buffer.
    pub read_size: usize,
}

/// The size of a frame is being announced.
#[derive(Debug)]
pub struct WriteFifo<'a> {
    /// The write of the size.
    pub size: WriteReg,
    /// What goes out ahead of the frame.
    pub head: HeadBuf,
    /// The frame.
    pub frame: &'a [u8],
    /// What goes out behind the frame.
    pub tail: TailBuf,
}

/// A frame is being sent.
#[derive(Debug)]
pub struct FifoWrite<'a> {
    /// What goes out ahead of the frame.
    pub head: HeadBuf,
    /// The frame.
    pub frame: &'a [u8],
    /// What goes out behind the frame.
    pub tail: TailBuf,
}

impl<SPI> ADIN1110<SPI> {
    /// Reads a frame that was received via the wire out of the packet memory, into
    /// a buffer of `capacity` bytes.
    pub fn read_fifo(&self, capacity: usize) -> (op: ReadFifo)
        ensures
            op.size.tx.contents() == mac::read_request(self.crc(), SpiRegisters::RX_FSIZE),
            op.size.crc == self.crc(),
            op.capacity == capacity,
    {
        ReadFifo { size: self.read_reg(SpiRegisters::RX_FSIZE), capacity }
    }

    /// Writes a frame to the packet memory, to be sent over the wire.
    pub fn write_fifo<'a, E>(&self, frame: &'a [u8]) -> (op: AEResult<WriteFifo<'a>, E>)
        ensures
            frame@.len() < ETH_HEADER_LEN <==> op == Err::<WriteFifo<'a>, AdinError<E>>(
                AdinError::PACKET_TOO_SMALL,
            ),
            frame@.len() > MAX_BUFF - FRAME_HEADER_LEN <==> op == Err::<
                WriteFifo<'a>,
                AdinError<E>,
            >(AdinError::PACKET_TOO_BIG),
            ETH_HEADER_LEN <= frame@.len() <= MAX_BUFF - FRAME_HEADER_LEN <==> op is Ok,
            op matches Ok(w) ==> {
                &&& w.size.tx.contents() == mac::write_request(
                    self.crc(),
                    SpiRegisters::TX_FSIZE,
                    announced(frame@) as u32,
                )
                &&& w.head.contents() == head(self.crc())
                &&& w.frame@ == frame@
                &&& w.tail.contents() == tail(frame@)
            },
    {
        if frame.len() < ETH_HEADER_LEN {
            return Err(AdinError::PACKET_TOO_SMALL);
        }
        if frame.len() > MAX_BUFF - FRAME_HEADER_LEN {
            return Err(AdinError::PACKET_TOO_BIG);
        }
        let crc = self.crc();

        // SPI HEADER + [OPTIONAL SPI CRC] + FRAME HEADER
        let mut head_data = buffer::new_head();
        let header = bytes::be16_bytes(regs::spi_header(true, SpiRegisters::TX).0);
        if buffer::extend_from_slice(&mut head_data, header.as_slice()).is_err() {
            return Err(AdinError::PACKET_TOO_BIG);
        }
        assert(head_data.contents() =~= bytes::be16(regs::header(true, SpiRegisters::TX)));
        if crc {
            let sum = crc8::crc8(buffer::as_slice(&head_data));
            if buffer::push(&mut head_data, sum).is_err() {
                return Err(AdinError::PACKET_TOO_BIG);
            }
        }
        // Port number: fixed to zero/P1 on the ADIN1110, which has one port.

        let port = bytes::be16_bytes(PORT_ID_BYTE as u16);
        if buffer::extend_from_slice(&mut head_data, port.as_slice()).is_err() {
            return Err(AdinError::PACKET_TOO_BIG);
        }
        // [PAD DATA] + FCS + [BYTES THAT FILL UP THE SPI TRANSFER]

        let mut tail_data = buffer::new_tail();
        let mut frame_fcs = ETH_FSC::new(frame);

        // ADIN1110 MAC and PHY don't accept ethernet packets smaller than 64 bytes,
        // so the data is padded, leaving room for the FCS.
        if let Some(pad_len) = (ETH_MIN_LEN - FSC_LEN).checked_sub(frame.len()) {
            let _ = buffer::resize(&mut tail_data, pad_len, 0x00);
            assert(tail_data.contents() =~= bytes::zeros(padding(frame@.len())));
            frame_fcs = frame_fcs.update(buffer::as_slice(&tail_data));
        } else {
            assert(padded(frame@) =~= frame@);
        }
        assert(tail_data.contents() =~= bytes::zeros(padding(frame@.len())));
        assert(frame_fcs.0 == crc32::fcs(padded(frame@)));

        // Add ethernet FCS only over the ethernet packet.
        let fcs = frame_fcs.hton_bytes();
        let _ = buffer::extend_from_slice(&mut tail_data, fcs.as_slice());

        // len = frame_size + optional padding + 2 bytes Frame header
        let send_len: usize = frame.len() + buffer::as_slice(&tail_data).len() + FRAME_HEADER_LEN;
        assert(send_len == announced(frame@));

        // A write to the MAC packet buffer must be a multiple of 4 bytes!
        let fill: usize = (send_len + 3) / 4 * 4 - send_len;
        let filler = [DONT_CARE_BYTE, DONT_CARE_BYTE, DONT_CARE_BYTE];
        let _ = buffer::extend_from_slice(
            &mut tail_data,
            vstd::slice::slice_subrange(filler.as_slice(), 0, fill),
        );
        assert(tail_data.contents() =~= tail(frame@));

        Ok(
            WriteFifo {
                size: self.write_reg(SpiRegisters::TX_FSIZE, send_len as u32),
                head: head_data,
                frame,
                tail: tail_data,
            },
        )
    }
}

impl ReadFifo {
    /// Takes the reply to the read of the size. The frame is read next, unless
    /// its size could not be read, is too small for a frame, or is more than
    /// there is room for.
    pub fn size_read<E>(self, reply: Result<[u8; 5], E>) -> (op: AEResult<FifoRead, E>)
        ensures
            match mac::read_reply(self.size.crc, reply) {
                Err(e) => op == Err::<FifoRead, AdinError<E>>(e),
                Ok(n) => if n < SPI_HEADER_LEN + FSC_LEN {
                    op == Err::<FifoRead, AdinError<E>>(AdinError::PACKET_TOO_SMALL)
                } else if round_up4(n as nat) > self.capacity {
                    op == Err::<FifoRead, AdinError<E>>(AdinError::PACKET_TOO_BIG)
                } else {
                    &&& op matches Ok(r)
                    &&& r.tx.contents() == mac::read_request(self.size.crc, SpiRegisters::RX)
                    &&& r.packet_size == n
                    &&& r.read_size == round_up4(n as nat)
                },
            },
    {
        let packet_size = match self.size.finish(reply) {
            Err(e) => {
                return Err(e);
            },
            Ok(n) => n,
        };
        // A read of the MAC packet buffer must be a multiple of 4 bytes!
        let read_size: u64 = (packet_size as u64 + 3) / 4 * 4;
        if packet_size < (SPI_HEADER_LEN + FSC_LEN) as u32 {
            return Err(AdinError::PACKET_TOO_SMALL);
        }
        if read_size > self.capacity as u64 {
            return Err(AdinError::PACKET_TOO_BIG);
        }
        Ok(
            FifoRead {
                tx: mac::read_message(self.size.crc, SpiRegisters::RX),
                packet_size: packet_size as usize,
                read_size: read_size as usize,
            },
        )
    }
}

impl FifoRead {
    /// The transaction: the request goes out, then the frame header, the frame
    /// and its check sequence come in.
    pub fn transaction(&self) -> (ops: [SpiOp<'_>; 4])
        ensures
            ops@[0].writes(self.tx.contents()),
            ops@[1].reads(FRAME_HEADER_LEN as nat),
            ops@[2].reads(self.read_size as nat),
            ops@[3].reads(FSC_LEN as nat),
    {
        [
            SpiOp::Write(buffer::as_slice(&self.tx)),
            SpiOp::Read(FRAME_HEADER_LEN),
            SpiOp::Read(self.read_size),
            SpiOp::Read(FSC_LEN),
        ]
    }

    /// Takes how the transaction ended, and gives the size of the frame.
    pub fn finish<E>(&self, reply: Result<(), E>) -> (size: AEResult<usize, E>)
        ensures
            size == (match reply {
                Err(e) => Err::<usize, AdinError<E>>(AdinError::Spi(e)),
                Ok(_) => Ok::<usize, AdinError<E>>(self.packet_size),
            }),
    {
        match reply {
            Err(e) => Err(AdinError::Spi(e)),
            Ok(()) => Ok(self.packet_size),
        }
    }
}

impl<'a> WriteFifo<'a> {
    /// Takes how the announcement of the size ended. The frame is sent next,
    /// unless that failed.
    pub fn size_written<E>(self, reply: Result<(), E>) -> (op: AEResult<FifoWrite<'a>, E>)
        ensures
            match mac::write_reply(reply) {
                Err(e) => op == Err::<FifoWrite<'a>, AdinError<E>>(e),
                Ok(_) => op == Ok::<FifoWrite<'a>, AdinError<E>>(
                    (FifoWrite { head: self.head, frame: self.frame, tail: self.tail }),
                ),
            },
    {
        match self.size.finish(reply) {
            Err(e) => Err(e),
            Ok(()) => Ok(FifoWrite { head: self.head, frame: self.frame, tail: self.tail }),
        }
    }
}

impl<'a> FifoWrite<'a> {
    /// The transaction: all three parts go out.
    pub fn transaction(&self) -> (ops: [SpiOp<'_>; 3])
        ensures
            ops@[0].writes(self.head.contents()),
            ops@[1].writes(self.frame@),
            ops@[2].writes(self.tail.contents()),
    {
        [
            SpiOp::Write(buffer::as_slice(&self.head)),
            SpiOp::Write(self.frame),
            SpiOp::Write(buffer::as_slice(&self.tail)),
        ]
    }

    /// Takes how the transaction ended.
    pub fn finish<E>(&self, reply: Result<(), E>) -> (done: AEResult<(), E>)
        ensures
            done == mac::write_reply(reply),
    {
        match reply {
            Err(e) => Err(AdinError::Spi(e)),
            Ok(()) => Ok(()),
        }
    }
}

/// Whatever frame is sent, the bytes that go into the packet memory are a
/// multiple of four, at least as many as were announced and less than four
/// more.
pub proof fn law_transfer_is_in_whole_words(frame: Seq<u8>)
    ensures
        (FRAME_HEADER_LEN + frame.len() + tail(frame).len()) % 4 == 0,
        announced(frame) <= FRAME_HEADER_LEN + frame.len() + tail(frame).len() < announced(frame)
            + 4,
{
}

/// Whatever the size of a received frame, it is read in whole words, and in no
/// more of them than it takes.
pub proof fn law_read_is_in_whole_words(size: nat)
    ensures
        round_up4(size) % 4 == 0,
        size <= round_up4(size) < size + 4,
{
}

/// Whatever frame is sent, it has the least length of an Ethernet frame, its
/// check sequence included.
pub proof fn law_frame_has_minimal_length(frame: Seq<u8>)
    ensures
        padded(frame).len() + FSC_LEN >= ETH_MIN_LEN,
{
}

/// Behind the frame header, the announced size covers the frame as it was
/// handed in, its padding, and a check sequence with which a receiver finds
/// the frame intact.
pub proof fn law_receiver_finds_frame_intact(crc: bool, frame: Seq<u8>)
    ensures
        ({
            let memory = bytes::be16(PORT_ID_BYTE as u16) + frame + tail(frame);
            let wire = memory.subrange(FRAME_HEADER_LEN as int, announced(frame) as int);
            &&& head(crc) + frame + tail(frame) == mac::preamble(crc, true, SpiRegisters::TX)
                + memory
            &&& wire.take(frame.len() as int) == frame
            &&& wire.take(wire.len() - FSC_LEN) == padded(frame)
            &&& crc32::divide(0xFFFF_FFFF, wire) == crc32::RESIDUE
        }),
{
    let memory = bytes::be16(PORT_ID_BYTE as u16) + frame + tail(frame);
    let wire = memory.subrange(FRAME_HEADER_LEN as int, announced(frame) as int);
    assert(head(crc) + frame + tail(frame) =~= mac::preamble(crc, true, SpiRegisters::TX) + memory);
    assert(wire =~= padded(frame) + bytes::le32(crc32::fcs(padded(frame))));
    assert(wire.take(frame.len() as int) =~= frame);
    assert(wire.take(wire.len() - FSC_LEN) =~= padded(frame));
    crc32::law_receiver_residue(padded(frame));
}

/// Everything that is put around a frame fits the buffers it is put in.
pub proof fn law_head_and_tail_fit(crc: bool, frame: Seq<u8>)
    requires
        frame.len() >= ETH_HEADER_LEN,
    ensures
        head(crc).len() <= buffer::HEAD_LEN,
        tail(frame).len() <= buffer::TAIL_LEN,
{
}

/// Reading a frame starts with a read of the register at 0x90, and the room there
/// is for the frame is kept.
pub proof fn law_frame_size_is_asked_for<SPI>(
    mac: ADIN1110<SPI>,
    capacity: usize,
    op: ReadFifo,
)
    requires
        call_ensures(ADIN1110::<SPI>::read_fifo, (&mac, capacity), op),
    ensures
        mac::asks_for(op.size.tx.contents(), mac.crc(), 0x90),
        op.size.crc == mac.crc(),
        op.capacity == capacity,
{
    mac::lemma_read_request(mac.crc(), SpiRegisters::RX_FSIZE);
}

/// What every size that the device gives leads to. Fewer than six bytes are no
/// frame. Otherwise as many whole words are read, out of the register at 0x91, as
/// the frame takes, where there is room for them.
pub proof fn law_frame_is_read_by_its_size<E>(
    op: ReadFifo,
    rx: [u8; 5],
    size: u32,
    words: int,
    next: AEResult<FifoRead, E>,
)
    requires
        call_ensures(ReadFifo::size_read::<E>, (op, Ok::<[u8; 5], E>(rx)), next),
        mac::carries(rx, op.size.crc, size as int),
        size <= words * 4 < size + 4,
    ensures
        size < 6 ==> next == Err::<FifoRead, AdinError<E>>(AdinError::PACKET_TOO_SMALL),
        size >= 6 && words * 4 > op.capacity ==> next == Err::<FifoRead, AdinError<E>>(
            AdinError::PACKET_TOO_BIG,
        ),
        size >= 6 && words * 4 <= op.capacity ==> {
            &&& next matches Ok(read)
            &&& mac::asks_for(read.tx.contents(), op.size.crc, 0x91)
            &&& read.packet_size == size
            &&& read.read_size == words * 4
        },
{
    mac::lemma_reply::<E>(op.size.crc, rx, size);
    mac::lemma_read_request(op.size.crc, SpiRegisters::RX);
}

/// A size that cannot be read ends the access: with a checksum error when
/// checksums are in use and the bytes do not cancel, and with the error of the
/// bus when it has one.
pub proof fn law_unreadable_size_ends_the_read<E>(
    op: ReadFifo,
    rx: [u8; 5],
    fault: E,
    next: AEResult<FifoRead, E>,
)
    ensures
        call_ensures(ReadFifo::size_read::<E>, (op, Ok::<[u8; 5], E>(rx)), next) && op.size.crc
            && crc8::checksum(rx@) != 0 ==> next == Err::<FifoRead, AdinError<E>>(AdinError::CRC),
        call_ensures(ReadFifo::size_read::<E>, (op, Err::<[u8; 5], E>(fault)), next) ==> next
            == Err::<FifoRead, AdinError<E>>(AdinError::Spi(fault)),
{
    mac::lemma_reply::<E>(op.size.crc, rx, 0);
}

/// In the transaction of a received frame the message goes out unchanged; then
/// come in two bytes of frame header, the frame, and four bytes of check
/// sequence.
pub proof fn law_frame_comes_in_parts(op: FifoRead, ops: [SpiOp<'_>; 4])
    requires
        call_ensures(FifoRead::transaction, (&op,), ops),
    ensures
        ops@[0] matches SpiOp::Write(out) && out@ == op.tx.contents(),
        ops@[1] matches SpiOp::Read(count) && count == 2,
        ops@[2] matches SpiOp::Read(count) && count == op.read_size,
        ops@[3] matches SpiOp::Read(count) && count == 4,
{
}

/// A frame is accepted exactly from 14 bytes up to 2046, and refused below and
/// above that.
pub proof fn law_which_frames_are_sent<'a, SPI, E>(
    mac: ADIN1110<SPI>,
    frame: &'a [u8],
    op: AEResult<WriteFifo<'a>, E>,
)
    requires
        call_ensures(ADIN1110::<SPI>::write_fifo::<E>, (&mac, frame), op),
    ensures
        frame@.len() < 14 ==> op == Err::<WriteFifo<'a>, AdinError<E>>(AdinError::PACKET_TOO_SMALL),
        frame@.len() > 2046 ==> op == Err::<WriteFifo<'a>, AdinError<E>>(
            AdinError::PACKET_TOO_BIG,
        ),
        14 <= frame@.len() <= 2046 ==> op is Ok,
{
}

/// What goes out for every frame that is accepted. Its size is announced to the
/// register at 0x30: two bytes of frame header, the frame brought to at least 60
/// bytes, and four of check sequence. It is written to the register at 0x31,
/// behind a header and the number of the port, which is zero. What follows it is
/// zeros up to the 60th byte, a check sequence that a receiver accepts, and up to
/// three zeros that fill the last word.
pub proof fn law_what_goes_out_for_a_frame<'a, SPI, E>(
    mac: ADIN1110<SPI>,
    frame: &'a [u8],
    op: WriteFifo<'a>,
    pad: int,
)
    requires
        call_ensures(
            ADIN1110::<SPI>::write_fifo::<E>,
            (&mac, frame),
            Ok::<WriteFifo<'a>, AdinError<E>>(op),
        ),
        frame@.len() < 60 ==> pad == 60 - frame@.len(),
        frame@.len() >= 60 ==> pad == 0,
    ensures
        ({
            let head = op.head.contents();
            let tail = op.tail.contents();
            let size = 2 + frame@.len() + pad + 4;
            let crc = mac.crc();
            &&& mac::stores(op.size.tx.contents(), crc, 0x30, size)
            &&& head.len() == (if crc { 5int } else { 4 })
            &&& bytes::number2(head, 0) == 0xA031
            &&& crc ==> crc8::checksum(head.take(3)) == 0
            &&& bytes::number2(head, head.len() - 2) == 0
            &&& op.frame@ == frame@
            &&& (2 + frame@.len() + tail.len()) % 4 == 0
            &&& size <= 2 + frame@.len() + tail.len() < size + 4
            &&& forall|i: int| 0 <= i < pad ==> tail[i] == 0
            &&& crc32::divide(0xFFFF_FFFF, frame@ + tail.take(pad + 4)) == 0xDEBB_20E3
            &&& forall|i: int| pad + 4 <= i < tail.len() ==> tail[i] == 0
        }),
{
    let tail = tail(frame@);
    let head = head(mac.crc());
    assert(pad == padding(frame@.len()));
    mac::lemma_write_request(mac.crc(), SpiRegisters::TX_FSIZE, announced(frame@) as u32);
    mac::lemma_preamble(mac.crc(), true, SpiRegisters::TX);
    assert(head.take(head.len() - 2) =~= mac::preamble(mac.crc(), true, SpiRegisters::TX));
    law_transfer_is_in_whole_words(frame@);
    crc32::law_receiver_residue(padded(frame@));
    assert(frame@ + tail.take(pad + 4) =~= padded(frame@) + bytes::le32(
        crc32::fcs(padded(frame@)),
    ));
}

/// Once the size is announced the parts of the frame go out unchanged and in
/// order.
pub proof fn law_frame_goes_out_in_parts<'a, E>(
    op: WriteFifo<'a>,
    next: FifoWrite<'a>,
    ops: [SpiOp<'_>; 3],
)
    requires
        call_ensures(
            WriteFifo::<'a>::size_written::<E>,
            (op, Ok::<(), E>(())),
            Ok::<FifoWrite<'a>, AdinError<E>>(next),
        ),
        call_ensures(FifoWrite::<'a>::transaction, (&next,), ops),
    ensures
        ops@[0] matches SpiOp::Write(out) && out@ == op.head.contents(),
        ops@[1] matches SpiOp::Write(out) && out@ == op.frame@,
        ops@[2] matches SpiOp::Write(out) && out@ == op.tail.contents(),
{
}

/// An error of the bus is what the transfer of a frame gives. Without one, a
/// received frame has the size that was read before, and a sent one is a
/// success.
pub proof fn law_frame_transfers_end<'a, E>(
    read: FifoRead,
    announced: WriteFifo<'a>,
    write: FifoWrite<'a>,
    fault: E,
    size: AEResult<usize, E>,
    next: AEResult<FifoWrite<'a>, E>,
    done: AEResult<(), E>,
)
    ensures
        call_ensures(FifoRead::finish::<E>, (&read, Ok::<(), E>(())), size) ==> size == Ok::<
            usize,
            AdinError<E>,
        >(read.packet_size),
        call_ensures(FifoRead::finish::<E>, (&read, Err::<(), E>(fault)), size) ==> size == Err::<
            usize,
            AdinError<E>,
        >(AdinError::Spi(fault)),
        call_ensures(WriteFifo::<'a>::size_written::<E>, (announced, Ok::<(), E>(())), next)
            ==> next is Ok,
        call_ensures(WriteFifo::<'a>::size_written::<E>, (announced, Err::<(), E>(fault)), next)
            ==> next == Err::<FifoWrite<'a>, AdinError<E>>(AdinError::Spi(fault)),
        call_ensures(FifoWrite::<'a>::finish::<E>, (&write, Ok::<(), E>(())), done) ==> done is Ok,
        call_ensures(FifoWrite::<'a>::finish::<E>, (&write, Err::<(), E>(fault)), done) ==> done
            == Err::<(), AdinError<E>>(AdinError::Spi(fault)),
{
}

} // verus!
