//! The MAC address filter.
use vstd::prelude::*;

use crate::buffer::Contents;
use crate::bytes;
use crate::mac;
use crate::mac::{WriteReg, ADIN1110};
use crate::regs::SpiRegisters;
use crate::{AEResult, AdinError};

verus! {

/// How many registers make up the filter.
pub const FILTER_LEN: usize = 8;

/// In the upper part of a filter entry: the entry counts for port 1, and frames
/// that match go to the host.
pub const FILTER_TO_HOST: u32 = 0x4001_0000;

/// The filter for the address `mac`, as the registers are written: an entry and
/// a mask for the address, and the same for broadcast.
pub open spec fn filter(mac: Seq<u8>) -> Seq<(SpiRegisters, u32)> {
    let high = bytes::be16_value(mac.take(2)) as u32;
    let low = bytes::be32_value(mac.skip(2));
    seq![
        (SpiRegisters::ADDR_FILT_UPR0, (FILTER_TO_HOST + high) as u32),
        (SpiRegisters::ADDR_FILT_LWR0, low),
        (SpiRegisters::ADDR_MSK_UPR0, high),
        (SpiRegisters::ADDR_MSK_LWR0, low),
        (SpiRegisters::ADDR_FILT_UPR1, (FILTER_TO_HOST + 0xFFFF) as u32),
        (SpiRegisters::ADDR_FILT_LWR1, 0xFFFF_FFFF),
        (SpiRegisters::ADDR_MSK_UPR1, 0xFFFF),
        (SpiRegisters::ADDR_MSK_LWR1, 0xFFFF_FFFF),
    ]
}

/// The filter is being written.
#[derive(Debug, Clone, Copy)]
pub struct SetMacAddr {
    /// The address.
    pub mac: [u8; 6],
    /// Checksums are in use.
    pub crc: bool,
    /// How many registers have been written.
    pub at: usize,
}

impl<SPI> ADIN1110<SPI> {
    /// Programs the mac address in the mac filters, and the broadcast address.
    /// The chip supports 2 priority queues; that mode is not used.
    pub fn set_mac_addr(&self, mac: &[u8; 6]) -> (op: SetMacAddr)
        ensures
            op.mac == *mac,
            op.crc == self.crc(),
            op.at == 0,
    {
        SetMacAddr { mac: *mac, crc: self.crc(), at: 0 }
    }
}

impl SetMacAddr {
    /// The register that is written next, and its value.
    pub open spec fn pending(self) -> Option<(SpiRegisters, u32)> {
        if self.at < FILTER_LEN {
            Some(filter(self.mac@)[self.at as int])
        } else {
            None
        }
    }

    /// The write that comes next; none when the filter is complete.
    pub fn request(&self) -> (op: Option<WriteReg>)
        ensures
            match self.pending() {
                None => op is None,
                Some((reg, value)) => {
                    &&& op matches Some(w)
                    &&& w.tx.contents() == mac::write_request(self.crc, reg, value)
                },
            },
    {
        let high: u32 = bytes::be16_from(self.mac[0], self.mac[1]) as u32;
        let low: u32 = bytes::be32_from(self.mac[2], self.mac[3], self.mac[4], self.mac[5]);
        assert(seq![self.mac@[0], self.mac@[1]] =~= self.mac@.take(2));
        assert(seq![self.mac@[2], self.mac@[3], self.mac@[4], self.mac@[5]] =~= self.mac@.skip(2));
        let upper: u32 = (1u32 << 16) | (1u32 << 30) | high;
        let upper_broadcast: u32 = (1u32 << 16) | (1u32 << 30) | 0xFFFF;
        assert((1u32 << 16) | (1u32 << 30) | high == 0x4001_0000 + high && (1u32 << 16) | (1u32
            << 30) | 0xFFFF == 0x4001_FFFF) by (bit_vector)
            requires
                high <= 0xFFFF,
        ;
        let (reg, value) = match self.at {
            0 => (SpiRegisters::ADDR_FILT_UPR0, upper),
            1 => (SpiRegisters::ADDR_FILT_LWR0, low),
            2 => (SpiRegisters::ADDR_MSK_UPR0, high),
            3 => (SpiRegisters::ADDR_MSK_LWR0, low),
            4 => (SpiRegisters::ADDR_FILT_UPR1, upper_broadcast),
            5 => (SpiRegisters::ADDR_FILT_LWR1, 0xFFFF_FFFFu32),
            6 => (SpiRegisters::ADDR_MSK_UPR1, 0xFFFFu32),
            7 => (SpiRegisters::ADDR_MSK_LWR1, 0xFFFF_FFFFu32),
            _ => {
                return None;
            },
        };
        Some(WriteReg { tx: mac::write_message(self.crc, reg, value) })
    }

    /// The filter with one more register written.
    pub open spec fn advanced(self) -> SetMacAddr {
        SetMacAddr {
            mac: self.mac,
            crc: self.crc,
            at: if self.at < FILTER_LEN {
                (self.at + 1) as usize
            } else {
                self.at
            },
        }
    }

    /// Takes how the write ended. The first one that fails ends the whole.
    pub fn written<E>(self, reply: Result<(), E>) -> (op: AEResult<SetMacAddr, E>)
        ensures
            op == (match mac::write_reply(reply) {
                Err(e) => Err::<SetMacAddr, AdinError<E>>(e),
                Ok(_) => Ok::<SetMacAddr, AdinError<E>>(self.advanced()),
            }),
    {
        match reply {
            Err(e) => Err(AdinError::Spi(e)),
            Ok(()) => {
                let at: usize = if self.at < FILTER_LEN {
                    self.at + 1
                } else {
                    self.at
                };
                Ok(SetMacAddr { mac: self.mac, crc: self.crc, at })
            },
        }
    }

    /// The state after `count` writes that went well.
    pub open spec fn after(self, count: nat) -> SetMacAddr
        decreases count,
    {
        if count == 0 {
            self
        } else {
            self.after((count - 1) as nat).advanced()
        }
    }

    /// What the first `count` steps write, when all of them go well.
    pub open spec fn sent(self, count: nat) -> Seq<(SpiRegisters, u32)>
        decreases count,
    {
        if count == 0 {
            Seq::empty()
        } else {
            let before = self.sent((count - 1) as nat);
            match self.after((count - 1) as nat).pending() {
                Some(write) => before.push(write),
                None => before,
            }
        }
    }
}

/// When no write fails, the registers of the filter are written one after the
/// other, each once and in order, and then nothing is left to do.
pub proof fn law_filter_is_written_in_order(start: SetMacAddr, count: nat)
    requires
        start.at == 0,
        count <= FILTER_LEN,
    ensures
        start.sent(count) == filter(start.mac@).take(count as int),
        start.sent(FILTER_LEN as nat) == filter(start.mac@),
        start.after(FILTER_LEN as nat).pending() is None,
{
    lemma_sent(start, count);
    lemma_sent(start, FILTER_LEN as nat);
    assert(filter(start.mac@).take(FILTER_LEN as int) =~= filter(start.mac@));
}

proof fn lemma_sent(start: SetMacAddr, count: nat)
    requires
        start.at == 0,
        count <= FILTER_LEN,
    ensures
        start.after(count).at == count,
        start.after(count).mac == start.mac,
        start.after(count).crc == start.crc,
        start.sent(count) == filter(start.mac@).take(count as int),
    decreases count,
{
    let whole = filter(start.mac@);
    if count > 0 {
        lemma_sent(start, (count - 1) as nat);
        assert(whole.take(count - 1).push(whole[count - 1]) =~= whole.take(count as int));
    } else {
        assert(whole.take(0) =~= Seq::empty());
    }
}

/// The filter holds the address and its mask, and the broadcast address and its
/// mask, byte for byte.
pub proof fn law_filter_holds_the_addresses(mac: Seq<u8>)
    requires
        mac.len() == 6,
    ensures
        ({
            let f = filter(mac);
            let broadcast = seq![0xFFu8, 0xFF, 0xFF, 0xFF, 0xFF, 0xFF];
            &&& bytes::be16((f[0].1 - FILTER_TO_HOST) as u16) + bytes::be32(f[1].1) == mac
            &&& bytes::be16(f[2].1 as u16) + bytes::be32(f[3].1) == mac
            &&& bytes::be16((f[4].1 - FILTER_TO_HOST) as u16) + bytes::be32(f[5].1) == broadcast
            &&& bytes::be16(f[6].1 as u16) + bytes::be32(f[7].1) == broadcast
        }),
{
    let broadcast = seq![0xFFu8, 0xFF, 0xFF, 0xFF, 0xFF, 0xFF];
    bytes::lemma_be16_value_round_trip(mac.take(2));
    bytes::lemma_be32_value_round_trip(mac.skip(2));
    assert(mac.take(2) + mac.skip(2) =~= mac);
    assert(bytes::be16(0xFFFF) + bytes::be32(0xFFFF_FFFF) =~= broadcast);
}

/// Setting an address writes eight registers, one after the other: for every
/// address the entry at 0x50 and 0x51 and the mask at 0x70 and 0x71 hold its six
/// bytes, those at 0x52, 0x53, 0x72 and 0x73 hold six bytes of ones, and the upper
/// part of each entry has bits 30 and 16 set beside its two bytes.
pub proof fn law_filter_registers<SPI>(mac: ADIN1110<SPI>, addr: [u8; 6], op: SetMacAddr)
    requires
        call_ensures(ADIN1110::<SPI>::set_mac_addr, (&mac, &addr), op),
    ensures
        op.crc == mac.crc(),
        ({
            let w = op.sent(8);
            let upper = addr@[0] * 0x100 + addr@[1];
            let lower = addr@[2] * 0x100_0000 + addr@[3] * 0x1_0000 + addr@[4] * 0x100 + addr@[5];
            &&& w.len() == 8
            &&& w[0].0.addr() == 0x50 && w[0].1 == 0x4001_0000 + upper
            &&& w[1].0.addr() == 0x51 && w[1].1 == lower
            &&& w[2].0.addr() == 0x70 && w[2].1 == upper
            &&& w[3].0.addr() == 0x71 && w[3].1 == lower
            &&& w[4].0.addr() == 0x52 && w[4].1 == 0x4001_FFFF
            &&& w[5].0.addr() == 0x53 && w[5].1 == 0xFFFF_FFFF
            &&& w[6].0.addr() == 0x72 && w[6].1 == 0xFFFF
            &&& w[7].0.addr() == 0x73 && w[7].1 == 0xFFFF_FFFF
        }),
        op.after(8).pending() is None,
{
    law_filter_is_written_in_order(op, 8);
    bytes::lemma_be16_value_round_trip(addr@.take(2));
    bytes::lemma_be32_value_round_trip(addr@.skip(2));
}

/// While registers are left, the request is the write of the next one with its
/// value; then there is none.
pub proof fn law_filter_requests(start: SetMacAddr, count: nat, request: Option<WriteReg>)
    requires
        start.at == 0,
        count <= 8,
        call_ensures(SetMacAddr::request, (&start.after(count),), request),
    ensures
        count < 8 ==> {
            &&& request matches Some(write)
            &&& mac::stores(
                write.tx.contents(),
                start.crc,
                start.sent(8)[count as int].0.addr() as int,
                start.sent(8)[count as int].1 as int,
            )
        },
        count == 8 ==> request is None,
{
    lemma_sent(start, count);
    law_filter_is_written_in_order(start, count);
    let (reg, value) = filter(start.mac@)[count as int];
    mac::lemma_write_request(start.crc, reg, value);
}

/// A write that goes well leads to the next register, with the address and the
/// use of checksums kept; one that fails ends the whole with the error of the
/// bus.
pub proof fn law_filter_goes_on<E>(
    start: SetMacAddr,
    count: nat,
    fault: E,
    next: AEResult<SetMacAddr, E>,
)
    requires
        start.at == 0,
        count < 8,
    ensures
        call_ensures(SetMacAddr::written::<E>, (start.after(count), Ok::<(), E>(())), next) ==> {
            &&& next matches Ok(op)
            &&& op.at == count + 1
            &&& op.mac == start.mac
            &&& op.crc == start.crc
        },
        call_ensures(SetMacAddr::written::<E>, (start.after(count), Err::<(), E>(fault)), next)
            ==> next == Err::<SetMacAddr, AdinError<E>>(AdinError::Spi(fault)),
{
    lemma_sent(start, count);
}

} // verus!
