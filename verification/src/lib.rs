//! Driver logic for the ADIN1110, a 10BASE-T1L Ethernet MAC and PHY on an SPI
//! bus.
//!
//! The library does no input or output. Every operation is a value that says
//! which SPI transaction comes next, takes what came back, and goes on from
//! there. Whoever owns the bus performs the transactions.
use vstd::prelude::*;

pub mod bits;
pub mod buffer;
pub mod bytes;
pub mod crc32;
pub mod crc8;
pub mod fifo;
pub mod filter;
pub mod init;
pub mod mac;
pub mod mdio;
pub mod phy;
pub mod regs;
pub mod runner;

pub use crc32::ETH_FSC;
pub use crc8::crc8;
pub use fifo::{FifoRead, FifoWrite, ReadFifo, WriteFifo};
pub use filter::SetMacAddr;
pub use init::{new, Init, InitCommand, InitFault};
pub use mac::{ReadReg, SpiOp, WriteReg, ADIN1110};
pub use mdio::{MdioFrame, MdioNext, MdioPoll};
pub use phy::{RegsC22, DA1E, DA1F};
pub use regs::{Config2, SpiRegisters as sr, Status0, Status1};
pub use runner::{Notice, RunCommand, RunEvent, Runner};

verus! {

/// Identification of the chip.
pub const PHYID: u32 = 0x0283_BC91;

/// Error values ADIN1110
#[allow(non_camel_case_types)]
#[derive(Debug)]
pub enum AdinError<E> {
    /// The SPI bus reported an error.
    Spi(E),
    /// A frame could not be sent.
    SENDERROR,
    /// A frame could not be read.
    READERROR,
    /// The checksum of a register value does not match.
    CRC,
    /// The frame does not fit.
    PACKET_TOO_BIG,
    /// The frame is too short to be one.
    PACKET_TOO_SMALL,
    /// The PHY did not answer in time.
    MDIO_ACC_TIMEOUT,
}

/// What an access to the ADIN1110 gives.
pub type AEResult<T, SPIError> = core::result::Result<T, AdinError<SPIError>>;

/// Address of the PHY on the MDIO bus.
pub const MDIO_PHY_ADDR: u8 = 0x01;

/// Maximum Transmission Unit
pub const MTU: usize = 1514;

/// Max SPI/Frame buffer size
pub const MAX_BUFF: usize = 2048;

/// Fills up an SPI transfer.
pub const DONT_CARE_BYTE: u8 = 0x00;

/// Gives the device time to answer.
pub const TURN_AROUND_BYTE: u8 = 0x00;

/// Packet minimal frame/packet length
pub const ETH_MIN_LEN: usize = 64;

/// Shortest frame that is sent: two addresses and the type.
pub const ETH_HEADER_LEN: usize = 14;

/// Ethernet `Frame Check Sequence` length
pub const FSC_LEN: usize = 4;

/// SPI Header, contains SPI action and register id.
pub const SPI_HEADER_LEN: usize = 2;

/// SPI Header CRC length
pub const SPI_HEADER_CRC_LEN: usize = 1;

/// Frame header, which names the port.
pub const FRAME_HEADER_LEN: usize = 2;

/// Port of the frame: P1 = 0x00, P2 = 0x01.
pub const PORT_ID_BYTE: u8 = 0x00;

/// Capacity of a `Packet`.
pub const PACKET_LEN: usize = SPI_HEADER_LEN + FRAME_HEADER_LEN + MTU + FSC_LEN + 1 + 4;

/// Room for one frame with all that goes around it.
pub type Packet = heapless::Vec<u8, PACKET_LEN>;

} // verus!
