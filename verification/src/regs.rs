//! The register map of the ADIN1110 and the layout of its registers.
use vstd::prelude::*;

use crate::bits;

verus! {

/// Registers that are reached over SPI.
#[allow(non_camel_case_types)]
#[derive(Debug, Clone, Copy, PartialEq, Eq)]
pub enum SpiRegisters {
    /// Identification of the PHY.
    PHYID,
    /// Supported capabilities.
    CAPABILITY,
    /// Configuration 2.
    CONFIG2,
    /// Status 0.
    STATUS0,
    /// Status 1.
    STATUS1,
    /// Interrupt mask 0.
    IMASK0,
    /// Interrupt mask 1.
    IMASK1,
    /// Access to the PHY registers.
    MDIO_ACC,
    /// Size of the frame that is written next.
    TX_FSIZE,
    /// Transmit FIFO.
    TX,
    /// FIFO clear.
    FIFO_CLR,
    /// MAC address filter 0, upper part.
    ADDR_FILT_UPR0,
    /// MAC address filter 0, lower part.
    ADDR_FILT_LWR0,
    /// MAC address filter 1, upper part.
    ADDR_FILT_UPR1,
    /// MAC address filter 1, lower part.
    ADDR_FILT_LWR1,
    /// MAC address mask 0, upper part.
    ADDR_MSK_UPR0,
    /// MAC address mask 0, lower part.
    ADDR_MSK_LWR0,
    /// MAC address mask 1, upper part.
    ADDR_MSK_UPR1,
    /// MAC address mask 1, lower part.
    ADDR_MSK_LWR1,
    /// Size of the frame that is read next.
    RX_FSIZE,
    /// Receive FIFO.
    RX,
}

impl SpiRegisters {
    /// The address of the register.
    pub open spec fn spec_addr(self) -> u16 {
        match self {
            SpiRegisters::PHYID => 0x01,
            SpiRegisters::CAPABILITY => 0x02,
            SpiRegisters::CONFIG2 => 0x06,
            SpiRegisters::STATUS0 => 0x08,
            SpiRegisters::STATUS1 => 0x09,
            SpiRegisters::IMASK0 => 0x0C,
            SpiRegisters::IMASK1 => 0x0D,
            SpiRegisters::MDIO_ACC => 0x20,
            SpiRegisters::TX_FSIZE => 0x30,
            SpiRegisters::TX => 0x31,
            SpiRegisters::FIFO_CLR => 0x36,
            SpiRegisters::ADDR_FILT_UPR0 => 0x50,
            SpiRegisters::ADDR_FILT_LWR0 => 0x51,
            SpiRegisters::ADDR_FILT_UPR1 => 0x52,
            SpiRegisters::ADDR_FILT_LWR1 => 0x53,
            SpiRegisters::ADDR_MSK_UPR0 => 0x70,
            SpiRegisters::ADDR_MSK_LWR0 => 0x71,
            SpiRegisters::ADDR_MSK_UPR1 => 0x72,
            SpiRegisters::ADDR_MSK_LWR1 => 0x73,
            SpiRegisters::RX_FSIZE => 0x90,
            SpiRegisters::RX => 0x91,
        }
    }

    /// The address of the register.
    #[verifier::when_used_as_spec(spec_addr)]
    pub fn addr(self) -> (addr: u16)
        ensures
            addr == self.spec_addr(),
    {
        match self {
            SpiRegisters::PHYID => 0x01,
            SpiRegisters::CAPABILITY => 0x02,
            SpiRegisters::CONFIG2 => 0x06,
            SpiRegisters::STATUS0 => 0x08,
            SpiRegisters::STATUS1 => 0x09,
            SpiRegisters::IMASK0 => 0x0C,
            SpiRegisters::IMASK1 => 0x0D,
            SpiRegisters::MDIO_ACC => 0x20,
            SpiRegisters::TX_FSIZE => 0x30,
            SpiRegisters::TX => 0x31,
            SpiRegisters::FIFO_CLR => 0x36,
            SpiRegisters::ADDR_FILT_UPR0 => 0x50,
            SpiRegisters::ADDR_FILT_LWR0 => 0x51,
            SpiRegisters::ADDR_FILT_UPR1 => 0x52,
            SpiRegisters::ADDR_FILT_LWR1 => 0x53,
            SpiRegisters::ADDR_MSK_UPR0 => 0x70,
            SpiRegisters::ADDR_MSK_LWR0 => 0x71,
            SpiRegisters::ADDR_MSK_UPR1 => 0x72,
            SpiRegisters::ADDR_MSK_LWR1 => 0x73,
            SpiRegisters::RX_FSIZE => 0x90,
            SpiRegisters::RX => 0x91,
        }
    }
}

/// No two registers share an address, and every address fits the twelve bits
/// that the SPI header has for it.
pub proof fn law_addresses_are_distinct(a: SpiRegisters, b: SpiRegisters)
    ensures
        a.addr() < 0x1000,
        a.addr() == b.addr() ==> a == b,
{
}

/// The header of an access to `reg`: the control bit, the direction and the
/// address.
pub open spec fn header(write: bool, reg: SpiRegisters) -> u16 {
    (0x8000 + (if write { 0x2000int } else { 0 }) + reg.addr()) as u16
}

/// In the header of every access the control bit is set, the direction is bit
/// 13, the address fills the lowest twelve bits, and the other bits are zero.
pub proof fn law_header_layout(write: bool, reg: SpiRegisters)
    ensures
        header(write, reg) / 0x4000 == 2,
        header(write, reg) / 0x1000 % 4 == (if write { 2int } else { 0 }),
        header(write, reg) % 0x1000 == reg.addr(),
{
    law_addresses_are_distinct(reg, reg);
}

/// The header determines the register and the direction of the access.
pub proof fn law_header_is_unambiguous(
    write_a: bool,
    a: SpiRegisters,
    write_b: bool,
    b: SpiRegisters,
)
    requires
        header(write_a, a) == header(write_b, b),
    ensures
        write_a == write_b,
        a == b,
{
    law_addresses_are_distinct(a, b);
    law_addresses_are_distinct(b, a);
}

/// Header of an SPI message.
#[derive(Debug, Clone, Copy, PartialEq, Eq)]
pub struct SpiHeader(pub u16);

impl SpiHeader {
    /// Marks the message as a register access.
    pub fn set_control(&mut self, on: bool)
        ensures
            final(self).0 == (if on { old(self).0 | 0x8000 } else { old(self).0 & !0x8000u16 }),
    {
        if on {
            self.0 = self.0 | 0x8000;
        } else {
            self.0 = self.0 & !0x8000u16;
        }
    }

    /// Marks the access as a write.
    pub fn set_write(&mut self, on: bool)
        ensures
            final(self).0 == (if on { old(self).0 | 0x2000 } else { old(self).0 & !0x2000u16 }),
    {
        if on {
            self.0 = self.0 | 0x2000;
        } else {
            self.0 = self.0 & !0x2000u16;
        }
    }

    /// Sets the register that is accessed.
    pub fn set_addr(&mut self, reg: SpiRegisters)
        ensures
            final(self).0 == (old(self).0 & 0xF000) | (reg.addr() & 0x0FFF),
    {
        self.0 = (self.0 & 0xF000) | (reg.addr() & 0x0FFF);
    }
}

/// Puts together the header of an access to `reg`.
pub(crate) fn spi_header(write: bool, reg: SpiRegisters) -> (hdr: SpiHeader)
    ensures
        hdr.0 == header(write, reg),
{
    let mut hdr = SpiHeader(0);
    hdr.set_control(true);
    if write {
        hdr.set_write(true);
    }
    hdr.set_addr(reg);
    proof {
        law_addresses_are_distinct(reg, reg);
        let a = reg.addr();
        assert(((0u16 | 0x8000) & 0xF000) | (a & 0x0FFF) == 0x8000 + a && (((0u16 | 0x8000) | 0x2000)
            & 0xF000) | (a & 0x0FFF) == 0xA000 + a) by (bit_vector)
            requires
                a < 0x1000,
        ;
    }
    hdr
}

/// Status register 0.
#[derive(Debug, Clone, Copy, PartialEq, Eq)]
pub struct Status0(pub u32);

impl Status0 {
    /// The PHY asks for attention.
    pub fn phyint(&self) -> (on: bool)
        ensures
            on == bits::bit(self.0, 7),
    {
        bits::test_bit(self.0, 7)
    }
}

/// Status register 1.
#[derive(Debug, Clone, Copy, PartialEq, Eq)]
pub struct Status1(pub u32);

impl Status1 {
    /// ECC error on reading the frame size from the transmit FIFO.
    pub fn tx_ecc_err(&self) -> (on: bool)
        ensures
            on == bits::bit(self.0, 12),
    {
        bits::test_bit(self.0, 12)
    }

    /// Sets `tx_ecc_err`.
    pub fn set_tx_ecc_err(&mut self, on: bool)
        ensures
            final(self).0 == bits::with_bit(old(self).0, 12, on),
    {
        self.0 = bits::assign_bit(self.0, 12, on);
    }

    /// ECC error on reading the frame size from the receive FIFO.
    pub fn rx_ecc_err(&self) -> (on: bool)
        ensures
            on == bits::bit(self.0, 11),
    {
        bits::test_bit(self.0, 11)
    }

    /// Sets `rx_ecc_err`.
    pub fn set_rx_ecc_err(&mut self, on: bool)
        ensures
            final(self).0 == bits::with_bit(old(self).0, 11, on),
    {
        self.0 = bits::assign_bit(self.0, 11, on);
    }

    /// Error on an SPI transaction.
    pub fn spi_err(&self) -> (on: bool)
        ensures
            on == bits::bit(self.0, 10),
    {
        bits::test_bit(self.0, 10)
    }

    /// Sets `spi_err`.
    pub fn set_spi_err(&mut self, on: bool)
        ensures
            final(self).0 == bits::with_bit(old(self).0, 10, on),
    {
        self.0 = bits::assign_bit(self.0, 10, on);
    }

    /// The receive FIFO of port 1 holds a frame.
    pub fn p1_rx_rdy(&self) -> (on: bool)
        ensures
            on == bits::bit(self.0, 4),
    {
        bits::test_bit(self.0, 4)
    }

    /// A transmission has ended.
    pub fn tx_rdy(&self) -> (on: bool)
        ensures
            on == bits::bit(self.0, 3),
    {
        bits::test_bit(self.0, 3)
    }

    /// Sets `tx_rdy`.
    pub fn set_tx_rdy(&mut self, on: bool)
        ensures
            final(self).0 == bits::with_bit(old(self).0, 3, on),
    {
        self.0 = bits::assign_bit(self.0, 3, on);
    }

    /// The link went up or down.
    pub fn link_change(&self) -> (on: bool)
        ensures
            on == bits::bit(self.0, 1),
    {
        bits::test_bit(self.0, 1)
    }

    /// Sets `link_change`.
    pub fn set_link_change(&mut self, on: bool)
        ensures
            final(self).0 == bits::with_bit(old(self).0, 1, on),
    {
        self.0 = bits::assign_bit(self.0, 1, on);
    }

    /// The link of port 1 is up.
    pub fn p1_link_status(&self) -> (on: bool)
        ensures
            on == bits::bit(self.0, 0),
    {
        bits::test_bit(self.0, 0)
    }
}

/// Configuration register 2.
#[derive(Debug, Clone, Copy, PartialEq, Eq)]
pub struct Config2(pub u32);

impl Config2 {
    /// Lets the MAC append the frame check sequence.
    pub fn set_crc_append(&mut self, on: bool)
        ensures
            final(self).0 == bits::with_bit(old(self).0, 5, on),
    {
        self.0 = bits::assign_bit(self.0, 5, on);
    }
}

/// Interrupt mask register 0. A set bit holds its interrupt back.
#[derive(Debug, Clone, Copy, PartialEq, Eq)]
pub struct IMask0(pub u32);

impl IMask0 {
    /// Masks transmit frame check sequence errors.
    pub fn set_txfcsem(&mut self, on: bool)
        ensures
            final(self).0 == bits::with_bit(old(self).0, 11, on),
    {
        self.0 = bits::assign_bit(self.0, 11, on);
    }

    /// Masks the interrupt of the PHY.
    pub fn set_phyintm(&mut self, on: bool)
        ensures
            final(self).0 == bits::with_bit(old(self).0, 7, on),
    {
        self.0 = bits::assign_bit(self.0, 7, on);
    }

    /// Masks receive buffer overflows.
    pub fn set_rxboem(&mut self, on: bool)
        ensures
            final(self).0 == bits::with_bit(old(self).0, 3, on),
    {
        self.0 = bits::assign_bit(self.0, 3, on);
    }

    /// Masks transmit buffer overflows.
    pub fn set_txboem(&mut self, on: bool)
        ensures
            final(self).0 == bits::with_bit(old(self).0, 1, on),
    {
        self.0 = bits::assign_bit(self.0, 1, on);
    }

    /// Masks transmit protocol errors.
    pub fn set_txpem(&mut self, on: bool)
        ensures
            final(self).0 == bits::with_bit(old(self).0, 0, on),
    {
        self.0 = bits::assign_bit(self.0, 0, on);
    }
}

/// Interrupt mask register 1. A set bit holds its interrupt back.
#[derive(Debug, Clone, Copy, PartialEq, Eq)]
pub struct IMask1(pub u32);

impl IMask1 {
    /// Masks ECC errors of the transmit FIFO.
    pub fn set_tx_ecc_err_mask(&mut self, on: bool)
        ensures
            final(self).0 == bits::with_bit(old(self).0, 12, on),
    {
        self.0 = bits::assign_bit(self.0, 12, on);
    }

    /// Masks ECC errors of the receive FIFO.
    pub fn set_rx_ecc_err_mask(&mut self, on: bool)
        ensures
            final(self).0 == bits::with_bit(old(self).0, 11, on),
    {
        self.0 = bits::assign_bit(self.0, 11, on);
    }

    /// Masks errors on SPI transactions.
    pub fn set_spi_err_mask(&mut self, on: bool)
        ensures
            final(self).0 == bits::with_bit(old(self).0, 10, on),
    {
        self.0 = bits::assign_bit(self.0, 10, on);
    }

    /// Masks received frames.
    pub fn set_p1_rx_rdy_mask(&mut self, on: bool)
        ensures
            final(self).0 == bits::with_bit(old(self).0, 4, on),
    {
        self.0 = bits::assign_bit(self.0, 4, on);
    }

    /// Masks link changes.
    pub fn set_link_change_mask(&mut self, on: bool)
        ensures
            final(self).0 == bits::with_bit(old(self).0, 1, on),
    {
        self.0 = bits::assign_bit(self.0, 1, on);
    }
}

/// What an LED shows.
#[derive(Debug, Clone, Copy, PartialEq, Eq)]
pub enum LedFunc {
    /// The link is up; blinks on activity in either direction.
    LinkupTxRxActicity,
    /// The transmit level is 2.4 V.
    TxLevel2P4,
}

impl LedFunc {
    /// The code of the function in the LED control register.
    pub open spec fn spec_code(self) -> u16 {
        match self {
            LedFunc::LinkupTxRxActicity => 0,
            LedFunc::TxLevel2P4 => 16,
        }
    }

    /// The code of the function in the LED control register.
    #[verifier::when_used_as_spec(spec_code)]
    pub fn code(self) -> (code: u16)
        ensures
            code == self.spec_code(),
    {
        match self {
            LedFunc::LinkupTxRxActicity => 0,
            LedFunc::TxLevel2P4 => 16,
        }
    }
}

/// LED control register.
#[derive(Debug, Clone, Copy, PartialEq, Eq)]
pub struct LedCntrl(pub u16);

impl LedCntrl {
    /// Turns LED 1 on or off.
    pub fn set_led1_en(&mut self, on: bool)
        ensures
            final(self).0 == (if on { old(self).0 | 0x8000 } else { old(self).0 & !0x8000u16 }),
    {
        if on {
            self.0 = self.0 | 0x8000;
        } else {
            self.0 = self.0 & !0x8000u16;
        }
    }

    /// Sets what LED 1 shows.
    pub fn set_led1_function(&mut self, func: LedFunc)
        ensures
            final(self).0 == (old(self).0 & !0x1F00u16) | ((func.code() & 0x1F) << 8),
    {
        self.0 = (self.0 & !0x1F00u16) | ((func.code() & 0x1F) << 8);
    }

    /// Turns LED 0 on or off.
    pub fn set_led0_en(&mut self, on: bool)
        ensures
            final(self).0 == (if on { old(self).0 | 0x0080 } else { old(self).0 & !0x0080u16 }),
    {
        if on {
            self.0 = self.0 | 0x0080;
        } else {
            self.0 = self.0 & !0x0080u16;
        }
    }

    /// Sets what LED 0 shows.
    pub fn set_led0_function(&mut self, func: LedFunc)
        ensures
            final(self).0 == (old(self).0 & !0x001Fu16) | (func.code() & 0x1F),
    {
        self.0 = (self.0 & !0x001Fu16) | (func.code() & 0x1F);
    }
}

/// Polarity of an LED pin.
#[derive(Debug, Clone, Copy, PartialEq, Eq)]
pub enum LedPol {
    /// The polarity is found out by the device.
    AutoSense,
    /// The pin is driven high to light the LED.
    ActiveHigh,
    /// The pin is pulled low to light the LED.
    ActiveLow,
}

impl LedPol {
    /// The code of the polarity in the LED polarity register.
    pub open spec fn spec_code(self) -> u16 {
        match self {
            LedPol::AutoSense => 0,
            LedPol::ActiveHigh => 1,
            LedPol::ActiveLow => 2,
        }
    }

    /// The code of the polarity in the LED polarity register.
    #[verifier::when_used_as_spec(spec_code)]
    pub fn code(self) -> (code: u16)
        ensures
            code == self.spec_code(),
    {
        match self {
            LedPol::AutoSense => 0,
            LedPol::ActiveHigh => 1,
            LedPol::ActiveLow => 2,
        }
    }
}

/// LED polarity register.
#[derive(Debug, Clone, Copy, PartialEq, Eq)]
pub struct LedPolarity(pub u16);

impl LedPolarity {
    /// Sets the polarity of LED 1.
    pub fn set_led1_polarity(&mut self, pol: LedPol)
        ensures
            final(self).0 == (old(self).0 & !0x000Cu16) | ((pol.code() & 0x03) << 2),
    {
        self.0 = (self.0 & !0x000Cu16) | ((pol.code() & 0x03) << 2);
    }

    /// Sets the polarity of LED 0.
    pub fn set_led0_polarity(&mut self, pol: LedPol)
        ensures
            final(self).0 == (old(self).0 & !0x0003u16) | (pol.code() & 0x03),
    {
        self.0 = (self.0 & !0x0003u16) | (pol.code() & 0x03);
    }
}

/// Which register is found at which address.
pub proof fn law_register_map(reg: SpiRegisters, addr: u16)
    requires
        call_ensures(SpiRegisters::addr, (reg,), addr),
    ensures
        reg is PHYID <==> addr == 0x01,
        reg is CAPABILITY <==> addr == 0x02,
        reg is CONFIG2 <==> addr == 0x06,
        reg is STATUS0 <==> addr == 0x08,
        reg is STATUS1 <==> addr == 0x09,
        reg is IMASK0 <==> addr == 0x0C,
        reg is IMASK1 <==> addr == 0x0D,
        reg is MDIO_ACC <==> addr == 0x20,
        reg is TX_FSIZE <==> addr == 0x30,
        reg is TX <==> addr == 0x31,
        reg is FIFO_CLR <==> addr == 0x36,
        reg is ADDR_FILT_UPR0 <==> addr == 0x50,
        reg is ADDR_FILT_LWR0 <==> addr == 0x51,
        reg is ADDR_FILT_UPR1 <==> addr == 0x52,
        reg is ADDR_FILT_LWR1 <==> addr == 0x53,
        reg is ADDR_MSK_UPR0 <==> addr == 0x70,
        reg is ADDR_MSK_LWR0 <==> addr == 0x71,
        reg is ADDR_MSK_UPR1 <==> addr == 0x72,
        reg is ADDR_MSK_LWR1 <==> addr == 0x73,
        reg is RX_FSIZE <==> addr == 0x90,
        reg is RX <==> addr == 0x91,
{
}

/// Which binary digit of its register each flag of the status registers is.
pub proof fn law_status_flags(status0: Status0, status1: Status1, on: bool)
    ensures
        call_ensures(Status0::phyint, (&status0,), on) ==> on == (status0.0 / 0x80 % 2 == 1),
        call_ensures(Status1::tx_ecc_err, (&status1,), on) ==> on == (status1.0 / 0x1000 % 2 == 1),
        call_ensures(Status1::rx_ecc_err, (&status1,), on) ==> on == (status1.0 / 0x800 % 2 == 1),
        call_ensures(Status1::spi_err, (&status1,), on) ==> on == (status1.0 / 0x400 % 2 == 1),
        call_ensures(Status1::p1_rx_rdy, (&status1,), on) ==> on == (status1.0 / 0x10 % 2 == 1),
        call_ensures(Status1::tx_rdy, (&status1,), on) ==> on == (status1.0 / 8 % 2 == 1),
        call_ensures(Status1::link_change, (&status1,), on) ==> on == (status1.0 / 2 % 2 == 1),
        call_ensures(Status1::p1_link_status, (&status1,), on) ==> on == (status1.0 % 2 == 1),
{
    bits::lemma_digits(status0.0);
    bits::lemma_digits(status1.0);
}

/// `after` is `before` with bit `at` set to `on`, as far as bit `index` shows.
pub open spec fn only_sets(before: u32, after: u32, at: u32, on: bool, index: u32) -> bool {
    ((after >> index) % 2 == 1) == (if index == at {
        on
    } else {
        (before >> index) % 2 == 1
    })
}

proof fn lemma_only_sets(value: u32, at: u32, on: bool, index: u32)
    requires
        at < 32,
        index < 32,
    ensures
        only_sets(value, bits::with_bit(value, at, on), at, on, index),
{
    bits::law_with_bit_touches_one_bit(value, at, on, index);
    bits::law_bit_is_binary_digit(value, index);
    bits::law_bit_is_binary_digit(bits::with_bit(value, at, on), index);
}

/// Every setter of status 1 writes its own bit and leaves the others as they
/// were.
pub proof fn law_status_1_setters(reg: &mut Status1, on: bool, index: u32)
    requires
        index < 32,
    ensures
        call_ensures(Status1::set_tx_ecc_err, (reg, on), ()) ==> only_sets(
            old(reg).0,
            final(reg).0,
            12,
            on,
            index,
        ),
        call_ensures(Status1::set_rx_ecc_err, (reg, on), ()) ==> only_sets(
            old(reg).0,
            final(reg).0,
            11,
            on,
            index,
        ),
        call_ensures(Status1::set_spi_err, (reg, on), ()) ==> only_sets(
            old(reg).0,
            final(reg).0,
            10,
            on,
            index,
        ),
        call_ensures(Status1::set_tx_rdy, (reg, on), ()) ==> only_sets(
            old(reg).0,
            final(reg).0,
            3,
            on,
            index,
        ),
        call_ensures(Status1::set_link_change, (reg, on), ()) ==> only_sets(
            old(reg).0,
            final(reg).0,
            1,
            on,
            index,
        ),
{
    lemma_only_sets(old(reg).0, 12, on, index);
    lemma_only_sets(old(reg).0, 11, on, index);
    lemma_only_sets(old(reg).0, 10, on, index);
    lemma_only_sets(old(reg).0, 3, on, index);
    lemma_only_sets(old(reg).0, 1, on, index);
}

/// The setter of configuration 2 writes bit 5 and leaves the others as they were.
pub proof fn law_config_2_setter(reg: &mut Config2, on: bool, index: u32)
    requires
        index < 32,
    ensures
        call_ensures(Config2::set_crc_append, (reg, on), ()) ==> only_sets(
            old(reg).0,
            final(reg).0,
            5,
            on,
            index,
        ),
{
    lemma_only_sets(old(reg).0, 5, on, index);
}

/// Every setter of interrupt mask 0 writes its own bit and leaves the others as
/// they were.
pub proof fn law_interrupt_mask_0_setters(reg: &mut IMask0, on: bool, index: u32)
    requires
        index < 32,
    ensures
        call_ensures(IMask0::set_txfcsem, (reg, on), ()) ==> only_sets(
            old(reg).0,
            final(reg).0,
            11,
            on,
            index,
        ),
        call_ensures(IMask0::set_phyintm, (reg, on), ()) ==> only_sets(
            old(reg).0,
            final(reg).0,
            7,
            on,
            index,
        ),
        call_ensures(IMask0::set_rxboem, (reg, on), ()) ==> only_sets(
            old(reg).0,
            final(reg).0,
            3,
            on,
            index,
        ),
        call_ensures(IMask0::set_txboem, (reg, on), ()) ==> only_sets(
            old(reg).0,
            final(reg).0,
            1,
            on,
            index,
        ),
        call_ensures(IMask0::set_txpem, (reg, on), ()) ==> only_sets(
            old(reg).0,
            final(reg).0,
            0,
            on,
            index,
        ),
{
    lemma_only_sets(old(reg).0, 11, on, index);
    lemma_only_sets(old(reg).0, 7, on, index);
    lemma_only_sets(old(reg).0, 3, on, index);
    lemma_only_sets(old(reg).0, 1, on, index);
    lemma_only_sets(old(reg).0, 0, on, index);
}

/// Every setter of interrupt mask 1 writes its own bit and leaves the others as
/// they were.
pub proof fn law_interrupt_mask_1_setters(reg: &mut IMask1, on: bool, index: u32)
    requires
        index < 32,
    ensures
        call_ensures(IMask1::set_tx_ecc_err_mask, (reg, on), ()) ==> only_sets(
            old(reg).0,
            final(reg).0,
            12,
            on,
            index,
        ),
        call_ensures(IMask1::set_rx_ecc_err_mask, (reg, on), ()) ==> only_sets(
            old(reg).0,
            final(reg).0,
            11,
            on,
            index,
        ),
        call_ensures(IMask1::set_spi_err_mask, (reg, on), ()) ==> only_sets(
            old(reg).0,
            final(reg).0,
            10,
            on,
            index,
        ),
        call_ensures(IMask1::set_p1_rx_rdy_mask, (reg, on), ()) ==> only_sets(
            old(reg).0,
            final(reg).0,
            4,
            on,
            index,
        ),
        call_ensures(IMask1::set_link_change_mask, (reg, on), ()) ==> only_sets(
            old(reg).0,
            final(reg).0,
            1,
            on,
            index,
        ),
{
    lemma_only_sets(old(reg).0, 12, on, index);
    lemma_only_sets(old(reg).0, 11, on, index);
    lemma_only_sets(old(reg).0, 10, on, index);
    lemma_only_sets(old(reg).0, 4, on, index);
    lemma_only_sets(old(reg).0, 1, on, index);
}

/// `after` is `before` with `code` in the field that starts at the weight `unit`
/// and takes `size` values.
pub open spec fn only_fills(before: u16, after: u16, unit: int, size: int, code: int) -> bool {
    &&& after as int / (unit * size) == before as int / (unit * size)
    &&& after as int / unit % size == code
    &&& after as int % unit == before as int % unit
}

proof fn lemma_fields(v: u16, code: u16)
    by (bit_vector)
    ensures
        (v | 0x8000) / 0x8000 == 1,
        (v | 0x8000) % 0x8000 == v % 0x8000,
        (v & !0x8000u16) == v % 0x8000,
        (v | 0x2000) / 0x4000 == v / 0x4000,
        (v | 0x2000) / 0x2000 % 2 == 1,
        (v | 0x2000) % 0x2000 == v % 0x2000,
        (v & !0x2000u16) / 0x4000 == v / 0x4000,
        (v & !0x2000u16) / 0x2000 % 2 == 0,
        (v & !0x2000u16) % 0x2000 == v % 0x2000,
        (v | 0x80) / 0x100 == v / 0x100,
        (v | 0x80) / 0x80 % 2 == 1,
        (v | 0x80) % 0x80 == v % 0x80,
        (v & !0x80u16) / 0x100 == v / 0x100,
        (v & !0x80u16) / 0x80 % 2 == 0,
        (v & !0x80u16) % 0x80 == v % 0x80,
        code < 0x1000 ==> ((v & 0xF000) | (code & 0x0FFF)) / 0x1000 == v / 0x1000,
        code < 0x1000 ==> ((v & 0xF000) | (code & 0x0FFF)) % 0x1000 == code,
        code < 32 ==> ((v & !0x1F00u16) | ((code & 0x1F) << 8)) / 0x2000 == v / 0x2000,
        code < 32 ==> ((v & !0x1F00u16) | ((code & 0x1F) << 8)) / 0x100 % 32 == code,
        code < 32 ==> ((v & !0x1F00u16) | ((code & 0x1F) << 8)) % 0x100 == v % 0x100,
        code < 32 ==> ((v & !0x001Fu16) | (code & 0x1F)) / 32 == v / 32,
        code < 32 ==> ((v & !0x001Fu16) | (code & 0x1F)) % 32 == code,
        code < 4 ==> ((v & !0x000Cu16) | ((code & 0x03) << 2)) / 16 == v / 16,
        code < 4 ==> ((v & !0x000Cu16) | ((code & 0x03) << 2)) / 4 % 4 == code,
        code < 4 ==> ((v & !0x000Cu16) | ((code & 0x03) << 2)) % 4 == v % 4,
        code < 4 ==> ((v & !0x0003u16) | (code & 0x03)) / 4 == v / 4,
        code < 4 ==> ((v & !0x0003u16) | (code & 0x03)) % 4 == code,
{
}

/// Every setter of a header writes its own field and leaves the rest as it was.
pub proof fn law_header_setters(header: &mut SpiHeader, on: bool, reg: SpiRegisters)
    ensures
        call_ensures(SpiHeader::set_control, (header, on), ()) ==> only_fills(
            old(header).0,
            final(header).0,
            0x8000,
            2,
            if on { 1 } else { 0 },
        ),
        call_ensures(SpiHeader::set_write, (header, on), ()) ==> only_fills(
            old(header).0,
            final(header).0,
            0x2000,
            2,
            if on { 1 } else { 0 },
        ),
        call_ensures(SpiHeader::set_addr, (header, reg), ()) ==> only_fills(
            old(header).0,
            final(header).0,
            1,
            0x1000,
            reg.addr() as int,
        ),
{
    law_addresses_are_distinct(reg, reg);
    lemma_fields(old(header).0, reg.addr());
}

/// Every setter of the LED control register writes its own field and leaves the
/// rest as it was.
pub proof fn law_led_control_setters(reg: &mut LedCntrl, on: bool, func: LedFunc)
    ensures
        call_ensures(LedCntrl::set_led1_en, (reg, on), ()) ==> only_fills(
            old(reg).0,
            final(reg).0,
            0x8000,
            2,
            if on { 1 } else { 0 },
        ),
        call_ensures(LedCntrl::set_led1_function, (reg, func), ()) ==> only_fills(
            old(reg).0,
            final(reg).0,
            0x100,
            32,
            if func is TxLevel2P4 { 16 } else { 0 },
        ),
        call_ensures(LedCntrl::set_led0_en, (reg, on), ()) ==> only_fills(
            old(reg).0,
            final(reg).0,
            0x80,
            2,
            if on { 1 } else { 0 },
        ),
        call_ensures(LedCntrl::set_led0_function, (reg, func), ()) ==> only_fills(
            old(reg).0,
            final(reg).0,
            1,
            32,
            if func is TxLevel2P4 { 16 } else { 0 },
        ),
{
    lemma_fields(old(reg).0, func.code());
}

/// Every setter of the LED polarity register writes its own field and leaves the
/// rest as it was.
pub proof fn law_led_polarity_setters(reg: &mut LedPolarity, pol: LedPol)
    ensures
        ({
            let code = if pol is ActiveHigh {
                1int
            } else if pol is ActiveLow {
                2
            } else {
                0
            };
            &&& call_ensures(LedPolarity::set_led1_polarity, (reg, pol), ()) ==> only_fills(
                old(reg).0,
                final(reg).0,
                4,
                4,
                code,
            )
            &&& call_ensures(LedPolarity::set_led0_polarity, (reg, pol), ()) ==> only_fills(
                old(reg).0,
                final(reg).0,
                1,
                4,
                code,
            )
        }),
{
    lemma_fields(old(reg).0, pol.code());
}

} // verus!
