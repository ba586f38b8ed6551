//! The registers of the PHY that the driver uses.
use vstd::prelude::*;

verus! {

/// Clause 22 registers.
#[allow(non_camel_case_types)]
#[derive(Debug, Clone, Copy, PartialEq, Eq)]
pub enum RegsC22 {
    /// MII control.
    CONTROL,
}

impl RegsC22 {
    /// The address of the register.
    pub open spec fn spec_addr(self) -> u8 {
        match self {
            RegsC22::CONTROL => 0x00,
        }
    }

    /// The address of the register.
    #[verifier::when_used_as_spec(spec_addr)]
    pub fn addr(self) -> (addr: u8)
        ensures
            addr == self.spec_addr(),
    {
        match self {
            RegsC22::CONTROL => 0x00,
        }
    }
}

/// Clause 45 registers of device 0x1E.
#[allow(non_camel_case_types)]
#[derive(Debug, Clone, Copy, PartialEq, Eq)]
pub enum DA1E {
    /// System interrupt status.
    CRSM_IRQ_STATUS,
    /// Functions of the digital pins.
    DIGIO_PINMUX,
    /// LED control.
    LED_CNTRL,
    /// LED polarity.
    LED_POLARITY,
}

impl DA1E {
    /// Device and register.
    pub open spec fn spec_addr(self) -> (u8, u16) {
        match self {
            DA1E::CRSM_IRQ_STATUS => (0x1E, 0x0010),
            DA1E::DIGIO_PINMUX => (0x1E, 0x8C56),
            DA1E::LED_CNTRL => (0x1E, 0x8C82),
            DA1E::LED_POLARITY => (0x1E, 0x8C83),
        }
    }

    /// Device and register.
    #[verifier::when_used_as_spec(spec_addr)]
    pub fn addr(self) -> (addr: (u8, u16))
        ensures
            addr == self.spec_addr(),
    {
        match self {
            DA1E::CRSM_IRQ_STATUS => (0x1E, 0x0010),
            DA1E::DIGIO_PINMUX => (0x1E, 0x8C56),
            DA1E::LED_CNTRL => (0x1E, 0x8C82),
            DA1E::LED_POLARITY => (0x1E, 0x8C83),
        }
    }
}

/// Clause 45 registers of device 0x1F.
#[allow(non_camel_case_types)]
#[derive(Debug, Clone, Copy, PartialEq, Eq)]
pub enum DA1F {
    /// PHY subsystem interrupt status.
    PHY_SYBSYS_IRQ_STATUS,
}

impl DA1F {
    /// Device and register.
    pub open spec fn spec_addr(self) -> (u8, u16) {
        match self {
            DA1F::PHY_SYBSYS_IRQ_STATUS => (0x1F, 0x0011),
        }
    }

    /// Device and register.
    #[verifier::when_used_as_spec(spec_addr)]
    pub fn addr(self) -> (addr: (u8, u16))
        ensures
            addr == self.spec_addr(),
    {
        match self {
            DA1F::PHY_SYBSYS_IRQ_STATUS => (0x1F, 0x0011),
        }
    }
}

} // verus!
