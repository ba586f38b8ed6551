//! Bringing the device up.
use vstd::prelude::*;

use crate::bits;
use crate::phy::{RegsC22, DA1E};
use crate::regs::{
    Config2, IMask0, IMask1, LedCntrl, LedFunc, LedPol, LedPolarity, SpiRegisters,
};
use crate::{MDIO_PHY_ADDR, PHYID};

verus! {

/// One step of bringing the device up.
#[derive(Debug, Clone, Copy)]
pub enum InitCommand {
    /// Drive the reset pin low or high.
    SetReset(bool),
    /// Wait for so many milliseconds.
    Wait(u64),
    /// Read a register.
    ReadReg(SpiRegisters),
    /// Write a register.
    WriteReg(SpiRegisters, u32),
    /// Read a Clause 22 register of the PHY.
    ReadCl22(u8, u8),
    /// Write a Clause 22 register of the PHY.
    WriteCl22(u8, u8, u16),
    /// Write a Clause 45 register of the PHY.
    WriteCl45(u8, (u8, u16), u16),
    /// Write the MAC address filter.
    SetMacAddr([u8; 6]),
}

/// Why the device cannot be brought up.
#[derive(Debug, Clone, Copy)]
pub enum InitFault {
    /// A step failed.
    Access,
    /// The device on the bus is another one; this is how it identifies itself.
    UnknownDevice(u32),
}

/// In the MII control register: the PHY is powered down.
pub const POWER_DOWN: u16 = 0x0800;

/// How many steps come before it is known whether the PHY is powered down.
pub const PROBE_LEN: usize = 6;

/// In which step the device identifies itself.
pub const PHYID_STEP: usize = 4;

/// Resets the device and finds out what it is and how it stands.
pub open spec fn probe() -> Seq<InitCommand> {
    seq![
        InitCommand::SetReset(false),
        InitCommand::Wait(30),
        InitCommand::SetReset(true),
        InitCommand::Wait(50),
        InitCommand::ReadReg(SpiRegisters::PHYID),
        InitCommand::ReadCl22(MDIO_PHY_ADDR, RegsC22::CONTROL.addr()),
    ]
}

/// Wakes the PHY, where `control` says that it is powered down.
pub open spec fn wake(control: u16) -> Seq<InitCommand> {
    if control & POWER_DOWN != 0 {
        seq![
            InitCommand::WriteCl22(
                MDIO_PHY_ADDR,
                RegsC22::CONTROL.addr(),
                control & !POWER_DOWN,
            ),
        ]
    } else {
        Seq::empty()
    }
}

/// Sets the device up: check sequences, LEDs, interrupts, and the address.
pub open spec fn setup(mac_addr: [u8; 6]) -> Seq<InitCommand> {
    seq![
        InitCommand::WriteReg(SpiRegisters::CONFIG2, 0x0000_0820),
        InitCommand::WriteCl45(MDIO_PHY_ADDR, DA1E::DIGIO_PINMUX.addr(), 0x00F0),
        InitCommand::WriteCl45(MDIO_PHY_ADDR, DA1E::LED_POLARITY.addr(), 0x000A),
        InitCommand::WriteCl45(MDIO_PHY_ADDR, DA1E::LED_CNTRL.addr(), 0x9080),
        InitCommand::WriteReg(SpiRegisters::IMASK0, imask0()),
        InitCommand::WriteReg(SpiRegisters::IMASK1, imask1()),
        InitCommand::SetMacAddr(mac_addr),
    ]
}

/// The interrupts of the first group that are held back.
pub open spec fn imask0() -> u32 {
    0x0000_1734
}

/// The interrupts of the second group that are held back.
pub open spec fn imask1() -> u32 {
    0x43FA_0308
}

/// All the steps, in order.
pub open spec fn program(mac_addr: [u8; 6], control: u16) -> Seq<InitCommand> {
    probe() + wake(control) + setup(mac_addr)
}

/// The device is being brought up.
#[derive(Debug, Clone, Copy)]
pub struct Init {
    /// The address of the device.
    pub mac_addr: [u8; 6],
    /// The MII control register, once it has been read.
    pub control: u16,
    /// How many steps have been taken.
    pub at: usize,
}

/// Brings a device up that is to have the address `mac_addr`.
pub fn new(mac_addr: [u8; 6]) -> (init: Init)
    ensures
        init == (Init { mac_addr, control: 0, at: 0 }),
{
    Init { mac_addr, control: 0, at: 0 }
}

/// The value of CONFIG2: the MAC appends check sequences.
fn config2_value() -> (value: u32)
    ensures
        value == 0x0000_0820,
{
    let mut config2 = Config2(0x0000_0800);
    config2.set_crc_append(true);
    assert(bits::with_bit(0x0000_0800, 5, true) == 0x0000_0820) by (bit_vector);
    config2.0
}

/// Both LEDs are lit by a low pin.
fn led_polarity_value() -> (value: u16)
    ensures
        value == 0x000A,
{
    let mut led_pol = LedPolarity(0);
    led_pol.set_led1_polarity(LedPol::ActiveLow);
    led_pol.set_led0_polarity(LedPol::ActiveLow);
    assert((((0u16 & !0x000Cu16) | ((2u16 & 0x03) << 2)) & !0x0003u16) | (2u16 & 0x03) == 0x000A)
        by (bit_vector);
    led_pol.0
}

/// LED 1, yellow, shows the transmit level; LED 0, green, shows the link.
fn led_cntrl_value() -> (value: u16)
    ensures
        value == 0x9080,
{
    let mut led_cntr = LedCntrl(0x0);
    led_cntr.set_led1_en(true);
    led_cntr.set_led1_function(LedFunc::TxLevel2P4);
    led_cntr.set_led0_en(true);
    led_cntr.set_led0_function(LedFunc::LinkupTxRxActicity);
    assert((((((0u16 | 0x8000) & !0x1F00u16) | ((16u16 & 0x1F) << 8)) | 0x0080) & !0x001Fu16) | (
    0u16 & 0x1F) == 0x9080) by (bit_vector);
    led_cntr.0
}

/// A mask bit is cleared to let its interrupt through: transmit check sequence,
/// PHY, buffer overflows and transmit protocol errors.
fn imask0_value() -> (value: u32)
    ensures
        value == imask0(),
{
    let mut imask0_val = IMask0(0x0000_1FBF);
    imask0_val.set_txfcsem(false);
    imask0_val.set_phyintm(false);
    imask0_val.set_txboem(false);
    imask0_val.set_rxboem(false);
    imask0_val.set_txpem(false);
    assert(bits::with_bit(
        bits::with_bit(
            bits::with_bit(
                bits::with_bit(bits::with_bit(0x0000_1FBF, 11, false), 7, false),
                1,
                false,
            ),
            3,
            false,
        ),
        0,
        false,
    ) == 0x0000_1734) by (bit_vector);
    imask0_val.0
}

/// A mask bit is cleared to let its interrupt through: link changes, received
/// frames, SPI and ECC errors.
fn imask1_value() -> (value: u32)
    ensures
        value == imask1(),
{
    let mut imask1_val = IMask1(0x43FA_1F1A);
    imask1_val.set_link_change_mask(false);
    imask1_val.set_p1_rx_rdy_mask(false);
    imask1_val.set_spi_err_mask(false);
    imask1_val.set_tx_ecc_err_mask(false);
    imask1_val.set_rx_ecc_err_mask(false);
    assert(bits::with_bit(
        bits::with_bit(
            bits::with_bit(
                bits::with_bit(bits::with_bit(0x43FA_1F1A, 1, false), 4, false),
                10,
                false,
            ),
            12,
            false,
        ),
        11,
        false,
    ) == 0x43FA_0308) by (bit_vector);
    imask1_val.0
}

impl Init {
    /// The step that comes next.
    pub open spec fn pending(self) -> Option<InitCommand> {
        let steps = program(self.mac_addr, self.control);
        if self.at < steps.len() {
            Some(steps[self.at as int])
        } else {
            None
        }
    }

    /// The step that comes next; none when the device is up.
    pub fn command(&self) -> (command: Option<InitCommand>)
        ensures
            command == self.pending(),
    {
        if self.at < PROBE_LEN {
            return Some(
                match self.at {
                    0 => InitCommand::SetReset(false),
                    // Wait t1: 20-43mS
                    1 => InitCommand::Wait(30),
                    2 => InitCommand::SetReset(true),
                    // Wait t3: 50mS
                    3 => InitCommand::Wait(50),
                    4 => InitCommand::ReadReg(SpiRegisters::PHYID),
                    _ => InitCommand::ReadCl22(MDIO_PHY_ADDR, RegsC22::CONTROL.addr()),
                },
            );
        }
        let mut step: usize = self.at - PROBE_LEN;
        if self.control & POWER_DOWN != 0 {
            if step == 0 {
                return Some(
                    InitCommand::WriteCl22(
                        MDIO_PHY_ADDR,
                        RegsC22::CONTROL.addr(),
                        self.control & !POWER_DOWN,
                    ),
                );
            }
            step = step - 1;
        }
        let pinmux: u16 = (0b11 << 6) | (0b11 << 4);
        assert((0b11u16 << 6) | (0b11u16 << 4) == 0x00F0) by (bit_vector);
        match step {
            0 => Some(InitCommand::WriteReg(SpiRegisters::CONFIG2, config2_value())),
            1 => Some(InitCommand::WriteCl45(MDIO_PHY_ADDR, DA1E::DIGIO_PINMUX.addr(), pinmux)),
            2 => Some(
                InitCommand::WriteCl45(
                    MDIO_PHY_ADDR,
                    DA1E::LED_POLARITY.addr(),
                    led_polarity_value(),
                ),
            ),
            3 => Some(
                InitCommand::WriteCl45(MDIO_PHY_ADDR, DA1E::LED_CNTRL.addr(), led_cntrl_value()),
            ),
            4 => Some(InitCommand::WriteReg(SpiRegisters::IMASK0, imask0_value())),
            5 => Some(InitCommand::WriteReg(SpiRegisters::IMASK1, imask1_value())),
            6 => Some(InitCommand::SetMacAddr(self.mac_addr)),
            _ => None,
        }
    }

    /// The next state, after a step that went well and gave `value`.
    pub open spec fn advanced(self, value: u32) -> Init {
        Init {
            mac_addr: self.mac_addr,
            control: if self.at == PROBE_LEN - 1 {
                (value % 0x1_0000) as u16
            } else {
                self.control
            },
            at: if self.pending() is Some {
                (self.at + 1) as usize
            } else {
                self.at
            },
        }
    }

    /// What the outcome of a step leads to: a step that fails ends it all, and so
    /// does a device that identifies itself as another one.
    pub open spec fn resumed(self, outcome: Option<u32>) -> Result<Init, InitFault> {
        match outcome {
            None => Err(InitFault::Access),
            Some(value) => if self.at == PHYID_STEP && value != PHYID {
                Err(InitFault::UnknownDevice(value))
            } else {
                Ok(self.advanced(value))
            },
        }
    }

    /// Takes how the step ended: the value that was read (anything, where nothing
    /// is read), or none when the step failed.
    pub fn resume(self, outcome: Option<u32>) -> (next: Result<Init, InitFault>)
        ensures
            next == self.resumed(outcome),
    {
        let value: u32 = match outcome {
            None => {
                return Err(InitFault::Access);
            },
            Some(value) => value,
        };
        if self.at == PHYID_STEP && value != PHYID {
            return Err(InitFault::UnknownDevice(value));
        }
        let control: u16 = if self.at == PROBE_LEN - 1 {
            (value % 0x1_0000) as u16
        } else {
            self.control
        };
        let at: usize = if self.command().is_some() {
            self.at + 1
        } else {
            self.at
        };
        Ok(Init { mac_addr: self.mac_addr, control, at })
    }

    /// Where it stands after steps with these outcomes.
    pub open spec fn after(self, outcomes: Seq<Option<u32>>) -> Result<Init, InitFault>
        decreases outcomes.len(),
    {
        if outcomes.len() == 0 {
            Ok(self)
        } else {
            match self.after(outcomes.drop_last()) {
                Ok(now) => now.resumed(outcomes.last()),
                Err(fault) => Err(fault),
            }
        }
    }

    /// The steps that were taken to get there.
    pub open spec fn taken(self, outcomes: Seq<Option<u32>>) -> Seq<InitCommand>
        decreases outcomes.len(),
    {
        if outcomes.len() == 0 {
            Seq::empty()
        } else {
            let before = self.taken(outcomes.drop_last());
            match self.after(outcomes.drop_last()) {
                Ok(now) => match now.pending() {
                    Some(command) => before.push(command),
                    None => before,
                },
                Err(_) => before,
            }
        }
    }
}

/// No step fails, the device is the right one, and the MII control register
/// holds `control`.
pub open spec fn goes_well(outcomes: Seq<Option<u32>>, control: u16) -> bool {
    &&& forall|i: int| 0 <= i < outcomes.len() ==> (#[trigger] outcomes[i]) is Some
    &&& outcomes.len() > PHYID_STEP ==> outcomes[PHYID_STEP as int] == Some(PHYID)
    &&& outcomes.len() >= PROBE_LEN ==> outcomes[PROBE_LEN - 1] == Some(control as u32)
}

proof fn lemma_taken(start: Init, outcomes: Seq<Option<u32>>, control: u16)
    requires
        start.at == 0,
        start.control == 0,
        goes_well(outcomes, control),
        outcomes.len() <= program(start.mac_addr, control).len(),
    ensures
        start.after(outcomes) == Ok::<Init, InitFault>(
            (Init {
                mac_addr: start.mac_addr,
                control: if outcomes.len() >= PROBE_LEN {
                    control
                } else {
                    0
                },
                at: outcomes.len() as usize,
            }),
        ),
        start.taken(outcomes) == program(start.mac_addr, control).take(outcomes.len() as int),
        outcomes.len() < program(start.mac_addr, control).len() ==> (start.after(
            outcomes,
        )->Ok_0).pending() == Some(program(start.mac_addr, control)[outcomes.len() as int]),
    decreases outcomes.len(),
{
    let n = outcomes.len() as int;
    let whole = program(start.mac_addr, control);
    if n > 0 {
        let front = outcomes.drop_last();
        assert forall|i: int| 0 <= i < front.len() implies (#[trigger] front[i]) is Some by {
            assert(front[i] == outcomes[i]);
        }
        lemma_taken(start, front, control);
        assert(outcomes[n - 1] is Some);
        assert(whole.take(n - 1).push(whole[n - 1]) =~= whole.take(n));
    } else {
        assert(whole.take(0) =~= Seq::empty());
    }
    if n < PROBE_LEN {
        assert(program(start.mac_addr, 0)[n] == probe()[n]);
        assert(whole[n] == probe()[n]);
    }
}

/// When every step goes well, the steps of the program are taken one after the
/// other, each once and in order, with the PHY woken exactly where the MII
/// control register said that it is powered down. Then nothing is left to do.
pub proof fn law_program_is_taken_in_order(
    mac_addr: [u8; 6],
    control: u16,
    outcomes: Seq<Option<u32>>,
)
    requires
        goes_well(outcomes, control),
        outcomes.len() == program(mac_addr, control).len(),
    ensures
        ({
            let start = Init { mac_addr, control: 0, at: 0 };
            &&& start.taken(outcomes) == program(mac_addr, control)
            &&& start.after(outcomes) matches Ok(end)
            &&& end.pending() is None
        }),
{
    let start = Init { mac_addr, control: 0, at: 0 };
    let whole = program(mac_addr, control);
    lemma_taken(start, outcomes, control);
    assert(whole.take(whole.len() as int) =~= whole);
}

/// The first step that fails is the last that is taken.
pub proof fn law_first_failure_ends_it(
    mac_addr: [u8; 6],
    control: u16,
    outcomes: Seq<Option<u32>>,
)
    requires
        goes_well(outcomes, control),
        outcomes.len() < program(mac_addr, control).len(),
    ensures
        ({
            let start = Init { mac_addr, control: 0, at: 0 };
            &&& start.after(outcomes.push(None)) == Err::<Init, InitFault>(InitFault::Access)
            &&& start.taken(outcomes.push(None)) == program(mac_addr, control).take(
                outcomes.len() as int + 1,
            )
        }),
{
    let start = Init { mac_addr, control: 0, at: 0 };
    let whole = program(mac_addr, control);
    let n = outcomes.len() as int;
    lemma_taken(start, outcomes, control);
    assert(outcomes.push(None).drop_last() =~= outcomes);
    assert(whole.take(n).push(whole[n]) =~= whole.take(n + 1));
}

/// A device that identifies itself as another one is not touched any further.
pub proof fn law_other_devices_are_left_alone(
    mac_addr: [u8; 6],
    outcomes: Seq<Option<u32>>,
    id: u32,
)
    requires
        goes_well(outcomes, 0),
        outcomes.len() == PHYID_STEP,
        id != PHYID,
    ensures
        ({
            let start = Init { mac_addr, control: 0, at: 0 };
            &&& start.after(outcomes.push(Some(id))) == Err::<Init, InitFault>(
                InitFault::UnknownDevice(id),
            )
            &&& start.taken(outcomes.push(Some(id))) == probe().take(PHYID_STEP + 1)
        }),
{
    let start = Init { mac_addr, control: 0, at: 0 };
    let whole = program(mac_addr, 0);
    lemma_taken(start, outcomes, 0);
    assert(outcomes.push(Some(id)).drop_last() =~= outcomes);
    assert(whole.take(PHYID_STEP as int).push(whole[PHYID_STEP as int]) =~= probe().take(
        PHYID_STEP + 1,
    ));
}

/// Waking the PHY clears the power down bit and leaves the others as they are.
pub proof fn law_waking_touches_one_bit(control: u16, index: u16)
    by (bit_vector)
    requires
        index < 16,
    ensures
        (control & !0x0800u16) & (1u16 << index) == (if index == 11 {
            0
        } else {
            control & (1u16 << index)
        }),
{
}

/// Exactly the interrupts that the driver serves are let through, beside those
/// that were before.
pub proof fn law_interrupts_are_let_through(index: u32)
    by (bit_vector)
    requires
        index < 32,
    ensures
        bits::bit(imask0(), index) == (bits::bit(0x0000_1FBF, index) && index != 11 && index != 7
            && index != 3 && index != 1 && index != 0),
        bits::bit(imask1(), index) == (bits::bit(0x43FA_1F1A, index) && index != 12 && index != 11
            && index != 10 && index != 4 && index != 1),
{
}

proof fn lemma_wake(control: u16)
    by (bit_vector)
    ensures
        (control & 0x0800 != 0) == (control / 0x800 % 2 == 1),
        control / 0x800 % 2 == 1 ==> control & !0x0800u16 == control - 0x800,
{
}

/// Whatever the address and the state of the PHY, there are thirteen steps, and
/// one more where bit 11 of the MII control register is set. That one comes as the
/// seventh, and writes the register back without that bit.
pub proof fn law_phy_is_woken_where_it_sleeps(mac_addr: [u8; 6], control: u16)
    ensures
        control / 0x800 % 2 == 0 ==> program(mac_addr, control).len() == 13,
        control / 0x800 % 2 == 1 ==> {
            &&& program(mac_addr, control).len() == 14
            &&& program(mac_addr, control)[6] matches InitCommand::WriteCl22(phy_id, reg, value)
            &&& phy_id == 1
            &&& reg == 0
            &&& value + 0x800 == control
        },
{
    lemma_wake(control);
}

/// Whatever the address and the state of the PHY, the device is held in reset for
/// 20 to 43 ms and left alone for at least 50 ms after that. Then it is asked who
/// it is, and how its PHY stands.
pub proof fn law_device_is_reset_first(mac_addr: [u8; 6], control: u16)
    ensures
        ({
            let steps = program(mac_addr, control);
            &&& steps[0] == InitCommand::SetReset(false)
            &&& steps[1] matches InitCommand::Wait(low) && 20 <= low <= 43
            &&& steps[2] == InitCommand::SetReset(true)
            &&& steps[3] matches InitCommand::Wait(after) && after >= 50
            &&& steps[4] matches InitCommand::ReadReg(reg) && reg.addr() == 0x01
            &&& steps[5] == InitCommand::ReadCl22(1, 0)
        }),
{
}

/// Whatever the address and the state of the PHY, the last seven steps set the
/// device up: check sequences are appended, the LEDs get their pins, polarity and
/// functions, and the interrupts are let through; the last step sets the address,
/// byte for byte.
pub proof fn law_device_is_set_up_last(mac_addr: [u8; 6], control: u16)
    ensures
        ({
            let steps = program(mac_addr, control);
            let at = steps.len() - 7;
            &&& at >= 6
            &&& steps[at] matches InitCommand::WriteReg(reg, value) && reg.addr() == 0x06 && value
                == 0x820
            &&& steps[at + 1] == InitCommand::WriteCl45(1, (0x1E, 0x8C56), 0x00F0)
            &&& steps[at + 2] == InitCommand::WriteCl45(1, (0x1E, 0x8C83), 0x000A)
            &&& steps[at + 3] == InitCommand::WriteCl45(1, (0x1E, 0x8C82), 0x9080)
            &&& steps[at + 4] matches InitCommand::WriteReg(reg, value) && reg.addr() == 0x0C
                && value == 0x1734
            &&& steps[at + 5] matches InitCommand::WriteReg(reg, value) && reg.addr() == 0x0D
                && value == 0x43FA_0308
            &&& steps.last() matches InitCommand::SetMacAddr(addr) && addr@ == mac_addr@
        }),
{
}

/// Two devices are brought up by the same steps, but for the waking of the PHY and
/// the address.
pub proof fn law_devices_are_brought_up_alike(
    mac_a: [u8; 6],
    control_a: u16,
    mac_b: [u8; 6],
    control_b: u16,
    i: int,
)
    ensures
        ({
            let a = program(mac_a, control_a);
            let b = program(mac_b, control_b);
            &&& 0 <= i < 6 ==> a[i] == b[i]
            &&& 1 < i <= 7 ==> a[a.len() - i] == b[b.len() - i]
            &&& control_a / 0x800 % 2 == control_b / 0x800 % 2 ==> a.len() == b.len()
        }),
{
    lemma_wake(control_a);
    lemma_wake(control_b);
}

/// When every step goes well, the last one that a device goes through sets the
/// address that `new` was called with, byte for byte, whatever the address is and
/// whatever the steps gave.
pub proof fn law_device_gets_its_address(
    mac_addr: [u8; 6],
    control: u16,
    outcomes: Seq<Option<u32>>,
    start: Init,
    i: int,
)
    requires
        call_ensures(new, (mac_addr,), start),
        goes_well(outcomes, control),
        outcomes.len() == program(mac_addr, control).len(),
        0 <= i < 6,
    ensures
        start.taken(outcomes).len() == outcomes.len(),
        start.taken(outcomes).last() matches InitCommand::SetMacAddr(addr) && addr@[i]
            == mac_addr@[i],
{
    law_program_is_taken_in_order(mac_addr, control, outcomes);
    law_device_is_set_up_last(mac_addr, control);
}

/// At every point on the way the command is the step of the program that is next,
/// for the address that `new` was called with, and there is none when the device
/// is up.
pub proof fn law_command_is_the_next_step(
    mac_addr: [u8; 6],
    control: u16,
    outcomes: Seq<Option<u32>>,
    start: Init,
    now: Init,
    command: Option<InitCommand>,
)
    requires
        call_ensures(new, (mac_addr,), start),
        goes_well(outcomes, control),
        outcomes.len() <= program(mac_addr, control).len(),
        start.after(outcomes) == Ok::<Init, InitFault>(now),
        call_ensures(Init::command, (&now,), command),
    ensures
        command == (if outcomes.len() < program(mac_addr, control).len() {
            Some(program(mac_addr, control)[outcomes.len() as int])
        } else {
            None
        }),
        now.mac_addr@ == mac_addr@,
{
    lemma_taken(start, outcomes, control);
}

/// In every state the command is the step of the program that is next, for the
/// address and the control register of that state.
pub proof fn law_command_in_every_state(init: Init, command: Option<InitCommand>)
    requires
        call_ensures(Init::command, (&init,), command),
    ensures
        command is Some <==> init.at < 13 || (init.at == 13 && init.control / 0x800 % 2 == 1),
        command is Some ==> command == Some(program(init.mac_addr, init.control)[init.at as int]),
{
    law_phy_is_woken_where_it_sleeps(init.mac_addr, init.control);
}

/// A step that goes well is followed by the next, until none is left; every step
/// that fails ends it all, and so does every identification but 0x0283_BC91 in
/// the fifth step. The sixth step gives the control register.
pub proof fn law_outcomes_are_heeded(
    init: Init,
    value: u32,
    next: Result<Init, InitFault>,
)
    ensures
        call_ensures(Init::resume, (init, None::<u32>), next) ==> next == Err::<Init, InitFault>(
            InitFault::Access,
        ),
        call_ensures(Init::resume, (init, Some(value)), next) && init.at == 4 && value
            != 0x0283_BC91 ==> next == Err::<Init, InitFault>(InitFault::UnknownDevice(value)),
        call_ensures(Init::resume, (init, Some(value)), next) && !(init.at == 4 && value
            != 0x0283_BC91) ==> {
            &&& next matches Ok(now)
            &&& now.mac_addr@ == init.mac_addr@
            &&& init.at < 13 || (init.at == 13 && init.control / 0x800 % 2 == 1) ==> now.at
                == init.at + 1
            &&& init.at > 13 || (init.at == 13 && init.control / 0x800 % 2 == 0) ==> now.at
                == init.at
            &&& init.at == 5 ==> now.control == value % 0x1_0000
            &&& init.at != 5 ==> now.control == init.control
        },
{
    law_phy_is_woken_where_it_sleeps(init.mac_addr, init.control);
}

} // verus!
