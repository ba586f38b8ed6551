//! Bringing the device up, and the service loop.
use adin1110::runner::Phase;
use adin1110::{
    new, sr, AdinError, InitCommand, InitFault, Notice, RunCommand, RunEvent, Runner, PHYID,
};

const MAC: [u8; 6] = [2, 0, 0, 0, 0, 1];

/// The steps that are taken when the MII control register holds `control`.
fn bring_up(control: u32) -> Vec<String> {
    let mut init = new(MAC);
    let mut steps = Vec::new();
    while let Some(command) = init.command() {
        steps.push(format!("{:x?}", command));
        let value = match command {
            InitCommand::ReadReg(_) => PHYID,
            InitCommand::ReadCl22(_, _) => control,
            _ => 0,
        };
        init = init.resume(Some(value)).unwrap();
    }
    steps
}

#[test]
fn device_is_brought_up() {
    assert_eq!(
        bring_up(0x1000),
        vec![
            "SetReset(false)",
            "Wait(1e)",
            "SetReset(true)",
            "Wait(32)",
            "ReadReg(PHYID)",
            "ReadCl22(1, 0)",
            "WriteReg(CONFIG2, 820)",
            "WriteCl45(1, (1e, 8c56), f0)",
            "WriteCl45(1, (1e, 8c83), a)",
            "WriteCl45(1, (1e, 8c82), 9080)",
            "WriteReg(IMASK0, 1734)",
            "WriteReg(IMASK1, 43fa0308)",
            "SetMacAddr([2, 0, 0, 0, 0, 1])",
        ]
    );
}

#[test]
fn powered_down_phy_is_woken() {
    let steps = bring_up(0x1800);
    assert_eq!(steps.len(), 14);
    assert_eq!(steps[6], "WriteCl22(1, 0, 1000)");
    let mut others = steps.clone();
    others.remove(6);
    assert_eq!(others, bring_up(0x1000));
}

#[test]
fn device_that_cannot_be_brought_up() {
    let mut init = new(MAC);
    for _ in 0..4 {
        assert!(matches!(init.resume(None), Err(InitFault::Access)));
        init = init.resume(Some(0)).unwrap();
    }
    assert!(matches!(init.resume(Some(0x1234)), Err(InitFault::UnknownDevice(0x1234))));
    assert!(init.resume(Some(PHYID)).is_ok());
}

fn step(runner: &mut Runner, event: RunEvent<()>) -> (Option<Notice>, String) {
    let notice = runner.run(event);
    (notice, format!("{:x?}", runner.command()))
}

#[test]
fn idle_runner_sends_frames() {
    let mut runner = Runner::new();
    assert!(matches!(runner.command(), RunCommand::WaitForWork));
    assert_eq!(step(&mut runner, RunEvent::TxFrame), (None, "WriteFifo".to_string()));
    assert_eq!(
        step(&mut runner, RunEvent::Written(Ok(()))),
        (Some(Notice::TxDone), "WaitForWork".to_string())
    );
}

#[test]
fn whole_service() {
    let mut runner = Runner::new();
    let status1 = "ReadReg(STATUS1)".to_string();
    assert_eq!(step(&mut runner, RunEvent::Interrupt), (None, status1.clone()));
    // A frame is there; one is sent first, then it is read.
    assert_eq!(
        step(&mut runner, RunEvent::Register(Ok(0x10))),
        (None, "WaitForBuffer".to_string())
    );
    assert_eq!(step(&mut runner, RunEvent::TxFrame), (None, "WriteFifo".to_string()));
    assert_eq!(
        step(&mut runner, RunEvent::Written(Ok(()))),
        (Some(Notice::TxDone), status1.clone())
    );
    step(&mut runner, RunEvent::Register(Ok(0x10)));
    assert_eq!(step(&mut runner, RunEvent::RxBuffer), (None, "ReadFifo".to_string()));
    assert_eq!(
        step(&mut runner, RunEvent::Received(Ok(70))),
        (Some(Notice::RxDone(70)), status1.clone())
    );
    // A frame that is too big is dropped.
    step(&mut runner, RunEvent::Register(Ok(0x10)));
    step(&mut runner, RunEvent::RxBuffer);
    assert_eq!(
        step(&mut runner, RunEvent::Received(Err(AdinError::PACKET_TOO_BIG))),
        (None, "WriteReg(FIFO_CLR, 1)".to_string())
    );
    assert_eq!(step(&mut runner, RunEvent::Written(Ok(()))), (None, status1.clone()));
    // Other errors are passed over.
    step(&mut runner, RunEvent::Register(Ok(0x10)));
    step(&mut runner, RunEvent::RxBuffer);
    assert_eq!(
        step(&mut runner, RunEvent::Received(Err(AdinError::Spi(())))),
        (None, status1.clone())
    );
    // The rest, with everything to be served.
    assert_eq!(
        step(&mut runner, RunEvent::Register(Ok(0xFFFF_FFEF))),
        (None, "ReadReg(STATUS0)".to_string())
    );
    assert!(!runner.is_link_up);
    assert_eq!(
        step(&mut runner, RunEvent::Register(Ok(0x80))),
        (Some(Notice::LinkState(true)), "WriteReg(FIFO_CLR, 2)".to_string())
    );
    assert!(runner.is_link_up);
    assert_eq!(
        step(&mut runner, RunEvent::Written(Ok(()))),
        (None, "ReadCl45(1, (1e, 10))".to_string())
    );
    assert_eq!(
        step(&mut runner, RunEvent::Phy(Ok(1))),
        (None, "ReadCl45(1, (1f, 11))".to_string())
    );
    assert_eq!(
        step(&mut runner, RunEvent::Phy(Ok(2))),
        (None, "WriteReg(STATUS0, fff)".to_string())
    );
    assert_eq!(
        step(&mut runner, RunEvent::Written(Ok(()))),
        (None, "WriteReg(STATUS1, 1c0a)".to_string())
    );
    assert_eq!(
        step(&mut runner, RunEvent::Written(Ok(()))),
        (None, "WaitForWork".to_string())
    );
}

#[test]
fn short_service() {
    let mut runner = Runner::new();
    runner.is_link_up = true;
    step(&mut runner, RunEvent::Interrupt);
    step(&mut runner, RunEvent::Register(Ok(0x2)));
    assert_eq!(
        step(&mut runner, RunEvent::Register(Ok(0))),
        (Some(Notice::LinkState(false)), "WriteReg(STATUS0, fff)".to_string())
    );
    assert!(!runner.is_link_up);
    assert_eq!(
        step(&mut runner, RunEvent::Written(Ok(()))),
        (None, "WriteReg(STATUS1, 2)".to_string())
    );
    // No change of the link, nothing reported.
    step(&mut runner, RunEvent::Written(Ok(())));
    step(&mut runner, RunEvent::Interrupt);
    step(&mut runner, RunEvent::Register(Ok(0x9)));
    assert_eq!(
        step(&mut runner, RunEvent::Register(Ok(0))),
        (None, "WriteReg(STATUS0, fff)".to_string())
    );
    assert_eq!(
        step(&mut runner, RunEvent::Written(Ok(()))),
        (None, "WriteReg(STATUS1, 8)".to_string())
    );
}

#[test]
fn failing_access_stops_the_runner() {
    let mut runner = Runner::new();
    step(&mut runner, RunEvent::Interrupt);
    step(&mut runner, RunEvent::Register(Err(AdinError::CRC)));
    assert!(matches!(runner.command(), RunCommand::Halt));
    step(&mut runner, RunEvent::Interrupt);
    assert!(matches!(runner.command(), RunCommand::Halt));

    let mut runner = Runner::new();
    step(&mut runner, RunEvent::TxFrame);
    assert_eq!(
        step(&mut runner, RunEvent::Written(Err(AdinError::Spi(())))),
        (None, "Halt".to_string())
    );

    let mut runner = Runner::new();
    runner.phase = Phase::Closing { status0: 0x80, status1: 0, at: 0 };
    step(&mut runner, RunEvent::Phy(Err(AdinError::MDIO_ACC_TIMEOUT)));
    assert!(matches!(runner.command(), RunCommand::Halt));
}

#[test]
fn events_out_of_turn_change_nothing() {
    let mut runner = Runner::new();
    assert_eq!(
        step(&mut runner, RunEvent::Written(Err(AdinError::CRC))),
        (None, "WaitForWork".to_string())
    );
    step(&mut runner, RunEvent::Interrupt);
    assert_eq!(
        step(&mut runner, RunEvent::TxFrame),
        (None, "ReadReg(STATUS1)".to_string())
    );
}

#[test]
fn register_addresses() {
    let expected = [
        (sr::PHYID, 0x01),
        (sr::CAPABILITY, 0x02),
        (sr::CONFIG2, 0x06),
        (sr::STATUS0, 0x08),
        (sr::STATUS1, 0x09),
        (sr::IMASK0, 0x0C),
        (sr::IMASK1, 0x0D),
        (sr::MDIO_ACC, 0x20),
        (sr::TX_FSIZE, 0x30),
        (sr::TX, 0x31),
        (sr::FIFO_CLR, 0x36),
        (sr::RX_FSIZE, 0x90),
        (sr::RX, 0x91),
    ];
    for (reg, addr) in expected {
        assert_eq!(reg.addr(), addr);
    }
}
