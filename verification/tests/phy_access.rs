//! Access to the PHY, and the MAC address filter.
use adin1110::mdio::{read_result, write_result, MDIO_POLLS};
use adin1110::{crc8, AdinError, MdioFrame, MdioNext, SpiOp, ADIN1110};

fn written(op: &[SpiOp<'_>]) -> Vec<u8> {
    match op {
        [SpiOp::Write(bytes)] => bytes.to_vec(),
        [SpiOp::Write(bytes), SpiOp::Read(_)] => bytes.to_vec(),
        _ => panic!("not a register access"),
    }
}

/// The frames that are handed over, and how the access ends, when the device
/// answers every question with the next of `answers`.
fn access(op: MdioFrame, answers: &[u32]) -> (Vec<u32>, u32, Result<u32, AdinError<()>>) {
    let mut frames = Vec::new();
    let mut asked = 0;
    let mut next = MdioNext::Frame(op);
    loop {
        next = match next {
            MdioNext::Frame(frame) => {
                let bytes = written(&frame.request().transaction());
                assert_eq!(bytes[..2], [0xA0, 0x20]);
                frames.push(u32::from_be_bytes([bytes[2], bytes[3], bytes[4], bytes[5]]));
                frame.written(Ok(()))
            }
            MdioNext::Poll(poll) => {
                assert_eq!(written(&poll.request().transaction()), vec![0x80, 0x20, 0x00]);
                let answer = answers[asked as usize % answers.len()].to_be_bytes();
                asked += 1;
                poll.polled(Ok([answer[0], answer[1], answer[2], answer[3], 0]))
            }
            MdioNext::Done(result) => return (frames, asked, result),
        }
    }
}

#[test]
fn clause_22_read() {
    let spe = ADIN1110::new((), false);
    let op = spe.read_cl22(1, 2);
    let (frames, asked, result) = access(op, &[0, 0x7FFF_FFFF, 0x9C22_1234]);
    assert_eq!(frames, vec![0x1C22_0000]);
    assert_eq!(asked, 3);
    assert_eq!(read_result(result).unwrap(), 0x1234);
}

#[test]
fn clause_22_write() {
    let spe = ADIN1110::new((), false);
    let (frames, _, result) = access(spe.write_cl22(1, 0, 0xABCD), &[0x8000_0000]);
    assert_eq!(frames, vec![0x1420_ABCD]);
    assert!(write_result(result).is_ok());
}

#[test]
fn clause_45_read_and_write() {
    let spe = ADIN1110::new((), false);
    let (frames, asked, result) = access(spe.read_cl45(1, (0x1E, 0x8C56)), &[0x8000_5555]);
    assert_eq!(frames, vec![0x003E_8C56, 0x0C3E_0000]);
    assert_eq!(asked, 2);
    assert_eq!(read_result(result).unwrap(), 0x5555);
    let (frames, _, result) = access(spe.write_cl45(1, (0x1E, 0x8C83), 0x000A), &[0x8000_0000]);
    assert_eq!(frames, vec![0x003E_8C83, 0x043E_000A]);
    assert!(write_result(result).is_ok());
}

#[test]
fn addresses_are_cut_to_five_bits() {
    let spe = ADIN1110::new((), false);
    assert_eq!(spe.read_cl22(0xFF, 0xE3).word, 0x1FE3_0000);
    assert_eq!(spe.read_cl45(0x21, (0x3E, 1)).word, 0x003E_0001);
}

#[test]
fn busy_phy_times_out() {
    let spe = ADIN1110::new((), false);
    let (_, asked, result) = access(spe.read_cl22(1, 0), &[0x7FFF_FFFF]);
    assert_eq!(MDIO_POLLS, 100_000);
    assert_eq!(asked, 100_000);
    assert!(matches!(read_result(result), Err(AdinError::MDIO_ACC_TIMEOUT)));
    // The last question still counts.
    let mut answers = vec![0u32; 99_999];
    answers.push(0x8000_0077);
    let (_, asked, result) = access(spe.read_cl22(1, 0), &answers);
    assert_eq!(asked, 100_000);
    assert_eq!(read_result(result).unwrap(), 0x0077);
}

#[test]
fn failing_access_to_the_phy_ends() {
    let spe = ADIN1110::new((), true);
    let op = spe.read_cl45(1, (0x1F, 0x11));
    assert!(matches!(op.written(Err(3)), MdioNext::Done(Err(AdinError::Spi(3)))));
    let poll = match op.written::<i32>(Ok(())) {
        MdioNext::Poll(poll) => poll,
        _ => panic!("the device is not asked"),
    };
    assert!(matches!(poll.polled(Err(3)), MdioNext::Done(Err(AdinError::Spi(3)))));
    let word = [0x80, 0, 0, 1];
    let sum = crc8(&word);
    assert!(matches!(
        poll.polled::<i32>(Ok([0x80, 0, 0, 1, sum ^ 1])),
        MdioNext::Done(Err(AdinError::CRC))
    ));
    assert!(matches!(poll.polled::<i32>(Ok([0x80, 0, 0, 1, sum])), MdioNext::Frame(_)));
}

#[test]
fn filter_is_written_register_by_register() {
    let spe = ADIN1110::new((), false);
    let mut op = spe.set_mac_addr(&[0x02, 0x11, 0x22, 0x33, 0x44, 0x55]);
    let mut writes = Vec::new();
    while let Some(write) = op.request() {
        writes.push(written(&write.transaction()));
        op = op.written::<()>(Ok(())).unwrap();
    }
    assert_eq!(
        writes,
        vec![
            vec![0xA0, 0x50, 0x40, 0x01, 0x02, 0x11],
            vec![0xA0, 0x51, 0x22, 0x33, 0x44, 0x55],
            vec![0xA0, 0x70, 0x00, 0x00, 0x02, 0x11],
            vec![0xA0, 0x71, 0x22, 0x33, 0x44, 0x55],
            vec![0xA0, 0x52, 0x40, 0x01, 0xFF, 0xFF],
            vec![0xA0, 0x53, 0xFF, 0xFF, 0xFF, 0xFF],
            vec![0xA0, 0x72, 0x00, 0x00, 0xFF, 0xFF],
            vec![0xA0, 0x73, 0xFF, 0xFF, 0xFF, 0xFF],
        ]
    );
    let op = spe.set_mac_addr(&[0; 6]);
    assert!(matches!(op.written(Err(9)), Err(AdinError::Spi(9))));
}
