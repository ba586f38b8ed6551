//! What goes over the SPI bus, byte for byte.
use adin1110::{
    crc8, sr, AdinError, SpiOp, ADIN1110, DONT_CARE_BYTE, ETH_MIN_LEN, FRAME_HEADER_LEN, FSC_LEN,
    MAX_BUFF, MTU, TURN_AROUND_BYTE,
};
use std::convert::Infallible;

#[derive(Debug, Clone, PartialEq)]
enum SpiTransaction {
    Write(Vec<u8>),
    Read(Vec<u8>),
    Flush,
}

fn write_vec(bytes: Vec<u8>) -> SpiTransaction {
    SpiTransaction::Write(bytes)
}

fn read_vec(bytes: Vec<u8>) -> SpiTransaction {
    SpiTransaction::Read(bytes)
}

fn flush() -> SpiTransaction {
    SpiTransaction::Flush
}

/// A bus that expects certain transfers and nothing else.
struct SpiMock {
    expected: Vec<SpiTransaction>,
    at: usize,
}

impl SpiMock {
    fn new(expected: &[SpiTransaction]) -> Self {
        SpiMock { expected: expected.to_vec(), at: 0 }
    }

    fn next(&mut self) -> SpiTransaction {
        assert!(self.at < self.expected.len(), "more transfers than expected");
        let step = self.expected[self.at].clone();
        self.at += 1;
        step
    }

    /// Performs one transaction and gives what came in.
    fn transaction(&mut self, ops: &[SpiOp<'_>]) -> Vec<Vec<u8>> {
        let mut received = Vec::new();
        for op in ops {
            match op {
                SpiOp::Write(bytes) => assert_eq!(self.next(), write_vec(bytes.to_vec())),
                SpiOp::Read(count) => match self.next() {
                    SpiTransaction::Read(bytes) => {
                        assert_eq!(bytes.len(), *count);
                        received.push(bytes);
                    }
                    other => panic!("read instead of {:?}", other),
                },
            }
        }
        assert_eq!(self.next(), flush());
        received
    }

    fn done(&self) {
        assert_eq!(self.at, self.expected.len());
    }
}

type Spe = ADIN1110<SpiMock>;

fn read_reg(spe: &mut Spe, reg: sr) -> Result<u32, AdinError<Infallible>> {
    let op = spe.read_reg(reg);
    let received = spe.spi().transaction(&op.transaction());
    let mut rx = [0u8; 5];
    rx[..received[0].len()].copy_from_slice(&received[0]);
    op.finish(Ok(rx))
}

fn write_reg(spe: &mut Spe, reg: sr, value: u32) -> Result<(), AdinError<Infallible>> {
    let op = spe.write_reg(reg, value);
    spe.spi().transaction(&op.transaction());
    op.finish(Ok(()))
}

fn write_fifo(spe: &mut Spe, frame: &[u8]) -> Result<(), AdinError<Infallible>> {
    let op = spe.write_fifo::<Infallible>(frame)?;
    spe.spi().transaction(&op.size.transaction());
    let op = op.size_written::<Infallible>(Ok(()))?;
    spe.spi().transaction(&op.transaction());
    op.finish(Ok(()))
}

fn read_fifo(spe: &mut Spe, packet: &mut [u8]) -> Result<usize, AdinError<Infallible>> {
    let op = spe.read_fifo(packet.len());
    let received = spe.spi().transaction(&op.size.transaction());
    let mut rx = [0u8; 5];
    rx[..received[0].len()].copy_from_slice(&received[0]);
    let op = op.size_read::<Infallible>(Ok(rx))?;
    let received = spe.spi().transaction(&op.transaction());
    packet[..op.read_size].copy_from_slice(&received[1]);
    op.finish(Ok(()))
}

#[test]
fn mac_read_registers_without_crc() {
    let expectations = [
        // 1st
        write_vec(vec![0x80, 0x01, TURN_AROUND_BYTE]),
        read_vec(vec![0x02, 0x83, 0xBC, 0x91]),
        flush(),
        // 2nd
        write_vec(vec![0x80, 0x02, TURN_AROUND_BYTE]),
        read_vec(vec![0x00, 0x00, 0x06, 0xC3]),
        flush(),
    ];
    let mut spe = ADIN1110::new(SpiMock::new(&expectations), false);

    // Read PHIID
    let val = read_reg(&mut spe, sr::PHYID).expect("Error");
    assert_eq!(val, 0x0283_BC91);

    // Read CAPAVILITY
    let val = read_reg(&mut spe, sr::CAPABILITY).expect("Error");
    assert_eq!(val, 0x0000_06C3);

    spe.spi().done();
}

#[test]
fn mac_read_registers_with_crc() {
    let expectations = [
        // 1st
        write_vec(vec![0x80, 0x01, 177, TURN_AROUND_BYTE]),
        read_vec(vec![0x02, 0x83, 0xBC, 0x91, 215]),
        flush(),
        // 2nd
        write_vec(vec![0x80, 0x02, 184, TURN_AROUND_BYTE]),
        read_vec(vec![0x00, 0x00, 0x06, 0xC3, 57]),
        flush(),
    ];
    let mut spe = ADIN1110::new(SpiMock::new(&expectations), true);

    assert_eq!(crc8(0x0283_BC91_u32.to_be_bytes().as_slice()), 215);
    assert_eq!(crc8(0x0000_06C3_u32.to_be_bytes().as_slice()), 57);

    // Read PHIID
    let val = read_reg(&mut spe, sr::PHYID).expect("Error");
    assert_eq!(val, 0x0283_BC91);

    // Read CAPAVILITY
    let val = read_reg(&mut spe, sr::CAPABILITY).expect("Error");
    assert_eq!(val, 0x0000_06C3);

    spe.spi().done();
}

#[test]
fn mac_write_registers_without_crc() {
    let expectations = [write_vec(vec![0xA0, 0x09, 0x12, 0x34, 0x56, 0x78]), flush()];
    let mut spe = ADIN1110::new(SpiMock::new(&expectations), false);

    // Write reg: 0x1FFF
    assert!(write_reg(&mut spe, sr::STATUS1, 0x1234_5678).is_ok());

    spe.spi().done();
}

#[test]
fn mac_write_registers_with_crc() {
    let expectations = [write_vec(vec![0xA0, 0x09, 39, 0x12, 0x34, 0x56, 0x78, 28]), flush()];
    let mut spe = ADIN1110::new(SpiMock::new(&expectations), true);

    // Write reg: 0x1FFF
    assert!(write_reg(&mut spe, sr::STATUS1, 0x1234_5678).is_ok());

    spe.spi().done();
}

#[test]
fn write_packet_to_fifo_minimal_with_crc() {
    let mut expectations = vec![];

    // Write TX_SIZE reg
    expectations.push(write_vec(vec![160, 48, 136, 0, 0, 0, 66, 201]));
    expectations.push(flush());

    // Write TX reg.
    // SPI Header + optional CRC + Frame Header
    expectations.push(write_vec(vec![160, 49, 143, 0, 0]));
    // Packet data
    let packet = [0xFF_u8; 60];
    expectations.push(write_vec(packet.to_vec()));

    let mut tail = std::vec::Vec::<u8>::with_capacity(100);
    // Padding
    if let Some(padding_len) = (ETH_MIN_LEN - FSC_LEN).checked_sub(packet.len()) {
        tail.resize(padding_len, 0x00);
    }
    // Packet FCS + optinal padding
    tail.extend_from_slice(&[77, 241, 140, 244, DONT_CARE_BYTE, DONT_CARE_BYTE]);

    expectations.push(write_vec(tail));
    expectations.push(flush());

    let mut spe = ADIN1110::new(SpiMock::new(&expectations), true);

    assert!(write_fifo(&mut spe, &packet).is_ok());

    spe.spi().done();
}

#[test]
fn write_packet_to_fifo_max_mtu_with_crc() {
    assert_eq!(MTU, 1514);
    let mut expectations = vec![];

    // Write TX_SIZE reg
    expectations.push(write_vec(vec![160, 48, 136, 0, 0, 5, 240, 159]));
    expectations.push(flush());

    // Write TX reg.
    // SPI Header + optional CRC + Frame Header
    expectations.push(write_vec(vec![160, 49, 143, 0, 0]));
    // Packet data
    let packet = [0xAA_u8; MTU];
    expectations.push(write_vec(packet.to_vec()));

    let mut tail = std::vec::Vec::<u8>::with_capacity(100);
    // Padding
    if let Some(padding_len) = (ETH_MIN_LEN - FSC_LEN).checked_sub(packet.len()) {
        tail.resize(padding_len, 0x00);
    }
    // Packet FCS + optinal padding
    tail.extend_from_slice(&[49, 196, 205, 160]);

    expectations.push(write_vec(tail));
    expectations.push(flush());

    let mut spe = ADIN1110::new(SpiMock::new(&expectations), true);

    assert!(write_fifo(&mut spe, &packet).is_ok());

    spe.spi().done();
}

#[test]
fn write_packet_to_fifo_invalid_lengths() {
    assert_eq!(MTU, 1514);

    let expectations = vec![];

    // Max packet size = MAX_BUFF - FRAME_HEADER_LEN
    let packet = [0xAA_u8; MAX_BUFF - FRAME_HEADER_LEN + 1];

    let mut spe = ADIN1110::new(SpiMock::new(&expectations), true);

    // minimal
    assert!(matches!(
        write_fifo(&mut spe, &packet[0..(6 + 6 + 2 - 1)]),
        Err(AdinError::PACKET_TOO_SMALL)
    ));

    // max + 1
    assert!(matches!(write_fifo(&mut spe, &packet), Err(AdinError::PACKET_TOO_BIG)));

    spe.spi().done();
}

#[test]
fn write_packet_to_fifo_arp_46bytes_with_crc() {
    let mut expectations = vec![];

    // Write TX_SIZE reg
    expectations.push(write_vec(vec![160, 48, 136, 0, 0, 0, 66, 201]));
    expectations.push(flush());

    // Write TX reg.
    // Header
    expectations.push(write_vec(vec![160, 49, 143, 0, 0]));
    // Packet data
    let packet = [
        34, 51, 68, 85, 102, 119, 18, 52, 86, 120, 154, 188, 8, 6, 0, 1, 8, 0, 6, 4, 0, 2, 18, 52,
        86, 120, 154, 188, 192, 168, 16, 4, 34, 51, 68, 85, 102, 119, 192, 168, 16, 1,
    ];
    expectations.push(write_vec(packet.to_vec()));

    let mut tail = std::vec::Vec::<u8>::with_capacity(100);
    // Padding
    if let Some(padding_len) = (ETH_MIN_LEN - FSC_LEN).checked_sub(packet.len()) {
        tail.resize(padding_len, 0x00);
    }
    // Packet FCS + optinal padding
    tail.extend_from_slice(&[147, 149, 213, 68, DONT_CARE_BYTE, DONT_CARE_BYTE]);

    expectations.push(write_vec(tail));
    expectations.push(flush());

    let mut spe = ADIN1110::new(SpiMock::new(&expectations), true);

    assert!(write_fifo(&mut spe, &packet).is_ok());

    spe.spi().done();
}

#[test]
fn write_packet_to_fifo_arp_46bytes_without_crc() {
    let mut expectations = vec![];

    // Write TX_SIZE reg
    expectations.push(write_vec(vec![160, 48, 0, 0, 0, 66]));
    expectations.push(flush());

    // Write TX reg.
    // SPI Header + Frame Header
    expectations.push(write_vec(vec![160, 49, 0, 0]));
    // Packet data
    let packet = [
        34, 51, 68, 85, 102, 119, 18, 52, 86, 120, 154, 188, 8, 6, 0, 1, 8, 0, 6, 4, 0, 2, 18, 52,
        86, 120, 154, 188, 192, 168, 16, 4, 34, 51, 68, 85, 102, 119, 192, 168, 16, 1,
    ];
    expectations.push(write_vec(packet.to_vec()));

    let mut tail = std::vec::Vec::<u8>::with_capacity(100);
    // Padding
    if let Some(padding_len) = (ETH_MIN_LEN - FSC_LEN).checked_sub(packet.len()) {
        tail.resize(padding_len, 0x00);
    }
    // Packet FCS + optinal padding
    tail.extend_from_slice(&[147, 149, 213, 68, DONT_CARE_BYTE, DONT_CARE_BYTE]);

    expectations.push(write_vec(tail));
    expectations.push(flush());

    let mut spe = ADIN1110::new(SpiMock::new(&expectations), false);

    assert!(write_fifo(&mut spe, &packet).is_ok());

    spe.spi().done();
}

#[test]
fn frame_is_read_in_whole_words() {
    let expectations = [
        write_vec(vec![0x80, 0x90, TURN_AROUND_BYTE]),
        read_vec(vec![0, 0, 0, 65]),
        flush(),
        write_vec(vec![0x80, 0x91, TURN_AROUND_BYTE]),
        read_vec(vec![0, 0]),
        read_vec((0..68).collect()),
        read_vec(vec![1, 2, 3, 4]),
        flush(),
    ];
    let mut spe = ADIN1110::new(SpiMock::new(&expectations), false);
    let mut packet = [0xEE_u8; 68];
    assert_eq!(read_fifo(&mut spe, &mut packet).unwrap(), 65);
    assert_eq!(packet.to_vec(), (0..68).collect::<Vec<u8>>());
    spe.spi().done();
}

#[test]
fn frame_sizes_that_cannot_be_are_refused() {
    for (size, capacity, small) in [(5u8, 64, true), (0, 64, true), (65, 67, false), (7, 7, false)] {
        let expectations = [
            write_vec(vec![0x80, 0x90, TURN_AROUND_BYTE]),
            read_vec(vec![0, 0, 0, size]),
            flush(),
        ];
        let mut spe = ADIN1110::new(SpiMock::new(&expectations), false);
        let mut packet = vec![0u8; capacity];
        let result = read_fifo(&mut spe, &mut packet);
        if small {
            assert!(matches!(result, Err(AdinError::PACKET_TOO_SMALL)));
        } else {
            assert!(matches!(result, Err(AdinError::PACKET_TOO_BIG)));
        }
        spe.spi().done();
    }
    // The smallest size that is accepted.
    let spe = ADIN1110::new((), false);
    let op = spe.read_fifo(8).size_read::<()>(Ok([0, 0, 0, 6, 0])).unwrap();
    assert_eq!((op.packet_size, op.read_size), (6, 8));
    // The largest size there is.
    let op = spe.read_fifo(2048).size_read::<()>(Ok([0xFF, 0xFF, 0xFF, 0xFF, 0]));
    assert!(matches!(op, Err(AdinError::PACKET_TOO_BIG)));
}

#[test]
fn bus_errors_are_handed_on() {
    let spe = ADIN1110::new((), true);
    assert!(matches!(spe.read_reg(sr::PHYID).finish(Err(7)), Err(AdinError::Spi(7))));
    assert!(matches!(spe.write_reg(sr::STATUS0, 1).finish(Err(7)), Err(AdinError::Spi(7))));
    assert!(matches!(spe.read_fifo(64).size_read(Err(7)), Err(AdinError::Spi(7))));
    let read = spe.read_fifo(64).size_read::<i32>(Ok([0, 0, 0, 64, crc8(&[0, 0, 0, 64])])).unwrap();
    assert!(matches!(read.finish(Err(7)), Err(AdinError::Spi(7))));
    let write = spe.write_fifo::<i32>(&[0; 64]).unwrap();
    assert!(matches!(write.size_written(Err(7)), Err(AdinError::Spi(7))));
    let write = spe.write_fifo::<i32>(&[0; 64]).unwrap().size_written::<i32>(Ok(())).unwrap();
    assert!(matches!(write.finish(Err(7)), Err(AdinError::Spi(7))));
}

#[test]
fn every_changed_byte_of_a_reply_is_noticed() {
    let spe = ADIN1110::new((), true);
    let good = [0x02, 0x83, 0xBC, 0x91, 215];
    assert_eq!(spe.read_reg(sr::PHYID).finish::<()>(Ok(good)).unwrap(), 0x0283_BC91);
    for at in 0..5 {
        for change in 1..=255u8 {
            let mut rx = good;
            rx[at] ^= change;
            assert!(matches!(spe.read_reg(sr::PHYID).finish::<()>(Ok(rx)), Err(AdinError::CRC)));
        }
    }
    // Without checksums the last byte does not count.
    let spe = ADIN1110::new((), false);
    assert_eq!(
        spe.read_reg(sr::PHYID).finish::<()>(Ok([1, 2, 3, 4, 99])).unwrap(),
        0x0102_0304
    );
}

#[test]
fn every_length_of_frame_goes_out_in_whole_words() {
    let data = [0x5A_u8; MAX_BUFF];
    for crc in [false, true] {
        let spe = ADIN1110::new((), crc);
        for len in 14..=(MAX_BUFF - FRAME_HEADER_LEN) {
            let op = spe.write_fifo::<()>(&data[..len]).unwrap();
            assert_eq!(op.head.len(), if crc { 5 } else { 4 });
            assert_eq!((FRAME_HEADER_LEN + len + op.tail.len()) % 4, 0);
            assert!(len + op.tail.len() >= ETH_MIN_LEN);
        }
    }
}
