//! Known values and properties of the checksums.
use adin1110::{crc8, ETH_FSC};

#[test]
fn known_checksums() {
    assert_eq!(crc8(&[]), 0);
    assert_eq!(crc8(b"123456789"), 0xF4);
    assert_eq!(ETH_FSC::new(b"123456789").0, 0xCBF4_3926);
    assert_eq!(ETH_FSC::new(&[]).0, 0);
    assert_eq!(ETH_FSC::new(b"123456789").hton_bytes(), [0x26, 0x39, 0xF4, 0xCB]);
}

#[test]
fn appended_checksum_cancels() {
    let mut message = b"register value".to_vec();
    message.push(crc8(&message));
    assert_eq!(crc8(&message), 0);
}

#[test]
fn check_sequence_can_be_taken_in_pieces() {
    let data: Vec<u8> = (0..200).collect();
    for cut in 0..=data.len() {
        let pieces = ETH_FSC::new(&data[..cut]).update(&data[cut..]);
        assert_eq!(pieces, ETH_FSC::new(&data));
    }
}

#[test]
fn receiver_ends_with_the_residue() {
    for len in 0..100u8 {
        let mut frame: Vec<u8> = (0..len).collect();
        let fcs = ETH_FSC::new(&frame).hton_bytes();
        frame.extend_from_slice(&fcs);
        assert_eq!(ETH_FSC::new(&frame).0 ^ 0xFFFF_FFFF, 0xDEBB_20E3);
    }
}
