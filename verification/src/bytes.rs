//! Fixed width integers as byte strings.
use vstd::prelude::*;

verus! {

/// The two bytes of `value`, most significant first.
pub open spec fn be16(value: u16) -> Seq<u8> {
    seq![(value / 0x100) as u8, (value % 0x100) as u8]
}

/// The four bytes of `value`, most significant first.
pub open spec fn be32(value: u32) -> Seq<u8> {
    seq![
        (value / 0x100_0000) as u8,
        (value / 0x1_0000 % 0x100) as u8,
        (value / 0x100 % 0x100) as u8,
        (value % 0x100) as u8,
    ]
}

/// The four bytes of `value`, least significant first.
pub open spec fn le32(value: u32) -> Seq<u8> {
    seq![
        (value % 0x100) as u8,
        (value / 0x100 % 0x100) as u8,
        (value / 0x1_0000 % 0x100) as u8,
        (value / 0x100_0000) as u8,
    ]
}

/// The number that two bytes stand for, most significant first.
pub open spec fn be16_value(bytes: Seq<u8>) -> u16 {
    (bytes[0] * 0x100 + bytes[1]) as u16
}

/// The number that four bytes stand for, most significant first.
pub open spec fn be32_value(bytes: Seq<u8>) -> u32 {
    (bytes[0] * 0x100_0000 + bytes[1] * 0x1_0000 + bytes[2] * 0x100 + bytes[3]) as u32
}

/// `count` bytes of zero.
pub open spec fn zeros(count: nat) -> Seq<u8> {
    Seq::new(count, |i: int| 0u8)
}

/// The number that two bytes make up, the most significant one first.
pub open spec fn number2(data: Seq<u8>, at: int) -> int {
    data[at] * 0x100 + data[at + 1]
}

/// The number that four bytes make up, the most significant one first.
pub open spec fn number4(data: Seq<u8>, at: int) -> int {
    number2(data, at) * 0x1_0000 + number2(data, at + 2)
}

/// A run of zero bytes has the length that was asked for, and nothing else in it.
pub proof fn lemma_zeros(count: nat)
    ensures
        zeros(count).len() == count,
        forall|i: int| 0 <= i < count ==> zeros(count)[i] == 0,
{
}

/// Splitting a number into its bytes and reading them back gives the number.
pub proof fn lemma_be32_round_trip(value: u32)
    ensures
        be32(value).len() == 4,
        be32_value(be32(value)) == value,
        be32(value)[0] * 0x100_0000 + be32(value)[1] * 0x1_0000 + be32(value)[2] * 0x100 + be32(
            value,
        )[3] == value,
{
}

/// Splitting a number into its bytes and reading them back gives the number.
pub proof fn lemma_be16_round_trip(value: u16)
    ensures
        be16(value).len() == 2,
        be16_value(be16(value)) == value,
        be16(value)[0] * 0x100 + be16(value)[1] == value,
{
}

/// Least significant byte first, the bytes of a number are its digits too.
pub proof fn lemma_le32_digits(value: u32)
    ensures
        le32(value).len() == 4,
        le32(value)[0] + le32(value)[1] * 0x100 + le32(value)[2] * 0x1_0000 + le32(value)[3]
            * 0x100_0000 == value,
{
}

/// Reading two bytes and splitting the number again gives the bytes.
pub proof fn lemma_be16_value_round_trip(bytes: Seq<u8>)
    requires
        bytes.len() == 2,
    ensures
        be16(be16_value(bytes)) == bytes,
        be16_value(bytes) / 0x100 == bytes[0],
        be16_value(bytes) % 0x100 == bytes[1],
{
    let value = bytes[0] * 0x100 + bytes[1];
    assert(value / 0x100 == bytes[0] && value % 0x100 == bytes[1]);
    assert(be16(be16_value(bytes)) =~= bytes);
}

/// Reading four bytes and splitting the number again gives the bytes.
pub proof fn lemma_be32_value_round_trip(bytes: Seq<u8>)
    requires
        bytes.len() == 4,
    ensures
        be32(be32_value(bytes)) == bytes,
        be32_value(bytes) / 0x100_0000 == bytes[0],
        be32_value(bytes) / 0x1_0000 % 0x100 == bytes[1],
        be32_value(bytes) / 0x100 % 0x100 == bytes[2],
        be32_value(bytes) % 0x100 == bytes[3],
{
    let value = bytes[0] * 0x100_0000 + bytes[1] * 0x1_0000 + bytes[2] * 0x100 + bytes[3];
    assert(value / 0x100_0000 == bytes[0]);
    assert(value / 0x1_0000 == bytes[0] * 0x100 + bytes[1]);
    assert(value / 0x100 == bytes[0] * 0x1_0000 + bytes[1] * 0x100 + bytes[2]);
    assert(be32(be32_value(bytes)) =~= bytes);
}

/// Splits `value` into two bytes, most significant first.
pub fn be16_bytes(value: u16) -> (bytes: [u8; 2])
    ensures
        bytes@ == be16(value),
{
    [(value / 0x100) as u8, (value % 0x100) as u8]
}

/// Splits `value` into four bytes, most significant first.
pub fn be32_bytes(value: u32) -> (bytes: [u8; 4])
    ensures
        bytes@ == be32(value),
{
    [
        (value / 0x100_0000) as u8,
        (value / 0x1_0000 % 0x100) as u8,
        (value / 0x100 % 0x100) as u8,
        (value % 0x100) as u8,
    ]
}

/// Splits `value` into four bytes, least significant first.
pub fn le32_bytes(value: u32) -> (bytes: [u8; 4])
    ensures
        bytes@ == le32(value),
{
    [
        (value % 0x100) as u8,
        (value / 0x100 % 0x100) as u8,
        (value / 0x1_0000 % 0x100) as u8,
        (value / 0x100_0000) as u8,
    ]
}

/// Reads two bytes as a number, most significant first.
pub fn be16_from(b0: u8, b1: u8) -> (value: u16)
    ensures
        value == be16_value(seq![b0, b1]),
{
    b0 as u16 * 0x100 + b1 as u16
}

/// Reads four bytes as a number, most significant first.
pub fn be32_from(b0: u8, b1: u8, b2: u8, b3: u8) -> (value: u32)
    ensures
        value == be32_value(seq![b0, b1, b2, b3]),
{
    b0 as u32 * 0x100_0000 + b1 as u32 * 0x1_0000 + b2 as u32 * 0x100 + b3 as u32
}

} // verus!
