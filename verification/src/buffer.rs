//! The fixed capacity byte buffers in which SPI messages are put together.
//!
//! The buffers are `heapless::Vec`s. What such a vector holds is known to the
//! proofs through one name per capacity, and the functions below state what
//! each operation does to it.
use vstd::prelude::*;

use crate::{ETH_MIN_LEN, FRAME_HEADER_LEN, FSC_LEN, SPI_HEADER_CRC_LEN, SPI_HEADER_LEN};

verus! {

/// Capacity of a buffer for a register message.
pub const TX_LEN: usize = 16;

/// Capacity of a buffer for what goes ahead of a frame: SPI header, its
/// optional checksum and the frame header.
pub const HEAD_LEN: usize = SPI_HEADER_LEN + SPI_HEADER_CRC_LEN + FRAME_HEADER_LEN;

/// Capacity of a buffer for what follows a frame: padding, frame check
/// sequence and the bytes that fill up the SPI transfer.
pub const TAIL_LEN: usize = ETH_MIN_LEN - FSC_LEN + FSC_LEN + 1;

/// A register message.
pub type TxBuf = heapless::Vec<u8, TX_LEN>;

/// What goes ahead of a frame.
pub type HeadBuf = heapless::Vec<u8, HEAD_LEN>;

/// What follows a frame.
pub type TailBuf = heapless::Vec<u8, TAIL_LEN>;

/// Makes `heapless::Vec` known to the verifier, as an opaque type.
#[verifier::external_type_specification]
#[verifier::external_body]
#[verifier::reject_recursive_types(T)]
pub struct ExVec<T, const N: usize>(heapless::Vec<T, N>);

/// The bytes that a `heapless::Vec` of capacity `TX_LEN` holds, in order.
pub uninterp spec fn tx_contents(buf: heapless::Vec<u8, TX_LEN>) -> Seq<u8>;

/// The bytes that a `heapless::Vec` of capacity `HEAD_LEN` holds, in order.
pub uninterp spec fn head_contents(buf: heapless::Vec<u8, HEAD_LEN>) -> Seq<u8>;

/// The bytes that a `heapless::Vec` of capacity `TAIL_LEN` holds, in order.
pub uninterp spec fn tail_contents(buf: heapless::Vec<u8, TAIL_LEN>) -> Seq<u8>;

/// The bytes in a buffer, in order, whatever its capacity.
pub trait Contents {
    spec fn contents(&self) -> Seq<u8>;
}

impl Contents for heapless::Vec<u8, TX_LEN> {
    open spec fn contents(&self) -> Seq<u8> {
        tx_contents(*self)
    }
}

impl Contents for heapless::Vec<u8, HEAD_LEN> {
    open spec fn contents(&self) -> Seq<u8> {
        head_contents(*self)
    }
}

impl Contents for heapless::Vec<u8, TAIL_LEN> {
    open spec fn contents(&self) -> Seq<u8> {
        tail_contents(*self)
    }
}

/// `heapless::Vec::new` for a register message: the vector is empty.
#[verifier::external_body]
pub(crate) fn new_tx() -> (buf: TxBuf)
    ensures
        tx_contents(buf) == Seq::<u8>::empty(),
{
    heapless::Vec::new()
}

/// `heapless::Vec::new` for what goes ahead of a frame: the vector is empty.
#[verifier::external_body]
pub(crate) fn new_head() -> (buf: HeadBuf)
    ensures
        head_contents(buf) == Seq::<u8>::empty(),
{
    heapless::Vec::new()
}

/// `heapless::Vec::new` for what follows a frame: the vector is empty.
#[verifier::external_body]
pub(crate) fn new_tail() -> (buf: TailBuf)
    ensures
        tail_contents(buf) == Seq::<u8>::empty(),
{
    heapless::Vec::new()
}

/// `heapless::Vec::push`: appends the byte while there is room for it. A full
/// vector stays as it is, and the byte is handed back.
#[verifier::external_body]
pub(crate) fn push<const N: usize>(buf: &mut heapless::Vec<u8, N>, byte: u8) -> (r: Result<(), u8>)
    where heapless::Vec<u8, N>: Contents,
    ensures
        r == (if old(buf).contents().len() < N { Ok::<(), u8>(()) } else { Err::<(), u8>(byte) }),
        final(buf).contents() == (if old(buf).contents().len() < N {
            old(buf).contents().push(byte)
        } else {
            old(buf).contents()
        }),
{
    buf.push(byte)
}

/// `heapless::Vec::extend_from_slice`: appends all the bytes when all of them
/// fit. When they do not, the vector stays as it is.
#[verifier::external_body]
pub(crate) fn extend_from_slice<const N: usize>(
    buf: &mut heapless::Vec<u8, N>,
    other: &[u8],
) -> (r: Result<(), ()>)
    where heapless::Vec<u8, N>: Contents,
    ensures
        r == (if old(buf).contents().len() + other@.len() <= N {
            Ok::<(), ()>(())
        } else {
            Err::<(), ()>(())
        }),
        final(buf).contents() == (if old(buf).contents().len() + other@.len() <= N {
            old(buf).contents() + other@
        } else {
            old(buf).contents()
        }),
{
    buf.extend_from_slice(other)
}

/// `heapless::Vec::resize`: cuts the vector to `new_len` bytes, or fills it up
/// to that length with `value`. A length beyond the capacity is refused, and
/// the vector stays as it is.
#[verifier::external_body]
pub(crate) fn resize<const N: usize>(
    buf: &mut heapless::Vec<u8, N>,
    new_len: usize,
    value: u8,
) -> (r: Result<(), ()>)
    where heapless::Vec<u8, N>: Contents,
    ensures
        r == (if new_len <= N { Ok::<(), ()>(()) } else { Err::<(), ()>(()) }),
        final(buf).contents() == (if new_len <= N {
            Seq::new(
                new_len as nat,
                |i: int| if i < old(buf).contents().len() { old(buf).contents()[i] } else { value },
            )
        } else {
            old(buf).contents()
        }),
{
    buf.resize(new_len, value)
}

/// `heapless::Vec::as_slice`: the bytes of the vector, in order.
#[verifier::external_body]
pub(crate) fn as_slice<const N: usize>(buf: &heapless::Vec<u8, N>) -> (bytes: &[u8])
    where heapless::Vec<u8, N>: Contents,
    ensures
        bytes@ == buf.contents(),
{
    buf.as_slice()
}

} // verus!
