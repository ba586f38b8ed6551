//! The Ethernet frame check sequence.
use vstd::prelude::*;

use crate::bytes;

verus! {

/// One step of the division by the Ethernet polynomial, with the bits of the
/// register in reverse order: the lowest bit leaves first.
pub open spec fn shift(reg: u32) -> u32 {
    if reg & 1 != 0 {
        (reg >> 1) ^ 0xEDB8_8320
    } else {
        reg >> 1
    }
}

/// Eight steps of the division: one byte.
pub open spec fn shift8(reg: u32) -> u32 {
    shift(shift(shift(shift(shift(shift(shift(shift(reg))))))))
}

/// The register after the bytes of `data` went into it, `start` before.
pub open spec fn divide(start: u32, data: Seq<u8>) -> u32
    decreases data.len(),
{
    if data.len() == 0 {
        start
    } else {
        shift8(divide(start, data.drop_last()) ^ (data.last() as u32))
    }
}

/// The frame check sequence of `data`: the register starts with all bits set,
/// and what it holds at the end is inverted.
pub open spec fn fcs(data: Seq<u8>) -> u32 {
    divide(0xFFFF_FFFF, data) ^ 0xFFFF_FFFF
}

/// What a receiver's register holds after an intact frame and its check
/// sequence.
pub const RESIDUE: u32 = 0xDEBB_20E3;

/// Dividing two pieces one after the other is dividing them as one.
pub proof fn lemma_divide_concat(start: u32, a: Seq<u8>, b: Seq<u8>)
    ensures
        divide(start, a + b) == divide(divide(start, a), b),
    decreases b.len(),
{
    if b.len() == 0 {
        assert(a + b =~= a);
    } else {
        assert((a + b).drop_last() =~= a + b.drop_last());
        lemma_divide_concat(start, a, b.drop_last());
    }
}

proof fn lemma_inverted_twice(value: u32)
    by (bit_vector)
    ensures
        (value ^ 0xFFFF_FFFF) ^ 0xFFFF_FFFF == value,
{
}

/// One step respects the sum of two registers, and only moves a register whose
/// lowest bit is zero.
proof fn lemma_shift_linear(a: u32, b: u32)
    by (bit_vector)
    ensures
        shift(a ^ b) == shift(a) ^ shift(b),
        a & 1 == 0 ==> shift(a) == a >> 1,
{
}

/// Eight steps respect the sum of two registers.
proof fn lemma_shift8_linear(a: u32, b: u32)
    ensures
        shift8(a ^ b) == shift8(a) ^ shift8(b),
{
    lemma_shift_linear(a, b);
    lemma_shift_linear(shift(a), shift(b));
    lemma_shift_linear(shift(shift(a)), shift(shift(b)));
    lemma_shift_linear(shift(shift(shift(a))), shift(shift(shift(b))));
    lemma_shift_linear(shift(shift(shift(shift(a)))), shift(shift(shift(shift(b)))));
    lemma_shift_linear(shift(shift(shift(shift(shift(a))))), shift(shift(shift(shift(shift(b))))));
    lemma_shift_linear(
        shift(shift(shift(shift(shift(shift(a)))))),
        shift(shift(shift(shift(shift(shift(b)))))),
    );
    lemma_shift_linear(
        shift(shift(shift(shift(shift(shift(shift(a))))))),
        shift(shift(shift(shift(shift(shift(shift(b))))))),
    );
}

/// Eight steps only move a register whose lowest byte is zero.
proof fn lemma_shift8_moves(a: u32)
    requires
        a & 0xFF == 0,
    ensures
        shift8(a) == a >> 8,
{
    assert(a & 1 == 0 && (a >> 1) & 1 == 0 && ((a >> 1) >> 1) & 1 == 0 && (((a >> 1) >> 1) >> 1) & 1
        == 0 && ((((a >> 1) >> 1) >> 1) >> 1) & 1 == 0 && (((((a >> 1) >> 1) >> 1) >> 1) >> 1) & 1 == 0
        && ((((((a >> 1) >> 1) >> 1) >> 1) >> 1) >> 1) & 1 == 0 && (((((((a >> 1) >> 1) >> 1) >> 1) >> 1)
        >> 1) >> 1) & 1 == 0 && ((((((((a >> 1) >> 1) >> 1) >> 1) >> 1) >> 1) >> 1) >> 1) == a >> 8)
        by (bit_vector)
        requires
            a & 0xFF == 0,
    ;
    lemma_shift_linear(a, 0);
    lemma_shift_linear(a >> 1, 0);
    lemma_shift_linear((a >> 1) >> 1, 0);
    lemma_shift_linear(((a >> 1) >> 1) >> 1, 0);
    lemma_shift_linear((((a >> 1) >> 1) >> 1) >> 1, 0);
    lemma_shift_linear(((((a >> 1) >> 1) >> 1) >> 1) >> 1, 0);
    lemma_shift_linear((((((a >> 1) >> 1) >> 1) >> 1) >> 1) >> 1, 0);
    lemma_shift_linear(((((((a >> 1) >> 1) >> 1) >> 1) >> 1) >> 1) >> 1, 0);
}

/// The register that starts at zero and takes in four bytes of ones.
proof fn lemma_four_bytes_of_ones()
    by (bit_vector)
    ensures
        0x0000_0000u32 ^ 0xFF == 0x0000_00FF,
        shift(0x0000_00FF) == 0xEDB8_835F,
        shift(0xEDB8_835F) == 0x9B64_C28F,
        shift(0x9B64_C28F) == 0xA00A_E267,
        shift(0xA00A_E267) == 0xBDBD_F213,
        shift(0xBDBD_F213) == 0xB366_7A29,
        shift(0xB366_7A29) == 0xB40B_BE34,
        shift(0xB40B_BE34) == 0x5A05_DF1A,
        shift(0x5A05_DF1A) == 0x2D02_EF8D,
        0x2D02_EF8Du32 ^ 0xFF == 0x2D02_EF72,
        shift(0x2D02_EF72) == 0x1681_77B9,
        shift(0x1681_77B9) == 0xE6F8_38FC,
        shift(0xE6F8_38FC) == 0x737C_1C7E,
        shift(0x737C_1C7E) == 0x39BE_0E3F,
        shift(0x39BE_0E3F) == 0xF167_843F,
        shift(0xF167_843F) == 0x950B_413F,
        shift(0x950B_413F) == 0xA73D_23BF,
        shift(0xA73D_23BF) == 0xBE26_12FF,
        0xBE26_12FFu32 ^ 0xFF == 0xBE26_1200,
        shift(0xBE26_1200) == 0x5F13_0900,
        shift(0x5F13_0900) == 0x2F89_8480,
        shift(0x2F89_8480) == 0x17C4_C240,
        shift(0x17C4_C240) == 0x0BE2_6120,
        shift(0x0BE2_6120) == 0x05F1_3090,
        shift(0x05F1_3090) == 0x02F8_9848,
        shift(0x02F8_9848) == 0x017C_4C24,
        shift(0x017C_4C24) == 0x00BE_2612,
        0x00BE_2612u32 ^ 0xFF == 0x00BE_26ED,
        shift(0x00BE_26ED) == 0xEDE7_9056,
        shift(0xEDE7_9056) == 0x76F3_C82B,
        shift(0x76F3_C82B) == 0xD6C1_6735,
        shift(0xD6C1_6735) == 0x86D8_30BA,
        shift(0x86D8_30BA) == 0x436C_185D,
        shift(0x436C_185D) == 0xCC0E_8F0E,
        shift(0xCC0E_8F0E) == 0x6607_4787,
        shift(0x6607_4787) == 0xDEBB_20E3,
{
}

/// Takes in the byte that turns the lowest byte of `left` into ones, where the
/// register is `left` with `mask` over it.
proof fn lemma_residue_byte(left: u32, mask: u32, byte: u32)
    requires
        byte == (left & 0xFF) ^ 0xFF,
    ensures
        shift8((left ^ mask) ^ byte) == (left >> 8) ^ shift8(mask ^ 0xFF),
{
    let high = left & 0xFFFF_FF00;
    assert((left ^ mask) ^ byte == high ^ (mask ^ 0xFF) && high & 0xFF == 0 && high >> 8 == left >> 8)
        by (bit_vector)
        requires
            byte == (left & 0xFF) ^ 0xFF,
            high == left & 0xFFFF_FF00,
    ;
    lemma_shift8_linear(high, mask ^ 0xFF);
    lemma_shift8_moves(high);
}

proof fn lemma_residue_bytes(reg: u32, sum: u32)
    by (bit_vector)
    requires
        sum == reg ^ 0xFFFF_FFFF,
    ensures
        sum % 0x100 == (reg & 0xFF) ^ 0xFF,
        sum / 0x100 % 0x100 == ((reg >> 8) & 0xFF) ^ 0xFF,
        sum / 0x1_0000 % 0x100 == (((reg >> 8) >> 8) & 0xFF) ^ 0xFF,
        sum / 0x100_0000 == ((((reg >> 8) >> 8) >> 8) & 0xFF) ^ 0xFF,
        reg ^ 0 == reg,
        (((reg >> 8) >> 8) >> 8) >> 8 == 0,
{
}

/// A receiver that divides a frame together with the check sequence behind it,
/// least significant byte first, ends with the same residue for every frame.
pub proof fn law_receiver_residue(data: Seq<u8>)
    ensures
        divide(0xFFFF_FFFF, data + bytes::le32(fcs(data))) == RESIDUE,
{
    let reg = divide(0xFFFF_FFFF, data);
    let sum = fcs(data);
    let tail = bytes::le32(sum);
    lemma_divide_concat(0xFFFF_FFFF, data, tail);
    let t3 = tail.drop_last();
    let t2 = t3.drop_last();
    let t1 = t2.drop_last();
    assert(t1.drop_last() =~= Seq::<u8>::empty());
    assert(divide(reg, t1.drop_last()) == reg);
    assert(tail.last() as u32 == sum / 0x100_0000);
    assert(t3.last() as u32 == sum / 0x1_0000 % 0x100);
    assert(t2.last() as u32 == sum / 0x100 % 0x100);
    assert(t1.last() as u32 == sum % 0x100);
    lemma_residue_bytes(reg, sum);
    lemma_four_bytes_of_ones();
    let c1 = shift8(0u32 ^ 0xFF);
    let c2 = shift8(c1 ^ 0xFF);
    let c3 = shift8(c2 ^ 0xFF);
    lemma_residue_byte(reg, 0, sum % 0x100);
    lemma_residue_byte(reg >> 8, c1, sum / 0x100 % 0x100);
    lemma_residue_byte((reg >> 8) >> 8, c2, sum / 0x1_0000 % 0x100);
    lemma_residue_byte(((reg >> 8) >> 8) >> 8, c3, sum / 0x100_0000);
    assert(0u32 ^ RESIDUE == RESIDUE) by (bit_vector);
    assert(divide(reg, t1) == (reg >> 8) ^ c1);
    assert(divide(reg, t2) == ((reg >> 8) >> 8) ^ c2);
    assert(divide(reg, t3) == (((reg >> 8) >> 8) >> 8) ^ c3);
}

/// The register after a sum of two messages of one length, bit by bit and
/// without carry, is the sum of the two registers.
pub proof fn law_division_respects_sums(s: u32, t: u32, a: Seq<u8>, b: Seq<u8>)
    requires
        a.len() == b.len(),
    ensures
        divide(s ^ t, Seq::new(a.len(), |i: int| a[i] ^ b[i])) == divide(s, a) ^ divide(t, b),
    decreases a.len(),
{
    let both = Seq::new(a.len(), |i: int| a[i] ^ b[i]);
    if a.len() > 0 {
        let (fa, fb) = (a.drop_last(), b.drop_last());
        assert(both.drop_last() =~= Seq::new(fa.len(), |i: int| fa[i] ^ fb[i]));
        law_division_respects_sums(s, t, fa, fb);
        let (p, q, x, y) = (divide(s, fa), divide(t, fb), a.last(), b.last());
        assert((p ^ q) ^ ((x ^ y) as u32) == (p ^ (x as u32)) ^ (q ^ (y as u32))) by (bit_vector);
        lemma_shift8_linear(p ^ (x as u32), q ^ (y as u32));
    }
}

/// A byte goes in at the low end of the register.
pub proof fn law_byte_goes_in_at_the_low_end(start: u32, byte: u8)
    ensures
        divide(start, seq![byte]) == divide(start ^ (byte as u32), seq![0u8]),
{
    assert(seq![byte].drop_last() =~= Seq::<u8>::empty());
    assert(seq![0u8].drop_last() =~= Seq::<u8>::empty());
    let mixed = start ^ (byte as u32);
    assert(mixed ^ (0u8 as u32) == mixed) by (bit_vector);
    assert(divide(start, seq![byte].drop_last()) == start);
    assert(divide(mixed, seq![0u8].drop_last()) == mixed);
}

/// What a zero byte does to the register: the register moves down by eight bits
/// where these are zero; the bit that leaves last becomes the Ethernet
/// polynomial; and dividing one bit further before or after is the same.
/// Together with the two laws before, this fixes the division.
pub proof fn law_zero_byte(reg: u32)
    ensures
        reg % 0x100 == 0 ==> divide(reg, seq![0u8]) == reg / 0x100,
        divide(0x80, seq![0u8]) == 0xEDB8_8320,
        ({
            let one_further = |r: u32| if r % 2 == 1 { (r / 2) ^ 0xEDB8_8320 } else { r / 2 };
            divide(one_further(reg), seq![0u8]) == one_further(divide(reg, seq![0u8]))
        }),
{
    lemma_zero_byte(reg);
    lemma_zero_byte(0x80);
    lemma_zero_byte(shift(reg));
    if reg % 0x100 == 0 {
        assert(reg & 0xFF == 0 && reg >> 8 == reg / 0x100) by (bit_vector)
            requires
                reg % 0x100 == 0,
        ;
        lemma_shift8_moves(reg);
    }
    assert(shift(0x80) == 0x40 && shift(0x40) == 0x20 && shift(0x20) == 0x10 && shift(0x10) == 8
        && shift(8) == 4 && shift(4) == 2 && shift(2) == 1 && shift(1) == 0xEDB8_8320)
        by (bit_vector);
    lemma_shift_digits(reg);
    lemma_shift_digits(shift8(reg));
}

proof fn lemma_zero_byte(reg: u32)
    ensures
        divide(reg, seq![0u8]) == shift8(reg),
{
    assert(seq![0u8].drop_last() =~= Seq::<u8>::empty());
    assert(divide(reg, seq![0u8].drop_last()) == reg);
    assert(reg ^ (0u8 as u32) == reg) by (bit_vector);
}

proof fn lemma_shift_digits(r: u32)
    by (bit_vector)
    ensures
        shift(r) == (if r % 2 == 1 { (r / 2) ^ 0xEDB8_8320 } else { r / 2 }),
{
}

/// Frame check sequence over Ethernet data.
#[allow(non_camel_case_types)]
#[derive(Debug, Clone, Copy, PartialEq, Eq)]
pub struct ETH_FSC(pub u32);

impl ETH_FSC {
    /// The frame check sequence of `data`.
    pub fn new(data: &[u8]) -> (fsc: Self)
        ensures
            fsc.0 == fcs(data@),
    {
        ETH_FSC(divided(0xFFFF_FFFF, data) ^ 0xFFFF_FFFF)
    }

    /// The frame check sequence of what `self` covers with `data` behind it.
    pub fn update(self, data: &[u8]) -> (fsc: Self)
        ensures
            fsc.0 == divide(self.0 ^ 0xFFFF_FFFF, data@) ^ 0xFFFF_FFFF,
            forall|front: Seq<u8>| self.0 == #[trigger] fcs(front) ==> fsc.0 == fcs(front + data@),
    {
        proof {
            assert forall|front: Seq<u8>| self.0 == #[trigger] fcs(front) implies divide(
                self.0 ^ 0xFFFF_FFFF,
                data@,
            ) ^ 0xFFFF_FFFF == fcs(front + data@) by {
                lemma_inverted_twice(divide(0xFFFF_FFFF, front));
                lemma_divide_concat(0xFFFF_FFFF, front, data@);
            }
        }
        ETH_FSC(divided(self.0 ^ 0xFFFF_FFFF, data) ^ 0xFFFF_FFFF)
    }

    /// The bytes in the order in which they go over the wire.
    pub fn hton_bytes(&self) -> (wire: [u8; 4])
        ensures
            wire@ == bytes::le32(self.0),
    {
        bytes::le32_bytes(self.0)
    }
}

/// One step of the division.
fn shift_once(reg: u32) -> (next: u32)
    ensures
        next == shift(reg),
{
    if reg & 1 != 0 {
        (reg >> 1) ^ 0xEDB8_8320
    } else {
        reg >> 1
    }
}

/// Takes the bytes of `data` into the register.
fn divided(start: u32, data: &[u8]) -> (reg: u32)
    ensures
        reg == divide(start, data@),
{
    let mut reg: u32 = start;
    let mut i: usize = 0;
    while i < data.len()
        invariant
            i <= data@.len(),
            reg == divide(start, data@.take(i as int)),
        decreases data@.len() - i,
    {
        assert(data@.take(i + 1).drop_last() =~= data@.take(i as int));
        let mixed: u32 = reg ^ (data[i] as u32);
        reg = shift_once(
            shift_once(
                shift_once(shift_once(shift_once(shift_once(shift_once(shift_once(mixed)))))),
            ),
        );
        i = i + 1;
    }
    assert(data@.take(i as int) =~= data@);
    reg
}

/// A receiver that takes data and its check sequence through the division, in
/// the order in which they go over the wire, ends with the residue.
pub proof fn law_check_sequence_is_accepted(data: &[u8], fsc: ETH_FSC, wire: [u8; 4])
    requires
        call_ensures(ETH_FSC::new, (data,), fsc),
        call_ensures(ETH_FSC::hton_bytes, (&fsc,), wire),
    ensures
        divide(0xFFFF_FFFF, data@ + wire@) == 0xDEBB_20E3,
{
    law_receiver_residue(data@);
}

/// A check sequence can be made in pieces: of the first part, then brought up to
/// date with the rest.
pub proof fn law_check_sequence_in_pieces(
    front: &[u8],
    rest: &[u8],
    whole: &[u8],
    of_front: ETH_FSC,
    updated: ETH_FSC,
    at_once: ETH_FSC,
)
    requires
        whole@ == front@ + rest@,
        call_ensures(ETH_FSC::new, (front,), of_front),
        call_ensures(ETH_FSC::update, (of_front, rest), updated),
        call_ensures(ETH_FSC::new, (whole,), at_once),
    ensures
        updated == at_once,
{
}

} // verus!
