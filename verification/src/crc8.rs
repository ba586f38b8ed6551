//! The 8 bit checksum that protects SPI headers and register values.
use vstd::prelude::*;

verus! {

/// One step of the division by x^8 + x^2 + x + 1: the register moves up by one
/// bit, and the divisor is subtracted when a bit falls out at the top.
pub open spec fn shift(reg: u8) -> u8 {
    if reg & 0x80 != 0 {
        (reg << 1) ^ 0x07
    } else {
        reg << 1
    }
}

/// Eight steps of the division: one byte.
pub open spec fn shift8(reg: u8) -> u8 {
    shift(shift(shift(shift(shift(shift(shift(shift(reg))))))))
}

/// The remainder of `data`, followed by eight zero bits, in that division.
pub open spec fn checksum(data: Seq<u8>) -> u8
    decreases data.len(),
{
    if data.len() == 0 {
        0
    } else {
        shift8(checksum(data.drop_last()) ^ data.last())
    }
}

proof fn lemma_shift_injective(a: u8, b: u8)
    by (bit_vector)
    ensures
        shift(a) == shift(b) ==> a == b,
        shift(0) == 0,
{
}

proof fn lemma_shift8_injective(a: u8, b: u8)
    ensures
        shift8(a) == shift8(b) ==> a == b,
        shift8(0) == 0,
{
    lemma_shift_injective(a, b);
    lemma_shift_injective(shift(a), shift(b));
    lemma_shift_injective(shift(shift(a)), shift(shift(b)));
    lemma_shift_injective(shift(shift(shift(a))), shift(shift(shift(b))));
    lemma_shift_injective(shift(shift(shift(shift(a)))), shift(shift(shift(shift(b)))));
    lemma_shift_injective(
        shift(shift(shift(shift(shift(a))))),
        shift(shift(shift(shift(shift(b))))),
    );
    lemma_shift_injective(
        shift(shift(shift(shift(shift(shift(a)))))),
        shift(shift(shift(shift(shift(shift(b)))))),
    );
    lemma_shift_injective(
        shift(shift(shift(shift(shift(shift(shift(a))))))),
        shift(shift(shift(shift(shift(shift(shift(b))))))),
    );
}

proof fn lemma_xor_injective(a: u8, b: u8, c: u8)
    by (bit_vector)
    ensures
        a ^ b == a ^ c ==> b == c,
        b ^ a == c ^ a ==> b == c,
        a ^ a == 0,
{
}

/// One step respects the sum of two registers.
proof fn lemma_shift_linear(a: u8, b: u8)
    by (bit_vector)
    ensures
        shift(a ^ b) == shift(a) ^ shift(b),
{
}

/// Eight steps respect the sum of two registers.
proof fn lemma_shift8_linear(a: u8, b: u8)
    ensures
        shift8(a ^ b) == shift8(a) ^ shift8(b),
{
    lemma_shift_linear(a, b);
    lemma_shift_linear(shift(a), shift(b));
    lemma_shift_linear(shift(shift(a)), shift(shift(b)));
    lemma_shift_linear(shift(shift(shift(a))), shift(shift(shift(b))));
    lemma_shift_linear(shift(shift(shift(shift(a)))), shift(shift(shift(shift(b)))));
    lemma_shift_linear(shift(shift(shift(shift(shift(a))))), shift(shift(shift(shift(shift(b))))));
    lemma_shift_linear(
        shift(shift(shift(shift(shift(shift(a)))))),
        shift(shift(shift(shift(shift(shift(b)))))),
    );
    lemma_shift_linear(
        shift(shift(shift(shift(shift(shift(shift(a))))))),
        shift(shift(shift(shift(shift(shift(shift(b))))))),
    );
}

/// Eight steps turn the lowest bit into the divisor.
proof fn lemma_shift8_one()
    ensures
        shift8(1) == 7,
        shift8(0) == 0,
{
    assert(shift(1) == 2 && shift(2) == 4 && shift(4) == 8 && shift(8) == 16 && shift(16) == 32
        && shift(32) == 64 && shift(64) == 128 && shift(128) == 7 && shift(0) == 0) by (bit_vector);
}

/// The sum, bit by bit and without carry, of two messages of one length.
pub open spec fn sum(a: Seq<u8>, b: Seq<u8>) -> Seq<u8> {
    Seq::new(a.len(), |i: int| a[i] ^ b[i])
}

/// The message as one number, doubled: every bit moves up by one place, across
/// the bytes, and `carry` comes in at the end.
pub open spec fn doubled(data: Seq<u8>, carry: u8) -> Seq<u8> {
    Seq::new(
        data.len(),
        |i: int|
            (data[i] % 0x80 * 2 + (if i + 1 < data.len() {
                data[i + 1] / 0x80
            } else {
                carry
            })) as u8,
    )
}

/// The checksum of a sum of messages is the sum of their checksums.
pub proof fn law_checksum_of_a_sum(a: Seq<u8>, b: Seq<u8>)
    requires
        a.len() == b.len(),
    ensures
        checksum(sum(a, b)) == checksum(a) ^ checksum(b),
    decreases a.len(),
{
    if a.len() == 0 {
        assert(0u8 ^ 0u8 == 0u8) by (bit_vector);
    } else {
        let (fa, fb) = (a.drop_last(), b.drop_last());
        assert(sum(a, b).drop_last() =~= sum(fa, fb));
        law_checksum_of_a_sum(fa, fb);
        let (p, q, x, y) = (checksum(fa), checksum(fb), a.last(), b.last());
        assert((p ^ q) ^ (x ^ y) == (p ^ x) ^ (q ^ y)) by (bit_vector);
        lemma_shift8_linear(p ^ x, q ^ y);
    }
}

/// The checksum of the message that ends in a single set bit is the divisor
/// x^8 + x^2 + x + 1 without its leading term.
pub proof fn law_checksum_of_one(zeros: Seq<u8>)
    requires
        forall|i: int| 0 <= i < zeros.len() ==> zeros[i] == 0,
    ensures
        checksum(zeros) == 0,
        checksum(zeros.push(1)) == 0x07,
    decreases zeros.len(),
{
    if zeros.len() > 0 {
        law_checksum_of_one(zeros.drop_last());
        lemma_shift8_one();
        assert(0u8 ^ 0u8 == 0u8) by (bit_vector);
    }
    assert(zeros.push(1).drop_last() =~= zeros);
    lemma_shift8_one();
    assert(0u8 ^ 1u8 == 1u8) by (bit_vector);
}

proof fn lemma_checksum_of_doubled(data: Seq<u8>, carry: u8)
    requires
        data.len() > 0 ==> data[0] < 0x80,
        data.len() == 0 ==> carry == 0,
        carry <= 1,
    ensures
        checksum(doubled(data, carry)) == shift(checksum(data)) ^ (if carry == 1 {
            7u8
        } else {
            0
        }),
    decreases data.len(),
{
    if data.len() == 0 {
        assert(shift(0) ^ 0u8 == 0u8) by (bit_vector);
    } else {
        let front = data.drop_last();
        let b = data.last();
        let up = b / 0x80;
        lemma_checksum_of_doubled(front, up);
        assert(doubled(data, carry).drop_last() =~= doubled(front, up));
        let low = (b % 0x80 * 2 + carry) as u8;
        assert(doubled(data, carry).last() == low);
        let f = shift(checksum(front));
        let s = shift(b);
        assert((f ^ (if b / 0x80 == 1 { 7u8 } else { 0 })) ^ low == (f ^ s) ^ carry) by (bit_vector)
            requires
                s == shift(b),
                low == b % 0x80 * 2 + carry,
                carry <= 1,
        ;
        lemma_shift_linear(checksum(front), b);
        lemma_shift8_linear(f ^ s, carry);
        lemma_shift8_one();
        lemma_shift8_linear(shift(checksum(front) ^ b), carry);
    }
}

/// Doubling a message doubles its checksum, with the divisor subtracted where
/// that leaves the eight bits. Together with the two laws before, this fixes
/// the checksum of every message.
pub proof fn law_checksum_of_doubled(data: Seq<u8>)
    requires
        data.len() > 0 ==> data[0] < 0x80,
    ensures
        checksum(doubled(data, 0)) == (if checksum(data) < 0x80 {
            (checksum(data) * 2) as u8
        } else {
            ((checksum(data) * 2 - 0x100) as u8) ^ 0x07
        }),
{
    lemma_checksum_of_doubled(data, 0);
    let c = checksum(data);
    assert(shift(c) ^ 0 == (if c < 0x80 {
        (c * 2) as u8
    } else {
        ((c * 2 - 0x100) as u8) ^ 0x07
    })) by (bit_vector);
}

/// A byte behind a message makes the checksum zero when, and only when, it is
/// the checksum of the message.
pub proof fn law_only_the_checksum_cancels(data: Seq<u8>, byte: u8)
    ensures
        checksum(data.push(byte)) == 0 <==> byte == checksum(data),
{
    law_appended_checksum_cancels(data);
    assert(data.push(byte).drop_last() =~= data);
    lemma_shift8_injective(checksum(data) ^ byte, 0);
    lemma_xor_injective(checksum(data), byte, checksum(data));
}

/// A message followed by its own checksum has the checksum zero.
pub proof fn law_appended_checksum_cancels(data: Seq<u8>)
    ensures
        checksum(data.push(checksum(data))) == 0,
{
    let whole = data.push(checksum(data));
    assert(whole.drop_last() =~= data);
    lemma_xor_injective(checksum(data), 0, 0);
    lemma_shift8_injective(0, 0);
}

/// Two messages that differ in exactly one byte have different checksums.
pub proof fn law_single_byte_change_is_seen(a: Seq<u8>, b: Seq<u8>, at: int)
    requires
        a.len() == b.len(),
        0 <= at < a.len(),
        a[at] != b[at],
        forall|i: int| 0 <= i < a.len() && i != at ==> a[i] == b[i],
    ensures
        checksum(a) != checksum(b),
    decreases a.len(),
{
    if at == a.len() - 1 {
        assert(a.drop_last() =~= b.drop_last());
        let prefix = checksum(a.drop_last());
        if checksum(a) == checksum(b) {
            lemma_shift8_injective(prefix ^ a.last(), prefix ^ b.last());
            lemma_xor_injective(prefix, a.last(), b.last());
        }
    } else {
        law_single_byte_change_is_seen(a.drop_last(), b.drop_last(), at);
        let p = checksum(a.drop_last());
        let q = checksum(b.drop_last());
        if checksum(a) == checksum(b) {
            lemma_shift8_injective(p ^ a.last(), q ^ b.last());
            lemma_xor_injective(a.last(), p, q);
        }
    }
}

/// One step of the division.
fn shift_once(reg: u8) -> (next: u8)
    ensures
        next == shift(reg),
{
    if reg & 0x80 != 0 {
        (reg << 1) ^ 0x07
    } else {
        reg << 1
    }
}

/// The checksum of `data`.
pub fn crc8(data: &[u8]) -> (crc: u8)
    ensures
        crc == checksum(data@),
{
    let mut crc: u8 = 0;
    let mut i: usize = 0;
    while i < data.len()
        invariant
            i <= data@.len(),
            crc == checksum(data@.take(i as int)),
        decreases data@.len() - i,
    {
        let reg: u8 = crc ^ data[i];
        assert(data@.take(i + 1).drop_last() =~= data@.take(i as int));
        crc = shift_once(
            shift_once(shift_once(shift_once(shift_once(shift_once(shift_once(shift_once(reg))))))),
        );
        i = i + 1;
    }
    assert(data@.take(i as int) =~= data@);
    crc
}

/// Whatever the data, its checksum behind it makes the whole cancel, and no other
/// byte does.
pub proof fn law_checksum_is_accepted(data: &[u8], sum: u8, other: u8)
    requires
        call_ensures(crc8, (data,), sum),
    ensures
        checksum(data@.push(other)) == 0 <==> other == sum,
{
    law_only_the_checksum_cancels(data@, other);
}

} // verus!
