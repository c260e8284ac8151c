//! The frame checksum used in both directions of the wire protocol: the
//! 16-bit byte sum, negated in two's complement, so that the sum of all
//! summed bytes plus the checksum vanishes modulo 65536.

use vstd::prelude::*;

verus! {

/// The sum of the bytes of a sequence, as an unbounded integer.
pub open spec fn byte_sum(b: Seq<u8>) -> int
    decreases b.len(),
{
    if b.len() == 0 {
        0
    } else {
        byte_sum(b.drop_last()) + b.last()
    }
}

/// The checksum of a sequence: `(1 + bitwise-complement(sum)) mod 65536`,
/// which equals the two's-complement negation of the 16-bit byte sum.
pub open spec fn checksum_of(b: Seq<u8>) -> int {
    (0x10000 - byte_sum(b) % 0x10000) % 0x10000
}

pub proof fn lemma_byte_sum_nonneg(b: Seq<u8>)
    ensures
        byte_sum(b) >= 0,
    decreases b.len(),
{
    if b.len() > 0 {
        lemma_byte_sum_nonneg(b.drop_last());
    }
}

/// Appending one byte adds it to the sum.
pub proof fn lemma_byte_sum_push(b: Seq<u8>, x: u8)
    ensures
        byte_sum(b.push(x)) == byte_sum(b) + x,
{
    assert(b.push(x).drop_last() =~= b);
}

/// The checksum is exactly the documented formula: one plus the bitwise
/// complement of the 16-bit byte sum, modulo 65536.
pub proof fn lemma_checksum_complement_form(b: Seq<u8>)
    ensures
        checksum_of(b) == (1 + !((byte_sum(b) % 0x10000) as u16)) % 0x10000,
{
    lemma_byte_sum_nonneg(b);
    vstd::arithmetic::div_mod::lemma_mod_bound(byte_sum(b), 0x10000);
    let m = (byte_sum(b) % 0x10000) as u16;
    assert(!m == 0xFFFF - m) by (bit_vector);
    if m == 0 {
        assert((1 + 0xFFFF) % 0x10000 == 0);
    } else {
        vstd::arithmetic::div_mod::lemma_small_mod((0x10000 - m) as nat, 0x10000);
    }
}

/// Checksum invariant: for any byte sequence, adding the checksum to the
/// byte sum gives zero modulo 65536.
pub proof fn lemma_checksum_cancels(b: Seq<u8>)
    ensures
        (byte_sum(b) + checksum_of(b)) % 0x10000 == 0,
{
    lemma_byte_sum_nonneg(b);
    let s = byte_sum(b);
    let m = s % 0x10000;
    vstd::arithmetic::div_mod::lemma_fundamental_div_mod(s, 0x10000);
    assert(0 <= m < 0x10000);
    if m == 0 {
        assert(checksum_of(b) == 0);
        assert(s + 0 == 0x10000 * (s / 0x10000)) by {
            vstd::arithmetic::div_mod::lemma_fundamental_div_mod(s, 0x10000);
        }
        vstd::arithmetic::div_mod::lemma_mod_multiples_basic(s / 0x10000, 0x10000);
    } else {
        assert(checksum_of(b) == 0x10000 - m);
        assert(s + (0x10000 - m) == 0x10000 * (s / 0x10000 + 1)) by {
            vstd::arithmetic::div_mod::lemma_fundamental_div_mod(s, 0x10000);
        }
        vstd::arithmetic::div_mod::lemma_mod_multiples_basic(s / 0x10000 + 1, 0x10000);
    }
}

/// Computes the frame checksum of a byte slice.
pub fn compute_checksum(bytes: &[u8]) -> (c: u16)
    ensures
        c == checksum_of(bytes@),
{
    let mut sum: u16 = 0;
    let mut i: usize = 0;
    while i < bytes.len()
        invariant
            i <= bytes.len(),
            sum == byte_sum(bytes@.take(i as int)) % 0x10000,
        decreases bytes.len() - i,
    {
        proof {
            lemma_byte_sum_push(bytes@.take(i as int), bytes@[i as int]);
            assert(bytes@.take(i as int).push(bytes@[i as int]) =~= bytes@.take(
                i as int + 1,
            ));
            lemma_byte_sum_nonneg(bytes@.take(i as int));
            vstd::arithmetic::div_mod::lemma_add_mod_noop(
                byte_sum(bytes@.take(i as int)),
                bytes@[i as int] as int,
                0x10000,
            );
        }
        sum = sum.wrapping_add(bytes[i] as u16);
        i += 1;
    }
    proof {
        assert(bytes@.take(bytes@.len() as int) =~= bytes@);
        lemma_byte_sum_nonneg(bytes@);
    }
    if sum == 0 {
        0
    } else {
        0xFFFFu16 - sum + 1
    }
}

} // verus!
