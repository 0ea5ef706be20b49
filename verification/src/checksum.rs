//! The ICMP one's-complement checksum: the bitwise complement of the
//! one's-complement sum of the buffer's 16-bit big-endian words, a trailing
//! odd byte padded with a zero low byte.

use vstd::prelude::*;

verus! {

/// The largest buffer the checksum is defined over: an ICMP message always
/// fits in one IPv4 datagram, whose total-length field is 16 bits wide.
pub const MAX_MESSAGE_LEN: usize = 0xffff;

/// The plain sum of the buffer's 16-bit big-endian words, carries not yet
/// folded; a trailing odd byte counts as a word with a zero low byte.
pub open spec fn word_sum(b: Seq<u8>) -> int
    decreases b.len(),
{
    if b.len() == 0 {
        0
    } else if b.len() == 1 {
        b[0] * 256
    } else {
        b[0] * 256 + b[1] + word_sum(b.skip(2))
    }
}

/// Folds the carry bits above the low 16 back into the sum (the "end-around
/// carry") until the value fits in 16 bits.
pub open spec fn fold_carries(x: int) -> int
    decreases x,
{
    if x < 0x10000 {
        x
    } else {
        fold_carries(x % 0x10000 + x / 0x10000)
    }
}

/// What `checksum` returns: the complement, within 16 bits, of the folded
/// word sum.
pub open spec fn checksum_of(b: Seq<u8>) -> int {
    0xffff - fold_carries(word_sum(b))
}

/// A sum of byte-built words cannot be negative.
pub proof fn lemma_word_sum_nonneg(b: Seq<u8>)
    ensures
        word_sum(b) >= 0,
    decreases b.len(),
{
    if b.len() >= 2 {
        lemma_word_sum_nonneg(b.skip(2));
    }
}

/// Folding a non-negative sum lands in the 16-bit range.
pub proof fn lemma_fold_carries_range(x: int)
    requires
        x >= 0,
    ensures
        0 <= fold_carries(x) <= 0xffff,
    decreases x,
{
    if x >= 0x10000 {
        lemma_fold_carries_range(x % 0x10000 + x / 0x10000);
    }
}

/// Computes the ICMP checksum of the buffer. The caller zeroes the checksum
/// field beforehand; on a buffer with a live checksum field the result is a
/// well-defined but different value, not an error.
pub fn checksum(buffer: &[u8]) -> (r: u16)
    requires
        buffer@.len() <= MAX_MESSAGE_LEN,
    ensures
        r == checksum_of(buffer@),
{
    let n = buffer.len();
    let mut acc: u32 = 0;
    let mut i: usize = 0;
    proof {
        assert(buffer@.skip(0) =~= buffer@);
    }
    while i < n
        invariant
            i <= n,
            n == buffer@.len(),
            n <= 0xffff,
            acc <= 0xffff * i,
            word_sum(buffer@) == acc + word_sum(buffer@.skip(i as int)),
        decreases n - i,
    {
        proof {
            lemma_word_sum_nonneg(buffer@.skip(i as int));
        }
        if i + 1 < n {
            let word: u32 = (buffer[i] as u32) * 256 + (buffer[i + 1] as u32);
            proof {
                assert(buffer@.skip(i as int).skip(2) =~= buffer@.skip(i + 2));
                lemma_word_sum_nonneg(buffer@.skip(i + 2));
            }
            acc = acc + word;
            i = i + 2;
        } else {
            let word: u32 = (buffer[i] as u32) * 256;
            acc = acc + word;
            i = i + 1;
        }
    }
    let mut sum: u32 = acc;
    while sum >= 0x10000
        invariant
            fold_carries(sum as int) == fold_carries(word_sum(buffer@)),
        decreases sum,
    {
        sum = sum % 0x10000 + sum / 0x10000;
    }
    0xffff - (sum as u16)
}

/// The buffer with `value` written big-endian into the ICMP checksum field
/// (bytes 2 and 3), every other byte kept.
pub open spec fn with_checksum(b: Seq<u8>, value: u16) -> Seq<u8> {
    b.update(2, (value / 256) as u8).update(3, (value % 256) as u8)
}

/// Writes `value` big-endian into the checksum field of the buffer.
pub fn set_checksum(buffer: &mut Vec<u8>, value: u16)
    requires
        old(buffer)@.len() >= 4,
    ensures
        final(buffer)@ == with_checksum(old(buffer)@, value),
{
    buffer[2] = (value / 256) as u8;
    buffer[3] = (value % 256) as u8;
}

/// The checksum the buffer carries in its field, read big-endian.
pub open spec fn stored_checksum(b: Seq<u8>) -> int {
    b[2] * 256 + b[3]
}

/// Validates a buffer that carries a checksum in its field: recomputes the
/// checksum over the buffer with the field zeroed and compares it with the
/// stored one.
pub fn checksum_matches(buffer: &[u8]) -> (r: bool)
    requires
        4 <= buffer@.len() <= MAX_MESSAGE_LEN,
    ensures
        r == (stored_checksum(buffer@) == checksum_of(with_checksum(buffer@, 0))),
{
    let mut scratch: Vec<u8> = vstd::slice::slice_to_vec(buffer);
    set_checksum(&mut scratch, 0);
    let computed = checksum(scratch.as_slice());
    let stored: u32 = (buffer[2] as u32) * 256 + (buffer[3] as u32);
    proof {
        lemma_word_sum_nonneg(with_checksum(buffer@, 0));
        lemma_fold_carries_range(word_sum(with_checksum(buffer@, 0)));
    }
    stored == computed as u32
}

/// The checksum is in range: a value a 16-bit field can carry.
pub proof fn lemma_checksum_in_range(b: Seq<u8>)
    ensures
        0 <= checksum_of(b) <= 0xffff,
{
    lemma_word_sum_nonneg(b);
    lemma_fold_carries_range(word_sum(b));
}

/// Folding never grows a non-negative sum.
pub proof fn lemma_fold_carries_le(x: int)
    requires
        x >= 0,
    ensures
        fold_carries(x) <= x,
    decreases x,
{
    if x >= 0x10000 {
        lemma_fold_carries_le(x % 0x10000 + x / 0x10000);
    }
}

/// Folding a positive sum never reaches zero.
pub proof fn lemma_fold_carries_pos(x: int)
    requires
        x >= 1,
    ensures
        fold_carries(x) >= 1,
    decreases x,
{
    if x >= 0x10000 {
        lemma_fold_carries_pos(x % 0x10000 + x / 0x10000);
    }
}

/// The end-around carry keeps the sum's remainder modulo 0xffff: each fold
/// turns one 0x10000 into 0xffff plus one.
pub proof fn lemma_fold_carries_congruent(x: int)
    requires
        x >= 0,
    ensures
        fold_carries(x) % 0xffff == x % 0xffff,
    decreases x,
{
    if x >= 0x10000 {
        let folded = x % 0x10000 + x / 0x10000;
        lemma_fold_carries_congruent(folded);
        assert(x == 0xffff * (x / 0x10000) + folded) by {
            vstd::arithmetic::div_mod::lemma_fundamental_div_mod(x, 0x10000);
        }
        vstd::arithmetic::div_mod::lemma_mod_multiples_vanish(x / 0x10000, folded, 0xffff);
    }
}

/// Writing a word into the zeroed checksum field adds exactly that word to
/// the word sum: the field is the buffer's second 16-bit word.
pub proof fn lemma_word_sum_with_checksum(b: Seq<u8>, value: u16)
    requires
        b.len() >= 4,
        b[2] == 0,
        b[3] == 0,
    ensures
        word_sum(with_checksum(b, value)) == word_sum(b) + value,
{
    let wb = with_checksum(b, value);
    vstd::arithmetic::div_mod::lemma_fundamental_div_mod(value as int, 256);
    assert(wb.skip(2).skip(2) =~= b.skip(2).skip(2));
    assert(word_sum(wb) == wb[0] * 256 + wb[1] + word_sum(wb.skip(2)));
    assert(word_sum(wb.skip(2)) == wb[2] * 256 + wb[3] + word_sum(wb.skip(2).skip(2)));
    assert(word_sum(b) == b[0] * 256 + b[1] + word_sum(b.skip(2)));
    assert(word_sum(b.skip(2)) == b[2] * 256 + b[3] + word_sum(b.skip(2).skip(2)));
}

/// Law (wire-side validation): a buffer that carries the checksum of its
/// zero-field form sums, folded, to all ones, so recomputing the checksum
/// over it as received yields zero.
pub proof fn lemma_checksum_validates(b: Seq<u8>)
    requires
        b.len() >= 4,
        b[2] == 0,
        b[3] == 0,
    ensures
        checksum_of(with_checksum(b, checksum_of(b) as u16)) == 0,
{
    let ws = word_sum(b);
    lemma_word_sum_nonneg(b);
    lemma_fold_carries_range(ws);
    lemma_fold_carries_le(ws);
    lemma_fold_carries_congruent(ws);
    let f = fold_carries(ws);
    let c = 0xffff - f;
    lemma_word_sum_with_checksum(b, c as u16);
    let total = word_sum(with_checksum(b, c as u16));
    assert(total == ws + c);
    assert(total >= 0xffff);
    assert(total % 0xffff == 0) by {
        vstd::arithmetic::div_mod::lemma_fundamental_div_mod(ws, 0xffff);
        let q = ws / 0xffff;
        if f == 0xffff {
            assert(ws % 0xffff == 0);
            assert(total == 0xffff * q);
            vstd::arithmetic::div_mod::lemma_mod_multiples_vanish(q, 0, 0xffff);
        } else {
            assert(ws % 0xffff == f);
            assert(total == 0xffff * (q + 1));
            vstd::arithmetic::div_mod::lemma_mod_multiples_vanish(q + 1, 0, 0xffff);
        }
    }
    lemma_fold_carries_pos(total);
    lemma_fold_carries_range(total);
    lemma_fold_carries_congruent(total);
    let v = fold_carries(total);
    assert(v == 0xffff) by {
        if v < 0xffff {
            assert(v % 0xffff == v);
        }
    }
}

/// Law (checksum round trip): write the computed checksum of a zero-field
/// buffer into that field, zero the field again, and the recomputed checksum
/// is the value that was written.
pub proof fn lemma_checksum_round_trip(b: Seq<u8>)
    requires
        b.len() >= 4,
        b[2] == 0,
        b[3] == 0,
    ensures
        checksum_of(with_checksum(with_checksum(b, checksum_of(b) as u16), 0)) == checksum_of(b),
{
    assert(with_checksum(with_checksum(b, checksum_of(b) as u16), 0) =~= b);
}

} // verus!
