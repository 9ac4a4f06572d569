//! The checksum: the exclusive-or of every byte after the begin marker and
//! before the checksum byte itself.

use vstd::prelude::*;

use crate::packet::error::Error;

verus! {

/// The exclusive-or of all the bytes of `s`.
pub open spec fn xor_all(s: Seq<u8>) -> u8
    decreases s.len(),
{
    if s.len() == 0 {
        0u8
    } else {
        xor_all(s.drop_last()) ^ s.last()
    }
}

/// `byte` with bit number `bit` inverted.
pub open spec fn flip_bit(byte: u8, bit: u8) -> u8 {
    byte ^ (1u8 << bit)
}

/// Appending bytes folds them into the checksum.
pub proof fn lemma_xor_all_push(s: Seq<u8>, b: u8)
    ensures
        xor_all(s.push(b)) == xor_all(s) ^ b,
{
    assert(s.push(b).drop_last() =~= s);
}

/// The checksum of two runs of bytes, one after the other, is the
/// exclusive-or of their checksums: it can be kept running.
pub proof fn lemma_xor_all_concat(a: Seq<u8>, b: Seq<u8>)
    ensures
        xor_all(a + b) == xor_all(a) ^ xor_all(b),
    decreases b.len(),
{
    let x = xor_all(a);
    if b.len() == 0 {
        assert(a + b =~= a);
        assert(x ^ 0u8 == x) by (bit_vector);
    } else {
        assert((a + b).drop_last() =~= a + b.drop_last());
        lemma_xor_all_concat(a, b.drop_last());
        let y = xor_all(b.drop_last());
        let l = b.last();
        assert((x ^ y) ^ l == x ^ (y ^ l)) by (bit_vector);
    }
}

/// Replacing one byte changes the checksum by the exclusive-or of the old
/// byte and the new one.
pub proof fn lemma_xor_all_update(s: Seq<u8>, i: int, b: u8)
    requires
        0 <= i < s.len(),
    ensures
        xor_all(s.update(i, b)) == xor_all(s) ^ s[i] ^ b,
    decreases s.len(),
{
    let t = s.update(i, b);
    let x = xor_all(s.drop_last());
    if i == s.len() - 1 {
        assert(t.drop_last() =~= s.drop_last());
        let a = s[i];
        assert(x ^ b == (x ^ a) ^ a ^ b) by (bit_vector);
    } else {
        assert(t.drop_last() =~= s.drop_last().update(i, b));
        lemma_xor_all_update(s.drop_last(), i, b);
        let a = s[i];
        let l = s.last();
        assert((x ^ a ^ b) ^ l == (x ^ l) ^ a ^ b) by (bit_vector);
    }
}

/// Inverting any one bit of any one covered byte changes the checksum: a
/// frame damaged in that way no longer agrees with its checksum byte.
pub proof fn lemma_single_bit_flip_changes_checksum(s: Seq<u8>, i: int, bit: u8)
    requires
        0 <= i < s.len(),
        bit < 8,
    ensures
        xor_all(s.update(i, flip_bit(s[i], bit))) != xor_all(s),
{
    lemma_xor_all_update(s, i, flip_bit(s[i], bit));
    let x = xor_all(s);
    let a = s[i];
    assert(bit < 8 ==> x ^ a ^ (a ^ (1u8 << bit)) != x) by (bit_vector);
}

/// The checksum of `covered`.
pub fn checksum(covered: &[u8]) -> (x: u8)
    ensures
        x == xor_all(covered@),
{
    let mut x: u8 = 0;
    let mut i: usize = 0;
    while i < covered.len()
        invariant
            i <= covered@.len(),
            x == xor_all(covered@.take(i as int)),
        decreases covered@.len() - i,
    {
        proof {
            lemma_xor_all_push(covered@.take(i as int), covered@[i as int]);
            assert(covered@.take(i as int).push(covered@[i as int]) =~= covered@.take(i + 1));
        }
        x = x ^ covered[i];
        i = i + 1;
    }
    assert(covered@.take(i as int) =~= covered@);
    x
}

/// Whether `bcc` is the checksum of `covered`.
pub fn verify_checksum(covered: &[u8], bcc: u8) -> (r: Result<(), Error>)
    ensures
        r is Ok <==> xor_all(covered@) == bcc,
        r is Err ==> r == Err::<(), Error>(Error::ChecksumMismatch),
{
    if checksum(covered) == bcc {
        Ok(())
    } else {
        Err(Error::ChecksumMismatch)
    }
}

} // verus!
