//! The Internet checksum (RFC 1071): the ones' complement of the ones' complement sum of the
//! data's big-endian 16-bit words.

use vstd::prelude::*;

verus! {

/// The plain sum of the big-endian 16-bit words of `s`; an odd last byte is the high byte of a
/// word whose low byte is zero.
pub open spec fn word_sum(s: Seq<u8>) -> nat
    decreases s.len(),
{
    if s.len() == 0 {
        0
    } else if s.len() == 1 {
        s[0] as nat * 256
    } else {
        s[0] as nat * 256 + s[1] as nat + word_sum(s.skip(2))
    }
}

/// Folds the carries of `x` back into its low 16 bits until it fits in them: the ones'
/// complement sum.
pub open spec fn fold_carries(x: nat) -> nat
    decreases x,
{
    if x <= 0xffff {
        x
    } else {
        fold_carries(x % 0x10000 + x / 0x10000)
    }
}

/// The checksum of `s`.
pub open spec fn spec_checksum(s: Seq<u8>) -> u16 {
    (0xffff - fold_carries(word_sum(s))) as u16
}

/// Folding never leaves more than 16 bits.
pub proof fn lemma_fold_carries_bound(x: nat)
    ensures
        fold_carries(x) <= 0xffff,
    decreases x,
{
    if x > 0xffff {
        lemma_fold_carries_bound(x % 0x10000 + x / 0x10000);
    }
}

/// The sum of the words of `s` is below `2^16` times the number of words.
pub proof fn lemma_word_sum_bound(s: Seq<u8>)
    ensures
        word_sum(s) <= 0x10000 * s.len(),
    decreases s.len(),
{
    if s.len() >= 2 {
        lemma_word_sum_bound(s.skip(2));
    }
}

/// The checksum of `bytes` (see `spec_checksum`).
pub fn data(bytes: &[u8]) -> (checksum: u16)
    requires
        bytes@.len() <= 0xffff_ffff,
    ensures
        checksum == spec_checksum(bytes@),
{
    let n = bytes.len();
    let mut sum: u64 = 0;
    let mut i: usize = 0;
    proof {
        lemma_word_sum_bound(bytes@);
        assert(bytes@.skip(0) =~= bytes@);
    }
    while i < n
        invariant
            n == bytes@.len(),
            n <= 0xffff_ffff,
            i <= n,
            sum + word_sum(bytes@.skip(i as int)) == word_sum(bytes@),
            word_sum(bytes@) <= 0x10000 * n,
        decreases n - i,
    {
        let ghost rest = bytes@.skip(i as int);
        if i + 1 < n {
            assert(rest.skip(2) =~= bytes@.skip(i + 2));
            proof {
                lemma_word_sum_bound(bytes@.skip(i + 2));
            }
            sum = sum + (bytes[i] as u64) * 256 + (bytes[i + 1] as u64);
            i = i + 2;
        } else {
            assert(bytes@.skip(i + 1).len() == 0);
            sum = sum + (bytes[i] as u64) * 256;
            i = i + 1;
        }
    }
    assert(bytes@.skip(n as int).len() == 0);
    while sum > 0xffff
        invariant
            fold_carries(sum as nat) == fold_carries(word_sum(bytes@)),
        decreases sum,
    {
        let low = sum & 0xffff;
        let high = sum >> 16;
        assert(low == sum % 0x10000 && high == sum / 0x10000) by (bit_vector)
            requires
                low == sum & 0xffff,
                high == sum >> 16,
        ;
        sum = low + high;
    }
    let folded = sum as u16;
    0xffff - folded
}

} // verus!
