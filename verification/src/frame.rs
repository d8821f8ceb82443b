//! Inverting the samples of a row of a video frame plane, by the depth of its samples.
use vstd::prelude::*;
use vstd::arithmetic::power2::pow2;
use vstd::bits::{lemma_u64_pow2_no_overflow, lemma_u64_shl_is_mul};

verus! {

/// The largest sample of `bits` bits: 2^bits - 1.
pub open spec fn max_sample(bits: nat) -> int {
    pow2(bits) - 1
}

/// `2^bits - 1`, computed by a shift.
fn max_sample_exec(bits: u8) -> (m: u64)
    requires
        1 <= bits <= 32,
    ensures
        m == max_sample(bits as nat),
        m < 0x1_0000_0000,
{
    proof {
        lemma_u64_pow2_no_overflow(bits as nat);
        if bits < 32 {
            vstd::arithmetic::power2::lemma_pow2_strictly_increases(bits as nat, 32);
        }
        vstd::arithmetic::power2::lemma2_to64();
        lemma_u64_shl_is_mul(1, bits as u64);
    }
    (1u64 << (bits as u64)) - 1
}

/// Inverts 8-bit samples: each becomes 255 minus itself.
pub fn invert_row_u8(row: &mut Vec<u8>)
    ensures
        final(row)@.len() == old(row)@.len(),
        forall|i: int| 0 <= i < old(row)@.len() ==> final(row)@[i] == 255 - old(row)@[i],
        forall|i: int|
            0 <= i < old(row)@.len() ==> final(row)@[i] == max_sample(8) - old(row)@[i],
{
    proof {
        vstd::arithmetic::power2::lemma2_to64();
    }
    let mut i: usize = 0;
    while i < row.len()
        invariant
            i <= row@.len(),
            row@.len() == old(row)@.len(),
            forall|j: int| 0 <= j < i ==> row@[j] == 255 - old(row)@[j],
            forall|j: int| i <= j < row@.len() ==> row@[j] == old(row)@[j],
        decreases row.len() - i,
    {
        let sample = row[i];
        row.set(i, 255 - sample);
        i = i + 1;
    }
}

/// Inverts samples of `bits` bits held in 16 bits: each becomes 2^bits - 1 minus itself.
pub fn invert_row_u16(row: &mut Vec<u16>, bits: u8)
    requires
        1 <= bits <= 16,
        forall|i: int| 0 <= i < old(row)@.len() ==> old(row)@[i] <= max_sample(bits as nat),
    ensures
        final(row)@.len() == old(row)@.len(),
        forall|i: int|
            0 <= i < old(row)@.len() ==> final(row)@[i] == max_sample(bits as nat) - old(row)@[i],
{
    let max = max_sample_exec(bits);
    proof {
        if bits < 16 {
            vstd::arithmetic::power2::lemma_pow2_strictly_increases(bits as nat, 16);
        }
        vstd::arithmetic::power2::lemma2_to64();
    }
    let max16 = max as u16;
    let mut i: usize = 0;
    while i < row.len()
        invariant
            i <= row@.len(),
            row@.len() == old(row)@.len(),
            max16 == max_sample(bits as nat),
            forall|j: int| 0 <= j < old(row)@.len() ==> old(row)@[j] <= max_sample(bits as nat),
            forall|j: int| 0 <= j < i ==> row@[j] == max_sample(bits as nat) - old(row)@[j],
            forall|j: int| i <= j < row@.len() ==> row@[j] == old(row)@[j],
        decreases row.len() - i,
    {
        let sample = row[i];
        row.set(i, max16 - sample);
        i = i + 1;
    }
}

/// Inverts samples of `bits` bits held in 32 bits: each becomes 2^bits - 1 minus itself.
pub fn invert_row_u32(row: &mut Vec<u32>, bits: u8)
    requires
        1 <= bits <= 32,
        forall|i: int| 0 <= i < old(row)@.len() ==> old(row)@[i] <= max_sample(bits as nat),
    ensures
        final(row)@.len() == old(row)@.len(),
        forall|i: int|
            0 <= i < old(row)@.len() ==> final(row)@[i] == max_sample(bits as nat) - old(row)@[i],
{
    let max = max_sample_exec(bits);
    let max32 = max as u32;
    let mut i: usize = 0;
    while i < row.len()
        invariant
            i <= row@.len(),
            row@.len() == old(row)@.len(),
            max32 == max_sample(bits as nat),
            forall|j: int| 0 <= j < old(row)@.len() ==> old(row)@[j] <= max_sample(bits as nat),
            forall|j: int| 0 <= j < i ==> row@[j] == max_sample(bits as nat) - old(row)@[j],
            forall|j: int| i <= j < row@.len() ==> row@[j] == old(row)@[j],
        decreases row.len() - i,
    {
        let sample = row[i];
        row.set(i, max32 - sample);
        i = i + 1;
    }
}

/// Inverting a row of samples of `bits` bits twice gives the row back: the inverted samples
/// are again samples of `bits` bits (so they can be inverted again), and inverting them
/// restores each sample.
pub proof fn law_invert_twice(bits: nat, before: Seq<int>, once: Seq<int>, twice: Seq<int>)
    requires
        forall|i: int| 0 <= i < before.len() ==> 0 <= #[trigger] before[i] <= max_sample(bits),
        once.len() == before.len(),
        twice.len() == once.len(),
        forall|i: int| 0 <= i < before.len() ==> once[i] == max_sample(bits) - before[i],
        forall|i: int| 0 <= i < once.len() ==> twice[i] == max_sample(bits) - once[i],
    ensures
        forall|i: int| 0 <= i < once.len() ==> 0 <= #[trigger] once[i] <= max_sample(bits),
        twice == before,
{
    assert forall|i: int| 0 <= i < once.len() implies 0 <= #[trigger] once[i] <= max_sample(bits) by {
        assert(0 <= before[i] <= max_sample(bits));
    }
    assert(twice =~= before);
}

} // verus!
