//! Helpers for moving scalars between lane vectors and flat buffers.

use vstd::prelude::*;
use vstd::arithmetic::div_mod::lemma_fundamental_div_mod;

verus! {

/// A flat index `k < 8 * n` lands in lane vector `k / 8`.
proof fn lemma_flat_index(k: int, n: int)
    requires
        0 <= k,
        k < 8 * n,
    ensures
        0 <= k / 8 < n,
        0 <= k % 8 < 8,
{
    lemma_fundamental_div_mod(k, 8);
}

/// A lane vector of zero bit patterns (+0.0 is all-zero bits).
pub fn m256_f32_zero() -> (r: Vec<u32>)
    ensures
        r@.len() == 8,
        forall|l: int| 0 <= l < 8 ==> r@[l] == 0u32,
{
    crate::matrix_avx::zeros()
}

/// The lane vectors of `vals` flattened into one buffer, lane vector `i`
/// occupying positions `8 * i .. 8 * i + 8`.
pub fn m256_f32_to_vec(vals: &Vec<Vec<u32>>) -> (r: Vec<u32>)
    requires
        forall|i: int| 0 <= i < vals@.len() ==> (#[trigger] vals@[i])@.len() == 8,
    ensures
        r@.len() == 8 * vals@.len(),
        forall|k: int| 0 <= k < r@.len() ==> r@[k] == vals@[k / 8]@[k % 8],
{
    let mut out: Vec<u32> = Vec::new();
    let mut i: usize = 0;
    while i < vals.len()
        invariant
            i <= vals@.len(),
            forall|j: int| 0 <= j < vals@.len() ==> (#[trigger] vals@[j])@.len() == 8,
            out@.len() == 8 * i,
            forall|k: int| 0 <= k < out@.len() ==> out@[k] == vals@[k / 8]@[k % 8],
        decreases vals@.len() - i,
    {
        let lane = &vals[i];
        let mut l: usize = 0;
        while l < 8
            invariant
                l <= 8,
                i < vals@.len(),
                lane@ == vals@[i as int]@,
                lane@.len() == 8,
                out@.len() == 8 * i + l,
                forall|j: int| 0 <= j < vals@.len() ==> (#[trigger] vals@[j])@.len() == 8,
                forall|k: int| 0 <= k < out@.len() ==> out@[k] == vals@[k / 8]@[k % 8],
            decreases 8 - l,
        {
            out.push(lane[l]);
            proof {
                crate::matrix_avx::lemma_chunk_of_index(i as int, l as int);
            }
            l = l + 1;
        }
        i = i + 1;
    }
    out
}

/// Copies the first `dest.len()` flattened lane scalars of `vals` into
/// `dest`.
pub fn m256_f32_to_existing_slice(vals: &Vec<Vec<u32>>, dest: &mut Vec<u32>)
    requires
        forall|i: int| 0 <= i < vals@.len() ==> (#[trigger] vals@[i])@.len() == 8,
        old(dest)@.len() <= 8 * vals@.len(),
    ensures
        final(dest)@.len() == old(dest)@.len(),
        forall|k: int| 0 <= k < final(dest)@.len() ==> final(dest)@[k] == vals@[k / 8]@[k % 8],
{
    let n = dest.len();
    let mut k: usize = 0;
    while k < n
        invariant
            k <= n,
            n == dest@.len(),
            dest@.len() == old(dest)@.len(),
            old(dest)@.len() <= 8 * vals@.len(),
            forall|i: int| 0 <= i < vals@.len() ==> (#[trigger] vals@[i])@.len() == 8,
            forall|j: int| 0 <= j < k ==> dest@[j] == vals@[j / 8]@[j % 8],
        decreases n - k,
    {
        proof {
            lemma_flat_index(k as int, vals@.len() as int);
        }
        let c = k / 8;
        let l = k % 8;
        let v = vals[c][l];
        dest[k] = v;
        k = k + 1;
    }
}

/// A narrow lane vector of zero bit patterns.
pub fn arm_zeros_f32x4() -> (r: Vec<u32>)
    ensures
        r@.len() == 4,
        forall|l: int| 0 <= l < 4 ==> r@[l] == 0u32,
{
    let mut v: Vec<u32> = Vec::new();
    let mut l: usize = 0;
    while l < 4
        invariant
            l <= 4,
            v@.len() == l,
            forall|j: int| 0 <= j < l ==> v@[j] == 0u32,
        decreases 4 - l,
    {
        v.push(0u32);
        l = l + 1;
    }
    v
}

/// A narrow lane vector holding four copies of `v`.
pub fn arm_broadcast_f32x4(v: u32) -> (r: Vec<u32>)
    ensures
        r@.len() == 4,
        forall|l: int| 0 <= l < 4 ==> r@[l] == v,
{
    let mut out: Vec<u32> = Vec::new();
    let mut l: usize = 0;
    while l < 4
        invariant
            l <= 4,
            out@.len() == l,
            forall|j: int| 0 <= j < l ==> out@[j] == v,
        decreases 4 - l,
    {
        out.push(v);
        l = l + 1;
    }
    out
}

} // verus!
