//! The zero-padded matrix variant.
//!
//! Identical lane packing to `MatrixF32`, but the intercept padding lanes
//! hold +0.0 instead of the softmax underflow sentinel: this is the variant
//! for callers who only need the plain product, where padding must
//! contribute exactly zero and is in any case never copied out.

use vstd::prelude::*;
use crate::matrix_avx::MatrixF32;
use crate::matrix_avx::spec_num_chunks;

verus! {

/// A lane-packed matrix whose intercept padding is zero.
pub struct MatrixAvxF32 {
    /// Number of outputs.
    pub num_columns: usize,
    /// Number of column chunks, `ceil(num_columns / 8)`.
    pub num_col_instrinsics: usize,
    /// Number of inputs.
    pub num_rows: usize,
    /// The packed chunks; only the intercept padding differs from a
    /// sentinel-padded matrix.
    pub inner: MatrixF32,
}

impl MatrixAvxF32 {
    /// The stated dimensions agree with the packed chunks.
    pub open spec fn wf(self) -> bool {
        &&& self.inner.wf()
        &&& self.num_columns == self.inner.num_columns
        &&& self.num_col_instrinsics == self.inner.num_col_instrinsics
        &&& self.num_rows == self.inner.num_rows
    }

    /// Builds a matrix from `rows` (one per input, each holding one
    /// coefficient per output) and one intercept per output, with zero
    /// intercept padding.  Returns no matrix exactly when `rows` is empty or
    /// some row's length differs from the intercept count.
    pub fn create_from_rows(rows: &Vec<Vec<u32>>, intercepts: &Vec<u32>) -> (r: Option<
        MatrixAvxF32,
    >)
        ensures
            r is Some <==> (rows@.len() > 0 && forall|i: int|
                0 <= i < rows@.len() ==> (#[trigger] rows@[i])@.len() == intercepts@.len()),
            r matches Some(m) ==> {
                &&& m.wf()
                &&& m.inner.packed_from(rows.deep_view(), intercepts@, 0u32)
                &&& m.num_rows == rows@.len()
                &&& m.num_columns == intercepts@.len()
                &&& m.num_col_instrinsics == spec_num_chunks(intercepts@.len() as int)
            },
    {
        match MatrixF32::create_with_pad(rows, intercepts, 0u32) {
            Some(inner) => Some(
                MatrixAvxF32 {
                    num_columns: inner.num_columns,
                    num_col_instrinsics: inner.num_col_instrinsics,
                    num_rows: inner.num_rows,
                    inner,
                },
            ),
            None => None,
        }
    }

    /// The affine transform `destination = W * values + intercepts`; see
    /// `MatrixF32::product` for the exact contract.
    pub fn product(&self, values: &Vec<u32>, destination: &mut Vec<u32>) -> (r: Option<()>)
        requires
            self.wf(),
        ensures
            r is Some <==> self.inner.dims_ok(
                values@.len() as int,
                old(destination)@.len() as int,
            ),
            final(destination)@.len() == old(destination)@.len(),
            r is None ==> final(destination)@ == old(destination)@,
            r is Some ==> forall|k: int|
                0 <= k < self.num_columns ==> final(destination)@[k] == self.inner.product_entry(
                    values@,
                    k,
                ),
    {
        self.inner.product(values, destination)
    }

    /// The cumulative softmax kernel with the fast exponential; see
    /// `MatrixF32::product_softmax_cumulative_approx` for the exact contract.
    pub fn product_softmax_cumulative_approx(
        &self,
        values: &Vec<u32>,
        destination: &mut Vec<u32>,
    ) -> (r: Option<()>)
        requires
            self.wf(),
        ensures
            r is Some <==> self.inner.dims_ok(
                values@.len() as int,
                old(destination)@.len() as int,
            ),
            final(destination)@.len() == old(destination)@.len(),
            r is None ==> final(destination)@ == old(destination)@,
            r is Some ==> forall|k: int|
                0 <= k < self.num_columns ==> final(destination)@[k]
                    == self.inner.cumulative_entry(values@, false, k),
    {
        self.inner.product_softmax_cumulative_approx(values, destination)
    }
}

} // verus!
