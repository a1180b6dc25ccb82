//! The opaque-handle boundary.
//!
//! Callers outside the crate's own memory-safety domain hold a matrix only
//! through a handle.  A handle is either null — it holds no matrix, because
//! construction failed or because it was destroyed — or it owns one packed
//! matrix.  Every operation on a null handle reports failure instead of
//! faulting, `destroy` is idempotent, and after `destroy` every further
//! operation on the handle reports failure; no operation here can panic.
//! The raw-pointer shape of an actual foreign call surface stays outside
//! this crate and reduces to these operations.

use vstd::prelude::*;
use crate::matrix_avx::MatrixF32;

verus! {

/// An owning handle around a packed matrix: null when it holds none.
pub struct MatrixHandle {
    inner: Option<MatrixF32>,
}

impl MatrixHandle {
    /// Whether the handle is null (holds no matrix).
    pub closed spec fn spec_is_null(self) -> bool {
        self.inner is None
    }

    /// The matrix a non-null handle owns.
    pub closed spec fn spec_matrix(self) -> MatrixF32 {
        self.inner->Some_0
    }

    /// A non-null handle owns a well-formed matrix.
    pub closed spec fn wf(self) -> bool {
        self.inner matches Some(m) ==> m.wf()
    }

    /// Whether a kernel call through this handle is accepted: the handle is
    /// non-null and the buffer lengths match the matrix's dimensions.
    pub open spec fn spec_accepts(self, values_len: int, destination_len: int) -> bool {
        !self.spec_is_null() && self.spec_matrix().dims_ok(values_len, destination_len)
    }

    /// Builds a matrix from `rows` (one per input) and one intercept per
    /// output, handing back an owning handle; the handle is null exactly
    /// when construction fails — `rows` empty or some row's length differing
    /// from the intercept count.
    pub fn create(rows: &Vec<Vec<u32>>, intercepts: &Vec<u32>) -> (h: MatrixHandle)
        ensures
            h.wf(),
            h.spec_is_null() <==> !(rows@.len() > 0 && forall|i: int|
                0 <= i < rows@.len() ==> (#[trigger] rows@[i])@.len() == intercepts@.len()),
            !h.spec_is_null() ==> {
                &&& h.spec_matrix().packed_from(
                    rows.deep_view(),
                    intercepts@,
                    crate::matrix_avx::EXP_UNDERFLOW_BASE,
                )
                &&& h.spec_matrix().num_rows == rows@.len()
                &&& h.spec_matrix().num_columns == intercepts@.len()
            },
    {
        MatrixHandle { inner: MatrixF32::create_from_rows(rows, intercepts) }
    }

    /// Whether the handle is null.
    pub fn is_null(&self) -> (r: bool)
        ensures
            r == self.spec_is_null(),
    {
        match &self.inner {
            Some(_) => false,
            None => true,
        }
    }

    /// The affine transform through the handle.  Reports failure, writing
    /// nothing, when the handle is null or the buffer lengths disagree with
    /// the matrix's dimensions; the handle itself is only borrowed, so the
    /// call can be repeated freely.
    pub fn product(&self, values: &Vec<u32>, destination: &mut Vec<u32>) -> (ok: bool)
        requires
            self.wf(),
        ensures
            ok == self.spec_accepts(values@.len() as int, old(destination)@.len() as int),
            final(destination)@.len() == old(destination)@.len(),
            !ok ==> final(destination)@ == old(destination)@,
            ok ==> forall|k: int|
                0 <= k < self.spec_matrix().num_columns ==> final(destination)@[k]
                    == self.spec_matrix().product_entry(values@, k),
    {
        match &self.inner {
            Some(m) => match m.product(values, destination) {
                Some(()) => true,
                None => false,
            },
            None => false,
        }
    }

    /// The cumulative softmax kernel (fast exponential) through the handle,
    /// with the same failure behavior as `product`.
    pub fn softmax_cumulative(&self, values: &Vec<u32>, destination: &mut Vec<u32>) -> (ok: bool)
        requires
            self.wf(),
        ensures
            ok == self.spec_accepts(values@.len() as int, old(destination)@.len() as int),
            final(destination)@.len() == old(destination)@.len(),
            !ok ==> final(destination)@ == old(destination)@,
            ok ==> forall|k: int|
                0 <= k < self.spec_matrix().num_columns ==> final(destination)@[k]
                    == self.spec_matrix().cumulative_entry(values@, false, k),
    {
        match &self.inner {
            Some(m) => match m.product_softmax_cumulative_approx(values, destination) {
                Some(()) => true,
                None => false,
            },
            None => false,
        }
    }

    /// Releases the matrix.  Idempotent: the handle is null afterwards, and
    /// a second `destroy` leaves it null.
    pub fn destroy(&mut self)
        ensures
            final(self).spec_is_null(),
            final(self).wf(),
    {
        self.inner = None;
    }
}

/// A destroyed (or otherwise null) handle accepts no call: whatever buffer
/// lengths are presented, and however often the call is retried, `product`
/// and `softmax_cumulative` report failure, because acceptance requires a
/// non-null handle.
pub proof fn lemma_destroyed_handle_rejects(h: MatrixHandle, values_len: int, destination_len: int)
    requires
        h.spec_is_null(),
    ensures
        !h.spec_accepts(values_len, destination_len),
{
}

} // verus!
