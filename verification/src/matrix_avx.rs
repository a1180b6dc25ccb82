//! The lane-packed matrix and its kernels.
//!
//! A caller-supplied dense coefficient table (one row per input, one column
//! per output) and an intercept vector are repacked once, at construction,
//! into groups of `SINGLES_PER_INTRINSIC` consecutive outputs ("chunks").
//! Each chunk holds one lane vector per input plus one intercept lane
//! vector, so a kernel can walk the inputs once per chunk and accumulate a
//! whole lane at a time.  The final chunk's lanes beyond `num_columns` are
//! padding: zero for coefficients, and a strongly negative intercept chosen
//! so that the softmax kernels' exponential maps the padding to (almost
//! exactly) zero.
//!
//! Scalars are IEEE-754 single-precision bit patterns (`u32`); the exact
//! value of every kernel output is pinned down as a composition of the named
//! arithmetic operations of `crate::softfloat`.

use vstd::prelude::*;
use vstd::arithmetic::div_mod::{
    lemma_fundamental_div_mod, lemma_fundamental_div_mod_converse_div,
    lemma_fundamental_div_mod_converse_mod,
};
use crate::softfloat::{single_add, single_mul, add_single, mul_single};
use crate::exp_approx_avx::{exp_approx_lane_spec, exp_approx_lane};
use crate::exp_sleef_avx::{spec_xexpf, xexpf};

verus! {

/// The per-lane exponential a softmax kernel applies: the fast polynomial
/// path, or the high-accuracy path.
pub open spec fn spec_exp_kind(accurate: bool, x: u32) -> u32 {
    if accurate {
        spec_xexpf(x)
    } else {
        exp_approx_lane_spec(x)
    }
}

/// The per-lane exponential selected by `accurate`.
fn exp_kind(accurate: bool, x: u32) -> (r: u32)
    ensures
        r == spec_exp_kind(accurate, x),
{
    if accurate {
        xexpf(x)
    } else {
        exp_approx_lane(x)
    }
}

/// Number of 32-bit scalars in one lane vector.
pub const SINGLES_PER_INTRINSIC: usize = 8;

/// Bit pattern of -1000.0, the intercept padding: far enough below the
/// exponential's clamp range that the softmax kernels see the padding lanes
/// as (almost exactly) zero.
pub const EXP_UNDERFLOW_BASE: u32 = 0xC47A_0000;

/// Number of chunks needed to cover `num_columns` outputs.
pub open spec fn spec_num_chunks(num_columns: int) -> int {
    num_columns / 8 + if num_columns % 8 == 0 {
        0int
    } else {
        1int
    }
}

/// A lane vector of zero bit patterns (+0.0 is all-zero bits).
pub fn zeros() -> (r: Vec<u32>)
    ensures
        r@.len() == 8,
        forall|l: int| 0 <= l < 8 ==> r@[l] == 0u32,
{
    let mut v: Vec<u32> = Vec::new();
    let mut l: usize = 0;
    while l < 8
        invariant
            l <= 8,
            v@.len() == l,
            forall|j: int| 0 <= j < l ==> v@[j] == 0u32,
        decreases 8 - l,
    {
        v.push(0u32);
        l = l + 1;
    }
    v
}

/// A lane vector of the intercept padding value.
pub fn exp_base_resulting_in_zero() -> (r: Vec<u32>)
    ensures
        r@.len() == 8,
        forall|l: int| 0 <= l < 8 ==> r@[l] == EXP_UNDERFLOW_BASE,
{
    let mut v: Vec<u32> = Vec::new();
    let mut l: usize = 0;
    while l < 8
        invariant
            l <= 8,
            v@.len() == l,
            forall|j: int| 0 <= j < l ==> v@[j] == EXP_UNDERFLOW_BASE,
        decreases 8 - l,
    {
        v.push(EXP_UNDERFLOW_BASE);
        l = l + 1;
    }
    v
}

/// In a chunk-covering walk, every chunk starts strictly inside the columns.
pub(crate) proof fn lemma_chunk_base(c: int, nc: int)
    requires
        0 <= nc,
        0 <= c < spec_num_chunks(nc),
    ensures
        8 * c < nc,
{
    lemma_fundamental_div_mod(nc, 8);
}

/// The chunks cover all columns.
pub(crate) proof fn lemma_chunks_cover(nc: int)
    requires
        0 <= nc,
    ensures
        8 * spec_num_chunks(nc) >= nc,
{
    lemma_fundamental_div_mod(nc, 8);
}

/// Splitting a column index `8 * c + l` back into chunk and lane.
pub(crate) proof fn lemma_chunk_of_index(c: int, l: int)
    requires
        0 <= c,
        0 <= l < 8,
    ensures
        (8 * c + l) / 8 == c,
        (8 * c + l) % 8 == l,
{
    lemma_fundamental_div_mod_converse_div(8 * c + l, 8, c, l);
    lemma_fundamental_div_mod_converse_mod(8 * c + l, 8, c, l);
}

/// One lane vector taken from `xs` starting at `base`, padded with `pad`
/// past the end of `xs`.
fn pack_lane(xs: &Vec<u32>, base: usize, pad: u32) -> (r: Vec<u32>)
    requires
        base <= xs@.len(),
    ensures
        r@.len() == 8,
        forall|l: int| 0 <= l < 8 ==> r@[l] == (if base + l < xs@.len() {
            xs@[base + l]
        } else {
            pad
        }),
{
    let mut lane: Vec<u32> = Vec::new();
    let mut l: usize = 0;
    while l < 8
        invariant
            l <= 8,
            base <= xs@.len(),
            lane@.len() == l,
            forall|j: int| 0 <= j < l ==> lane@[j] == (if base + j < xs@.len() {
                xs@[base + j]
            } else {
                pad
            }),
        decreases 8 - l,
    {
        if l < xs.len() - base {
            lane.push(xs[base + l]);
        } else {
            lane.push(pad);
        }
        l = l + 1;
    }
    lane
}


/// All intercept chunks: one lane vector per chunk, padded with `pad` past
/// the end of `intercepts`.
fn pack_intercepts(intercepts: &Vec<u32>, num_chunks: usize, pad: u32) -> (r: Vec<Vec<u32>>)
    requires
        num_chunks == spec_num_chunks(intercepts@.len() as int),
    ensures
        r@.len() == num_chunks,
        forall|cc: int| 0 <= cc < num_chunks ==> (#[trigger] r@[cc])@.len() == 8,
        forall|cc: int, l: int|
            0 <= cc < num_chunks && 0 <= l < 8 ==> #[trigger] r@[cc]@[l] == (if 8 * cc + l
                < intercepts@.len() {
                intercepts@[8 * cc + l]
            } else {
                pad
            }),
{
    let total = intercepts.len();
    let mut icpt: Vec<Vec<u32>> = Vec::new();
    let mut c: usize = 0;
    while c < num_chunks
        invariant
            c <= num_chunks,
            total == intercepts@.len(),
            num_chunks == spec_num_chunks(intercepts@.len() as int),
            icpt@.len() == c,
            forall|cc: int| 0 <= cc < c ==> (#[trigger] icpt@[cc])@.len() == 8,
            forall|cc: int, l: int|
                0 <= cc < c && 0 <= l < 8 ==> #[trigger] icpt@[cc]@[l] == (if 8 * cc + l
                    < intercepts@.len() {
                    intercepts@[8 * cc + l]
                } else {
                    pad
                }),
        decreases num_chunks - c,
    {
        proof {
            lemma_chunk_base(c as int, intercepts@.len() as int);
        }
        let base = c * SINGLES_PER_INTRINSIC;
        icpt.push(pack_lane(intercepts, base, pad));
        c = c + 1;
    }
    icpt
}

/// A matrix of single-precision scalars, split into lane vectors of 8
/// consecutive outputs ("column chunks") for lane-wise multiplication.
pub struct MatrixF32 {
    /// Number of outputs.
    pub num_columns: usize,
    /// Number of column chunks, `ceil(num_columns / 8)`.
    pub num_col_instrinsics: usize,
    /// Number of inputs.
    pub num_rows: usize,
    /// `column_intrinsics[c][i]` holds the coefficients of input `i` for
    /// outputs `8 * c .. 8 * c + 8`, zero-padded past `num_columns`.
    pub column_intrinsics: Vec<Vec<Vec<u32>>>,
    /// `intercept_intrinsics[c]` holds the intercepts for outputs
    /// `8 * c .. 8 * c + 8`, padded with `EXP_UNDERFLOW_BASE`.
    pub intercept_intrinsics: Vec<Vec<u32>>,
}

impl MatrixF32 {
    /// Structural well-formedness: chunk counts and lane lengths agree with
    /// the stated dimensions.
    pub open spec fn wf(self) -> bool {
        &&& self.num_col_instrinsics == spec_num_chunks(self.num_columns as int)
        &&& self.column_intrinsics@.len() == self.num_col_instrinsics
        &&& forall|c: int|
            0 <= c < self.num_col_instrinsics ==> (#[trigger] self.column_intrinsics@[c])@.len()
                == self.num_rows
        &&& forall|c: int, i: int|
            0 <= c < self.num_col_instrinsics && 0 <= i < self.num_rows ==> (
            #[trigger] self.column_intrinsics@[c]@[i])@.len() == 8
        &&& self.intercept_intrinsics@.len() == self.num_col_instrinsics
        &&& forall|c: int|
            0 <= c < self.num_col_instrinsics ==> (#[trigger] self.intercept_intrinsics@[c])@.len()
                == 8
    }

    /// Coefficient lane `l` of chunk `c` for input `i`.
    pub open spec fn coeff(self, c: int, i: int, l: int) -> u32 {
        self.column_intrinsics@[c]@[i]@[l]
    }

    /// Intercept lane `l` of chunk `c`.
    pub open spec fn icpt(self, c: int, l: int) -> u32 {
        self.intercept_intrinsics@[c]@[l]
    }

    /// The packing contract: the matrix holds exactly the given rows and
    /// intercepts, chunked, with zero coefficient padding and `pad`
    /// intercept padding.
    pub open spec fn packed_from(self, rows: Seq<Seq<u32>>, intercepts: Seq<u32>, pad: u32) -> bool {
        &&& self.num_rows == rows.len()
        &&& self.num_columns == intercepts.len()
        &&& forall|c: int, l: int|
            0 <= c < self.num_col_instrinsics && 0 <= l < 8 ==> #[trigger] self.icpt(c, l) == (
            if 8 * c + l < intercepts.len() {
                intercepts[8 * c + l]
            } else {
                pad
            })
        &&& forall|c: int, i: int, l: int|
            0 <= c < self.num_col_instrinsics && 0 <= i < self.num_rows && 0 <= l < 8
                ==> #[trigger] self.coeff(c, i, l) == (if 8 * c + l < intercepts.len() {
                rows[i][8 * c + l]
            } else {
                0u32
            })
    }

    /// The accumulator for chunk `c`, lane `l`, after folding in the first
    /// `n` inputs: the intercept seeds the accumulator, and each input
    /// contributes `values[i] * coeff` through a lane multiply and add.
    pub open spec fn lane_acc(self, values: Seq<u32>, c: int, l: int, n: int) -> u32
        decreases n,
    {
        if n <= 0 {
            self.icpt(c, l)
        } else {
            single_add(
                self.lane_acc(values, c, l, n - 1),
                single_mul(values[n - 1], self.coeff(c, n - 1, l)),
            )
        }
    }

    /// Output `k` of the plain product kernel.
    pub open spec fn product_entry(self, values: Seq<u32>, k: int) -> u32 {
        self.lane_acc(values, k / 8, k % 8, self.num_rows as int)
    }

    /// Whether a kernel call with these buffer lengths is accepted.
    pub open spec fn dims_ok(self, values_len: int, destination_len: int) -> bool {
        values_len == self.num_rows && destination_len == self.num_columns
    }

    /// Packs `rows` (one per input, each of one coefficient per output) and
    /// `intercepts` (one per output) into chunks, with `pad` as the
    /// intercept padding.  Fails, making no matrix, exactly when `rows` is
    /// empty or some row's length differs from the intercept count.
    pub(crate) fn create_with_pad(rows: &Vec<Vec<u32>>, intercepts: &Vec<u32>, pad: u32) -> (r:
        Option<MatrixF32>)
        ensures
            r is Some <==> (rows@.len() > 0 && forall|i: int|
                0 <= i < rows@.len() ==> (#[trigger] rows@[i])@.len() == intercepts@.len()),
            r matches Some(m) ==> {
                &&& m.wf()
                &&& m.packed_from(rows.deep_view(), intercepts@, pad)
                &&& m.num_rows == rows@.len()
                &&& m.num_columns == intercepts@.len()
            },
    {
        let num_rows = rows.len();
        let num_columns = intercepts.len();
        if num_rows == 0 {
            return None;
        }
        let mut i: usize = 0;
        while i < num_rows
            invariant
                i <= num_rows,
                num_rows == rows@.len(),
                num_columns == intercepts@.len(),
                forall|j: int| 0 <= j < i ==> (#[trigger] rows@[j])@.len() == num_columns,
            decreases num_rows - i,
        {
            if rows[i].len() != num_columns {
                return None;
            }
            i = i + 1;
        }

        let q = num_columns / SINGLES_PER_INTRINSIC;
        let rem = num_columns % SINGLES_PER_INTRINSIC;
        let num_chunks = if rem == 0 {
            q
        } else {
            q + 1
        };
        assert(num_chunks == spec_num_chunks(num_columns as int));

        let icpt = pack_intercepts(intercepts, num_chunks, pad);

        let mut cols: Vec<Vec<Vec<u32>>> = Vec::new();
        let mut c: usize = 0;
        while c < num_chunks
            invariant
                c <= num_chunks,
                num_chunks == spec_num_chunks(num_columns as int),
                num_columns == intercepts@.len(),
                num_rows == rows@.len(),
                forall|j: int| 0 <= j < num_rows ==> (#[trigger] rows@[j])@.len() == num_columns,
                cols@.len() == c,
                forall|cc: int| 0 <= cc < c ==> (#[trigger] cols@[cc])@.len() == num_rows,
                forall|cc: int, ii: int|
                    0 <= cc < c && 0 <= ii < num_rows ==> (#[trigger] cols@[cc]@[ii])@.len() == 8,
                forall|cc: int, ii: int, l: int|
                    0 <= cc < c && 0 <= ii < num_rows && 0 <= l < 8 ==> #[trigger] cols@[cc]@[ii]@[l]
                        == (if 8 * cc + l < num_columns {
                        rows@[ii]@[8 * cc + l]
                    } else {
                        0u32
                    }),
            decreases num_chunks - c,
        {
            proof {
                lemma_chunk_base(c as int, num_columns as int);
            }
            let base = c * SINGLES_PER_INTRINSIC;
            let mut col: Vec<Vec<u32>> = Vec::new();
            let mut ii: usize = 0;
            while ii < num_rows
                invariant
                    ii <= num_rows,
                    num_rows == rows@.len(),
                    num_columns == intercepts@.len(),
                    base == 8 * c,
                    base < num_columns,
                    forall|j: int| 0 <= j < num_rows ==> (#[trigger] rows@[j])@.len() == num_columns,
                    col@.len() == ii,
                    forall|jj: int| 0 <= jj < ii ==> (#[trigger] col@[jj])@.len() == 8,
                    forall|jj: int, l: int|
                        0 <= jj < ii && 0 <= l < 8 ==> #[trigger] col@[jj]@[l] == (if base + l
                            < num_columns {
                            rows@[jj]@[base + l]
                        } else {
                            0u32
                        }),
                decreases num_rows - ii,
            {
                col.push(pack_lane(&rows[ii], base, 0u32));
                ii = ii + 1;
            }
            cols.push(col);
            c = c + 1;
        }

        let m = MatrixF32 {
            num_columns,
            num_col_instrinsics: num_chunks,
            num_rows,
            column_intrinsics: cols,
            intercept_intrinsics: icpt,
        };
        proof {
            assert forall|c: int, i: int, l: int|
                0 <= c < m.num_col_instrinsics && 0 <= i < m.num_rows && 0 <= l < 8 implies
                #[trigger] m.coeff(c, i, l) == (if 8 * c + l < intercepts@.len() {
                rows.deep_view()[i][8 * c + l]
            } else {
                0u32
            }) by {
                assert(rows.deep_view()[i] == rows@[i].deep_view());
            }
        }
        Some(m)
    }

    /// Builds a matrix from `rows` (one per input, each holding one
    /// coefficient per output) and one intercept per output; see
    /// `packed_from` for the exact layout.  Returns no matrix exactly when
    /// `rows` is empty or some row's length differs from the intercept
    /// count.
    pub fn create_from_rows(rows: &Vec<Vec<u32>>, intercepts: &Vec<u32>) -> (r: Option<MatrixF32>)
        ensures
            r is Some <==> (rows@.len() > 0 && forall|i: int|
                0 <= i < rows@.len() ==> (#[trigger] rows@[i])@.len() == intercepts@.len()),
            r matches Some(m) ==> {
                &&& m.wf()
                &&& m.packed_from(rows.deep_view(), intercepts@, EXP_UNDERFLOW_BASE)
                &&& m.num_rows == rows@.len()
                &&& m.num_columns == intercepts@.len()
            },
    {
        Self::create_with_pad(rows, intercepts, EXP_UNDERFLOW_BASE)
    }

    /// The packing contract for the transposed ordering: the matrix holds
    /// exactly the given columns (one per output, each with one coefficient
    /// per input) and intercepts, chunked, with zero coefficient padding and
    /// `pad` intercept padding.
    pub open spec fn packed_from_columns(
        self,
        columns: Seq<Seq<u32>>,
        intercepts: Seq<u32>,
        pad: u32,
    ) -> bool {
        &&& columns.len() == intercepts.len()
        &&& self.num_columns == intercepts.len()
        &&& forall|c: int, l: int|
            0 <= c < self.num_col_instrinsics && 0 <= l < 8 ==> #[trigger] self.icpt(c, l) == (
            if 8 * c + l < intercepts.len() {
                intercepts[8 * c + l]
            } else {
                pad
            })
        &&& forall|c: int, i: int, l: int|
            0 <= c < self.num_col_instrinsics && 0 <= i < self.num_rows && 0 <= l < 8
                ==> #[trigger] self.coeff(c, i, l) == (if 8 * c + l < intercepts.len() {
                columns[8 * c + l][i]
            } else {
                0u32
            })
    }

    /// Packs the transposed ordering: `columns` holds one sequence per
    /// output, each with one coefficient per input.  Fails, making no
    /// matrix, exactly when the column count differs from the intercept
    /// count, when the table holds no scalars (no columns, or empty
    /// columns), or when the columns' lengths disagree.
    pub fn create_from_columns(columns: &Vec<Vec<u32>>, intercepts: &Vec<u32>) -> (r: Option<
        MatrixF32,
    >)
        ensures
            r is Some <==> (columns@.len() == intercepts@.len() && columns@.len() > 0
                && columns@[0]@.len() > 0 && forall|j: int|
                0 <= j < columns@.len() ==> (#[trigger] columns@[j])@.len()
                    == columns@[0]@.len()),
            r matches Some(m) ==> {
                &&& m.wf()
                &&& m.packed_from_columns(columns.deep_view(), intercepts@, EXP_UNDERFLOW_BASE)
                &&& m.num_rows == columns@[0]@.len()
                &&& m.num_columns == intercepts@.len()
            },
    {
        let num_columns = columns.len();
        if num_columns != intercepts.len() || num_columns == 0 {
            return None;
        }
        let num_rows = columns[0].len();
        if num_rows == 0 {
            return None;
        }
        let mut j: usize = 0;
        while j < num_columns
            invariant
                j <= num_columns,
                num_columns == columns@.len(),
                num_rows == columns@[0]@.len(),
                forall|jj: int| 0 <= jj < j ==> (#[trigger] columns@[jj])@.len() == num_rows,
            decreases num_columns - j,
        {
            if columns[j].len() != num_rows {
                return None;
            }
            j = j + 1;
        }

        let q = num_columns / SINGLES_PER_INTRINSIC;
        let rem = num_columns % SINGLES_PER_INTRINSIC;
        let num_chunks = if rem == 0 {
            q
        } else {
            q + 1
        };
        assert(num_chunks == spec_num_chunks(num_columns as int));

        let icpt = pack_intercepts(intercepts, num_chunks, EXP_UNDERFLOW_BASE);

        let mut cols: Vec<Vec<Vec<u32>>> = Vec::new();
        let mut c: usize = 0;
        while c < num_chunks
            invariant
                c <= num_chunks,
                num_chunks == spec_num_chunks(num_columns as int),
                num_columns == columns@.len(),
                num_columns == intercepts@.len(),
                num_rows == columns@[0]@.len(),
                forall|jj: int| 0 <= jj < num_columns ==> (#[trigger] columns@[jj])@.len()
                    == num_rows,
                cols@.len() == c,
                forall|cc: int| 0 <= cc < c ==> (#[trigger] cols@[cc])@.len() == num_rows,
                forall|cc: int, ii: int|
                    0 <= cc < c && 0 <= ii < num_rows ==> (#[trigger] cols@[cc]@[ii])@.len() == 8,
                forall|cc: int, ii: int, l: int|
                    0 <= cc < c && 0 <= ii < num_rows && 0 <= l < 8 ==> #[trigger] cols@[cc]@[ii]@[l]
                        == (if 8 * cc + l < num_columns {
                        columns@[8 * cc + l]@[ii]
                    } else {
                        0u32
                    }),
            decreases num_chunks - c,
        {
            proof {
                lemma_chunk_base(c as int, num_columns as int);
            }
            let base = c * SINGLES_PER_INTRINSIC;
            let mut col: Vec<Vec<u32>> = Vec::new();
            let mut ii: usize = 0;
            while ii < num_rows
                invariant
                    ii <= num_rows,
                    num_columns == columns@.len(),
                    num_rows == columns@[0]@.len(),
                    base == 8 * c,
                    base < num_columns,
                    forall|jj: int| 0 <= jj < num_columns ==> (#[trigger] columns@[jj])@.len()
                        == num_rows,
                    col@.len() == ii,
                    forall|jj: int| 0 <= jj < ii ==> (#[trigger] col@[jj])@.len() == 8,
                    forall|jj: int, l: int|
                        0 <= jj < ii && 0 <= l < 8 ==> #[trigger] col@[jj]@[l] == (if base + l
                            < num_columns {
                            columns@[base + l]@[jj]
                        } else {
                            0u32
                        }),
                decreases num_rows - ii,
            {
                let mut lane: Vec<u32> = Vec::new();
                let mut l: usize = 0;
                while l < SINGLES_PER_INTRINSIC
                    invariant
                        l <= 8,
                        ii < num_rows,
                        num_columns == columns@.len(),
                        base < num_columns,
                        base == 8 * c,
                        forall|jj: int| 0 <= jj < num_columns ==> (#[trigger] columns@[jj])@.len()
                            == num_rows,
                        lane@.len() == l,
                        forall|ll: int|
                            0 <= ll < l ==> lane@[ll] == (if base + ll < num_columns {
                                columns@[base + ll]@[ii as int]
                            } else {
                                0u32
                            }),
                    decreases 8 - l,
                {
                    if l < num_columns - base {
                        lane.push(columns[base + l][ii]);
                    } else {
                        lane.push(0u32);
                    }
                    l = l + 1;
                }
                col.push(lane);
                ii = ii + 1;
            }
            cols.push(col);
            c = c + 1;
        }

        let m = MatrixF32 {
            num_columns,
            num_col_instrinsics: num_chunks,
            num_rows,
            column_intrinsics: cols,
            intercept_intrinsics: icpt,
        };
        proof {
            assert forall|c: int, i: int, l: int|
                0 <= c < m.num_col_instrinsics && 0 <= i < m.num_rows && 0 <= l < 8 implies
                #[trigger] m.coeff(c, i, l) == (if 8 * c + l < intercepts@.len() {
                columns.deep_view()[8 * c + l][i]
            } else {
                0u32
            }) by {
                if 8 * c + l < intercepts@.len() {
                    assert(columns.deep_view()[8 * c + l] == columns@[8 * c + l].deep_view());
                }
            }
        }
        Some(m)
    }

    /// Law: the two coefficient orderings build the identical packed layout.
    /// When `columns` is the transpose of `rows`, a matrix packed from
    /// `rows` and one packed from `columns` (with the same intercepts and
    /// padding) agree on their dimensions and on every packed scalar.
    pub proof fn lemma_orderings_pack_identically(
        m_rows: MatrixF32,
        m_cols: MatrixF32,
        rows: Seq<Seq<u32>>,
        columns: Seq<Seq<u32>>,
        intercepts: Seq<u32>,
        pad: u32,
    )
        requires
            m_rows.wf(),
            m_cols.wf(),
            m_rows.packed_from(rows, intercepts, pad),
            m_cols.packed_from_columns(columns, intercepts, pad),
            m_rows.num_rows == m_cols.num_rows,
            columns.len() == intercepts.len(),
            forall|j: int| 0 <= j < columns.len() ==> (#[trigger] columns[j]).len() == rows.len(),
            forall|i: int, j: int|
                0 <= i < rows.len() && 0 <= j < columns.len() ==> #[trigger] columns[j][i]
                    == rows[i][j],
        ensures
            m_rows.num_columns == m_cols.num_columns,
            m_rows.num_col_instrinsics == m_cols.num_col_instrinsics,
            forall|c: int, l: int|
                0 <= c < m_rows.num_col_instrinsics && 0 <= l < 8 ==> #[trigger] m_rows.icpt(c, l)
                    == m_cols.icpt(c, l),
            forall|c: int, i: int, l: int|
                0 <= c < m_rows.num_col_instrinsics && 0 <= i < m_rows.num_rows && 0 <= l < 8
                    ==> #[trigger] m_rows.coeff(c, i, l) == m_cols.coeff(c, i, l),
    {
    }

    /// Lane-wise multiply of `row_lane` by the broadcast scalar `val`,
    /// added into the accumulator.
    fn multiply_add(accumulate: &mut Vec<u32>, row_lane: &Vec<u32>, val: u32)
        requires
            old(accumulate)@.len() == 8,
            row_lane@.len() == 8,
        ensures
            final(accumulate)@.len() == 8,
            forall|l: int|
                0 <= l < 8 ==> final(accumulate)@[l] == single_add(
                    old(accumulate)@[l],
                    single_mul(val, row_lane@[l]),
                ),
    {
        let mut l: usize = 0;
        while l < 8
            invariant
                l <= 8,
                accumulate@.len() == 8,
                row_lane@.len() == 8,
                forall|j: int|
                    0 <= j < l ==> accumulate@[j] == single_add(
                        old(accumulate)@[j],
                        single_mul(val, row_lane@[j]),
                    ),
                forall|j: int| l <= j < 8 ==> accumulate@[j] == old(accumulate)@[j],
            decreases 8 - l,
        {
            let t = add_single(accumulate[l], mul_single(val, row_lane[l]));
            accumulate[l] = t;
            l = l + 1;
        }
    }

    /// The accumulator lane vector for chunk `c`: the intercept lanes with
    /// every input's contribution folded in.
    fn accumulate_chunk(&self, c: usize, values: &Vec<u32>) -> (acc: Vec<u32>)
        requires
            self.wf(),
            c < self.num_col_instrinsics,
            values@.len() == self.num_rows,
        ensures
            acc@.len() == 8,
            forall|l: int|
                0 <= l < 8 ==> acc@[l] == self.lane_acc(
                    values@,
                    c as int,
                    l,
                    self.num_rows as int,
                ),
    {
        let icpt_lane = &self.intercept_intrinsics[c];
        let mut acc: Vec<u32> = Vec::new();
        let mut l: usize = 0;
        while l < 8
            invariant
                l <= 8,
                icpt_lane@.len() == 8,
                icpt_lane@ == self.intercept_intrinsics@[c as int]@,
                acc@.len() == l,
                forall|j: int| 0 <= j < l ==> acc@[j] == self.icpt(c as int, j),
            decreases 8 - l,
        {
            acc.push(icpt_lane[l]);
            l = l + 1;
        }
        let mut i: usize = 0;
        while i < self.num_rows
            invariant
                i <= self.num_rows,
                self.wf(),
                c < self.num_col_instrinsics,
                values@.len() == self.num_rows,
                acc@.len() == 8,
                forall|l: int| 0 <= l < 8 ==> acc@[l] == self.lane_acc(values@, c as int, l, i as int),
            decreases self.num_rows - i,
        {
            let coeffs = &self.column_intrinsics[c][i];
            Self::multiply_add(&mut acc, coeffs, values[i]);
            i = i + 1;
        }
        acc
    }

    /// The affine transform `destination = W * values + intercepts`.
    ///
    /// Fails, writing nothing, exactly when `values` does not hold one
    /// scalar per input or `destination` one slot per output; otherwise
    /// every output `k` is the chunk accumulator lane pinned down by
    /// `product_entry`.
    pub fn product(&self, values: &Vec<u32>, destination: &mut Vec<u32>) -> (r: Option<()>)
        requires
            self.wf(),
        ensures
            r is Some <==> self.dims_ok(values@.len() as int, old(destination)@.len() as int),
            final(destination)@.len() == old(destination)@.len(),
            r is None ==> final(destination)@ == old(destination)@,
            r is Some ==> forall|k: int|
                0 <= k < self.num_columns ==> final(destination)@[k] == self.product_entry(
                    values@,
                    k,
                ),
    {
        if destination.len() != self.num_columns || values.len() != self.num_rows {
            return None;
        }
        let num_chunks = self.num_col_instrinsics;
        let mut c: usize = 0;
        while c < num_chunks
            invariant
                c <= num_chunks,
                num_chunks == self.num_col_instrinsics,
                self.wf(),
                values@.len() == self.num_rows,
                destination@.len() == self.num_columns,
                old(destination)@.len() == self.num_columns,
                forall|k: int|
                    0 <= k < 8 * c && k < self.num_columns ==> destination@[k]
                        == self.product_entry(values@, k),
            decreases num_chunks - c,
        {
            proof {
                lemma_chunk_base(c as int, self.num_columns as int);
            }
            let acc = self.accumulate_chunk(c, values);
            let base = c * SINGLES_PER_INTRINSIC;
            let remaining = self.num_columns - base;
            let tail = if remaining < SINGLES_PER_INTRINSIC {
                remaining
            } else {
                SINGLES_PER_INTRINSIC
            };
            let mut l: usize = 0;
            while l < tail
                invariant
                    l <= tail,
                    base == 8 * c,
                    base + tail <= self.num_columns,
                    tail <= 8,
                    self.wf(),
                    c < self.num_col_instrinsics,
                    values@.len() == self.num_rows,
                    destination@.len() == self.num_columns,
                    old(destination)@.len() == self.num_columns,
                    acc@.len() == 8,
                    forall|j: int|
                        0 <= j < 8 ==> acc@[j] == self.lane_acc(
                            values@,
                            c as int,
                            j,
                            self.num_rows as int,
                        ),
                    forall|k: int|
                        0 <= k < base + l && k < self.num_columns ==> destination@[k]
                            == self.product_entry(values@, k),
                decreases tail - l,
            {
                destination[base + l] = acc[l];
                proof {
                    lemma_chunk_of_index(c as int, l as int);
                }
                l = l + 1;
            }
            c = c + 1;
        }
        proof {
            lemma_chunks_cover(self.num_columns as int);
        }
        Some(())
    }

    /// Output `k` of the naive reference computation, straight off the dense
    /// `rows` and `intercepts` with no packing: the accumulator is seeded
    /// with `intercepts[k]`, then takes one multiply and one add per input,
    /// in input order.
    pub open spec fn naive_entry(
        rows: Seq<Seq<u32>>,
        intercepts: Seq<u32>,
        values: Seq<u32>,
        k: int,
        n: int,
    ) -> u32
        decreases n,
    {
        if n <= 0 {
            intercepts[k]
        } else {
            single_add(
                Self::naive_entry(rows, intercepts, values, k, n - 1),
                single_mul(values[n - 1], rows[n - 1][k]),
            )
        }
    }

    /// The chunk accumulator and the naive reference agree input by input.
    proof fn lemma_lane_acc_matches_naive(
        self,
        rows: Seq<Seq<u32>>,
        intercepts: Seq<u32>,
        values: Seq<u32>,
        pad: u32,
        c: int,
        l: int,
        n: int,
    )
        requires
            self.wf(),
            self.packed_from(rows, intercepts, pad),
            0 <= c < self.num_col_instrinsics,
            0 <= l < 8,
            8 * c + l < self.num_columns,
            0 <= n <= self.num_rows,
        ensures
            self.lane_acc(values, c, l, n) == Self::naive_entry(
                rows,
                intercepts,
                values,
                8 * c + l,
                n,
            ),
        decreases n,
    {
        if n > 0 {
            self.lemma_lane_acc_matches_naive(rows, intercepts, values, pad, c, l, n - 1);
        }
    }

    /// Law: on a matrix packed from `rows` and `intercepts`, every output of
    /// the product kernel is exactly the naive double-loop value — the same
    /// multiplies and adds, in the same order, on the same scalars — for
    /// every valid dimension and every input vector.  Packing, padding and
    /// chunked traversal change nothing.
    pub proof fn lemma_product_matches_naive(
        self,
        rows: Seq<Seq<u32>>,
        intercepts: Seq<u32>,
        values: Seq<u32>,
        pad: u32,
        k: int,
    )
        requires
            self.wf(),
            self.packed_from(rows, intercepts, pad),
            values.len() == self.num_rows,
            0 <= k < self.num_columns,
        ensures
            self.product_entry(values, k) == Self::naive_entry(
                rows,
                intercepts,
                values,
                k,
                self.num_rows as int,
            ),
    {
        lemma_fundamental_div_mod(k, 8);
        vstd::arithmetic::div_mod::lemma_mod_bound(k, 8);
        let c = k / 8;
        let l = k % 8;
        lemma_chunks_cover(self.num_columns as int);
        self.lemma_lane_acc_matches_naive(
            rows,
            intercepts,
            values,
            pad,
            c,
            l,
            self.num_rows as int,
        );
    }

    /// Law: the product kernel never reads a padding lane, so the intercept
    /// padding value is irrelevant to it — two matrices packed from the same
    /// rows and intercepts but with different padding agree on every real
    /// output.
    pub proof fn lemma_product_ignores_padding(
        self,
        other: MatrixF32,
        rows: Seq<Seq<u32>>,
        intercepts: Seq<u32>,
        pad_a: u32,
        pad_b: u32,
        values: Seq<u32>,
        k: int,
    )
        requires
            self.wf(),
            other.wf(),
            self.packed_from(rows, intercepts, pad_a),
            other.packed_from(rows, intercepts, pad_b),
            values.len() == self.num_rows,
            0 <= k < self.num_columns,
        ensures
            self.product_entry(values, k) == other.product_entry(values, k),
    {
        self.lemma_product_matches_naive(rows, intercepts, values, pad_a, k);
        other.lemma_product_matches_naive(rows, intercepts, values, pad_b, k);
    }

    /// Exponentiated output `k` of a softmax kernel.
    pub open spec fn softmax_entry(self, values: Seq<u32>, accurate: bool, k: int) -> u32 {
        spec_exp_kind(accurate, self.product_entry(values, k))
    }

    /// The running total after the cumulative kernel has written output `k`:
    /// the exponentiated outputs added, strictly in index order, into a
    /// scalar that starts at +0.0.
    pub open spec fn cumulative_entry(self, values: Seq<u32>, accurate: bool, k: int) -> u32
        decreases k,
    {
        if k <= 0 {
            single_add(0u32, self.softmax_entry(values, accurate, 0))
        } else {
            single_add(
                self.cumulative_entry(values, accurate, k - 1),
                self.softmax_entry(values, accurate, k),
            )
        }
    }

    /// The affine transform followed by a lane-wise exponential and a running
    /// cumulative sum across all outputs in index order — an unnormalized
    /// CDF of the softmax, ready for direct categorical sampling.
    ///
    /// Fails, writing nothing, exactly on a dimension mismatch; otherwise
    /// output `k` is the running total `cumulative_entry(k)`.
    fn product_softmax_cumulative(
        &self,
        values: &Vec<u32>,
        destination: &mut Vec<u32>,
        accurate: bool,
    ) -> (r: Option<()>)
        requires
            self.wf(),
        ensures
            r is Some <==> self.dims_ok(values@.len() as int, old(destination)@.len() as int),
            final(destination)@.len() == old(destination)@.len(),
            r is None ==> final(destination)@ == old(destination)@,
            r is Some ==> forall|k: int|
                0 <= k < self.num_columns ==> final(destination)@[k] == self.cumulative_entry(
                    values@,
                    accurate,
                    k,
                ),
    {
        if destination.len() != self.num_columns || values.len() != self.num_rows {
            return None;
        }
        let num_chunks = self.num_col_instrinsics;
        let mut sum: u32 = 0;
        let mut c: usize = 0;
        while c < num_chunks
            invariant
                c <= num_chunks,
                num_chunks == self.num_col_instrinsics,
                self.wf(),
                values@.len() == self.num_rows,
                destination@.len() == self.num_columns,
                old(destination)@.len() == self.num_columns,
                forall|k: int|
                    0 <= k < 8 * c && k < self.num_columns ==> destination@[k]
                        == self.cumulative_entry(values@, accurate, k),
                (8 * c == 0 || self.num_columns == 0) ==> sum == 0u32,
                (8 * c >= 1 && self.num_columns >= 1) ==> sum == self.cumulative_entry(
                    values@,
                    accurate,
                    (if 8 * c < self.num_columns {
                        8 * c
                    } else {
                        self.num_columns as int
                    }) - 1,
                ),
            decreases num_chunks - c,
        {
            proof {
                lemma_chunk_base(c as int, self.num_columns as int);
            }
            let acc = self.accumulate_chunk(c, values);
            let mut ex: Vec<u32> = Vec::new();
            let mut l: usize = 0;
            while l < 8
                invariant
                    l <= 8,
                    ex@.len() == l,
                    acc@.len() == 8,
                    forall|j: int|
                        0 <= j < 8 ==> acc@[j] == self.lane_acc(
                            values@,
                            c as int,
                            j,
                            self.num_rows as int,
                        ),
                    forall|j: int| 0 <= j < l ==> ex@[j] == spec_exp_kind(accurate, acc@[j]),
                decreases 8 - l,
            {
                ex.push(exp_kind(accurate, acc[l]));
                l = l + 1;
            }
            let base = c * SINGLES_PER_INTRINSIC;
            let remaining = self.num_columns - base;
            let tail = if remaining < SINGLES_PER_INTRINSIC {
                remaining
            } else {
                SINGLES_PER_INTRINSIC
            };
            let mut l: usize = 0;
            while l < tail
                invariant
                    l <= tail,
                    base == 8 * c,
                    base + tail <= self.num_columns,
                    tail <= 8,
                    self.wf(),
                    c < self.num_col_instrinsics,
                    values@.len() == self.num_rows,
                    destination@.len() == self.num_columns,
                    old(destination)@.len() == self.num_columns,
                    ex@.len() == 8,
                    forall|j: int|
                        0 <= j < 8 ==> ex@[j] == spec_exp_kind(
                            accurate,
                            self.lane_acc(values@, c as int, j, self.num_rows as int),
                        ),
                    forall|k: int|
                        0 <= k < base + l ==> destination@[k] == self.cumulative_entry(
                            values@,
                            accurate,
                            k,
                        ),
                    (base + l == 0) ==> sum == 0u32,
                    (base + l >= 1) ==> sum == self.cumulative_entry(
                        values@,
                        accurate,
                        base + l - 1,
                    ),
                decreases tail - l,
            {
                let e = ex[l];
                sum = add_single(sum, e);
                destination[base + l] = sum;
                proof {
                    lemma_chunk_of_index(c as int, l as int);
                }
                l = l + 1;
            }
            c = c + 1;
        }
        proof {
            lemma_chunks_cover(self.num_columns as int);
        }
        Some(())
    }

    /// The cumulative softmax kernel with the fast exponential.
    pub fn product_softmax_cumulative_approx(
        &self,
        values: &Vec<u32>,
        destination: &mut Vec<u32>,
    ) -> (r: Option<()>)
        requires
            self.wf(),
        ensures
            r is Some <==> self.dims_ok(values@.len() as int, old(destination)@.len() as int),
            final(destination)@.len() == old(destination)@.len(),
            r is None ==> final(destination)@ == old(destination)@,
            r is Some ==> forall|k: int|
                0 <= k < self.num_columns ==> final(destination)@[k] == self.cumulative_entry(
                    values@,
                    false,
                    k,
                ),
    {
        self.product_softmax_cumulative(values, destination, false)
    }

    /// The cumulative softmax kernel with the high-accuracy exponential.
    pub fn product_softmax_cumulative_sleef(
        &self,
        values: &Vec<u32>,
        destination: &mut Vec<u32>,
    ) -> (r: Option<()>)
        requires
            self.wf(),
        ensures
            r is Some <==> self.dims_ok(values@.len() as int, old(destination)@.len() as int),
            final(destination)@.len() == old(destination)@.len(),
            r is None ==> final(destination)@ == old(destination)@,
            r is Some ==> forall|k: int|
                0 <= k < self.num_columns ==> final(destination)@[k] == self.cumulative_entry(
                    values@,
                    true,
                    k,
                ),
    {
        self.product_softmax_cumulative(values, destination, true)
    }

    /// The exponentiated outputs added in index order into a scalar that
    /// starts at +0.0, over the first `count` outputs: the total mass of an
    /// unnormalized softmax.
    pub open spec fn softmax_total(self, values: Seq<u32>, accurate: bool, count: int) -> u32
        decreases count,
    {
        if count <= 0 {
            0u32
        } else {
            single_add(
                self.softmax_total(values, accurate, count - 1),
                self.softmax_entry(values, accurate, count - 1),
            )
        }
    }

    /// Law: after the cumulative kernel has written output `k`, its running
    /// total — and so, at the last output, the last written element — equals
    /// the sum of the exponentiated outputs `0 ..= k`, folded in index
    /// order from +0.0.  The written vector is an unnormalized CDF whose
    /// final entry is the total mass.
    pub proof fn lemma_cumulative_is_total(self, values: Seq<u32>, accurate: bool, k: int)
        requires
            0 <= k,
        ensures
            self.cumulative_entry(values, accurate, k) == self.softmax_total(
                values,
                accurate,
                k + 1,
            ),
        decreases k,
    {
        if k > 0 {
            self.lemma_cumulative_is_total(values, accurate, k - 1);
        } else {
            assert(self.softmax_total(values, accurate, 0) == 0u32);
            assert(self.softmax_total(values, accurate, 1) == single_add(
                0u32,
                self.softmax_entry(values, accurate, 0),
            ));
        }
    }

    /// Lane `l` of the running lane-vector total after the first `c + 1`
    /// chunks of the non-normalized kernel.  All eight lanes take part,
    /// padding included: the padding lanes' intercepts are chosen so that
    /// their exponential is (almost exactly) zero.
    pub open spec fn vector_sum_lane(self, values: Seq<u32>, accurate: bool, c: int, l: int) -> u32
        decreases c,
    {
        if c <= 0 {
            single_add(
                0u32,
                spec_exp_kind(accurate, self.lane_acc(values, 0, l, self.num_rows as int)),
            )
        } else {
            single_add(
                self.vector_sum_lane(values, accurate, c - 1, l),
                spec_exp_kind(accurate, self.lane_acc(values, c, l, self.num_rows as int)),
            )
        }
    }

    /// Lane `l` of the lane-vector total after all chunks (zero bits — +0.0 —
    /// when there are none).
    pub open spec fn vector_sum_final(self, values: Seq<u32>, accurate: bool, l: int) -> u32 {
        if self.num_col_instrinsics == 0 {
            0u32
        } else {
            self.vector_sum_lane(values, accurate, self.num_col_instrinsics - 1, l)
        }
    }

    /// The horizontal reduction of the lane-vector total: adjacent lanes are
    /// added pairwise, the pair sums pairwise again, and the two half totals
    /// last — the exact association of the lane horizontal-add sequence.
    pub open spec fn horizontal_sum(self, values: Seq<u32>, accurate: bool) -> u32 {
        single_add(
            single_add(
                single_add(
                    self.vector_sum_final(values, accurate, 0),
                    self.vector_sum_final(values, accurate, 1),
                ),
                single_add(
                    self.vector_sum_final(values, accurate, 2),
                    self.vector_sum_final(values, accurate, 3),
                ),
            ),
            single_add(
                single_add(
                    self.vector_sum_final(values, accurate, 4),
                    self.vector_sum_final(values, accurate, 5),
                ),
                single_add(
                    self.vector_sum_final(values, accurate, 6),
                    self.vector_sum_final(values, accurate, 7),
                ),
            ),
        )
    }

    /// The affine transform followed by a lane-wise exponential, written out
    /// without normalization; the total of the exponentiated lanes is
    /// returned separately through `sum` so the caller can divide by it.
    ///
    /// Fails, writing nothing and leaving `sum` unchanged, exactly on a
    /// dimension mismatch; otherwise output `k` is `softmax_entry(k)` and
    /// `sum` is the horizontal reduction `horizontal_sum`.
    fn product_softmax_not_normalised(
        &self,
        values: &Vec<u32>,
        destination: &mut Vec<u32>,
        sum: &mut u32,
        accurate: bool,
    ) -> (r: Option<()>)
        requires
            self.wf(),
        ensures
            r is Some <==> self.dims_ok(values@.len() as int, old(destination)@.len() as int),
            final(destination)@.len() == old(destination)@.len(),
            r is None ==> final(destination)@ == old(destination)@ && *final(sum) == *old(sum),
            r is Some ==> (forall|k: int|
                0 <= k < self.num_columns ==> final(destination)@[k] == self.softmax_entry(
                    values@,
                    accurate,
                    k,
                )) && *final(sum) == self.horizontal_sum(values@, accurate),
    {
        if destination.len() != self.num_columns || values.len() != self.num_rows {
            return None;
        }
        let num_chunks = self.num_col_instrinsics;
        let mut vsum = zeros();
        let mut c: usize = 0;
        while c < num_chunks
            invariant
                c <= num_chunks,
                num_chunks == self.num_col_instrinsics,
                self.wf(),
                values@.len() == self.num_rows,
                destination@.len() == self.num_columns,
                old(destination)@.len() == self.num_columns,
                vsum@.len() == 8,
                forall|j: int|
                    0 <= j < 8 ==> vsum@[j] == (if c == 0 {
                        0u32
                    } else {
                        self.vector_sum_lane(values@, accurate, c - 1, j)
                    }),
                forall|k: int|
                    0 <= k < 8 * c && k < self.num_columns ==> destination@[k]
                        == self.softmax_entry(values@, accurate, k),
            decreases num_chunks - c,
        {
            proof {
                lemma_chunk_base(c as int, self.num_columns as int);
            }
            let acc = self.accumulate_chunk(c, values);
            let mut ex: Vec<u32> = Vec::new();
            let mut l: usize = 0;
            while l < 8
                invariant
                    l <= 8,
                    ex@.len() == l,
                    acc@.len() == 8,
                    forall|j: int|
                        0 <= j < 8 ==> acc@[j] == self.lane_acc(
                            values@,
                            c as int,
                            j,
                            self.num_rows as int,
                        ),
                    forall|j: int| 0 <= j < l ==> ex@[j] == spec_exp_kind(accurate, acc@[j]),
                decreases 8 - l,
            {
                ex.push(exp_kind(accurate, acc[l]));
                l = l + 1;
            }
            let ghost vsum_before = vsum@;
            let mut l: usize = 0;
            while l < 8
                invariant
                    l <= 8,
                    vsum@.len() == 8,
                    ex@.len() == 8,
                    forall|j: int|
                        0 <= j < 8 ==> ex@[j] == spec_exp_kind(
                            accurate,
                            self.lane_acc(values@, c as int, j, self.num_rows as int),
                        ),
                    forall|j: int| l <= j < 8 ==> vsum@[j] == vsum_before[j],
                    forall|j: int|
                        0 <= j < l ==> vsum@[j] == single_add(vsum_before[j], ex@[j]),
                decreases 8 - l,
            {
                let t = add_single(vsum[l], ex[l]);
                vsum[l] = t;
                l = l + 1;
            }
            proof {
                assert forall|j: int| 0 <= j < 8 implies vsum@[j] == self.vector_sum_lane(
                    values@,
                    accurate,
                    c as int,
                    j,
                ) by {
                    if c == 0 {
                        assert(vsum_before[j] == 0u32);
                    }
                }
            }
            let base = c * SINGLES_PER_INTRINSIC;
            let remaining = self.num_columns - base;
            let tail = if remaining < SINGLES_PER_INTRINSIC {
                remaining
            } else {
                SINGLES_PER_INTRINSIC
            };
            let mut l: usize = 0;
            while l < tail
                invariant
                    l <= tail,
                    base == 8 * c,
                    base + tail <= self.num_columns,
                    tail <= 8,
                    self.wf(),
                    c < self.num_col_instrinsics,
                    values@.len() == self.num_rows,
                    destination@.len() == self.num_columns,
                    old(destination)@.len() == self.num_columns,
                    ex@.len() == 8,
                    forall|j: int|
                        0 <= j < 8 ==> ex@[j] == spec_exp_kind(
                            accurate,
                            self.lane_acc(values@, c as int, j, self.num_rows as int),
                        ),
                    forall|k: int|
                        0 <= k < base + l ==> destination@[k] == self.softmax_entry(
                            values@,
                            accurate,
                            k,
                        ),
                decreases tail - l,
            {
                destination[base + l] = ex[l];
                proof {
                    lemma_chunk_of_index(c as int, l as int);
                }
                l = l + 1;
            }
            c = c + 1;
        }
        let p01 = add_single(vsum[0], vsum[1]);
        let p23 = add_single(vsum[2], vsum[3]);
        let p45 = add_single(vsum[4], vsum[5]);
        let p67 = add_single(vsum[6], vsum[7]);
        let lo = add_single(p01, p23);
        let hi = add_single(p45, p67);
        *sum = add_single(lo, hi);
        proof {
            lemma_chunks_cover(self.num_columns as int);
        }
        Some(())
    }

    /// The non-normalized softmax kernel with the fast exponential.
    pub fn product_softmax_not_normalised_approx(
        &self,
        values: &Vec<u32>,
        destination: &mut Vec<u32>,
        sum: &mut u32,
    ) -> (r: Option<()>)
        requires
            self.wf(),
        ensures
            r is Some <==> self.dims_ok(values@.len() as int, old(destination)@.len() as int),
            final(destination)@.len() == old(destination)@.len(),
            r is None ==> final(destination)@ == old(destination)@ && *final(sum) == *old(sum),
            r is Some ==> (forall|k: int|
                0 <= k < self.num_columns ==> final(destination)@[k] == self.softmax_entry(
                    values@,
                    false,
                    k,
                )) && *final(sum) == self.horizontal_sum(values@, false),
    {
        self.product_softmax_not_normalised(values, destination, sum, false)
    }

    /// The non-normalized softmax kernel with the high-accuracy exponential.
    pub fn product_softmax_not_normalised_sleef(
        &self,
        values: &Vec<u32>,
        destination: &mut Vec<u32>,
        sum: &mut u32,
    ) -> (r: Option<()>)
        requires
            self.wf(),
        ensures
            r is Some <==> self.dims_ok(values@.len() as int, old(destination)@.len() as int),
            final(destination)@.len() == old(destination)@.len(),
            r is None ==> final(destination)@ == old(destination)@ && *final(sum) == *old(sum),
            r is Some ==> (forall|k: int|
                0 <= k < self.num_columns ==> final(destination)@[k] == self.softmax_entry(
                    values@,
                    true,
                    k,
                )) && *final(sum) == self.horizontal_sum(values@, true),
    {
        self.product_softmax_not_normalised(values, destination, sum, true)
    }
}

} // verus!
