//! The matrix type: a dense, row-major, fully initialized grid of binary32
//! bit patterns, with its dimensions checked as preconditions at every call
//! site rather than at run time.

use vstd::prelude::*;
use crate::scalar::{
    F32_ZERO_BITS, F32_ONE_BITS, F32_NEG_ONE_BITS, f32_add_bits, f32_mul_bits, f32_div_bits,
    f32_neg_bits, f32_is_nan_bits, f32_is_finite_bits, f32_add, f32_mul, f32_div,
};

verus! {

/// A `rows` x `cols` grid of binary32 bit patterns, row-major.
#[derive(Debug)]
pub struct Mat {
    pub rows: usize,
    pub cols: usize,
    pub data: Vec<Vec<u32>>,
}

/// `m` is a `rows` x `cols` grid.
pub open spec fn grid_wf(m: Seq<Seq<u32>>, rows: int, cols: int) -> bool {
    &&& m.len() == rows
    &&& forall|i: int| 0 <= i < rows ==> (#[trigger] m[i]).len() == cols
}

/// The `rows` x `cols` grid with `0.0` everywhere.
pub open spec fn zero_grid(rows: int, cols: int) -> Seq<Seq<u32>> {
    Seq::new(rows as nat, |i: int| Seq::new(cols as nat, |j: int| F32_ZERO_BITS))
}

/// The `dim` x `dim` grid with `v` on the main diagonal and `0.0` elsewhere.
pub open spec fn scalar_grid(dim: int, v: u32) -> Seq<Seq<u32>> {
    Seq::new(
        dim as nat,
        |i: int| Seq::new(dim as nat, |j: int| if i == j { v } else { F32_ZERO_BITS }),
    )
}

/// The transpose of a `rows` x `cols` grid: row `i` of the result is
/// column `i` of `m`.
pub open spec fn transpose_grid(m: Seq<Seq<u32>>, rows: int, cols: int) -> Seq<Seq<u32>> {
    Seq::new(cols as nat, |i: int| Seq::new(rows as nat, |j: int| m[j][i]))
}

impl View for Mat {
    type V = Seq<Seq<u32>>;

    open spec fn view(&self) -> Seq<Seq<u32>> {
        Seq::new(self.data@.len(), |i: int| self.data@[i]@)
    }
}

impl Mat {
    /// The matrix is a well-formed grid: at least one row and one column,
    /// and every row of the declared width.
    pub open spec fn wf(self) -> bool {
        &&& self.rows >= 1
        &&& self.cols >= 1
        &&& grid_wf(self@, self.rows as int, self.cols as int)
    }

    /// The `rows` x `cols` matrix with every cell `0.0`.
    pub fn zero(rows: usize, cols: usize) -> (r: Mat)
        requires
            rows >= 1,
            cols >= 1,
        ensures
            r.wf(),
            r.rows == rows,
            r.cols == cols,
            r@ == zero_grid(rows as int, cols as int),
    {
        let mut data: Vec<Vec<u32>> = Vec::new();
        let mut i: usize = 0;
        while i < rows
            invariant
                i <= rows,
                data@.len() == i,
                forall|p: int| 0 <= p < i ==> (#[trigger] data@[p])@ =~= Seq::new(
                    cols as nat,
                    |j: int| F32_ZERO_BITS,
                ),
            decreases rows - i,
        {
            let row: Vec<u32> = vec![F32_ZERO_BITS; cols];
            data.push(row);
            i = i + 1;
        }
        let r = Mat { rows, cols, data };
        assert(r@ =~~= zero_grid(rows as int, cols as int));
        r
    }

    /// The `dim` x `dim` matrix with `value` on the main diagonal and `0.0`
    /// elsewhere.
    pub fn scalar(dim: usize, value: u32) -> (r: Mat)
        requires
            dim >= 1,
        ensures
            r.wf(),
            r.rows == dim,
            r.cols == dim,
            r@ == scalar_grid(dim as int, value),
    {
        let mut data: Vec<Vec<u32>> = Vec::new();
        let mut i: usize = 0;
        while i < dim
            invariant
                i <= dim,
                data@.len() == i,
                forall|p: int| 0 <= p < i ==> (#[trigger] data@[p])@ =~= Seq::new(
                    dim as nat,
                    |j: int| if p == j { value } else { F32_ZERO_BITS },
                ),
            decreases dim - i,
        {
            let mut row: Vec<u32> = vec![F32_ZERO_BITS; dim];
            row[i] = value;
            data.push(row);
            i = i + 1;
        }
        let r = Mat { rows: dim, cols: dim, data };
        assert(r@ =~~= scalar_grid(dim as int, value));
        r
    }

    /// The `dim` x `dim` identity matrix: `1.0` on the diagonal.
    pub fn identity(dim: usize) -> (r: Mat)
        requires
            dim >= 1,
        ensures
            r.wf(),
            r.rows == dim,
            r.cols == dim,
            r@ == scalar_grid(dim as int, F32_ONE_BITS),
    {
        Mat::scalar(dim, F32_ONE_BITS)
    }

    /// A matrix taken verbatim from an explicit row-major grid of values.
    pub fn from_rows(data: Vec<Vec<u32>>) -> (r: Mat)
        requires
            data@.len() >= 1,
            data@[0]@.len() >= 1,
            forall|i: int| 0 <= i < data@.len() ==> (#[trigger] data@[i])@.len()
                == data@[0]@.len(),
        ensures
            r.wf(),
            r.rows == data@.len(),
            r.cols == data@[0]@.len(),
            forall|i: int| 0 <= i < data@.len() ==> r@[i] == (#[trigger] data@[i])@,
    {
        let rows = data.len();
        let cols = data[0].len();
        Mat { rows, cols, data }
    }

    /// The pair (row count, column count): a static property of the value.
    pub fn dim(&self) -> (r: (usize, usize))
        ensures
            r.0 == self.rows,
            r.1 == self.cols,
    {
        (self.rows, self.cols)
    }

    /// The cell at row `i`, column `j`.
    pub fn entry(&self, i: usize, j: usize) -> (r: u32)
        requires
            self.wf(),
            i < self.rows,
            j < self.cols,
        ensures
            r == self@[i as int][j as int],
    {
        assert(self.data@[i as int]@ == self@[i as int]);
        self.data[i][j]
    }

    /// A copy of row `idx`.
    pub fn row(&self, idx: usize) -> (r: Vec<u32>)
        requires
            self.wf(),
            idx < self.rows,
        ensures
            r@ == self@[idx as int],
    {
        let mut r: Vec<u32> = Vec::new();
        let mut j: usize = 0;
        while j < self.cols
            invariant
                self.wf(),
                idx < self.rows,
                j <= self.cols,
                r@.len() == j,
                forall|q: int| 0 <= q < j ==> r@[q] == self@[idx as int][q],
            decreases self.cols - j,
        {
            assert(self.data@[idx as int]@ == self@[idx as int]);
            r.push(self.data[idx][j]);
            j = j + 1;
        }
        assert(r@ =~= self@[idx as int]);
        r
    }

    /// A copy of column `idx`: cell `i` of the result is cell `[i][idx]`.
    pub fn column(&self, idx: usize) -> (r: Vec<u32>)
        requires
            self.wf(),
            idx < self.cols,
        ensures
            r@.len() == self.rows,
            forall|i: int| 0 <= i < self.rows ==> r@[i] == self@[i][idx as int],
    {
        let mut r: Vec<u32> = Vec::new();
        let mut i: usize = 0;
        while i < self.rows
            invariant
                self.wf(),
                idx < self.cols,
                i <= self.rows,
                r@.len() == i,
                forall|p: int| 0 <= p < i ==> r@[p] == self@[p][idx as int],
            decreases self.rows - i,
        {
            assert(self.data@[i as int]@ == self@[i as int]);
            r.push(self.data[i][idx]);
            i = i + 1;
        }
        r
    }

    /// Replace row `idx` wholesale; every other row is kept.
    pub fn set_row(&mut self, idx: usize, row: Vec<u32>)
        requires
            old(self).wf(),
            idx < old(self).rows,
            row@.len() == old(self).cols,
        ensures
            final(self).wf(),
            final(self).rows == old(self).rows,
            final(self).cols == old(self).cols,
            final(self)@ == old(self)@.update(idx as int, row@),
    {
        let ghost prev = self@;
        self.data[idx] = row;
        assert(self@ =~= prev.update(idx as int, row@));
    }

    /// The `cols` x `rows` matrix whose row `i` is column `i` of `self`.
    pub fn transpose(&self) -> (r: Mat)
        requires
            self.wf(),
        ensures
            r.wf(),
            r.rows == self.cols,
            r.cols == self.rows,
            r@ == transpose_grid(self@, self.rows as int, self.cols as int),
    {
        let mut data: Vec<Vec<u32>> = Vec::new();
        let mut i: usize = 0;
        while i < self.cols
            invariant
                self.wf(),
                i <= self.cols,
                data@.len() == i,
                forall|p: int| 0 <= p < i ==> (#[trigger] data@[p])@ =~= Seq::new(
                    self.rows as nat,
                    |j: int| self@[j][p],
                ),
            decreases self.cols - i,
        {
            let col = self.column(i);
            data.push(col);
            i = i + 1;
        }
        let r = Mat { rows: self.cols, cols: self.rows, data };
        assert(r@ =~~= transpose_grid(self@, self.rows as int, self.cols as int));
        r
    }
}

/// The elementwise sum of two grids of the same shape.
pub open spec fn add_grid(a: Seq<Seq<u32>>, b: Seq<Seq<u32>>) -> Seq<Seq<u32>> {
    Seq::new(a.len(), |i: int| Seq::new(a[i].len(), |j: int| f32_add_bits(a[i][j], b[i][j])))
}

/// Every cell multiplied by the scalar `s`.
pub open spec fn scale_grid(m: Seq<Seq<u32>>, s: u32) -> Seq<Seq<u32>> {
    Seq::new(m.len(), |i: int| Seq::new(m[i].len(), |j: int| f32_mul_bits(m[i][j], s)))
}

/// Every cell with its sign bit flipped: the exact IEEE-754 negation of the
/// grid.
pub open spec fn flip_grid(m: Seq<Seq<u32>>) -> Seq<Seq<u32>> {
    Seq::new(m.len(), |i: int| Seq::new(m[i].len(), |j: int| f32_neg_bits(m[i][j])))
}

/// Subtraction is addition of the negated right operand.
pub open spec fn sub_grid(a: Seq<Seq<u32>>, b: Seq<Seq<u32>>) -> Seq<Seq<u32>> {
    add_grid(a, scale_grid(b, F32_NEG_ONE_BITS))
}

/// Every cell of the grid is a finite binary32 value.
pub open spec fn finite_grid(m: Seq<Seq<u32>>) -> bool {
    forall|i: int, j: int|
        0 <= i < m.len() && 0 <= j < m[i].len() ==> f32_is_finite_bits(#[trigger] m[i][j])
}

/// The dot product of the first `k` cells of row `i` of `a` with the first
/// `k` cells of column `j` of `b`, accumulated left to right from `0.0`.
pub open spec fn dot_prefix(a: Seq<Seq<u32>>, b: Seq<Seq<u32>>, i: int, j: int, k: int) -> u32
    decreases k,
{
    if k <= 0 {
        F32_ZERO_BITS
    } else {
        f32_add_bits(dot_prefix(a, b, i, j, k - 1), f32_mul_bits(a[i][k - 1], b[k - 1][j]))
    }
}

/// The matrix product of an `rows` x `common` grid with a `common` x `cols`
/// grid.
pub open spec fn mul_grid(
    a: Seq<Seq<u32>>,
    b: Seq<Seq<u32>>,
    rows: int,
    common: int,
    cols: int,
) -> Seq<Seq<u32>> {
    Seq::new(rows as nat, |i: int| Seq::new(cols as nat, |j: int| dot_prefix(a, b, i, j, common)))
}

/// One row of an elementwise sum, together with the scalar identities the
/// matrix-level laws need: per-cell commutativity when the sum is not NaN,
/// and exact cancellation of a finite value with its negation.
fn add_row(a: &Vec<u32>, b: &Vec<u32>) -> (r: Vec<u32>)
    requires
        a@.len() == b@.len(),
    ensures
        r@.len() == a@.len(),
        forall|q: int| 0 <= q < a@.len() ==> r@[q] == f32_add_bits(a@[q], b@[q]),
        forall|q: int|
            0 <= q < a@.len() ==> (!f32_is_nan_bits(#[trigger] f32_add_bits(a@[q], b@[q]))
                ==> f32_add_bits(a@[q], b@[q]) == f32_add_bits(b@[q], a@[q])),
        forall|q: int|
            0 <= q < a@.len() ==> (f32_is_finite_bits(a@[q]) && b@[q] == f32_neg_bits(a@[q])
                ==> #[trigger] f32_add_bits(a@[q], b@[q]) == F32_ZERO_BITS),
{
    let mut r: Vec<u32> = Vec::new();
    let mut q: usize = 0;
    while q < a.len()
        invariant
            a@.len() == b@.len(),
            q <= a@.len(),
            r@.len() == q,
            forall|p: int| 0 <= p < q ==> r@[p] == f32_add_bits(a@[p], b@[p]),
            forall|p: int|
                0 <= p < q ==> (!f32_is_nan_bits(#[trigger] f32_add_bits(a@[p], b@[p]))
                    ==> f32_add_bits(a@[p], b@[p]) == f32_add_bits(b@[p], a@[p])),
            forall|p: int|
                0 <= p < q ==> (f32_is_finite_bits(a@[p]) && b@[p] == f32_neg_bits(a@[p])
                    ==> #[trigger] f32_add_bits(a@[p], b@[p]) == F32_ZERO_BITS),
        decreases a@.len() - q,
    {
        let c = f32_add(a[q], b[q]);
        r.push(c);
        q = q + 1;
    }
    r
}

/// One row scaled by `s`, together with the scalar identity the negation
/// law needs: multiplying a non-NaN value by `-1.0` flips exactly its sign.
fn scale_row(a: &Vec<u32>, s: u32) -> (r: Vec<u32>)
    ensures
        r@.len() == a@.len(),
        forall|q: int| 0 <= q < a@.len() ==> r@[q] == f32_mul_bits(a@[q], s),
        forall|q: int|
            0 <= q < a@.len() ==> (s == F32_NEG_ONE_BITS && !f32_is_nan_bits(a@[q])
                ==> #[trigger] f32_mul_bits(a@[q], s) == f32_neg_bits(a@[q])),
{
    let mut r: Vec<u32> = Vec::new();
    let mut q: usize = 0;
    while q < a.len()
        invariant
            q <= a@.len(),
            r@.len() == q,
            forall|p: int| 0 <= p < q ==> r@[p] == f32_mul_bits(a@[p], s),
            forall|p: int|
                0 <= p < q ==> (s == F32_NEG_ONE_BITS && !f32_is_nan_bits(a@[p])
                    ==> #[trigger] f32_mul_bits(a@[p], s) == f32_neg_bits(a@[p])),
        decreases a@.len() - q,
    {
        let c = f32_mul(a[q], s);
        r.push(c);
        q = q + 1;
    }
    r
}

impl Mat {
    /// Elementwise sum. Besides pinning the result, the contract carries two
    /// laws of the operation: it is commutative whenever no cell of the sum
    /// is NaN, and a finite matrix plus its negation is the zero matrix.
    pub fn add(&self, rhs: &Mat) -> (r: Mat)
        requires
            self.wf(),
            rhs.wf(),
            self.rows == rhs.rows,
            self.cols == rhs.cols,
        ensures
            r.wf(),
            r.rows == self.rows,
            r.cols == self.cols,
            r@ == add_grid(self@, rhs@),
            (forall|i: int, j: int|
                0 <= i < self.rows && 0 <= j < self.cols ==> !f32_is_nan_bits(
                    #[trigger] f32_add_bits(self@[i][j], rhs@[i][j]),
                )) ==> r@ == add_grid(rhs@, self@),
            finite_grid(self@) && rhs@ == flip_grid(self@) ==> r@ == zero_grid(
                self.rows as int,
                self.cols as int,
            ),
    {
        let mut data: Vec<Vec<u32>> = Vec::new();
        let mut i: usize = 0;
        while i < self.rows
            invariant
                self.wf(),
                rhs.wf(),
                self.rows == rhs.rows,
                self.cols == rhs.cols,
                i <= self.rows,
                data@.len() == i,
                forall|p: int, q: int|
                    0 <= p < i && 0 <= q < self.cols ==> data@[p]@[q] == #[trigger] f32_add_bits(
                        self@[p][q],
                        rhs@[p][q],
                    ),
                forall|p: int| 0 <= p < i ==> (#[trigger] data@[p])@.len() == self.cols,
                forall|p: int, q: int|
                    0 <= p < i && 0 <= q < self.cols ==> (!f32_is_nan_bits(
                        #[trigger] f32_add_bits(self@[p][q], rhs@[p][q]),
                    ) ==> f32_add_bits(self@[p][q], rhs@[p][q]) == f32_add_bits(
                        rhs@[p][q],
                        self@[p][q],
                    )),
                forall|p: int, q: int|
                    0 <= p < i && 0 <= q < self.cols ==> (f32_is_finite_bits(self@[p][q])
                        && rhs@[p][q] == f32_neg_bits(self@[p][q]) ==> #[trigger] f32_add_bits(
                        self@[p][q],
                        rhs@[p][q],
                    ) == F32_ZERO_BITS),
            decreases self.rows - i,
        {
            assert(self.data@[i as int]@ == self@[i as int]);
            assert(rhs.data@[i as int]@ == rhs@[i as int]);
            let row = add_row(&self.data[i], &rhs.data[i]);
            data.push(row);
            i = i + 1;
        }
        let r = Mat { rows: self.rows, cols: self.cols, data };
        assert(r@ =~~= add_grid(self@, rhs@));
        proof {
            if forall|i: int, j: int|
                0 <= i < self.rows && 0 <= j < self.cols ==> !f32_is_nan_bits(
                    #[trigger] f32_add_bits(self@[i][j], rhs@[i][j]),
                ) {
                assert(add_grid(self@, rhs@) =~~= add_grid(rhs@, self@));
            }
            if finite_grid(self@) && rhs@ == flip_grid(self@) {
                assert forall|i: int, j: int|
                    0 <= i < self.rows && 0 <= j < self.cols implies #[trigger] f32_add_bits(
                    self@[i][j],
                    rhs@[i][j],
                ) == F32_ZERO_BITS by {
                    assert(rhs@[i][j] == flip_grid(self@)[i][j]);
                }
                assert(add_grid(self@, rhs@) =~~= zero_grid(self.rows as int, self.cols as int));
            }
        }
        r
    }

    /// Every one of the `rows * cols` cells multiplied by the scalar `s`,
    /// whatever the dimensions are. When `s` is `-1.0` and no cell is NaN,
    /// the result is exactly the sign-flipped grid.
    pub fn scale(&self, s: u32) -> (r: Mat)
        requires
            self.wf(),
        ensures
            r.wf(),
            r.rows == self.rows,
            r.cols == self.cols,
            r@ == scale_grid(self@, s),
            s == F32_NEG_ONE_BITS && finite_grid(self@) ==> r@ == flip_grid(self@),
    {
        let mut data: Vec<Vec<u32>> = Vec::new();
        let mut i: usize = 0;
        while i < self.rows
            invariant
                self.wf(),
                i <= self.rows,
                data@.len() == i,
                forall|p: int| 0 <= p < i ==> (#[trigger] data@[p])@.len() == self.cols,
                forall|p: int, q: int|
                    0 <= p < i && 0 <= q < self.cols ==> data@[p]@[q] == #[trigger] f32_mul_bits(
                        self@[p][q],
                        s,
                    ),
                forall|p: int, q: int|
                    0 <= p < i && 0 <= q < self.cols ==> (s == F32_NEG_ONE_BITS
                        && !f32_is_nan_bits(self@[p][q]) ==> #[trigger] f32_mul_bits(
                        self@[p][q],
                        s,
                    ) == f32_neg_bits(self@[p][q])),
            decreases self.rows - i,
        {
            assert(self.data@[i as int]@ == self@[i as int]);
            let row = scale_row(&self.data[i], s);
            data.push(row);
            i = i + 1;
        }
        let r = Mat { rows: self.rows, cols: self.cols, data };
        assert(r@ =~~= scale_grid(self@, s));
        proof {
            if s == F32_NEG_ONE_BITS && finite_grid(self@) {
                assert(scale_grid(self@, s) =~~= flip_grid(self@));
            }
        }
        r
    }

    /// Negation: every cell multiplied by `-1.0`. On a finite matrix this is
    /// exactly the sign-flipped grid.
    pub fn neg(&self) -> (r: Mat)
        requires
            self.wf(),
        ensures
            r.wf(),
            r.rows == self.rows,
            r.cols == self.cols,
            r@ == scale_grid(self@, F32_NEG_ONE_BITS),
            finite_grid(self@) ==> r@ == flip_grid(self@),
    {
        self.scale(F32_NEG_ONE_BITS)
    }

    /// Difference, defined as `self + (-rhs)`. Subtracting a finite matrix
    /// from itself gives the zero matrix.
    pub fn sub(&self, rhs: &Mat) -> (r: Mat)
        requires
            self.wf(),
            rhs.wf(),
            self.rows == rhs.rows,
            self.cols == rhs.cols,
        ensures
            r.wf(),
            r.rows == self.rows,
            r.cols == self.cols,
            r@ == sub_grid(self@, rhs@),
            rhs@ == self@ && finite_grid(self@) ==> r@ == zero_grid(
                self.rows as int,
                self.cols as int,
            ),
    {
        let n = rhs.neg();
        self.add(&n)
    }

    /// Scalar division: every cell multiplied by `1.0 / s`. Division by zero
    /// follows IEEE-754 and yields infinities or NaN cells, not an error.
    pub fn div(&self, s: u32) -> (r: Mat)
        requires
            self.wf(),
        ensures
            r.wf(),
            r.rows == self.rows,
            r.cols == self.cols,
            r@ == scale_grid(self@, f32_div_bits(F32_ONE_BITS, s)),
    {
        let inv = f32_div(F32_ONE_BITS, s);
        self.scale(inv)
    }

    /// Matrix product: cell `(i, j)` is the dot product of row `i` of `self`
    /// with column `j` of `rhs`, accumulated left to right from `0.0`.
    pub fn mul(&self, rhs: &Mat) -> (r: Mat)
        requires
            self.wf(),
            rhs.wf(),
            self.cols == rhs.rows,
        ensures
            r.wf(),
            r.rows == self.rows,
            r.cols == rhs.cols,
            r@ == mul_grid(self@, rhs@, self.rows as int, self.cols as int, rhs.cols as int),
    {
        let common = self.cols;
        let mut data: Vec<Vec<u32>> = Vec::new();
        let mut i: usize = 0;
        while i < self.rows
            invariant
                self.wf(),
                rhs.wf(),
                common == self.cols,
                self.cols == rhs.rows,
                i <= self.rows,
                data@.len() == i,
                forall|p: int| 0 <= p < i ==> (#[trigger] data@[p])@.len() == rhs.cols,
                forall|p: int, q: int|
                    0 <= p < i && 0 <= q < rhs.cols ==> data@[p]@[q] == #[trigger] dot_prefix(
                        self@,
                        rhs@,
                        p,
                        q,
                        common as int,
                    ),
            decreases self.rows - i,
        {
            let mut row: Vec<u32> = Vec::new();
            let mut j: usize = 0;
            while j < rhs.cols
                invariant
                    self.wf(),
                    rhs.wf(),
                    common == self.cols,
                    self.cols == rhs.rows,
                    i < self.rows,
                    j <= rhs.cols,
                    row@.len() == j,
                    forall|q: int|
                        0 <= q < j ==> row@[q] == dot_prefix(
                            self@,
                            rhs@,
                            i as int,
                            q,
                            common as int,
                        ),
                decreases rhs.cols - j,
            {
                let mut acc: u32 = F32_ZERO_BITS;
                let mut k: usize = 0;
                while k < common
                    invariant
                        self.wf(),
                        rhs.wf(),
                        common == self.cols,
                        self.cols == rhs.rows,
                        i < self.rows,
                        j < rhs.cols,
                        k <= common,
                        acc == dot_prefix(self@, rhs@, i as int, j as int, k as int),
                    decreases common - k,
                {
                    assert(self.data@[i as int]@ == self@[i as int]);
                    assert(rhs.data@[k as int]@ == rhs@[k as int]);
                    let p = f32_mul(self.data[i][k], rhs.data[k][j]);
                    acc = f32_add(acc, p);
                    k = k + 1;
                }
                row.push(acc);
                j = j + 1;
            }
            data.push(row);
            i = i + 1;
        }
        let r = Mat { rows: self.rows, cols: rhs.cols, data };
        assert(r@ =~~= mul_grid(self@, rhs@, self.rows as int, self.cols as int, rhs.cols as int));
        r
    }

    /// Compound addition: compute `self + rhs`, then replace `self` with the
    /// result.
    pub fn add_assign(&mut self, rhs: &Mat)
        requires
            old(self).wf(),
            rhs.wf(),
            old(self).rows == rhs.rows,
            old(self).cols == rhs.cols,
        ensures
            final(self).wf(),
            final(self).rows == old(self).rows,
            final(self).cols == old(self).cols,
            final(self)@ == add_grid(old(self)@, rhs@),
    {
        let r = self.add(rhs);
        *self = r;
    }

    /// Compound subtraction: compute `self - rhs`, then replace `self` with
    /// the result.
    pub fn sub_assign(&mut self, rhs: &Mat)
        requires
            old(self).wf(),
            rhs.wf(),
            old(self).rows == rhs.rows,
            old(self).cols == rhs.cols,
        ensures
            final(self).wf(),
            final(self).rows == old(self).rows,
            final(self).cols == old(self).cols,
            final(self)@ == sub_grid(old(self)@, rhs@),
    {
        let r = self.sub(rhs);
        *self = r;
    }

    /// Compound scalar multiplication: compute `self * s`, then replace
    /// `self` with the result.
    pub fn scale_assign(&mut self, s: u32)
        requires
            old(self).wf(),
        ensures
            final(self).wf(),
            final(self).rows == old(self).rows,
            final(self).cols == old(self).cols,
            final(self)@ == scale_grid(old(self)@, s),
    {
        let r = self.scale(s);
        *self = r;
    }

    /// Compound scalar division: compute `self / s`, then replace `self`
    /// with the result.
    pub fn div_assign(&mut self, s: u32)
        requires
            old(self).wf(),
        ensures
            final(self).wf(),
            final(self).rows == old(self).rows,
            final(self).cols == old(self).cols,
            final(self)@ == scale_grid(old(self)@, f32_div_bits(F32_ONE_BITS, s)),
    {
        let r = self.div(s);
        *self = r;
    }
}

/// Transposing twice gives back the original grid.
pub proof fn lemma_transpose_involution(m: Seq<Seq<u32>>, rows: int, cols: int)
    requires
        rows >= 1,
        cols >= 1,
        grid_wf(m, rows, cols),
    ensures
        transpose_grid(transpose_grid(m, rows, cols), cols, rows) == m,
{
    let t = transpose_grid(transpose_grid(m, rows, cols), cols, rows);
    assert forall|i: int| 0 <= i < rows implies #[trigger] t[i] == m[i] by {
        assert(t[i] =~= m[i]);
    }
    assert(t =~= m);
}

} // verus!
