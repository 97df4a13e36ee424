//! Doolittle LU decomposition without pivoting, the determinant built on it,
//! and the cofactor-based minor / adjugate / inverse.
//!
//! The decomposition is specified as a fold over the cells in row-major
//! order: `lu_partial(m, dim, i, j)` is the pair (L, U) after processing
//! every cell of the rows before `i` and the first `j` cells of row `i`.
//! No pivot is ever selected: when a diagonal cell of U is exactly zero, the
//! divisions that use it yield infinities or NaN, silently, exactly as
//! IEEE-754 division does. That is a documented limitation, not an error.

use vstd::prelude::*;
use crate::scalar::{
    F32_ZERO_BITS, F32_NEG_ZERO_BITS, F32_ONE_BITS, F32_NEG_ONE_BITS, f32_sub_bits, f32_mul_bits,
    f32_div_bits, f32_is_nan_bits, f32_is_zero_bits, f32_mul, f32_sub, f32_div,
    lemma_zero_one_finite,
};
use crate::matrix::{Mat, grid_wf, zero_grid, scalar_grid, scale_grid};

verus! {

/// `m[i][j]` minus the first `k` products `l[i][t] * u[t][j]`, subtracted
/// left to right: the running sum of the Doolittle cell update.
pub open spec fn lu_cell_sum(
    m: Seq<Seq<u32>>,
    l: Seq<Seq<u32>>,
    u: Seq<Seq<u32>>,
    i: int,
    j: int,
    k: int,
) -> u32
    decreases k,
{
    if k <= 0 {
        m[i][j]
    } else {
        f32_sub_bits(lu_cell_sum(m, l, u, i, j, k - 1), f32_mul_bits(l[i][k - 1], u[k - 1][j]))
    }
}

/// One Doolittle cell update at `(i, j)`: the running sum over
/// `min(i, j)` products is written to `U` on or above the diagonal, and
/// divided by the pivot `u[j][j]` and written to `L` below it.
pub open spec fn lu_cell_step(
    m: Seq<Seq<u32>>,
    l: Seq<Seq<u32>>,
    u: Seq<Seq<u32>>,
    i: int,
    j: int,
) -> (Seq<Seq<u32>>, Seq<Seq<u32>>) {
    let s = lu_cell_sum(m, l, u, i, j, if i < j { i } else { j });
    if i <= j {
        (l, u.update(i, u[i].update(j, s)))
    } else {
        (l.update(i, l[i].update(j, f32_div_bits(s, u[j][j]))), u)
    }
}

/// The pair (L, U) after processing every cell of the rows before `i` and
/// the first `j` cells of row `i`, in row-major order, starting from the
/// identity seed for L and the zero seed for U.
pub open spec fn lu_partial(m: Seq<Seq<u32>>, dim: int, i: int, j: int) -> (
    Seq<Seq<u32>>,
    Seq<Seq<u32>>,
)
    decreases i, j,
{
    if i <= 0 && j <= 0 {
        (scalar_grid(dim, F32_ONE_BITS), zero_grid(dim, dim))
    } else if j <= 0 {
        lu_partial(m, dim, i - 1, dim)
    } else {
        let prev = lu_partial(m, dim, i, j - 1);
        lu_cell_step(m, prev.0, prev.1, i, j - 1)
    }
}

/// The pair (L, U) the decomposition of a `dim` x `dim` grid produces.
pub open spec fn lu_grids(m: Seq<Seq<u32>>, dim: int) -> (Seq<Seq<u32>>, Seq<Seq<u32>>) {
    lu_partial(m, dim, dim, 0)
}

/// Shape and triangularity of the partial decomposition state: both grids
/// stay `dim` x `dim`; L keeps ones on its diagonal and zeros above it; U
/// keeps zeros below its diagonal; and every cell not yet processed still
/// holds its seed value.
pub proof fn lemma_lu_partial_shape(m: Seq<Seq<u32>>, dim: int, i: int, j: int)
    requires
        dim >= 1,
        0 <= i <= dim,
        0 <= j <= dim,
        i == dim ==> j == 0,
    ensures
        ({
            let l = lu_partial(m, dim, i, j).0;
            let u = lu_partial(m, dim, i, j).1;
            &&& grid_wf(l, dim, dim)
            &&& grid_wf(u, dim, dim)
            &&& forall|p: int| 0 <= p < dim ==> #[trigger] l[p][p] == F32_ONE_BITS
            &&& forall|p: int, q: int|
                0 <= p < dim && 0 <= q < dim && p < q ==> #[trigger] l[p][q] == F32_ZERO_BITS
            &&& forall|p: int, q: int|
                0 <= p < dim && 0 <= q < dim && p > q ==> #[trigger] u[p][q] == F32_ZERO_BITS
            &&& forall|p: int, q: int|
                0 <= p < dim && 0 <= q < dim && (p > i || (p == i && q >= j)) && p > q
                    ==> #[trigger] l[p][q] == F32_ZERO_BITS
            &&& forall|p: int, q: int|
                0 <= p < dim && 0 <= q < dim && (p > i || (p == i && q >= j)) && p <= q
                    ==> #[trigger] u[p][q] == F32_ZERO_BITS
        }),
    decreases i, j,
{
    if i <= 0 && j <= 0 {
    } else if j <= 0 {
        lemma_lu_partial_shape(m, dim, i - 1, dim);
    } else {
        lemma_lu_partial_shape(m, dim, i, j - 1);
        let prev = lu_partial(m, dim, i, j - 1);
        let cur = lu_partial(m, dim, i, j);
        assert(cur == lu_cell_step(m, prev.0, prev.1, i, j - 1));
    }
}

/// The product of the first `k` diagonal cells, accumulated left to right
/// from `1.0`.
pub open spec fn diag_prod(m: Seq<Seq<u32>>, k: int) -> u32
    decreases k,
{
    if k <= 0 {
        F32_ONE_BITS
    } else {
        f32_mul_bits(diag_prod(m, k - 1), m[k - 1][k - 1])
    }
}

/// The determinant: the closed 2 x 2 form for `dim == 2`, and the product
/// of both diagonal products of the LU decomposition otherwise.
pub open spec fn det_bits(m: Seq<Seq<u32>>, dim: int) -> u32 {
    if dim == 2 {
        f32_sub_bits(f32_mul_bits(m[0][0], m[1][1]), f32_mul_bits(m[0][1], m[1][0]))
    } else {
        f32_mul_bits(
            diag_prod(lu_grids(m, dim).0, dim),
            diag_prod(lu_grids(m, dim).1, dim),
        )
    }
}

/// The `(dim - 1)` x `(dim - 1)` grid left after deleting row `i` and
/// column `j`.
pub open spec fn minor_grid(m: Seq<Seq<u32>>, dim: int, i: int, j: int) -> Seq<Seq<u32>> {
    Seq::new(
        (dim - 1) as nat,
        |p: int|
            Seq::new(
                (dim - 1) as nat,
                |q: int| m[if p < i { p } else { p + 1 }][if q < j { q } else { q + 1 }],
            ),
    )
}

/// The cofactor at `(i, j)`: the determinant of the minor, negated when
/// `i + j` is odd.
pub open spec fn cofactor_bits(m: Seq<Seq<u32>>, dim: int, i: int, j: int) -> u32 {
    let d = det_bits(minor_grid(m, dim, i, j), dim - 1);
    if (i + j) % 2 == 0 {
        d
    } else {
        f32_mul_bits(d, F32_NEG_ONE_BITS)
    }
}

/// The adjugate: the matrix of cofactors, transposed.
pub open spec fn adjugate_grid(m: Seq<Seq<u32>>, dim: int) -> Seq<Seq<u32>> {
    Seq::new(dim as nat, |i: int| Seq::new(dim as nat, |j: int| cofactor_bits(m, dim, j, i)))
}

impl Mat {
    /// Doolittle LU decomposition without pivoting: returns `(L, U)` with L
    /// unit lower-triangular and U upper-triangular, filled cell by cell in
    /// row-major order. A zero pivot on U's diagonal is not detected; the
    /// affected cells become infinities or NaN per IEEE-754 division.
    /// Decomposing the identity returns the identity twice.
    #[verifier::loop_isolation(false)]
    #[verifier::rlimit(60)]
    pub fn lu_decomposition(&self) -> (r: (Mat, Mat))
        requires
            self.wf(),
            self.rows == self.cols,
        ensures
            r.0.wf(),
            r.1.wf(),
            r.0.rows == self.rows && r.0.cols == self.rows,
            r.1.rows == self.rows && r.1.cols == self.rows,
            r.0@ == lu_grids(self@, self.rows as int).0,
            r.1@ == lu_grids(self@, self.rows as int).1,
            self@ == scalar_grid(self.rows as int, F32_ONE_BITS) ==> r.0@ == scalar_grid(
                self.rows as int,
                F32_ONE_BITS,
            ) && r.1@ == scalar_grid(self.rows as int, F32_ONE_BITS),
    {
        let dim = self.rows;
        let ghost m = self@;
        let ghost d = dim as int;
        let ghost ident = scalar_grid(d, F32_ONE_BITS);
        let mut lrows: Vec<Vec<u32>> = Vec::new();
        let mut urows: Vec<Vec<u32>> = Vec::new();
        let mut i: usize = 0;
        while i < dim
            invariant
                i <= dim,
                lrows@.len() == i,
                urows@.len() == i,
                forall|p: int| 0 <= p < i ==> (#[trigger] lrows@[p])@.len() == dim,
                forall|p: int| 0 <= p < i ==> (#[trigger] urows@[p])@.len() == dim,
                forall|p: int|
                    0 <= p < i ==> (#[trigger] lrows@[p])@ == lu_partial(m, d, i as int, 0).0[p],
                forall|p: int|
                    0 <= p < i ==> (#[trigger] urows@[p])@ == lu_partial(m, d, i as int, 0).1[p],
                m == ident ==> forall|p: int, q: int|
                    0 <= p < i && 0 <= q < dim ==> #[trigger] lrows@[p]@[q] == ident[p][q],
                m == ident ==> forall|p: int, q: int|
                    0 <= p < i && 0 <= q < dim ==> #[trigger] urows@[p]@[q] == ident[p][q],
            decreases dim - i,
        {
            let mut lrow: Vec<u32> = Vec::new();
            let mut urow: Vec<u32> = Vec::new();
            let mut j: usize = 0;
            while j < dim
                invariant
                    j <= dim,
                    lrows@.len() == i,
                    urows@.len() == i,
                    lrow@.len() == j,
                    urow@.len() == j,
                    forall|p: int| 0 <= p < i ==> (#[trigger] lrows@[p])@.len() == dim,
                    forall|p: int| 0 <= p < i ==> (#[trigger] urows@[p])@.len() == dim,
                    forall|p: int|
                        0 <= p < i ==> (#[trigger] lrows@[p])@ == lu_partial(
                            m,
                            d,
                            i as int,
                            j as int,
                        ).0[p],
                    forall|p: int|
                        0 <= p < i ==> (#[trigger] urows@[p])@ == lu_partial(
                            m,
                            d,
                            i as int,
                            j as int,
                        ).1[p],
                    forall|q: int|
                        0 <= q < j ==> #[trigger] lrow@[q] == lu_partial(
                            m,
                            d,
                            i as int,
                            j as int,
                        ).0[i as int][q],
                    forall|q: int|
                        0 <= q < j ==> #[trigger] urow@[q] == lu_partial(
                            m,
                            d,
                            i as int,
                            j as int,
                        ).1[i as int][q],
                    m == ident ==> forall|p: int, q: int|
                        0 <= p < i && 0 <= q < dim ==> #[trigger] lrows@[p]@[q] == ident[p][q],
                    m == ident ==> forall|p: int, q: int|
                        0 <= p < i && 0 <= q < dim ==> #[trigger] urows@[p]@[q] == ident[p][q],
                    m == ident ==> forall|q: int|
                        0 <= q < j ==> #[trigger] lrow@[q] == ident[i as int][q],
                    m == ident ==> forall|q: int|
                        0 <= q < j ==> #[trigger] urow@[q] == ident[i as int][q],
                decreases dim - j,
            {
                proof {
                    lemma_lu_partial_shape(m, d, i as int, j as int);
                    lemma_zero_one_finite();
                }
                let ghost gl = lu_partial(m, d, i as int, j as int).0;
                let ghost gu = lu_partial(m, d, i as int, j as int).1;
                let bound = if i < j { i } else { j };
                assert(self.data@[i as int]@ == m[i as int]);
                let mut sum = self.data[i][j];
                let mut k: usize = 0;
                while k < bound
                    invariant
                        k <= bound,
                        sum == lu_cell_sum(m, gl, gu, i as int, j as int, k as int),
                        m == ident ==> sum == ident[i as int][j as int],
                    decreases bound - k,
                {
                    proof {
                        lemma_zero_one_finite();
                    }
                    let lv = lrow[k];
                    let uv = urows[k][j];
                    assert(lv == gl[i as int][k as int]);
                    assert(uv == gu[k as int][j as int]);
                    let p = f32_mul(lv, uv);
                    proof {
                        if m == ident {
                            assert(lv == ident[i as int][k as int]);
                            assert(lv == F32_ZERO_BITS);
                            assert(uv == ident[k as int][j as int]);
                        }
                    }
                    sum = f32_sub(sum, p);
                    k = k + 1;
                }
                assert(sum == lu_cell_sum(m, gl, gu, i as int, j as int, if i < j { i as int } else { j as int }));
                let ghost nextl = lu_partial(m, d, i as int, j as int + 1).0;
                let ghost nextu = lu_partial(m, d, i as int, j as int + 1).1;
                proof {
                    assert((nextl, nextu) == lu_cell_step(m, gl, gu, i as int, j as int));
                }
                if i <= j {
                    urow.push(sum);
                    lrow.push(if j == i { F32_ONE_BITS } else { F32_ZERO_BITS });
                    proof {
                        assert(nextu[i as int] == gu[i as int].update(j as int, sum));
                        assert(nextl == gl);
                        assert(lrow@[j as int] == nextl[i as int][j as int]);
                    }
                } else {
                    let piv = urows[j][j];
                    assert(piv == gu[j as int][j as int]);
                    let lw = f32_div(sum, piv);
                    proof {
                        lemma_zero_one_finite();
                        if m == ident {
                            assert(sum == F32_ZERO_BITS);
                            assert(piv == ident[j as int][j as int]);
                        }
                    }
                    lrow.push(lw);
                    urow.push(F32_ZERO_BITS);
                    proof {
                        assert(nextl[i as int] == gl[i as int].update(
                            j as int,
                            f32_div_bits(sum, gu[j as int][j as int]),
                        ));
                        assert(nextu == gu);
                        assert(urow@[j as int] == nextu[i as int][j as int]);
                    }
                }
                j = j + 1;
            }
            proof {
                lemma_lu_partial_shape(m, d, i as int, d);
                assert(lrow@ =~= lu_partial(m, d, i as int, d).0[i as int]);
                assert(urow@ =~= lu_partial(m, d, i as int, d).1[i as int]);
                assert(lu_partial(m, d, i as int + 1, 0) == lu_partial(m, d, i as int, d));
            }
            lrows.push(lrow);
            urows.push(urow);
            i = i + 1;
        }
        let l = Mat { rows: dim, cols: dim, data: lrows };
        let u = Mat { rows: dim, cols: dim, data: urows };
        proof {
            lemma_lu_partial_shape(m, d, d, 0);
            assert(l@ =~~= lu_grids(m, d).0);
            assert(u@ =~~= lu_grids(m, d).1);
            if m == ident {
                assert(l@ =~~= ident);
                assert(u@ =~~= ident);
            }
        }
        (l, u)
    }

    /// The determinant: the closed form `a·d - b·c` for a 2 x 2 matrix, and
    /// the product of both diagonal products of the LU decomposition for
    /// every other dimension. The determinant of an identity matrix is
    /// exactly `1.0`.
    #[verifier::loop_isolation(false)]
    pub fn det(&self) -> (r: u32)
        requires
            self.wf(),
            self.rows == self.cols,
        ensures
            r == det_bits(self@, self.rows as int),
            self@ == scalar_grid(self.rows as int, F32_ONE_BITS) ==> r == F32_ONE_BITS,
    {
        let ghost m = self@;
        let ghost d = self.rows as int;
        let ghost ident = scalar_grid(d, F32_ONE_BITS);
        proof {
            lemma_zero_one_finite();
        }
        if self.rows == 2 {
            let a = self.entry(0, 0);
            let b = self.entry(0, 1);
            let c = self.entry(1, 0);
            let e = self.entry(1, 1);
            let p1 = f32_mul(a, e);
            let p2 = f32_mul(b, c);
            let r = f32_sub(p1, p2);
            proof {
                if m == ident {
                    assert(a == F32_ONE_BITS && e == F32_ONE_BITS);
                    assert(b == F32_ZERO_BITS && c == F32_ZERO_BITS);
                    assert(p1 == F32_ONE_BITS && p2 == F32_ZERO_BITS);
                }
            }
            r
        } else {
            let (l, u) = self.lu_decomposition();
            let dim = self.rows;
            let mut det_l = F32_ONE_BITS;
            let mut det_u = F32_ONE_BITS;
            let mut i: usize = 0;
            while i < dim
                invariant
                    i <= dim,
                    det_l == diag_prod(l@, i as int),
                    det_u == diag_prod(u@, i as int),
                    m == ident ==> det_l == F32_ONE_BITS && det_u == F32_ONE_BITS,
                decreases dim - i,
            {
                proof {
                    lemma_zero_one_finite();
                }
                let lv = l.entry(i, i);
                let uv = u.entry(i, i);
                proof {
                    if m == ident {
                        assert(lv == F32_ONE_BITS && uv == F32_ONE_BITS);
                    }
                }
                det_l = f32_mul(det_l, lv);
                det_u = f32_mul(det_u, uv);
                i = i + 1;
            }
            f32_mul(det_l, det_u)
        }
    }

    /// The `(dim - 1)` x `(dim - 1)` submatrix formed by deleting row `i`
    /// and column `j`.
    #[verifier::loop_isolation(false)]
    pub fn minor(&self, i: usize, j: usize) -> (r: Mat)
        requires
            self.wf(),
            self.rows == self.cols,
            self.rows >= 2,
            i < self.rows,
            j < self.cols,
        ensures
            r.wf(),
            r.rows == self.rows - 1,
            r.cols == self.cols - 1,
            r@ == minor_grid(self@, self.rows as int, i as int, j as int),
    {
        let dim = self.rows;
        let ghost mg = minor_grid(self@, dim as int, i as int, j as int);
        let mut data: Vec<Vec<u32>> = Vec::new();
        let mut p: usize = 0;
        while p < dim - 1
            invariant
                p <= dim - 1,
                data@.len() == p,
                forall|a: int| 0 <= a < p ==> (#[trigger] data@[a])@.len() == dim - 1,
                forall|a: int, b: int|
                    0 <= a < p && 0 <= b < dim - 1 ==> #[trigger] data@[a]@[b] == mg[a][b],
            decreases dim - 1 - p,
        {
            let sp = if p < i { p } else { p + 1 };
            let mut row: Vec<u32> = Vec::new();
            let mut q: usize = 0;
            while q < dim - 1
                invariant
                    q <= dim - 1,
                    row@.len() == q,
                    forall|b: int| 0 <= b < q ==> #[trigger] row@[b] == mg[p as int][b],
                decreases dim - 1 - q,
            {
                let sq = if q < j { q } else { q + 1 };
                row.push(self.entry(sp, sq));
                q = q + 1;
            }
            data.push(row);
            p = p + 1;
        }
        let r = Mat { rows: dim - 1, cols: dim - 1, data };
        assert(r@ =~~= mg);
        r
    }

    /// The adjugate: cell `(i, j)` is the cofactor at `(j, i)`, the signed
    /// determinant of the minor there.
    #[verifier::loop_isolation(false)]
    pub fn adjugate(&self) -> (r: Mat)
        requires
            self.wf(),
            self.rows == self.cols,
            self.rows >= 2,
        ensures
            r.wf(),
            r.rows == self.rows,
            r.cols == self.cols,
            r@ == adjugate_grid(self@, self.rows as int),
    {
        let dim = self.rows;
        let ghost ag = adjugate_grid(self@, dim as int);
        let mut data: Vec<Vec<u32>> = Vec::new();
        let mut i: usize = 0;
        while i < dim
            invariant
                i <= dim,
                data@.len() == i,
                forall|a: int| 0 <= a < i ==> (#[trigger] data@[a])@.len() == dim,
                forall|a: int, b: int|
                    0 <= a < i && 0 <= b < dim ==> #[trigger] data@[a]@[b] == ag[a][b],
            decreases dim - i,
        {
            let mut row: Vec<u32> = Vec::new();
            let mut j: usize = 0;
            while j < dim
                invariant
                    j <= dim,
                    i < dim,
                    row@.len() == j,
                    forall|b: int| 0 <= b < j ==> #[trigger] row@[b] == ag[i as int][b],
                decreases dim - j,
            {
                let mm = self.minor(j, i);
                let dv = mm.det();
                let c = if i % 2 == j % 2 {
                    dv
                } else {
                    f32_mul(dv, F32_NEG_ONE_BITS)
                };
                proof {
                    let x = i as int;
                    let y = j as int;
                    assert((y + x) % 2 == 0 <==> y % 2 == x % 2);
                    assert(c == cofactor_bits(self@, dim as int, y, x));
                }
                row.push(c);
                j = j + 1;
            }
            data.push(row);
            i = i + 1;
        }
        let r = Mat { rows: dim, cols: dim, data };
        assert(r@ =~~= ag);
        r
    }

    /// The inverse, `adjugate() / det()`, when the determinant is not zero;
    /// a singular-matrix error when it is. A NaN determinant compares
    /// unequal to zero, so it proceeds into the division, as IEEE-754
    /// comparison dictates.
    pub fn invertible(&self) -> (r: Result<Mat, String>)
        requires
            self.wf(),
            self.rows == self.cols,
            self.rows >= 2,
        ensures
            r is Err <==> f32_is_zero_bits(det_bits(self@, self.rows as int)),
            r matches Ok(inv) ==> inv.wf() && inv.rows == self.rows && inv.cols == self.cols
                && inv@ == scale_grid(
                adjugate_grid(self@, self.rows as int),
                f32_div_bits(F32_ONE_BITS, det_bits(self@, self.rows as int)),
            ),
    {
        let dv = self.det();
        if dv == F32_ZERO_BITS || dv == F32_NEG_ZERO_BITS {
            Err("singular matrix".to_owned())
        } else {
            let adj = self.adjugate();
            Ok(adj.div(dv))
        }
    }
}

} // verus!
