//! Dense fixed-point matrices.
//!
//! A matrix owns a rectangular `Vec<Vec<i64>>` of fixed-point entries; its
//! mathematical model is a `Seq<Seq<int>>`. Sums, products and transposes
//! are specified entry-wise over that model with the rounding of
//! [`crate::fx`]; an operation returns `None` exactly when some entry of
//! the modelled result falls outside the storage range.

use vstd::prelude::*;

verus! {

use crate::fx::{SCALE, TERM_BOUND, fmul, fmul_wide, in_i64, iabs, lemma_div_tz_abs,
    lemma_mul_bound, lemma_fmul_one, lemma_fmul_zero};
use vstd::arithmetic::div_mod::lemma_div_is_ordered;

/// Largest supported number of rows or columns.
pub const MAX_DIM: usize = 16;

// ----- the mathematical model -----

/// The model is an `r` by `c` matrix.
pub open spec fn is_mat(m: Seq<Seq<int>>, r: nat, c: nat) -> bool {
    &&& m.len() == r
    &&& forall|i: int| 0 <= i < r ==> (#[trigger] m[i]).len() == c
}

/// Every entry fits the storage type.
pub open spec fn mat_fits(m: Seq<Seq<int>>) -> bool {
    forall|i: int, j: int|
        0 <= i < m.len() && 0 <= j < m[i].len() ==> in_i64(#[trigger] m[i][j])
}

/// Column `j` of the model.
pub open spec fn col(m: Seq<Seq<int>>, j: int) -> Seq<int> {
    Seq::new(m.len(), |k: int| m[k][j])
}

/// Fixed-point dot product of the first `k` entries.
pub open spec fn dot(a: Seq<int>, b: Seq<int>, k: nat) -> int
    decreases k,
{
    if k == 0 {
        0
    } else {
        dot(a, b, (k - 1) as nat) + fmul(a[k - 1], b[k - 1])
    }
}

/// Entry-wise sum.
pub open spec fn mat_add(a: Seq<Seq<int>>, b: Seq<Seq<int>>) -> Seq<Seq<int>> {
    Seq::new(a.len(), |i: int| Seq::new(a[i].len(), |j: int| a[i][j] + b[i][j]))
}

/// Entry-wise difference.
pub open spec fn mat_sub(a: Seq<Seq<int>>, b: Seq<Seq<int>>) -> Seq<Seq<int>> {
    Seq::new(a.len(), |i: int| Seq::new(a[i].len(), |j: int| a[i][j] - b[i][j]))
}

/// Matrix product with fixed-point rounding in each entry.
pub open spec fn mat_mul(a: Seq<Seq<int>>, b: Seq<Seq<int>>) -> Seq<Seq<int>> {
    Seq::new(
        a.len(),
        |i: int|
            Seq::new(
                if b.len() == 0 {
                    0
                } else {
                    b[0].len()
                },
                |j: int| dot(a[i], col(b, j), b.len()),
            ),
    )
}

/// Transpose of the model.
pub open spec fn mat_transpose(m: Seq<Seq<int>>) -> Seq<Seq<int>> {
    Seq::new(
        if m.len() == 0 {
            0
        } else {
            m[0].len()
        },
        |i: int| Seq::new(m.len(), |j: int| m[j][i]),
    )
}

/// Square matrix with `v` on the diagonal and zeroes elsewhere.
pub open spec fn mat_diag(n: nat, v: int) -> Seq<Seq<int>> {
    Seq::new(n, |i: int| Seq::new(n, |j: int| if i == j { v } else { 0 }))
}

/// The fixed-point identity: 1.0 on the diagonal.
pub open spec fn mat_identity(n: nat) -> Seq<Seq<int>> {
    mat_diag(n, SCALE as int)
}

/// The all-zero matrix.
pub open spec fn mat_zero(r: nat, c: nat) -> Seq<Seq<int>> {
    Seq::new(r, |i: int| Seq::new(c, |j: int| 0))
}

/// Symmetric: each entry equals its mirror across the diagonal.
pub open spec fn mat_symmetric(m: Seq<Seq<int>>) -> bool {
    forall|i: int, j: int|
        0 <= i < m.len() && 0 <= j < m.len() ==> #[trigger] m[i][j] == m[j][i]
}

/// Diagonal: every off-diagonal entry is zero.
pub open spec fn mat_is_diagonal(m: Seq<Seq<int>>) -> bool {
    forall|i: int, j: int|
        0 <= i < m.len() && 0 <= j < m[i].len() && i != j ==> #[trigger] m[i][j] == 0
}

/// Every diagonal entry is at least `v`.
pub open spec fn mat_diag_at_least(m: Seq<Seq<int>>, v: int) -> bool {
    forall|i: int| 0 <= i < m.len() ==> #[trigger] m[i][i] >= v
}

/// A square matrix with constant diagonal `v` is symmetric and diagonal,
/// and its diagonal entries are `v`. For `v > 0` that makes it
/// positive-definite, for `v >= 0` positive-semi-definite.
pub proof fn lemma_diag_props(n: nat, v: int)
    ensures
        mat_symmetric(mat_diag(n, v)),
        mat_is_diagonal(mat_diag(n, v)),
        mat_diag_at_least(mat_diag(n, v), v),
{
}

/// Sum of the first `k` diagonal entries.
pub open spec fn mat_trace(m: Seq<Seq<int>>, k: nat) -> int
    decreases k,
{
    if k == 0 {
        0
    } else {
        mat_trace(m, (k - 1) as nat) + m[k - 1][k - 1]
    }
}

/// Model of a vector of storage rows.
pub open spec fn view_of(rs: Seq<Vec<i64>>) -> Seq<Seq<int>> {
    Seq::new(rs.len(), |i: int| Seq::new(rs[i]@.len(), |j: int| rs[i]@[j] as int))
}

/// Rows form a non-empty rectangle within the supported dimensions.
pub open spec fn rows_shape_ok(rs: Seq<Vec<i64>>) -> bool {
    &&& 1 <= rs.len() <= MAX_DIM
    &&& 1 <= rs[0]@.len() <= MAX_DIM
    &&& forall|i: int| 0 <= i < rs.len() ==> (#[trigger] rs[i])@.len() == rs[0]@.len()
}

// ----- bounds for the running dot product -----

/// A dot product of `k` storage-range entries is bounded by `k` terms.
proof fn lemma_dot_bound(a: Seq<int>, b: Seq<int>, k: nat)
    requires
        forall|t: int| 0 <= t < k ==> in_i64(#[trigger] a[t]),
        forall|t: int| 0 <= t < k ==> in_i64(#[trigger] b[t]),
    ensures
        iabs(dot(a, b, k)) <= k * (TERM_BOUND as int),
    decreases k,
{
    if k > 0 {
        lemma_dot_bound(a, b, (k - 1) as nat);
        lemma_mul_bound(a[k - 1], b[k - 1], 0x8000_0000_0000_0000, 0x8000_0000_0000_0000);
        lemma_div_tz_abs(a[k - 1] * b[k - 1], SCALE as int);
        assert(iabs(a[k - 1] * b[k - 1]) <= 0x8000_0000_0000_0000 * 0x8000_0000_0000_0000);
        lemma_div_is_ordered(
            iabs(a[k - 1] * b[k - 1]),
            0x8000_0000_0000_0000int * 0x8000_0000_0000_0000int,
            SCALE as int,
        );
        assert(iabs(fmul(a[k - 1], b[k - 1])) <= TERM_BOUND as int);
        assert((k - 1) * (TERM_BOUND as int) + TERM_BOUND as int == k * (TERM_BOUND as int))
            by (nonlinear_arith);
    } else {
        assert(k * (TERM_BOUND as int) == 0) by (nonlinear_arith)
            requires k == 0;
    }
}

/// Scaling a bound by a larger factor keeps it a bound.
proof fn lemma_scale_bound(k: int, n: int, b: int)
    by (nonlinear_arith)
    requires
        0 <= k <= n,
        0 <= b,
    ensures
        k * b <= n * b,
{
}

// ----- identity algebra, used by the filter's laws -----

/// Dot product against a row of the identity picks one entry.
proof fn lemma_dot_identity_row(n: nat, i: int, c: Seq<int>, k: nat)
    requires
        0 <= i < n,
        k <= n,
        k <= c.len(),
    ensures
        dot(mat_identity(n)[i], c, k) == if i < k {
            c[i]
        } else {
            0
        },
    decreases k,
{
    if k > 0 {
        lemma_dot_identity_row(n, i, c, (k - 1) as nat);
        if i == k - 1 {
            lemma_fmul_one(c[k - 1]);
        } else {
            lemma_fmul_zero(c[k - 1]);
        }
    }
}

/// Dot product against a column of the identity picks one entry.
proof fn lemma_dot_identity_col(n: nat, j: int, a: Seq<int>, k: nat)
    requires
        0 <= j < n,
        k <= n,
        k <= a.len(),
    ensures
        dot(a, col(mat_identity(n), j), k) == if j < k {
            a[j]
        } else {
            0
        },
    decreases k,
{
    if k > 0 {
        lemma_dot_identity_col(n, j, a, (k - 1) as nat);
        if j == k - 1 {
            lemma_fmul_one(a[k - 1]);
        } else {
            lemma_fmul_zero(a[k - 1]);
        }
    }
}

/// Multiplying by the identity on the left changes nothing.
pub proof fn lemma_mul_identity_left(m: Seq<Seq<int>>, n: nat, c: nat)
    requires
        is_mat(m, n, c),
        n > 0,
    ensures
        mat_mul(mat_identity(n), m) == m,
{
    let p = mat_mul(mat_identity(n), m);
    assert forall|i: int| 0 <= i < n implies p[i] =~= m[i] by {
        assert forall|j: int| 0 <= j < c implies p[i][j] == m[i][j] by {
            lemma_dot_identity_row(n, i, col(m, j), n);
            assert(col(m, j)[i] == m[i][j]);
        }
        assert(p[i].len() == c);
    }
    assert(p =~~= m);
}

/// Multiplying by the identity on the right changes nothing.
pub proof fn lemma_mul_identity_right(m: Seq<Seq<int>>, n: nat, c: nat)
    requires
        is_mat(m, n, c),
        c > 0,
    ensures
        mat_mul(m, mat_identity(c)) == m,
{
    let p = mat_mul(m, mat_identity(c));
    assert forall|i: int| 0 <= i < n implies p[i] =~= m[i] by {
        assert forall|j: int| 0 <= j < c implies p[i][j] == m[i][j] by {
            lemma_dot_identity_col(c, j, m[i], c);
        }
        assert(p[i].len() == c);
    }
    assert(p =~~= m);
}

/// The identity is its own transpose.
pub proof fn lemma_transpose_identity(n: nat)
    requires
        n > 0,
    ensures
        mat_transpose(mat_identity(n)) == mat_identity(n),
{
    assert(mat_transpose(mat_identity(n)) =~~= mat_identity(n));
}

/// Adding the zero matrix changes nothing.
pub proof fn lemma_add_zero(m: Seq<Seq<int>>, r: nat, c: nat)
    requires
        is_mat(m, r, c),
    ensures
        mat_add(m, mat_zero(r, c)) == m,
{
    assert(mat_add(m, mat_zero(r, c)) =~~= m);
}

// ----- the storage type -----

/// A dense matrix of fixed-point entries.
pub struct Mat {
    pub rows: usize,
    pub cols: usize,
    pub e: Vec<Vec<i64>>,
}

impl View for Mat {
    type V = Seq<Seq<int>>;

    open spec fn view(&self) -> Seq<Seq<int>> {
        view_of(self.e@)
    }
}

impl Mat {
    /// The stored rows form the rectangle the header advertises.
    pub open spec fn wf(self) -> bool {
        &&& self.e@.len() == self.rows as int
        &&& forall|i: int|
            0 <= i < self.rows as int ==> (#[trigger] self.e@[i])@.len() == self.cols as int
        &&& 1 <= self.rows <= MAX_DIM
        &&& 1 <= self.cols <= MAX_DIM
    }

    /// A well-formed matrix models a rectangle of storage-range entries.
    pub proof fn lemma_view_props(self)
        requires
            self.wf(),
        ensures
            is_mat(self@, self.rows as nat, self.cols as nat),
            mat_fits(self@),
    {
        assert forall|i: int, j: int|
            0 <= i < self@.len() && 0 <= j < self@[i].len() implies in_i64(#[trigger] self@[i][j]) by {
            assert(self@[i][j] == self.e@[i]@[j] as int);
        }
    }

    /// Reads one entry.
    pub fn get(&self, i: usize, j: usize) -> (v: i64)
        requires
            self.wf(),
            i < self.rows,
            j < self.cols,
        ensures
            v as int == self@[i as int][j as int],
    {
        self.e[i][j]
    }

    /// Builds a matrix from rows, refusing a ragged or oversized shape.
    pub fn from_rows(e: Vec<Vec<i64>>) -> (r: Option<Mat>)
        ensures
            r is Some <==> rows_shape_ok(e@),
            r matches Some(m) ==> {
                &&& m.wf()
                &&& m.rows as int == e@.len()
                &&& m.cols as int == e@[0]@.len()
                &&& m@ == view_of(e@)
            },
    {
        let nr = e.len();
        if nr < 1 || nr > MAX_DIM {
            return None;
        }
        let nc = e[0].len();
        if nc < 1 || nc > MAX_DIM {
            return None;
        }
        let mut i: usize = 1;
        while i < nr
            invariant
                1 <= i <= nr,
                nr == e@.len(),
                nc as int == e@[0]@.len(),
                forall|t: int| 0 <= t < i as int ==> (#[trigger] e@[t])@.len() == nc as int,
            decreases nr - i,
        {
            if e[i].len() != nc {
                return None;
            }
            i += 1;
        }
        Some(Mat { rows: nr, cols: nc, e })
    }

    /// A deep copy with the same model.
    pub fn duplicate(&self) -> (r: Mat)
        requires
            self.wf(),
        ensures
            r.wf(),
            r.rows == self.rows,
            r.cols == self.cols,
            r@ == self@,
    {
        let mut out: Vec<Vec<i64>> = Vec::new();
        let mut i: usize = 0;
        while i < self.rows
            invariant
                self.wf(),
                i <= self.rows,
                out@.len() == i as int,
                forall|t: int| 0 <= t < i as int ==> (#[trigger] out@[t])@ == self.e@[t]@,
            decreases self.rows - i,
        {
            let mut row: Vec<i64> = Vec::new();
            let mut j: usize = 0;
            while j < self.cols
                invariant
                    self.wf(),
                    i < self.rows,
                    j <= self.cols,
                    row@.len() == j as int,
                    forall|t: int| 0 <= t < j as int ==> row@[t] == self.e@[i as int]@[t],
                decreases self.cols - j,
            {
                row.push(self.e[i][j]);
                j += 1;
            }
            proof {
                assert(row@ =~= self.e@[i as int]@);
            }
            out.push(row);
            i += 1;
        }
        let r = Mat { rows: self.rows, cols: self.cols, e: out };
        proof {
            assert(r@ =~~= self@);
        }
        r
    }

    /// Entry-wise sum; `None` exactly when some summed entry overflows.
    pub fn add(&self, other: &Mat) -> (r: Option<Mat>)
        requires
            self.wf(),
            other.wf(),
            self.rows == other.rows,
            self.cols == other.cols,
        ensures
            r is Some <==> mat_fits(mat_add(self@, other@)),
            r matches Some(m) ==> {
                &&& m.wf()
                &&& m.rows == self.rows
                &&& m.cols == self.cols
                &&& m@ == mat_add(self@, other@)
            },
    {
        let ghost goal = mat_add(self@, other@);
        let mut out: Vec<Vec<i64>> = Vec::new();
        let mut i: usize = 0;
        while i < self.rows
            invariant
                self.wf(),
                other.wf(),
                self.rows == other.rows,
                self.cols == other.cols,
                goal == mat_add(self@, other@),
                i <= self.rows,
                out@.len() == i as int,
                forall|t: int| 0 <= t < i as int ==> (#[trigger] out@[t])@.len() == self.cols as int,
                forall|t: int, u: int|
                    0 <= t < i as int && 0 <= u < self.cols as int
                        ==> (#[trigger] out@[t]@[u]) as int == goal[t][u],
            decreases self.rows - i,
        {
            let mut row: Vec<i64> = Vec::new();
            let mut j: usize = 0;
            while j < self.cols
                invariant
                    self.wf(),
                    other.wf(),
                    self.rows == other.rows,
                    self.cols == other.cols,
                    goal == mat_add(self@, other@),
                    i < self.rows,
                    j <= self.cols,
                    row@.len() == j as int,
                    forall|u: int|
                        0 <= u < j as int ==> (#[trigger] row@[u]) as int == goal[i as int][u],
                decreases self.cols - j,
            {
                let s = self.e[i][j].checked_add(other.e[i][j]);
                match s {
                    Some(v) => {
                        proof {
                            assert(goal[i as int][j as int] == self@[i as int][j as int]
                                + other@[i as int][j as int]);
                        }
                        row.push(v);
                    },
                    None => {
                        proof {
                            assert(goal[i as int][j as int] == self@[i as int][j as int]
                                + other@[i as int][j as int]);
                            assert(!in_i64(goal[i as int][j as int]));
                            assert(!mat_fits(goal));
                        }
                        return None;
                    },
                }
                j += 1;
            }
            out.push(row);
            i += 1;
        }
        let m = Mat { rows: self.rows, cols: self.cols, e: out };
        proof {
            assert(m@ =~~= goal);
            m.lemma_view_props();
        }
        Some(m)
    }

    /// Entry-wise difference; `None` exactly when some entry overflows.
    pub fn sub(&self, other: &Mat) -> (r: Option<Mat>)
        requires
            self.wf(),
            other.wf(),
            self.rows == other.rows,
            self.cols == other.cols,
        ensures
            r is Some <==> mat_fits(mat_sub(self@, other@)),
            r matches Some(m) ==> {
                &&& m.wf()
                &&& m.rows == self.rows
                &&& m.cols == self.cols
                &&& m@ == mat_sub(self@, other@)
            },
    {
        let ghost goal = mat_sub(self@, other@);
        let mut out: Vec<Vec<i64>> = Vec::new();
        let mut i: usize = 0;
        while i < self.rows
            invariant
                self.wf(),
                other.wf(),
                self.rows == other.rows,
                self.cols == other.cols,
                goal == mat_sub(self@, other@),
                i <= self.rows,
                out@.len() == i as int,
                forall|t: int| 0 <= t < i as int ==> (#[trigger] out@[t])@.len() == self.cols as int,
                forall|t: int, u: int|
                    0 <= t < i as int && 0 <= u < self.cols as int
                        ==> (#[trigger] out@[t]@[u]) as int == goal[t][u],
            decreases self.rows - i,
        {
            let mut row: Vec<i64> = Vec::new();
            let mut j: usize = 0;
            while j < self.cols
                invariant
                    self.wf(),
                    other.wf(),
                    self.rows == other.rows,
                    self.cols == other.cols,
                    goal == mat_sub(self@, other@),
                    i < self.rows,
                    j <= self.cols,
                    row@.len() == j as int,
                    forall|u: int|
                        0 <= u < j as int ==> (#[trigger] row@[u]) as int == goal[i as int][u],
                decreases self.cols - j,
            {
                let s = self.e[i][j].checked_sub(other.e[i][j]);
                match s {
                    Some(v) => {
                        proof {
                            assert(goal[i as int][j as int] == self@[i as int][j as int]
                                - other@[i as int][j as int]);
                        }
                        row.push(v);
                    },
                    None => {
                        proof {
                            assert(goal[i as int][j as int] == self@[i as int][j as int]
                                - other@[i as int][j as int]);
                            assert(!in_i64(goal[i as int][j as int]));
                            assert(!mat_fits(goal));
                        }
                        return None;
                    },
                }
                j += 1;
            }
            out.push(row);
            i += 1;
        }
        let m = Mat { rows: self.rows, cols: self.cols, e: out };
        proof {
            assert(m@ =~~= goal);
            m.lemma_view_props();
        }
        Some(m)
    }

    /// Matrix product; `None` exactly when some entry of the rounded
    /// product falls outside the storage range.
    pub fn mul(&self, other: &Mat) -> (r: Option<Mat>)
        requires
            self.wf(),
            other.wf(),
            self.cols == other.rows,
        ensures
            r is Some <==> mat_fits(mat_mul(self@, other@)),
            r matches Some(m) ==> {
                &&& m.wf()
                &&& m.rows == self.rows
                &&& m.cols == other.cols
                &&& m@ == mat_mul(self@, other@)
            },
    {
        let ghost goal = mat_mul(self@, other@);
        proof {
            assert(goal.len() == self.rows as int);
            assert(other@[0].len() == other.cols as int);
        }
        let mut out: Vec<Vec<i64>> = Vec::new();
        let mut i: usize = 0;
        while i < self.rows
            invariant
                self.wf(),
                other.wf(),
                self.cols == other.rows,
                goal == mat_mul(self@, other@),
                i <= self.rows,
                out@.len() == i as int,
                forall|t: int| 0 <= t < i as int ==> (#[trigger] out@[t])@.len() == other.cols as int,
                forall|t: int, u: int|
                    0 <= t < i as int && 0 <= u < other.cols as int
                        ==> (#[trigger] out@[t]@[u]) as int == goal[t][u],
            decreases self.rows - i,
        {
            let mut row: Vec<i64> = Vec::new();
            let mut j: usize = 0;
            while j < other.cols
                invariant
                    self.wf(),
                    other.wf(),
                    self.cols == other.rows,
                    goal == mat_mul(self@, other@),
                    i < self.rows,
                    j <= other.cols,
                    row@.len() == j as int,
                    forall|u: int|
                        0 <= u < j as int ==> (#[trigger] row@[u]) as int == goal[i as int][u],
                decreases other.cols - j,
            {
                let ghost arow = self@[i as int];
                let ghost bcol = col(other@, j as int);
                let mut acc: i128 = 0;
                let mut k: usize = 0;
                while k < self.cols
                    invariant
                        self.wf(),
                        other.wf(),
                        self.cols == other.rows,
                        i < self.rows,
                        j < other.cols,
                        k <= self.cols,
                        arow == self@[i as int],
                        bcol == col(other@, j as int),
                        acc as int == dot(arow, bcol, k as nat),
                        iabs(acc as int) <= (k as int) * (TERM_BOUND as int),
                    decreases self.cols - k,
                {
                    proof {
                        assert(arow[k as int] == self.e@[i as int]@[k as int] as int);
                        assert(bcol[k as int] == other@[k as int][j as int]);
                        assert(bcol[k as int] == other.e@[k as int]@[j as int] as int);
                    }
                    let f: i128 = fmul_wide(self.e[i][k], other.e[k][j]);
                    proof {
                        assert(f as int == fmul(arow[k as int], bcol[k as int]));
                        lemma_scale_bound(k as int, MAX_DIM as int, TERM_BOUND as int);
                    }
                    acc = acc + f;
                    k += 1;
                    proof {
                        lemma_scale_bound(k as int, MAX_DIM as int, TERM_BOUND as int);
                        assert((k as int - 1) * (TERM_BOUND as int) + TERM_BOUND as int
                            == (k as int) * (TERM_BOUND as int)) by (nonlinear_arith);
                    }
                }
                proof {
                    assert(goal[i as int][j as int] == dot(arow, bcol, other@.len() as nat));
                    assert(acc as int == goal[i as int][j as int]);
                }
                if acc < i64::MIN as i128 || acc > i64::MAX as i128 {
                    proof {
                        assert(!in_i64(goal[i as int][j as int]));
                        assert(!mat_fits(goal));
                    }
                    return None;
                }
                row.push(acc as i64);
                j += 1;
            }
            out.push(row);
            i += 1;
        }
        let m = Mat { rows: self.rows, cols: other.cols, e: out };
        proof {
            assert(m@ =~~= goal);
            m.lemma_view_props();
        }
        Some(m)
    }

    /// Transpose; never fails.
    pub fn transpose(&self) -> (r: Mat)
        requires
            self.wf(),
        ensures
            r.wf(),
            r.rows == self.cols,
            r.cols == self.rows,
            r@ == mat_transpose(self@),
    {
        let ghost goal = mat_transpose(self@);
        let mut out: Vec<Vec<i64>> = Vec::new();
        let mut i: usize = 0;
        while i < self.cols
            invariant
                self.wf(),
                goal == mat_transpose(self@),
                i <= self.cols,
                out@.len() == i as int,
                forall|t: int| 0 <= t < i as int ==> (#[trigger] out@[t])@.len() == self.rows as int,
                forall|t: int, u: int|
                    0 <= t < i as int && 0 <= u < self.rows as int
                        ==> (#[trigger] out@[t]@[u]) as int == goal[t][u],
            decreases self.cols - i,
        {
            let mut row: Vec<i64> = Vec::new();
            let mut j: usize = 0;
            while j < self.rows
                invariant
                    self.wf(),
                    goal == mat_transpose(self@),
                    i < self.cols,
                    j <= self.rows,
                    row@.len() == j as int,
                    forall|u: int|
                        0 <= u < j as int ==> (#[trigger] row@[u]) as int == goal[i as int][u],
                decreases self.rows - j,
            {
                row.push(self.e[j][i]);
                j += 1;
            }
            out.push(row);
            i += 1;
        }
        let r = Mat { rows: self.cols, cols: self.rows, e: out };
        proof {
            assert(r@ =~~= goal);
        }
        r
    }

    /// Square matrix with `v` on the diagonal.
    pub fn diagonal(n: usize, v: i64) -> (r: Mat)
        requires
            1 <= n <= MAX_DIM,
        ensures
            r.wf(),
            r.rows == n,
            r.cols == n,
            r@ == mat_diag(n as nat, v as int),
    {
        let ghost goal = mat_diag(n as nat, v as int);
        let mut out: Vec<Vec<i64>> = Vec::new();
        let mut i: usize = 0;
        while i < n
            invariant
                goal == mat_diag(n as nat, v as int),
                i <= n,
                out@.len() == i as int,
                forall|t: int| 0 <= t < i as int ==> (#[trigger] out@[t])@.len() == n as int,
                forall|t: int, u: int|
                    0 <= t < i as int && 0 <= u < n as int
                        ==> (#[trigger] out@[t]@[u]) as int == goal[t][u],
            decreases n - i,
        {
            let mut row: Vec<i64> = Vec::new();
            let mut j: usize = 0;
            while j < n
                invariant
                    goal == mat_diag(n as nat, v as int),
                    i < n,
                    j <= n,
                    row@.len() == j as int,
                    forall|u: int|
                        0 <= u < j as int ==> (#[trigger] row@[u]) as int == goal[i as int][u],
                decreases n - j,
            {
                if i == j {
                    row.push(v);
                } else {
                    row.push(0);
                }
                j += 1;
            }
            out.push(row);
            i += 1;
        }
        let r = Mat { rows: n, cols: n, e: out };
        proof {
            assert(r@ =~~= goal);
        }
        r
    }

    /// The fixed-point identity matrix.
    pub fn identity(n: usize) -> (r: Mat)
        requires
            1 <= n <= MAX_DIM,
        ensures
            r.wf(),
            r.rows == n,
            r.cols == n,
            r@ == mat_identity(n as nat),
    {
        Mat::diagonal(n, SCALE)
    }
}

} // verus!
