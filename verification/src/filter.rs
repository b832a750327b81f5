//! The linear state estimator: configuration, belief state, and the
//! discrete predict/update recursion over fixed-point matrices.
//!
//! `predict` advances the belief by the transition model,
//! `mean' = F*mean`, `cov' = F*cov*F^T + Q`; `update` folds in one
//! measurement through the innovation, its covariance
//! `S = H*(cov*H^T) + R`, the gain `K = (cov*H^T)*S^-1`, and the corrected
//! pair `mean'' = mean + K*(z - H*mean)`, `cov'' = (I - K*H)*cov`. Every
//! operation carries the fixed-point rounding of [`crate::fx`], which the
//! specification states entry for entry; an operation fails with
//! [`FilterError::ArithmeticOverflow`] exactly when an entry of the
//! modelled result leaves the storage range, and `update` fails with
//! [`FilterError::SingularInnovationCovariance`] exactly when the
//! determinant of `S` is zero.
//!
//! On the covariance invariant: in exact arithmetic this recursion keeps
//! the covariance symmetric positive-semi-definite. Under truncating
//! fixed-point rounding each rescaling may move an entry by one raw unit
//! toward zero, and the two entries mirrored across the diagonal round
//! independently — so exact symmetry and semi-definiteness do not hold of
//! the stored matrix, and no contract claims them. What the library
//! states instead: every entry of each result is fixed exactly by the
//! contracts; in the one-dimensional case the variance provably stays
//! non-negative through prediction ([`lemma_predict_keeps_nonneg`]) and
//! shrinks through the update ([`lemma_update_shrinks_uncertainty`]); and
//! a covariance driven outside the model's domain is never papered over —
//! a singular innovation covariance is reported exactly, and the
//! estimation loop stops on it.

use vstd::prelude::*;

verus! {

use crate::fx::{
    SCALE, fmul, fdiv, fx_div, fmul_wide, in_i64, iabs, div_tz, lemma_div_tz_abs,
    lemma_div_tz_exact, lemma_div_tz_ordered, lemma_div_tz_mul_bounds, lemma_iabs_mul,
    lemma_fmul_one,
};
use crate::matrix::{
    Mat, mat_mul, mat_add, mat_sub, mat_transpose, mat_identity, mat_zero, mat_fits, mat_trace,
    dot, lemma_mul_identity_left, lemma_mul_identity_right, lemma_transpose_identity,
    lemma_add_zero,
};

/// A configuration is rejected before any estimation starts.
#[derive(Clone, Copy, PartialEq, Eq, Structural, Debug)]
pub enum ConfigError {
    /// The filter matrices do not agree on their dimensions.
    MismatchedDimensions,
    /// A noise magnitude was negative.
    NegativeNoise,
}

/// A failure of one predict or update step; both are fatal to the run.
#[derive(Clone, Copy, PartialEq, Eq, Structural, Debug)]
pub enum FilterError {
    /// The innovation covariance has determinant zero.
    SingularInnovationCovariance,
    /// An entry of an intermediate result left the storage range.
    ArithmeticOverflow,
}

/// The immutable filter model: transition, observation and noise matrices
/// together with the initial belief.
pub struct FilterConfig {
    /// State transition matrix, `n` by `n`.
    pub f: Mat,
    /// Process noise covariance, `n` by `n`.
    pub q: Mat,
    /// Observation matrix, `m` by `n`.
    pub h: Mat,
    /// Measurement noise covariance, `m` by `m`.
    pub r: Mat,
    /// Initial mean, `n` by 1.
    pub x0: Mat,
    /// Initial covariance, `n` by `n`.
    pub p0: Mat,
}

/// The mutable belief: current mean and covariance.
pub struct FilterState {
    /// Current best estimate of the latent state, `n` by 1.
    pub mean: Mat,
    /// Current estimate uncertainty, `n` by `n`.
    pub cov: Mat,
}

impl FilterConfig {
    /// Number of state dimensions.
    pub open spec fn n_dim(self) -> nat {
        self.f.rows as nat
    }

    /// Number of observed dimensions.
    pub open spec fn m_dim(self) -> nat {
        self.h.rows as nat
    }

    /// All matrices are rectangles of consistent dimensions, with at most
    /// two observed dimensions (the supported closed-form inversions).
    pub open spec fn wf(self) -> bool {
        &&& self.f.wf()
        &&& self.q.wf()
        &&& self.h.wf()
        &&& self.r.wf()
        &&& self.x0.wf()
        &&& self.p0.wf()
        &&& self.f.cols == self.f.rows
        &&& self.q.rows == self.f.rows
        &&& self.q.cols == self.f.rows
        &&& self.h.cols == self.f.rows
        &&& self.h.rows <= 2
        &&& self.r.rows == self.h.rows
        &&& self.r.cols == self.h.rows
        &&& self.x0.rows == self.f.rows
        &&& self.x0.cols == 1
        &&& self.p0.rows == self.f.rows
        &&& self.p0.cols == self.f.rows
    }

    /// Validates the dimensions once, before the first tick.
    pub fn new(f: Mat, q: Mat, h: Mat, r: Mat, x0: Mat, p0: Mat) -> (res: Result<
        FilterConfig,
        ConfigError,
    >)
        requires
            f.wf(),
            q.wf(),
            h.wf(),
            r.wf(),
            x0.wf(),
            p0.wf(),
        ensures
            res matches Ok(c) ==> {
                &&& c.wf()
                &&& c.f == f
                &&& c.q == q
                &&& c.h == h
                &&& c.r == r
                &&& c.x0 == x0
                &&& c.p0 == p0
            },
            res is Ok <==> (FilterConfig { f, q, h, r, x0, p0 }).wf(),
            res is Err ==> res == Err::<FilterConfig, ConfigError>(ConfigError::MismatchedDimensions),
    {
        if f.cols != f.rows || q.rows != f.rows || q.cols != f.rows || h.cols != f.rows
            || h.rows > 2 || r.rows != h.rows || r.cols != h.rows || x0.rows != f.rows
            || x0.cols != 1 || p0.rows != f.rows || p0.cols != f.rows {
            return Err(ConfigError::MismatchedDimensions);
        }
        Ok(FilterConfig { f, q, h, r, x0, p0 })
    }
}

impl FilterState {
    /// The belief matches the configuration's state dimension.
    pub open spec fn wf(self, cfg: FilterConfig) -> bool {
        &&& self.mean.wf()
        &&& self.mean.rows as nat == cfg.n_dim()
        &&& self.mean.cols == 1
        &&& self.cov.wf()
        &&& self.cov.rows as nat == cfg.n_dim()
        &&& self.cov.cols as nat == cfg.n_dim()
    }
}

/// The belief a run starts from: the configured initial mean and covariance.
pub fn initial_state(cfg: &FilterConfig) -> (st: FilterState)
    requires
        cfg.wf(),
    ensures
        st.wf(*cfg),
        st.mean@ == cfg.x0@,
        st.cov@ == cfg.p0@,
{
    FilterState { mean: cfg.x0.duplicate(), cov: cfg.p0.duplicate() }
}

// ----- the prediction step -----

/// Predicted mean: `F*mean`.
pub open spec fn spec_predict_mean(cfg: FilterConfig, mean: Seq<Seq<int>>) -> Seq<Seq<int>> {
    mat_mul(cfg.f@, mean)
}

/// Predicted covariance: `F*cov*F^T + Q`.
pub open spec fn spec_predict_cov(cfg: FilterConfig, cov: Seq<Seq<int>>) -> Seq<Seq<int>> {
    mat_add(mat_mul(mat_mul(cfg.f@, cov), mat_transpose(cfg.f@)), cfg.q@)
}

/// Every intermediate of the prediction stays in the storage range.
pub open spec fn spec_predict_fits(cfg: FilterConfig, mean: Seq<Seq<int>>, cov: Seq<Seq<int>>) -> bool {
    &&& mat_fits(mat_mul(cfg.f@, mean))
    &&& mat_fits(mat_mul(cfg.f@, cov))
    &&& mat_fits(mat_mul(mat_mul(cfg.f@, cov), mat_transpose(cfg.f@)))
    &&& mat_fits(spec_predict_cov(cfg, cov))
}

/// Advances the belief one tick by the transition model.
pub fn predict(cfg: &FilterConfig, st: &FilterState) -> (r: Result<FilterState, FilterError>)
    requires
        cfg.wf(),
        st.wf(*cfg),
    ensures
        r matches Ok(s2) ==> {
            &&& s2.wf(*cfg)
            &&& s2.mean@ == spec_predict_mean(*cfg, st.mean@)
            &&& s2.cov@ == spec_predict_cov(*cfg, st.cov@)
        },
        r is Ok <==> spec_predict_fits(*cfg, st.mean@, st.cov@),
        r is Err ==> r == Err::<FilterState, FilterError>(FilterError::ArithmeticOverflow),
{
    let new_mean = match cfg.f.mul(&st.mean) {
        Some(m) => m,
        None => {
            return Err(FilterError::ArithmeticOverflow);
        },
    };
    let fp = match cfg.f.mul(&st.cov) {
        Some(m) => m,
        None => {
            return Err(FilterError::ArithmeticOverflow);
        },
    };
    let ft = cfg.f.transpose();
    let fpft = match fp.mul(&ft) {
        Some(m) => m,
        None => {
            return Err(FilterError::ArithmeticOverflow);
        },
    };
    let new_cov = match fpft.add(&cfg.q) {
        Some(m) => m,
        None => {
            return Err(FilterError::ArithmeticOverflow);
        },
    };
    Ok(FilterState { mean: new_mean, cov: new_cov })
}

// ----- the measurement update -----

/// Fixed-point determinant of a 1x1 or 2x2 innovation covariance.
pub open spec fn s_det(s: Seq<Seq<int>>, m: nat) -> int {
    if m == 1 {
        s[0][0]
    } else {
        fmul(s[0][0], s[1][1]) - fmul(s[0][1], s[1][0])
    }
}

/// Closed-form fixed-point inverse of a 1x1 or 2x2 innovation covariance.
pub open spec fn s_inv(s: Seq<Seq<int>>, m: nat) -> Seq<Seq<int>> {
    if m == 1 {
        seq![seq![fdiv(SCALE as int, s[0][0])]]
    } else {
        seq![
            seq![fdiv(s[1][1], s_det(s, m)), fdiv(-s[0][1], s_det(s, m))],
            seq![fdiv(-s[1][0], s_det(s, m)), fdiv(s[0][0], s_det(s, m))],
        ]
    }
}

/// Innovation: measurement minus predicted measurement, `z - H*mean`.
pub open spec fn spec_innov(cfg: FilterConfig, mean: Seq<Seq<int>>, z: Seq<Seq<int>>) -> Seq<
    Seq<int>,
> {
    mat_sub(z, mat_mul(cfg.h@, mean))
}

/// The shared factor `cov*H^T`.
pub open spec fn spec_pht(cfg: FilterConfig, cov: Seq<Seq<int>>) -> Seq<Seq<int>> {
    mat_mul(cov, mat_transpose(cfg.h@))
}

/// Innovation covariance `S = H*(cov*H^T) + R`.
pub open spec fn spec_s(cfg: FilterConfig, cov: Seq<Seq<int>>) -> Seq<Seq<int>> {
    mat_add(mat_mul(cfg.h@, spec_pht(cfg, cov)), cfg.r@)
}

/// Fixed-point determinant of `S`.
pub open spec fn spec_det(cfg: FilterConfig, cov: Seq<Seq<int>>) -> int {
    s_det(spec_s(cfg, cov), cfg.m_dim())
}

/// Kalman gain `K = (cov*H^T)*S^-1`.
pub open spec fn spec_gain(cfg: FilterConfig, cov: Seq<Seq<int>>) -> Seq<Seq<int>> {
    mat_mul(spec_pht(cfg, cov), s_inv(spec_s(cfg, cov), cfg.m_dim()))
}

/// Corrected mean `mean + K*(z - H*mean)`.
pub open spec fn spec_update_mean(
    cfg: FilterConfig,
    mean: Seq<Seq<int>>,
    cov: Seq<Seq<int>>,
    z: Seq<Seq<int>>,
) -> Seq<Seq<int>> {
    mat_add(mean, mat_mul(spec_gain(cfg, cov), spec_innov(cfg, mean, z)))
}

/// Corrected covariance `(I - K*H)*cov`.
pub open spec fn spec_update_cov(cfg: FilterConfig, cov: Seq<Seq<int>>) -> Seq<Seq<int>> {
    mat_mul(mat_sub(mat_identity(cfg.n_dim()), mat_mul(spec_gain(cfg, cov), cfg.h@)), cov)
}

/// The intermediates up to and including `S` stay in the storage range.
pub open spec fn spec_update_pre_fits(
    cfg: FilterConfig,
    mean: Seq<Seq<int>>,
    cov: Seq<Seq<int>>,
    z: Seq<Seq<int>>,
) -> bool {
    &&& mat_fits(mat_mul(cfg.h@, mean))
    &&& mat_fits(spec_innov(cfg, mean, z))
    &&& mat_fits(spec_pht(cfg, cov))
    &&& mat_fits(mat_mul(cfg.h@, spec_pht(cfg, cov)))
    &&& mat_fits(spec_s(cfg, cov))
}

/// The intermediates after the inversion stay in the storage range.
pub open spec fn spec_update_post_fits(
    cfg: FilterConfig,
    mean: Seq<Seq<int>>,
    cov: Seq<Seq<int>>,
    z: Seq<Seq<int>>,
) -> bool {
    &&& mat_fits(s_inv(spec_s(cfg, cov), cfg.m_dim()))
    &&& mat_fits(spec_gain(cfg, cov))
    &&& mat_fits(mat_mul(spec_gain(cfg, cov), spec_innov(cfg, mean, z)))
    &&& mat_fits(spec_update_mean(cfg, mean, cov, z))
    &&& mat_fits(mat_mul(spec_gain(cfg, cov), cfg.h@))
    &&& mat_fits(mat_sub(mat_identity(cfg.n_dim()), mat_mul(spec_gain(cfg, cov), cfg.h@)))
    &&& mat_fits(spec_update_cov(cfg, cov))
}

/// One-by-one matrix from a single entry.
fn mat1(v: i64) -> (r: Mat)
    ensures
        r.wf(),
        r.rows == 1,
        r.cols == 1,
        r@ == seq![seq![v as int]],
{
    let mut row: Vec<i64> = Vec::new();
    row.push(v);
    let mut rows: Vec<Vec<i64>> = Vec::new();
    rows.push(row);
    let m = Mat { rows: 1, cols: 1, e: rows };
    proof {
        assert(m@ =~~= seq![seq![v as int]]);
    }
    m
}

/// Two-by-two matrix from its entries in row order.
fn mat2x2(a: i64, b: i64, c: i64, d: i64) -> (r: Mat)
    ensures
        r.wf(),
        r.rows == 2,
        r.cols == 2,
        r@ == seq![seq![a as int, b as int], seq![c as int, d as int]],
{
    let mut row0: Vec<i64> = Vec::new();
    row0.push(a);
    row0.push(b);
    let mut row1: Vec<i64> = Vec::new();
    row1.push(c);
    row1.push(d);
    let mut rows: Vec<Vec<i64>> = Vec::new();
    rows.push(row0);
    rows.push(row1);
    let m = Mat { rows: 2, cols: 2, e: rows };
    proof {
        assert(m@ =~~= seq![seq![a as int, b as int], seq![c as int, d as int]]);
    }
    m
}

/// Inverts a 1x1 or 2x2 innovation covariance by its closed form.
fn invert_small(s: &Mat) -> (r: Result<Mat, FilterError>)
    requires
        s.wf(),
        s.cols == s.rows,
        s.rows <= 2,
    ensures
        r matches Ok(inv) ==> {
            &&& inv.wf()
            &&& inv.rows == s.rows
            &&& inv.cols == s.rows
            &&& inv@ == s_inv(s@, s.rows as nat)
        },
        r is Ok <==> s_det(s@, s.rows as nat) != 0 && mat_fits(s_inv(s@, s.rows as nat)),
        r == Err::<Mat, FilterError>(FilterError::SingularInnovationCovariance) <==> s_det(
            s@,
            s.rows as nat,
        ) == 0,
        r == Err::<Mat, FilterError>(FilterError::ArithmeticOverflow) <==> (s_det(
            s@,
            s.rows as nat,
        ) != 0 && !mat_fits(s_inv(s@, s.rows as nat))),
{
    if s.rows == 1 {
        let e = s.get(0, 0);
        if e == 0 {
            return Err(FilterError::SingularInnovationCovariance);
        }
        match fx_div(SCALE as i128, e as i128) {
            Some(v) => {
                let m = mat1(v);
                proof {
                    assert(m@ =~~= s_inv(s@, 1));
                    assert forall|i: int, j: int|
                        0 <= i < m@.len() && 0 <= j < m@[i].len() implies in_i64(
                        #[trigger] m@[i][j],
                    ) by {}
                }
                Ok(m)
            },
            None => {
                proof {
                    assert(s_inv(s@, 1)[0][0] == fdiv(SCALE as int, s@[0][0]));
                    assert(!mat_fits(s_inv(s@, 1)));
                }
                Err(FilterError::ArithmeticOverflow)
            },
        }
    } else {
        let a = s.get(0, 0);
        let b = s.get(0, 1);
        let c = s.get(1, 0);
        let d = s.get(1, 1);
        let f1 = fmul_wide(a, d);
        let f2 = fmul_wide(b, c);
        let det: i128 = f1 - f2;
        proof {
            assert(det as int == s_det(s@, 2));
        }
        if det == 0 {
            return Err(FilterError::SingularInnovationCovariance);
        }
        let ghost dt = s_det(s@, 2);
        let e00 = match fx_div(d as i128, det) {
            Some(v) => v,
            None => {
                proof {
                    assert(s_inv(s@, 2)[0][0] == fdiv(s@[1][1], dt));
                    assert(!mat_fits(s_inv(s@, 2)));
                }
                return Err(FilterError::ArithmeticOverflow);
            },
        };
        let e01 = match fx_div(-(b as i128), det) {
            Some(v) => v,
            None => {
                proof {
                    assert(s_inv(s@, 2)[0][1] == fdiv(-s@[0][1], dt));
                    assert(!mat_fits(s_inv(s@, 2)));
                }
                return Err(FilterError::ArithmeticOverflow);
            },
        };
        let e10 = match fx_div(-(c as i128), det) {
            Some(v) => v,
            None => {
                proof {
                    assert(s_inv(s@, 2)[1][0] == fdiv(-s@[1][0], dt));
                    assert(!mat_fits(s_inv(s@, 2)));
                }
                return Err(FilterError::ArithmeticOverflow);
            },
        };
        let e11 = match fx_div(a as i128, det) {
            Some(v) => v,
            None => {
                proof {
                    assert(s_inv(s@, 2)[1][1] == fdiv(s@[0][0], dt));
                    assert(!mat_fits(s_inv(s@, 2)));
                }
                return Err(FilterError::ArithmeticOverflow);
            },
        };
        let m = mat2x2(e00, e01, e10, e11);
        proof {
            assert(m@ =~~= s_inv(s@, 2));
            assert forall|i: int, j: int|
                0 <= i < m@.len() && 0 <= j < m@[i].len() implies in_i64(#[trigger] m@[i][j]) by {}
        }
        Ok(m)
    }
}

/// Folds one measurement into the belief by the Kalman correction.
pub fn update(cfg: &FilterConfig, st: &FilterState, z: &Mat) -> (r: Result<
    FilterState,
    FilterError,
>)
    requires
        cfg.wf(),
        st.wf(*cfg),
        z.wf(),
        z.rows as nat == cfg.m_dim(),
        z.cols == 1,
    ensures
        r matches Ok(s2) ==> {
            &&& s2.wf(*cfg)
            &&& s2.mean@ == spec_update_mean(*cfg, st.mean@, st.cov@, z@)
            &&& s2.cov@ == spec_update_cov(*cfg, st.cov@)
        },
        r is Ok <==> (spec_update_pre_fits(*cfg, st.mean@, st.cov@, z@) && spec_det(
            *cfg,
            st.cov@,
        ) != 0 && spec_update_post_fits(*cfg, st.mean@, st.cov@, z@)),
        r == Err::<FilterState, FilterError>(FilterError::SingularInnovationCovariance) <==> (
        spec_update_pre_fits(*cfg, st.mean@, st.cov@, z@) && spec_det(*cfg, st.cov@) == 0),
        r == Err::<FilterState, FilterError>(FilterError::ArithmeticOverflow) <==> (
        !spec_update_pre_fits(*cfg, st.mean@, st.cov@, z@) || (spec_det(*cfg, st.cov@) != 0
            && !spec_update_post_fits(*cfg, st.mean@, st.cov@, z@))),
{
    let hx = match cfg.h.mul(&st.mean) {
        Some(m) => m,
        None => {
            return Err(FilterError::ArithmeticOverflow);
        },
    };
    let innov = match z.sub(&hx) {
        Some(m) => m,
        None => {
            return Err(FilterError::ArithmeticOverflow);
        },
    };
    let ht = cfg.h.transpose();
    let pht = match st.cov.mul(&ht) {
        Some(m) => m,
        None => {
            return Err(FilterError::ArithmeticOverflow);
        },
    };
    let hpht = match cfg.h.mul(&pht) {
        Some(m) => m,
        None => {
            return Err(FilterError::ArithmeticOverflow);
        },
    };
    let s = match hpht.add(&cfg.r) {
        Some(m) => m,
        None => {
            return Err(FilterError::ArithmeticOverflow);
        },
    };
    proof {
        assert(s@ == spec_s(*cfg, st.cov@));
    }
    let sinv = match invert_small(&s) {
        Ok(m) => m,
        Err(e) => {
            return Err(e);
        },
    };
    let k = match pht.mul(&sinv) {
        Some(m) => m,
        None => {
            return Err(FilterError::ArithmeticOverflow);
        },
    };
    let kinnov = match k.mul(&innov) {
        Some(m) => m,
        None => {
            return Err(FilterError::ArithmeticOverflow);
        },
    };
    let new_mean = match st.mean.add(&kinnov) {
        Some(m) => m,
        None => {
            return Err(FilterError::ArithmeticOverflow);
        },
    };
    let kh = match k.mul(&cfg.h) {
        Some(m) => m,
        None => {
            return Err(FilterError::ArithmeticOverflow);
        },
    };
    let ident = Mat::identity(cfg.f.rows);
    let ikh = match ident.sub(&kh) {
        Some(m) => m,
        None => {
            return Err(FilterError::ArithmeticOverflow);
        },
    };
    let new_cov = match ikh.mul(&st.cov) {
        Some(m) => m,
        None => {
            return Err(FilterError::ArithmeticOverflow);
        },
    };
    Ok(FilterState { mean: new_mean, cov: new_cov })
}

/// Prediction keeps a one-dimensional uncertainty non-negative: with a
/// non-negative process-noise variance, the predicted variance is again
/// non-negative, whatever the transition entry's sign. Together with the
/// update bound below this keeps a scalar belief's variance non-negative
/// through every predict/update tick.
pub proof fn lemma_predict_keeps_nonneg(cfg: FilterConfig, st: FilterState)
    requires
        cfg.wf(),
        st.wf(cfg),
        cfg.n_dim() == 1,
        st.cov@[0][0] >= 0,
        cfg.q@[0][0] >= 0,
    ensures
        spec_predict_cov(cfg, st.cov@)[0][0] >= 0,
{
    cfg.f.lemma_view_props();
    cfg.q.lemma_view_props();
    st.cov.lemma_view_props();
    let s_int = SCALE as int;
    let f = cfg.f@[0][0];
    let p = st.cov@[0][0];
    let fp = mat_mul(cfg.f@, st.cov@);
    assert(dot(cfg.f@[0], crate::matrix::col(st.cov@, 0), 0) == 0);
    let a = fmul(f, p);
    assert(fp[0][0] == a);
    let ft = mat_transpose(cfg.f@);
    assert(ft[0][0] == f);
    assert(dot(fp[0], crate::matrix::col(ft, 0), 0) == 0);
    let m = fmul(a, f);
    assert(mat_mul(fp, ft)[0][0] == m);
    assert(spec_predict_cov(cfg, st.cov@)[0][0] == m + cfg.q@[0][0]);

    let ff = iabs(f);
    let aa = iabs(a);
    lemma_div_tz_abs(f * p, s_int);
    lemma_iabs_mul(f, p);
    if f >= 0 {
        assert(f * p >= 0) by (nonlinear_arith)
            requires p >= 0 && f >= 0;
        assert(a >= 0);
        assert(a * f == aa * ff);
    } else {
        assert(f * p <= 0) by (nonlinear_arith)
            requires p >= 0 && f < 0;
        assert(a <= 0);
        assert(a * f == aa * ff) by (nonlinear_arith)
            requires aa == -a && ff == -f;
    }
    assert(aa * ff >= 0) by (nonlinear_arith)
        requires aa >= 0 && ff >= 0;
    lemma_div_tz_abs(a * f, s_int);
    assert(m >= 0);
}

/// Folding a measurement into a one-dimensional belief never increases
/// the uncertainty: with a positive measurement-noise variance, the
/// updated covariance stays between zero and its value before the
/// update. For a one-by-one covariance the trace is that single entry.
pub proof fn lemma_update_shrinks_uncertainty(cfg: FilterConfig, st: FilterState)
    requires
        cfg.wf(),
        st.wf(cfg),
        cfg.n_dim() == 1,
        cfg.m_dim() == 1,
        st.cov@[0][0] >= 0,
        cfg.r@[0][0] >= 1,
    ensures
        0 <= spec_update_cov(cfg, st.cov@)[0][0],
        spec_update_cov(cfg, st.cov@)[0][0] <= st.cov@[0][0],
        mat_trace(spec_update_cov(cfg, st.cov@), cfg.n_dim()) <= mat_trace(
            st.cov@,
            cfg.n_dim(),
        ),
{
    assert(mat_trace(spec_update_cov(cfg, st.cov@), 0) == 0);
    assert(mat_trace(st.cov@, 0) == 0);
    let s_int = SCALE as int;
    let p = st.cov@[0][0];
    let h = cfg.h@[0][0];
    let r_n = cfg.r@[0][0];
    let hh = iabs(h);
    cfg.h.lemma_view_props();
    cfg.r.lemma_view_props();
    st.cov.lemma_view_props();

    // Unfold the one-by-one matrix chain entry by entry.
    let ht = mat_transpose(cfg.h@);
    assert(ht[0][0] == h);
    let a = fmul(p, h);
    assert(dot(st.cov@[0], crate::matrix::col(ht, 0), 0) == 0);
    assert(spec_pht(cfg, st.cov@)[0][0] == a);
    let b = fmul(h, a);
    assert(dot(cfg.h@[0], crate::matrix::col(spec_pht(cfg, st.cov@), 0), 0) == 0);
    assert(mat_mul(cfg.h@, spec_pht(cfg, st.cov@))[0][0] == b);
    let s00 = b + r_n;
    assert(spec_s(cfg, st.cov@)[0][0] == s00);
    let inv = fdiv(s_int, s00);
    assert(s_inv(spec_s(cfg, st.cov@), 1)[0][0] == inv);
    let k = fmul(a, inv);
    assert(dot(
        spec_pht(cfg, st.cov@)[0],
        crate::matrix::col(s_inv(spec_s(cfg, st.cov@), 1), 0),
        0,
    ) == 0);
    assert(spec_gain(cfg, st.cov@)[0][0] == k);
    let kh = fmul(k, h);
    assert(dot(spec_gain(cfg, st.cov@)[0], crate::matrix::col(cfg.h@, 0), 0) == 0);
    assert(mat_mul(spec_gain(cfg, st.cov@), cfg.h@)[0][0] == kh);
    assert(mat_identity(1)[0][0] == s_int);
    let ikh = s_int - kh;
    assert(mat_sub(mat_identity(cfg.n_dim()), mat_mul(spec_gain(cfg, st.cov@), cfg.h@))[0][0]
        == ikh);
    let cv = fmul(ikh, p);
    assert(dot(
        mat_sub(mat_identity(cfg.n_dim()), mat_mul(spec_gain(cfg, st.cov@), cfg.h@))[0],
        crate::matrix::col(st.cov@, 0),
        0,
    ) == 0);
    assert(spec_update_cov(cfg, st.cov@)[0][0] == cv);

    // The magnitude of the shared factor.
    let aa = iabs(a);
    lemma_div_tz_abs(p * h, s_int);
    lemma_iabs_mul(p, h);
    assert(aa == (p * hh) / s_int);

    // h and its rescaled product with p share a sign.
    if h >= 0 {
        assert(p * h >= 0) by (nonlinear_arith)
            requires p >= 0 && h >= 0;
        assert(a >= 0);
        assert(h * a == hh * aa);
    } else {
        assert(p * h <= 0) by (nonlinear_arith)
            requires p >= 0 && h < 0;
        assert(a <= 0);
        assert(h * a == hh * aa) by (nonlinear_arith)
            requires hh == -h && aa == -a;
    }
    assert(hh * aa >= 0) by (nonlinear_arith)
        requires hh >= 0 && aa >= 0;

    // The measured variance: b is the rescaled square, never negative.
    lemma_div_tz_abs(h * a, s_int);
    assert(b == (hh * aa) / s_int);
    assert(b >= 0);
    lemma_div_tz_mul_bounds(hh * aa, s_int);
    assert(hh * aa < s_int * (b + 1));

    // S = b + r with r at least one raw unit: the key strict bound.
    assert(s00 >= 1);
    assert(s_int * s00 >= s_int * (b + 1)) by (nonlinear_arith)
        requires s_int > 0 && r_n >= 1 && s00 == b + r_n;
    assert(aa * hh < s_int * s00) by (nonlinear_arith)
        requires hh * aa < s_int * (b + 1) && s_int * s00 >= s_int * (b + 1);

    // The inverted variance.
    assert(s_int * s_int >= 0) by (nonlinear_arith);
    lemma_div_tz_abs(s_int * s_int, s00);
    assert(inv == (s_int * s_int) / s00);
    assert(inv >= 0);
    lemma_div_tz_mul_bounds(s_int * s_int, s00);
    assert(s00 * inv <= s_int * s_int);

    // The gain: its magnitude, and its product with the observation.
    let kk = iabs(k);
    lemma_div_tz_abs(a * inv, s_int);
    lemma_iabs_mul(a, inv);
    assert(kk == (aa * inv) / s_int);
    assert(aa * inv >= 0) by (nonlinear_arith)
        requires aa >= 0 && inv >= 0;
    lemma_div_tz_mul_bounds(aa * inv, s_int);
    assert(s_int * kk <= aa * inv);
    if h >= 0 {
        assert(a >= 0);
        assert(a * inv >= 0) by (nonlinear_arith)
            requires a >= 0 && inv >= 0;
        assert(k >= 0);
        assert(k * h == kk * hh);
    } else {
        assert(a <= 0);
        assert(a * inv <= 0) by (nonlinear_arith)
            requires a <= 0 && inv >= 0;
        assert(k <= 0);
        assert(k * h == kk * hh) by (nonlinear_arith)
            requires kk == -k && hh == -h;
    }
    assert(kk * hh >= 0) by (nonlinear_arith)
        requires kk >= 0 && hh >= 0;
    lemma_div_tz_abs(k * h, s_int);
    lemma_iabs_mul(k, h);
    assert(kh == (kk * hh) / s_int);
    assert(kh >= 0);
    lemma_div_tz_mul_bounds(kk * hh, s_int);
    assert(s_int * kh <= kk * hh);

    // Chain: S^2 kh <= S kk hh <= aa inv hh = aa hh inv <= S s00 inv
    // <= S^3, hence kh <= S.
    assert(s_int * (s_int * kh) <= s_int * (kk * hh)) by (nonlinear_arith)
        requires s_int > 0 && s_int * kh <= kk * hh;
    assert(s_int * (kk * hh) == (s_int * kk) * hh) by (nonlinear_arith);
    assert((s_int * kk) * hh <= (aa * inv) * hh) by (nonlinear_arith)
        requires s_int * kk <= aa * inv && hh >= 0;
    assert((aa * inv) * hh == (aa * hh) * inv) by (nonlinear_arith);
    assert((aa * hh) * inv <= (s_int * s00) * inv) by (nonlinear_arith)
        requires aa * hh <= s_int * s00 && inv >= 0;
    assert((s_int * s00) * inv == s_int * (s00 * inv)) by (nonlinear_arith);
    assert(s_int * (s00 * inv) <= s_int * (s_int * s_int)) by (nonlinear_arith)
        requires s_int > 0 && s00 * inv <= s_int * s_int;
    assert(kh <= s_int) by (nonlinear_arith)
        requires s_int > 0 && s_int * (s_int * kh) <= s_int * (s_int * s_int);

    // Finally: (1.0 - kh) * p stays within [0, p].
    assert(0 <= ikh && ikh <= s_int);
    assert(0 <= ikh * p) by (nonlinear_arith)
        requires ikh >= 0 && p >= 0;
    assert(ikh * p <= s_int * p) by (nonlinear_arith)
        requires ikh <= s_int && p >= 0;
    lemma_div_tz_ordered(0, ikh * p, s_int);
    lemma_div_tz_ordered(ikh * p, s_int * p, s_int);
    assert(div_tz(s_int * p, s_int) == p) by {
        assert(s_int * p == p * s_int) by (nonlinear_arith);
        lemma_div_tz_exact(p, s_int);
    }
    assert(div_tz(0int, s_int) == 0);
}

/// One scalar update moves the mean toward the measurement and never
/// past it: with the direct observation `H = 1` and a positive
/// measurement-noise variance, the corrected mean lies between the prior
/// mean and the measurement. (The movement is monotone, not always
/// strict: when the rounded correction `K*(z - mean)` is below one raw
/// unit it truncates to zero and the mean stands still.)
pub proof fn lemma_update_moves_mean_toward_measurement(
    cfg: FilterConfig,
    st: FilterState,
    z: Seq<Seq<int>>,
)
    requires
        cfg.wf(),
        st.wf(cfg),
        cfg.n_dim() == 1,
        cfg.m_dim() == 1,
        cfg.h@[0][0] == SCALE as int,
        st.cov@[0][0] >= 0,
        cfg.r@[0][0] >= 1,
        crate::matrix::is_mat(z, 1, 1),
        st.mean@[0][0] <= z[0][0],
    ensures
        st.mean@[0][0] <= spec_update_mean(cfg, st.mean@, st.cov@, z)[0][0],
        spec_update_mean(cfg, st.mean@, st.cov@, z)[0][0] <= z[0][0],
{
    let s_int = SCALE as int;
    let p = st.cov@[0][0];
    let m = st.mean@[0][0];
    let r_n = cfg.r@[0][0];
    cfg.h.lemma_view_props();
    cfg.r.lemma_view_props();
    st.cov.lemma_view_props();
    st.mean.lemma_view_props();

    // Unfold the chain; with H = 1.0 every product with H is exact.
    lemma_fmul_one(p);
    lemma_fmul_one(m);
    assert(mat_transpose(cfg.h@)[0][0] == s_int);
    assert(dot(st.cov@[0], crate::matrix::col(mat_transpose(cfg.h@), 0), 0) == 0);
    assert(spec_pht(cfg, st.cov@)[0][0] == fmul(p, s_int));
    assert(dot(cfg.h@[0], crate::matrix::col(spec_pht(cfg, st.cov@), 0), 0) == 0);
    assert(mat_mul(cfg.h@, spec_pht(cfg, st.cov@))[0][0] == fmul(s_int, p));
    let s00 = p + r_n;
    assert(spec_s(cfg, st.cov@)[0][0] == s00);
    let inv = fdiv(s_int, s00);
    assert(s_inv(spec_s(cfg, st.cov@), 1)[0][0] == inv);
    let k = fmul(p, inv);
    assert(dot(
        spec_pht(cfg, st.cov@)[0],
        crate::matrix::col(s_inv(spec_s(cfg, st.cov@), 1), 0),
        0,
    ) == 0);
    assert(spec_gain(cfg, st.cov@)[0][0] == k);
    assert(dot(cfg.h@[0], crate::matrix::col(st.mean@, 0), 0) == 0);
    assert(mat_mul(cfg.h@, st.mean@)[0][0] == fmul(s_int, m));
    let d = z[0][0] - m;
    assert(spec_innov(cfg, st.mean@, z)[0][0] == d);
    let g = fmul(k, d);
    assert(dot(
        spec_gain(cfg, st.cov@)[0],
        crate::matrix::col(spec_innov(cfg, st.mean@, z), 0),
        0,
    ) == 0);
    assert(mat_mul(spec_gain(cfg, st.cov@), spec_innov(cfg, st.mean@, z))[0][0] == g);
    assert(spec_update_mean(cfg, st.mean@, st.cov@, z)[0][0] == m + g);

    // The gain stays within [0, 1.0].
    assert(s00 >= 1);
    assert(s_int * s_int >= 0) by (nonlinear_arith);
    lemma_div_tz_abs(s_int * s_int, s00);
    assert(inv == (s_int * s_int) / s00);
    assert(inv >= 0);
    lemma_div_tz_mul_bounds(s_int * s_int, s00);
    assert(s00 * inv <= s_int * s_int);
    assert(p * inv >= 0) by (nonlinear_arith)
        requires p >= 0 && inv >= 0;
    lemma_div_tz_abs(p * inv, s_int);
    lemma_iabs_mul(p, inv);
    assert(k == (p * inv) / s_int);
    assert(k >= 0);
    lemma_div_tz_mul_bounds(p * inv, s_int);
    assert(s_int * k <= p * inv);
    assert(p * inv <= s00 * inv) by (nonlinear_arith)
        requires p <= s00 && inv >= 0;
    assert(k <= s_int) by (nonlinear_arith)
        requires s_int > 0 && s_int * k <= s_int * s_int;

    // The correction stays within the innovation: 0 <= K*(z - m) <= z - m.
    assert(d >= 0);
    assert(0 <= k * d) by (nonlinear_arith)
        requires k >= 0 && d >= 0;
    assert(k * d <= s_int * d) by (nonlinear_arith)
        requires k <= s_int && d >= 0;
    lemma_div_tz_ordered(0, k * d, s_int);
    lemma_div_tz_ordered(k * d, s_int * d, s_int);
    assert(div_tz(s_int * d, s_int) == d) by {
        assert(s_int * d == d * s_int) by (nonlinear_arith);
        lemma_div_tz_exact(d, s_int);
    }
    assert(div_tz(0int, s_int) == 0);
}

/// Predicting with the identity transition and zero process noise leaves
/// the mean and the covariance exactly unchanged, and cannot overflow.
pub proof fn lemma_predict_identity_preserves(cfg: FilterConfig, st: FilterState)
    requires
        cfg.wf(),
        st.wf(cfg),
        cfg.f@ == mat_identity(cfg.n_dim()),
        cfg.q@ == mat_zero(cfg.n_dim(), cfg.n_dim()),
    ensures
        spec_predict_mean(cfg, st.mean@) == st.mean@,
        spec_predict_cov(cfg, st.cov@) == st.cov@,
        spec_predict_fits(cfg, st.mean@, st.cov@),
{
    let n = cfg.n_dim();
    st.mean.lemma_view_props();
    st.cov.lemma_view_props();
    lemma_mul_identity_left(st.mean@, n, 1);
    lemma_mul_identity_left(st.cov@, n, n);
    lemma_transpose_identity(n);
    lemma_mul_identity_right(st.cov@, n, n);
    lemma_add_zero(st.cov@, n, n);
}

} // verus!
