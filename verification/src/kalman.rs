//! The ballistic tracking model: a position-and-velocity filter over the
//! state `(x, y, vx, vy)` observing `(x, y)`, advanced at a fixed
//! sixtieth-of-a-second timestep.

use vstd::prelude::*;

verus! {

use crate::fx::{SCALE, fmul, lemma_fmul_one, lemma_fmul_zero};
use crate::matrix::{
    Mat, mat_diag, mat_mul, mat_transpose, mat_identity, mat_symmetric, mat_is_diagonal,
    mat_diag_at_least, dot, col, rows_shape_ok, lemma_diag_props,
};
use crate::filter::FilterConfig;

/// The fixed timestep, one sixtieth of a second in fixed point.
pub const DT: i64 = 16_666_666;

/// Transition matrix of the tracking model: positions advance by the
/// velocities times the timestep; velocities persist.
pub open spec fn demo_transition() -> Seq<Seq<int>> {
    seq![
        seq![SCALE as int, 0int, DT as int, 0int],
        seq![0int, SCALE as int, 0int, DT as int],
        seq![0int, 0int, SCALE as int, 0int],
        seq![0int, 0int, 0int, SCALE as int],
    ]
}

/// Observation matrix: the two position components are observed directly.
pub open spec fn demo_observation() -> Seq<Seq<int>> {
    seq![
        seq![SCALE as int, 0int, 0int, 0int],
        seq![0int, SCALE as int, 0int, 0int],
    ]
}

/// Initial mean: at the origin height one, moving up and to the right.
pub open spec fn demo_initial_mean() -> Seq<Seq<int>> {
    seq![
        seq![0int],
        seq![SCALE as int],
        seq![10 * SCALE as int],
        seq![100 * SCALE as int],
    ]
}

/// Row of four entries.
fn row4(a: i64, b: i64, c: i64, d: i64) -> (v: Vec<i64>)
    ensures
        v@ == seq![a, b, c, d],
{
    let mut v: Vec<i64> = Vec::new();
    v.push(a);
    v.push(b);
    v.push(c);
    v.push(d);
    proof {
        assert(v@ =~= seq![a, b, c, d]);
    }
    v
}

/// Row of one entry.
fn row1(a: i64) -> (v: Vec<i64>)
    ensures
        v@ == seq![a],
{
    let mut v: Vec<i64> = Vec::new();
    v.push(a);
    proof {
        assert(v@ =~= seq![a]);
    }
    v
}

/// The demo observation matrix has full row rank: multiplied by its own
/// transpose it gives the identity, so no nonzero measurement-space
/// direction is lost through it.
pub proof fn lemma_demo_observation_full_rank()
    ensures
        mat_mul(demo_observation(), mat_transpose(demo_observation())) == mat_identity(2),
{
    let h = demo_observation();
    let ht = mat_transpose(h);
    let p = mat_mul(h, ht);
    lemma_fmul_one(SCALE as int);
    lemma_fmul_one(0);
    lemma_fmul_zero(SCALE as int);
    lemma_fmul_zero(0);
    assert forall|i: int, j: int| 0 <= i < 2 && 0 <= j < 2 implies p[i][j] == mat_identity(
        2,
    )[i][j] by {
        let c = col(ht, j);
        assert(c[0] == h[j][0]);
        assert(c[1] == h[j][1]);
        assert(c[2] == h[j][2]);
        assert(c[3] == h[j][3]);
        assert(dot(h[i], c, 0) == 0);
        assert(dot(h[i], c, 1) == dot(h[i], c, 0) + fmul(h[i][0], c[0]));
        assert(dot(h[i], c, 2) == dot(h[i], c, 1) + fmul(h[i][1], c[1]));
        assert(dot(h[i], c, 3) == dot(h[i], c, 2) + fmul(h[i][2], c[2]));
        assert(dot(h[i], c, 4) == dot(h[i], c, 3) + fmul(h[i][3], c[3]));
        assert(p[i][j] == dot(h[i], c, 4));
    }
    assert(p[0] =~= mat_identity(2)[0]);
    assert(p[1] =~= mat_identity(2)[1]);
    assert(p =~~= mat_identity(2));
}

/// Builds the tracking configuration the simulation runs with: moderate
/// process noise, heavy measurement noise, and the ballistic transition.
/// Beyond the exact matrices, the noise shapes hold by construction:
/// the process and initial covariances are symmetric diagonal matrices
/// with non-negative (in fact positive) diagonals, so
/// positive-semi-definite; the measurement noise is diagonal with
/// positive diagonal, so positive-definite; and the observation matrix
/// has full row rank ([`lemma_demo_observation_full_rank`]). In exact
/// arithmetic those shapes make the innovation covariance
/// positive-definite at every positive-semi-definite belief, so its
/// determinant cannot vanish; under fixed-point rounding that invariant
/// is not carried by the contracts (see the notes in [`crate::filter`]),
/// and a vanishing determinant is reported exactly instead.
pub fn init_filter() -> (cfg: FilterConfig)
    ensures
        cfg.wf(),
        cfg.n_dim() == 4,
        cfg.m_dim() == 2,
        cfg.f@ == demo_transition(),
        cfg.h@ == demo_observation(),
        cfg.x0@ == demo_initial_mean(),
        cfg.q@ == mat_diag(4, 10 * SCALE as int),
        cfg.r@ == mat_diag(2, 10000 * SCALE as int),
        cfg.p0@ == mat_diag(4, 10 * SCALE as int),
        mat_symmetric(cfg.q@) && mat_is_diagonal(cfg.q@) && mat_diag_at_least(cfg.q@, 1),
        mat_symmetric(cfg.p0@) && mat_is_diagonal(cfg.p0@) && mat_diag_at_least(cfg.p0@, 1),
        mat_symmetric(cfg.r@) && mat_is_diagonal(cfg.r@) && mat_diag_at_least(cfg.r@, 1),
        mat_mul(cfg.h@, mat_transpose(cfg.h@)) == mat_identity(2),
{
    let mut frows: Vec<Vec<i64>> = Vec::new();
    frows.push(row4(SCALE, 0, DT, 0));
    frows.push(row4(0, SCALE, 0, DT));
    frows.push(row4(0, 0, SCALE, 0));
    frows.push(row4(0, 0, 0, SCALE));
    proof {
        assert(rows_shape_ok(frows@));
    }
    let fm = Mat::from_rows(frows).unwrap();
    proof {
        assert(fm@ =~~= demo_transition());
    }

    let mut hrows: Vec<Vec<i64>> = Vec::new();
    hrows.push(row4(SCALE, 0, 0, 0));
    hrows.push(row4(0, SCALE, 0, 0));
    proof {
        assert(rows_shape_ok(hrows@));
    }
    let hm = Mat::from_rows(hrows).unwrap();
    proof {
        assert(hm@ =~~= demo_observation());
    }

    let mut xrows: Vec<Vec<i64>> = Vec::new();
    xrows.push(row1(0));
    xrows.push(row1(SCALE));
    xrows.push(row1(10 * SCALE));
    xrows.push(row1(100 * SCALE));
    proof {
        assert(rows_shape_ok(xrows@));
    }
    let x0 = Mat::from_rows(xrows).unwrap();
    proof {
        assert(x0@ =~~= demo_initial_mean());
    }

    let q = Mat::diagonal(4, 10 * SCALE);
    let r = Mat::diagonal(2, 10000 * SCALE);
    let p0 = Mat::diagonal(4, 10 * SCALE);

    let res = FilterConfig::new(fm, q, hm, r, x0, p0);
    proof {
        assert(res is Ok);
        lemma_diag_props(4, 10 * SCALE as int);
        lemma_diag_props(2, 10000 * SCALE as int);
        lemma_demo_observation_full_rank();
    }
    res.unwrap()
}

} // verus!
