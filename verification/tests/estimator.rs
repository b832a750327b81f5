use ballistic_kalman::filter::{update, predict, initial_state, ConfigError, FilterConfig,
    FilterError, FilterState};
use ballistic_kalman::fx::SCALE;
use ballistic_kalman::kalman::{init_filter, DT};
use ballistic_kalman::matrix::Mat;

fn m(rows: Vec<Vec<i64>>) -> Mat {
    Mat::from_rows(rows).unwrap()
}

fn scalar_config(q: i64, r: i64, x0: i64, p0: i64) -> FilterConfig {
    FilterConfig::new(
        m(vec![vec![SCALE]]),
        m(vec![vec![q]]),
        m(vec![vec![SCALE]]),
        m(vec![vec![r]]),
        m(vec![vec![x0]]),
        m(vec![vec![p0]]),
    )
    .unwrap()
}

fn trace(mat: &Mat) -> i64 {
    let mut t = 0i64;
    for i in 0..mat.rows {
        t += mat.get(i, i);
    }
    t
}

#[test]
fn predict_identity_keeps_state() {
    // Identity transition, zero process noise: the belief must not move.
    let cfg = FilterConfig::new(
        Mat::identity(4),
        Mat::diagonal(4, 0),
        m(vec![vec![SCALE, 0, 0, 0], vec![0, SCALE, 0, 0]]),
        Mat::diagonal(2, SCALE),
        m(vec![vec![3], vec![-7 * SCALE], vec![SCALE / 3], vec![42]]),
        m(vec![
            vec![5 * SCALE, 1, 0, 0],
            vec![1, 2 * SCALE, 0, 0],
            vec![0, 0, SCALE, 7],
            vec![0, 0, 7, SCALE],
        ]),
    )
    .unwrap();
    let st = initial_state(&cfg);
    let next = predict(&cfg, &st).unwrap();
    for i in 0..4 {
        assert_eq!(next.mean.get(i, 0), st.mean.get(i, 0));
        for j in 0..4 {
            assert_eq!(next.cov.get(i, j), st.cov.get(i, j));
        }
    }
}

#[test]
fn update_shrinks_uncertainty_tracking_model() {
    // With a positive-definite R and a full-rank H, folding a measurement
    // in must not increase the covariance trace.
    let cfg = init_filter();
    let st = initial_state(&cfg);
    let pred = predict(&cfg, &st).unwrap();
    let z = m(vec![vec![0], vec![SCALE]]);
    let upd = update(&cfg, &pred, &z).unwrap();
    assert!(trace(&upd.cov) <= trace(&pred.cov));
}

#[test]
fn update_shrinks_uncertainty_scalar() {
    let cfg = scalar_config(SCALE / 100, SCALE, 0, SCALE);
    let st = initial_state(&cfg);
    let pred = predict(&cfg, &st).unwrap();
    let z = m(vec![vec![SCALE]]);
    let upd = update(&cfg, &pred, &z).unwrap();
    assert!(trace(&upd.cov) <= trace(&pred.cov));
}

#[test]
fn scalar_filter_monotone_approach() {
    // F=1, H=1, Q=0.01, R=1, x0=0, P0=1; five noise-free measurements of
    // the constant 1: the mean approaches 1 from below, strictly rising.
    let cfg = scalar_config(SCALE / 100, SCALE, 0, SCALE);
    let mut st = initial_state(&cfg);
    let z = m(vec![vec![SCALE]]);
    let mut previous = 0i64;
    for _ in 0..5 {
        let pred = predict(&cfg, &st).unwrap();
        st = update(&cfg, &pred, &z).unwrap();
        let mean = st.mean.get(0, 0);
        assert!(mean > previous, "mean must strictly increase each tick");
        assert!(mean > 0 && mean < SCALE, "mean must stay strictly between 0 and 1");
        previous = mean;
    }
}

#[test]
fn scalar_filter_converges_to_constant_truth() {
    // Noise-free measurements of a constant state: the mean converges to
    // the true value well within a millionth, and the covariance settles.
    let cfg = scalar_config(SCALE, SCALE, 0, SCALE);
    let mut st = initial_state(&cfg);
    let z = m(vec![vec![SCALE]]);
    let mut last_cov = st.cov.get(0, 0);
    let mut cov_step = i64::MAX;
    for _ in 0..60 {
        let pred = predict(&cfg, &st).unwrap();
        st = update(&cfg, &pred, &z).unwrap();
        let cov = st.cov.get(0, 0);
        cov_step = (cov - last_cov).abs();
        last_cov = cov;
    }
    let err = (st.mean.get(0, 0) - SCALE).abs();
    // One thousandth of a thousandth: 1e-6 in fixed point is 1000 units.
    assert!(err <= 1000, "mean error {} exceeds 1e-6", err);
    assert!(cov_step <= 10, "covariance still moving by {} per tick", cov_step);
}

#[test]
fn singular_innovation_covariance_is_reported() {
    // Zero R and zero P0 make S exactly zero: a fatal configuration.
    let cfg = scalar_config(0, 0, 0, 0);
    let st = initial_state(&cfg);
    let pred = predict(&cfg, &st).unwrap();
    let z = m(vec![vec![SCALE]]);
    match update(&cfg, &pred, &z) {
        Err(FilterError::SingularInnovationCovariance) => {}
        other => panic!("expected a singular innovation covariance, got {:?}", other.is_ok()),
    }
}

#[test]
fn overflow_in_prediction_is_reported() {
    // A huge transition entry applied to a huge mean leaves i64.
    let huge = FilterConfig::new(
        m(vec![vec![i64::MAX]]),
        m(vec![vec![SCALE]]),
        m(vec![vec![SCALE]]),
        m(vec![vec![SCALE]]),
        m(vec![vec![i64::MAX]]),
        m(vec![vec![SCALE]]),
    )
    .unwrap();
    let st = initial_state(&huge);
    match predict(&huge, &st) {
        Err(FilterError::ArithmeticOverflow) => {}
        other => panic!("expected overflow, got {:?}", other.is_ok()),
    }
}

#[test]
fn mismatched_dimensions_are_refused() {
    // H observes three state components but F only has two.
    let res = FilterConfig::new(
        Mat::identity(2),
        Mat::diagonal(2, SCALE),
        m(vec![vec![SCALE, 0, 0]]),
        m(vec![vec![SCALE]]),
        m(vec![vec![0], vec![0]]),
        Mat::diagonal(2, SCALE),
    );
    match res {
        Err(ConfigError::MismatchedDimensions) => {}
        _ => panic!("expected the dimensions to be refused"),
    }
}

#[test]
fn tracking_model_matrices() {
    // The ballistic configuration: unit diagonal with the timestep
    // coupling positions to velocities, heavy measurement noise.
    let cfg = init_filter();
    assert_eq!(cfg.f.rows, 4);
    assert_eq!(cfg.f.get(0, 0), SCALE);
    assert_eq!(cfg.f.get(0, 2), DT);
    assert_eq!(cfg.f.get(1, 3), DT);
    assert_eq!(cfg.f.get(2, 2), SCALE);
    assert_eq!(cfg.f.get(1, 0), 0);
    assert_eq!(cfg.h.rows, 2);
    assert_eq!(cfg.h.get(0, 0), SCALE);
    assert_eq!(cfg.h.get(1, 1), SCALE);
    assert_eq!(cfg.h.get(0, 2), 0);
    assert_eq!(cfg.q.get(0, 0), 10 * SCALE);
    assert_eq!(cfg.q.get(0, 1), 0);
    assert_eq!(cfg.r.get(0, 0), 10000 * SCALE);
    assert_eq!(cfg.r.get(1, 1), 10000 * SCALE);
    assert_eq!(cfg.x0.get(0, 0), 0);
    assert_eq!(cfg.x0.get(1, 0), SCALE);
    assert_eq!(cfg.x0.get(2, 0), 10 * SCALE);
    assert_eq!(cfg.x0.get(3, 0), 100 * SCALE);
    assert_eq!(cfg.p0.get(2, 2), 10 * SCALE);
    assert_eq!(DT, SCALE / 60);
}

#[test]
fn matrix_product_rounds_toward_zero() {
    // 1.5 * 2 = 3 exactly; a sub-unit product truncates to zero.
    let a = m(vec![vec![3 * SCALE / 2, 2 * SCALE], vec![0, SCALE]]);
    let b = m(vec![vec![2 * SCALE, 0], vec![SCALE, SCALE]]);
    let p = a.mul(&b).unwrap();
    assert_eq!(p.get(0, 0), 5 * SCALE);
    assert_eq!(p.get(0, 1), 2 * SCALE);
    assert_eq!(p.get(1, 0), SCALE);
    assert_eq!(p.get(1, 1), SCALE);

    let tiny = m(vec![vec![1]]);
    let half = m(vec![vec![SCALE / 2]]);
    let tp = tiny.mul(&half).unwrap();
    assert_eq!(tp.get(0, 0), 0);

    let t = a.transpose();
    assert_eq!(t.get(0, 1), 0);
    assert_eq!(t.get(1, 0), 2 * SCALE);

    let s = a.add(&b).unwrap();
    assert_eq!(s.get(0, 0), 7 * SCALE / 2);
    let d = a.sub(&b).unwrap();
    assert_eq!(d.get(0, 0), -SCALE / 2);
}

#[test]
fn update_error_leaves_inputs_untouched() {
    // After an error the caller sees the untouched belief.
    let cfg = scalar_config(0, 0, 5 * SCALE, 0);
    let st = initial_state(&cfg);
    let pred = predict(&cfg, &st).unwrap();
    let z = m(vec![vec![SCALE]]);
    let res: Result<FilterState, FilterError> = update(&cfg, &pred, &z);
    assert!(res.is_err());
    assert_eq!(st.mean.get(0, 0), 5 * SCALE);
}
