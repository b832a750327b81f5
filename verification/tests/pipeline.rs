use ballistic_kalman::estimation::{EstimationLoop, LoopStatus};
use ballistic_kalman::filter::ConfigError;
use ballistic_kalman::fx::SCALE;
use ballistic_kalman::kalman::{init_filter, DT};
use ballistic_kalman::noise::{deviate_from_words, NoiseModel, NOISE_DRAWS};
use ballistic_kalman::stream::{PopOutcome, ResultRecord, ResultStream};

fn record(time: i64) -> ResultRecord {
    ResultRecord {
        time,
        measured_x: time + 1,
        measured_y: time + 2,
        estimated_x: time + 3,
        estimated_y: time + 4,
        true_x: time + 5,
        true_y: time + 6,
    }
}

#[test]
fn stream_is_fifo_over_three_thousand_records() {
    // Push records with strictly increasing times, then drain: same
    // order, none lost, none duplicated.
    let mut s = ResultStream::new();
    for t in 0..3000i64 {
        s.push(record(t)).unwrap();
    }
    assert_eq!(s.len(), 3000);
    for t in 0..3000i64 {
        match s.try_pop() {
            PopOutcome::Item(r) => {
                assert_eq!(r.time, t);
                assert_eq!(r.measured_x, t + 1);
                assert_eq!(r.true_y, t + 6);
            }
            _ => panic!("record {} missing", t),
        }
    }
    assert!(matches!(s.try_pop(), PopOutcome::Empty));
}

#[test]
fn stream_tells_quiet_from_finished() {
    let mut s = ResultStream::new();
    assert!(matches!(s.try_pop(), PopOutcome::Empty));
    s.push(record(1)).unwrap();
    s.close_sender();
    assert!(matches!(s.try_pop(), PopOutcome::Item(_)));
    assert!(matches!(s.try_pop(), PopOutcome::Ended));
}

#[test]
fn push_fails_once_receiver_is_gone() {
    let mut s = ResultStream::new();
    s.push(record(1)).unwrap();
    s.close_receiver();
    assert!(s.push(record(2)).is_err());
    assert_eq!(s.len(), 1);
}

#[test]
fn negative_noise_magnitude_is_refused() {
    match NoiseModel::new(-1) {
        Err(ConfigError::NegativeNoise) => {}
        _ => panic!("a negative sigma must be refused"),
    }
    assert!(NoiseModel::new(0).is_ok());
}

#[test]
fn deviate_shaping_is_exact() {
    // All-zero words: every unit draw is 0, the centred sum is -6, and
    // scaling by sigma = 1 gives exactly -6.
    let zeros = vec![0u64; NOISE_DRAWS];
    assert_eq!(deviate_from_words(&zeros, SCALE).unwrap(), -6 * SCALE);
    // Words at one half: the centred sum is exactly zero.
    let halves = vec![500_000_000u64; NOISE_DRAWS];
    assert_eq!(deviate_from_words(&halves, SCALE).unwrap(), 0);
    // A zero sigma flattens any draw.
    let anything = vec![0xDEADBEEFu64; NOISE_DRAWS];
    assert_eq!(deviate_from_words(&anything, 0).unwrap(), 0);
}

#[test]
fn zero_sigma_sampling_is_exact() {
    let nm = NoiseModel::new(0).unwrap();
    assert_eq!(nm.sample(123_456_789).unwrap(), 123_456_789);
}

#[test]
fn noise_statistics_match_the_model() {
    // Ten thousand draws with sigma = 2: sample mean within 0.1 of zero,
    // sample standard deviation within 0.1 of 2.
    let nm = NoiseModel::new(2 * SCALE).unwrap();
    let n = 10_000usize;
    let mut xs: Vec<f64> = Vec::with_capacity(n);
    for _ in 0..n {
        let v = nm.sample(0).unwrap();
        xs.push(v as f64 / SCALE as f64);
    }
    let mean = xs.iter().sum::<f64>() / n as f64;
    let var = xs.iter().map(|x| (x - mean) * (x - mean)).sum::<f64>() / (n - 1) as f64;
    let sd = var.sqrt();
    assert!(mean.abs() < 0.1, "sample mean {} too far from 0", mean);
    assert!((sd - 2.0).abs() < 0.1, "sample standard deviation {} too far from 2", sd);
}

#[test]
fn samples_stay_within_six_sigma() {
    let nm = NoiseModel::new(2 * SCALE).unwrap();
    for _ in 0..1000 {
        let v = nm.sample(1000).unwrap();
        assert!((v - 1000).abs() <= 12 * SCALE);
    }
}

#[test]
fn loop_produces_records_with_the_tick_clock() {
    let cfg = init_filter();
    let nm = NoiseModel::new(20 * SCALE).unwrap();
    let mut lp = EstimationLoop::new(cfg, nm, 3000, DT).unwrap();
    assert_eq!(lp.status, LoopStatus::Running);
    let rec = lp.step(0, SCALE).unwrap();
    assert_eq!(rec.time, DT);
    assert_eq!(rec.true_x, 0);
    assert_eq!(rec.true_y, SCALE);
    assert!((rec.measured_y - SCALE).abs() <= 6 * 20 * SCALE);
    let rec2 = lp.step(SCALE / 6, SCALE).unwrap();
    assert_eq!(rec2.time, 2 * DT);
    assert_eq!(lp.ticks_done, 2);
    assert_eq!(lp.status, LoopStatus::Running);
}

#[test]
fn loop_stops_when_budget_is_exhausted() {
    let cfg = init_filter();
    let nm = NoiseModel::new(SCALE).unwrap();
    let mut lp = EstimationLoop::new(cfg, nm, 3, DT).unwrap();
    let mut stream = ResultStream::new();
    for t in 0..3i64 {
        lp.run_tick(&mut stream, t, t).unwrap();
    }
    assert_eq!(lp.status, LoopStatus::Stopped);
    assert_eq!(stream.len(), 3);
}

#[test]
fn loop_detects_dropped_receiver_within_one_tick() {
    // Ten delivered pushes, then the consumer lets go: the very next
    // tick must stop the loop cleanly, with nothing queued behind it.
    let cfg = init_filter();
    let nm = NoiseModel::new(20 * SCALE).unwrap();
    let mut lp = EstimationLoop::new(cfg, nm, 3000, DT).unwrap();
    let mut stream = ResultStream::new();
    for t in 0..10i64 {
        lp.run_tick(&mut stream, t * SCALE, t * SCALE).unwrap();
    }
    assert_eq!(stream.len(), 10);
    assert_eq!(lp.status, LoopStatus::Running);
    stream.close_receiver();
    lp.run_tick(&mut stream, 11 * SCALE, 11 * SCALE).unwrap();
    assert_eq!(lp.status, LoopStatus::Stopped);
    assert_eq!(stream.len(), 10);
}

#[test]
fn demo_run_completes_without_filter_errors() {
    // A full tick budget against a moving target: with the demo's
    // positive-definite measurement noise, no tick ever reports a
    // singular innovation covariance or an overflow.
    let cfg = init_filter();
    let nm = NoiseModel::new(20 * SCALE).unwrap();
    let mut lp = EstimationLoop::new(cfg, nm, 3000, DT).unwrap();
    let mut t: i64 = 0;
    while lp.status == LoopStatus::Running {
        let tx = (t % 2000) * (SCALE / 2);
        let ty = (1000 - (t % 2000)).abs() * (SCALE / 4);
        lp.step(tx, ty).expect("a demo tick must not fail");
        t += 1;
    }
    assert_eq!(lp.ticks_done, 3000);
    assert_eq!(t, 3000);
}

#[test]
fn loop_refuses_a_misfitting_configuration() {
    let cfg = init_filter();
    let nm = NoiseModel::new(SCALE).unwrap();
    match EstimationLoop::new(cfg, nm, 3000, 0) {
        Err(ConfigError::MismatchedDimensions) => {}
        _ => panic!("a zero timestep must be refused"),
    }
}

#[test]
fn estimates_follow_a_constant_position() {
    // Drive the tracking loop with a still target and no noise: the
    // estimated position must home in on the true one.
    let cfg = init_filter();
    let nm = NoiseModel::new(0).unwrap();
    let mut lp = EstimationLoop::new(cfg, nm, 3000, DT).unwrap();
    let tx = 5 * SCALE;
    let ty = 3 * SCALE;
    let mut rec = lp.step(tx, ty).unwrap();
    for _ in 0..1200 {
        rec = lp.step(tx, ty).unwrap();
    }
    let ex = rec.estimated_x as f64 / SCALE as f64;
    let ey = rec.estimated_y as f64 / SCALE as f64;
    assert!((ex - 5.0).abs() < 0.1, "estimated x {} far from 5", ex);
    assert!((ey - 3.0).abs() < 0.1, "estimated y {} far from 3", ey);
}
