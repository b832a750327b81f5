//! The estimation loop: a state machine that, once per tick, samples a
//! noisy measurement of the true position, runs predict then update, and
//! packages the result for the stream.
//!
//! The loop is `Running` until its tick budget is exhausted, a filter step
//! fails, or a push finds the receiving side gone; each of these moves it
//! to `Stopped`. The caller owns the outside world: it advances the
//! dynamics and hands in the true position each tick.

use vstd::prelude::*;

verus! {

use crate::filter::{
    FilterConfig, FilterState, FilterError, ConfigError, predict, update, initial_state,
    spec_predict_mean, spec_predict_cov, spec_predict_fits, spec_update_mean, spec_update_cov,
    spec_update_pre_fits, spec_update_post_fits, spec_det,
};
use crate::matrix::Mat;
use crate::noise::{NoiseModel, sample_window_fits};
use crate::stream::{ResultStream, ResultRecord};
use crate::fx::lemma_mul_bound;

/// Whether the loop still produces records.
#[derive(Clone, Copy, PartialEq, Eq, Structural, Debug)]
pub enum LoopStatus {
    /// Ticking: each call of `step` produces a record.
    Running,
    /// The tick budget ran out, a step failed, or the consumer is gone.
    Stopped,
}

/// The producer side of the pipeline: filter, noise model and tick
/// bookkeeping.
pub struct EstimationLoop {
    /// The immutable filter model.
    pub config: FilterConfig,
    /// The sensor perturbation model.
    pub noise: NoiseModel,
    /// The current belief, replaced wholesale each tick.
    pub state: FilterState,
    /// Ticks completed so far.
    pub ticks_done: u64,
    /// The fixed tick budget.
    pub max_ticks: u64,
    /// Fixed timestep per tick, in fixed point.
    pub dt: i64,
    /// Simulation time, `ticks_done` timesteps, in fixed point.
    pub time: i64,
    /// Whether the loop still produces records.
    pub status: LoopStatus,
}

/// Two-component measurement column.
fn meas2(a: i64, b: i64) -> (m: Mat)
    ensures
        m.wf(),
        m.rows == 2,
        m.cols == 1,
        m@ == seq![seq![a as int], seq![b as int]],
{
    let mut row0: Vec<i64> = Vec::new();
    row0.push(a);
    let mut row1: Vec<i64> = Vec::new();
    row1.push(b);
    let mut rows: Vec<Vec<i64>> = Vec::new();
    rows.push(row0);
    rows.push(row1);
    let m = Mat { rows: 2, cols: 1, e: rows };
    proof {
        assert(m@ =~~= seq![seq![a as int], seq![b as int]]);
    }
    m
}

/// The update chain goes through at one concrete measurement: every
/// intermediate fits and the innovation covariance is invertible.
pub open spec fn step_measurement_ok(
    cfg: FilterConfig,
    mean: Seq<Seq<int>>,
    cov: Seq<Seq<int>>,
    zx: int,
    zy: int,
) -> bool {
    &&& spec_update_pre_fits(cfg, mean, cov, seq![seq![zx], seq![zy]])
    &&& spec_det(cfg, cov) != 0
    &&& spec_update_post_fits(cfg, mean, cov, seq![seq![zx], seq![zy]])
}

impl EstimationLoop {
    /// Success is owed for a tick with these true positions: both
    /// six-sigma sampling windows are storable, the prediction fits, and
    /// the update goes through at every measurement those windows allow.
    pub open spec fn step_succeeds(self, true_x: i64, true_y: i64) -> bool {
        &&& sample_window_fits(self.noise.sigma, true_x)
        &&& sample_window_fits(self.noise.sigma, true_y)
        &&& spec_predict_fits(self.config, self.state.mean@, self.state.cov@)
        &&& forall|zx: int, zy: int|
            true_x - 6 * self.noise.sigma <= zx <= true_x + 6 * self.noise.sigma && true_y - 6
                * self.noise.sigma <= zy <= true_y + 6 * self.noise.sigma
                ==> #[trigger] step_measurement_ok(
                self.config,
                spec_predict_mean(self.config, self.state.mean@),
                spec_predict_cov(self.config, self.state.cov@),
                zx,
                zy,
            )
    }

    /// The pieces agree: both position components are observed, the tick
    /// clock cannot overflow, and a running loop still has budget.
    pub open spec fn wf(self) -> bool {
        &&& self.config.wf()
        &&& self.state.wf(self.config)
        &&& self.noise.wf()
        &&& self.config.m_dim() == 2
        &&& self.config.n_dim() >= 2
        &&& self.dt > 0
        &&& self.ticks_done <= self.max_ticks
        &&& self.time as int == self.ticks_done as int * self.dt as int
        &&& self.max_ticks as int * self.dt as int <= i64::MAX as int
        &&& (self.status == LoopStatus::Running ==> self.ticks_done < self.max_ticks)
    }

    /// Assembles a loop at tick zero with the configured initial belief.
    pub fn new(config: FilterConfig, noise: NoiseModel, max_ticks: u64, dt: i64) -> (r: Result<
        EstimationLoop,
        ConfigError,
    >)
        requires
            config.wf(),
            noise.wf(),
        ensures
            r matches Ok(lp) ==> {
                &&& lp.wf()
                &&& lp.config == config
                &&& lp.noise == noise
                &&& lp.max_ticks == max_ticks
                &&& lp.dt == dt
                &&& lp.ticks_done == 0
                &&& lp.time == 0
                &&& lp.state.mean@ == config.x0@
                &&& lp.state.cov@ == config.p0@
                &&& (lp.status == LoopStatus::Running <==> max_ticks > 0)
            },
            r is Ok <==> (config.m_dim() == 2 && config.n_dim() >= 2 && dt > 0 && max_ticks as int
                * dt as int <= i64::MAX as int),
            r is Err ==> r == Err::<EstimationLoop, ConfigError>(ConfigError::MismatchedDimensions),
    {
        if config.h.rows != 2 || config.f.rows < 2 || dt <= 0 {
            return Err(ConfigError::MismatchedDimensions);
        }
        proof {
            lemma_mul_bound(
                max_ticks as int,
                dt as int,
                0xFFFF_FFFF_FFFF_FFFF,
                0x7FFF_FFFF_FFFF_FFFF,
            );
        }
        let total: i128 = (max_ticks as i128) * (dt as i128);
        if total > i64::MAX as i128 {
            return Err(ConfigError::MismatchedDimensions);
        }
        let st = initial_state(&config);
        let status = if max_ticks == 0 {
            LoopStatus::Stopped
        } else {
            LoopStatus::Running
        };
        Ok(
            EstimationLoop {
                config,
                noise,
                state: st,
                ticks_done: 0,
                max_ticks,
                dt,
                time: 0,
                status,
            },
        )
    }

    /// One tick: sample a noisy measurement of the true position, predict,
    /// update, and report the packaged record. On any failure the loop
    /// stops with the belief and clock untouched.
    pub fn step(&mut self, true_x: i64, true_y: i64) -> (r: Result<ResultRecord, FilterError>)
        requires
            old(self).wf(),
            old(self).status == LoopStatus::Running,
        ensures
            final(self).wf(),
            final(self).config == old(self).config,
            final(self).noise == old(self).noise,
            final(self).max_ticks == old(self).max_ticks,
            final(self).dt == old(self).dt,
            r matches Ok(rec) ==> {
                &&& rec.true_x == true_x
                &&& rec.true_y == true_y
                &&& -6 * old(self).noise.sigma <= rec.measured_x - true_x
                &&& rec.measured_x - true_x <= 6 * old(self).noise.sigma
                &&& -6 * old(self).noise.sigma <= rec.measured_y - true_y
                &&& rec.measured_y - true_y <= 6 * old(self).noise.sigma
                &&& rec.time == old(self).time + old(self).dt
                &&& final(self).time == rec.time
                &&& final(self).ticks_done == old(self).ticks_done + 1
                &&& (final(self).status == LoopStatus::Running <==> final(self).ticks_done
                    < final(self).max_ticks)
                &&& final(self).state.mean@ == spec_update_mean(
                    old(self).config,
                    spec_predict_mean(old(self).config, old(self).state.mean@),
                    spec_predict_cov(old(self).config, old(self).state.cov@),
                    seq![seq![rec.measured_x as int], seq![rec.measured_y as int]],
                )
                &&& final(self).state.cov@ == spec_update_cov(
                    old(self).config,
                    spec_predict_cov(old(self).config, old(self).state.cov@),
                )
                &&& rec.estimated_x as int == final(self).state.mean@[0][0]
                &&& rec.estimated_y as int == final(self).state.mean@[1][0]
            },
            r is Err ==> {
                &&& final(self).status == LoopStatus::Stopped
                &&& final(self).state == old(self).state
                &&& final(self).ticks_done == old(self).ticks_done
                &&& final(self).time == old(self).time
            },
            old(self).step_succeeds(true_x, true_y) ==> r is Ok,
            !spec_predict_fits(old(self).config, old(self).state.mean@, old(self).state.cov@)
                ==> r is Err,
    {
        let mx = match self.noise.sample(true_x) {
            Some(v) => v,
            None => {
                self.status = LoopStatus::Stopped;
                return Err(FilterError::ArithmeticOverflow);
            },
        };
        let my = match self.noise.sample(true_y) {
            Some(v) => v,
            None => {
                self.status = LoopStatus::Stopped;
                return Err(FilterError::ArithmeticOverflow);
            },
        };
        let z = meas2(mx, my);
        let pred = match predict(&self.config, &self.state) {
            Ok(s) => s,
            Err(e) => {
                self.status = LoopStatus::Stopped;
                return Err(e);
            },
        };
        let corrected = match update(&self.config, &pred, &z) {
            Ok(s) => s,
            Err(e) => {
                proof {
                    if old(self).step_succeeds(true_x, true_y) {
                        assert(step_measurement_ok(
                            old(self).config,
                            spec_predict_mean(old(self).config, old(self).state.mean@),
                            spec_predict_cov(old(self).config, old(self).state.cov@),
                            mx as int,
                            my as int,
                        ));
                    }
                }
                self.status = LoopStatus::Stopped;
                return Err(e);
            },
        };
        let ex = corrected.mean.get(0, 0);
        let ey = corrected.mean.get(1, 0);
        self.state = corrected;
        proof {
            let td = self.ticks_done as int;
            let dt = self.dt as int;
            let mt = self.max_ticks as int;
            assert((td + 1) * dt <= mt * dt) by (nonlinear_arith)
                requires td + 1 <= mt && dt > 0;
            assert(td * dt + dt == (td + 1) * dt) by (nonlinear_arith);
        }
        let t = self.time + self.dt;
        self.time = t;
        self.ticks_done = self.ticks_done + 1;
        if self.ticks_done == self.max_ticks {
            self.status = LoopStatus::Stopped;
        }
        Ok(
            ResultRecord {
                time: t,
                measured_x: mx,
                measured_y: my,
                estimated_x: ex,
                estimated_y: ey,
                true_x,
                true_y,
            },
        )
    }

    /// One tick followed by delivery: the record goes onto the stream. A
    /// gone receiver is a clean shutdown signal, not an error: the loop
    /// stops and the call still succeeds.
    pub fn run_tick(&mut self, stream: &mut ResultStream, true_x: i64, true_y: i64) -> (r: Result<
        (),
        FilterError,
    >)
        requires
            old(self).wf(),
            old(self).status == LoopStatus::Running,
        ensures
            final(self).wf(),
            final(stream).receiver_open == old(stream).receiver_open,
            final(stream).sender_open == old(stream).sender_open,
            r is Err ==> final(self).status == LoopStatus::Stopped && final(stream)@ == old(stream)@,
            r is Ok && !old(stream).receiver_open ==> final(self).status == LoopStatus::Stopped
                && final(stream)@ == old(stream)@,
            r is Ok && old(stream).receiver_open ==> {
                &&& final(stream)@.len() == old(stream)@.len() + 1
                &&& final(stream)@.subrange(0, old(stream)@.len() as int) == old(stream)@
                &&& final(stream)@.last().true_x == true_x
                &&& final(stream)@.last().true_y == true_y
                &&& final(stream)@.last().time == old(self).time + old(self).dt
                &&& -6 * old(self).noise.sigma <= final(stream)@.last().measured_x - true_x
                &&& final(stream)@.last().measured_x - true_x <= 6 * old(self).noise.sigma
                &&& -6 * old(self).noise.sigma <= final(stream)@.last().measured_y - true_y
                &&& final(stream)@.last().measured_y - true_y <= 6 * old(self).noise.sigma
                &&& final(self).state.mean@ == spec_update_mean(
                    old(self).config,
                    spec_predict_mean(old(self).config, old(self).state.mean@),
                    spec_predict_cov(old(self).config, old(self).state.cov@),
                    seq![
                        seq![final(stream)@.last().measured_x as int],
                        seq![final(stream)@.last().measured_y as int],
                    ],
                )
                &&& final(self).state.cov@ == spec_update_cov(
                    old(self).config,
                    spec_predict_cov(old(self).config, old(self).state.cov@),
                )
                &&& final(stream)@.last().estimated_x as int == final(self).state.mean@[0][0]
                &&& final(stream)@.last().estimated_y as int == final(self).state.mean@[1][0]
            },
            old(self).step_succeeds(true_x, true_y) ==> r is Ok,
    {
        let rec = match self.step(true_x, true_y) {
            Ok(rec) => rec,
            Err(e) => {
                return Err(e);
            },
        };
        match stream.push(rec) {
            Ok(_) => {
                proof {
                    assert(stream@.subrange(0, old(stream)@.len() as int) =~= old(stream)@);
                }
                Ok(())
            },
            Err(_) => {
                self.status = LoopStatus::Stopped;
                Ok(())
            },
        }
    }
}

} // verus!
