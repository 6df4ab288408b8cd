//! The PID controller: configuration, internal state, and the per-tick
//! update step.
//!
//! All quantities are fixed-point numbers held in `i64`, with [`SCALE`]
//! units to one. Elapsed time is an [`Interval`] counted in whole
//! nanoseconds, so an interval's nanosecond count is also the fixed-point
//! representation of its length in seconds. Products of two fixed-point
//! numbers are computed in `i128` and brought back to scale by a
//! truncating division, whose exact result the contracts state through
//! [`div_trunc`].

use vstd::prelude::*;

verus! {

use crate::math::Math;

/// Fixed-point units in 1.0; also the nanoseconds in one second.
pub const SCALE: i64 = 1_000_000_000;

/// A strictly measured elapsed-time interval, counted in whole nanoseconds.
#[derive(Debug, Clone, Copy, PartialEq, Eq, Structural)]
pub struct Interval {
    /// The length of the interval in nanoseconds.
    pub nanos: u64,
}

impl Interval {
    /// The interval's length in nanoseconds, as a mathematical integer.
    pub open spec fn as_int(self) -> int {
        self.nanos as int
    }

    /// Builds an interval from a nanosecond count.
    pub fn from_nanos(nanos: u64) -> (r: Self)
        ensures
            r.nanos == nanos,
    {
        Interval { nanos }
    }

    /// Builds an interval from a microsecond count.
    pub fn from_micros(micros: u64) -> (r: Self)
        requires
            micros * 1_000 <= u64::MAX,
        ensures
            r.nanos == micros * 1_000,
    {
        Interval { nanos: micros * 1_000 }
    }

    /// Builds an interval from a millisecond count.
    pub fn from_millis(millis: u64) -> (r: Self)
        requires
            millis * 1_000_000 <= u64::MAX,
        ensures
            r.nanos == millis * 1_000_000,
    {
        Interval { nanos: millis * 1_000_000 }
    }

    /// Builds an interval from a whole-second count.
    pub fn from_secs(secs: u64) -> (r: Self)
        requires
            secs * 1_000_000_000 <= u64::MAX,
        ensures
            r.nanos == secs * 1_000_000_000,
    {
        Interval { nanos: secs * 1_000_000_000 }
    }

    /// Whether the interval is zero. A zero interval is never a valid
    /// argument to [`PidController::update`].
    pub fn is_zero(&self) -> (r: bool)
        ensures
            r == (self.nanos == 0),
    {
        self.nanos == 0
    }
}

/// Whether `x` is representable in `i64`.
pub open spec fn in_i64(x: int) -> bool {
    i64::MIN <= x <= i64::MAX
}

/// Whether `x` lies in the symmetric `i128` range, so both `x` and `-x`
/// are representable in `i128`.
pub open spec fn in_i128(x: int) -> bool {
    -i128::MAX <= x <= i128::MAX
}

/// Integer division of `a` by a positive `b`, truncating toward zero:
/// the rounding the controller's fixed-point arithmetic performs.
pub open spec fn div_trunc(a: int, b: int) -> int
    recommends
        b > 0,
{
    if a >= 0 {
        a / b
    } else {
        -((-a) / b)
    }
}

/// Truncating division on `i128`, matching [`div_trunc`].
fn div_trunc_i128(a: i128, b: i128) -> (q: i128)
    requires
        b > 0,
        a != i128::MIN,
    ensures
        q == div_trunc(a as int, b as int),
{
    if a >= 0 {
        let qa: u128 = (a as u128) / (b as u128);
        proof {
            lemma_div_shrinks(a as int, b as int);
        }
        qa as i128
    } else {
        let na: u128 = (-a) as u128;
        let qa: u128 = na / (b as u128);
        proof {
            lemma_div_shrinks(-(a as int), b as int);
        }
        -(qa as i128)
    }
}

/// For nonnegative `a` and positive `b`, the quotient is at most `a`.
proof fn lemma_div_shrinks(a: int, b: int)
    requires
        a >= 0,
        b > 0,
    ensures
        0 <= a / b <= a,
{
    assert(0 <= a / b <= a) by (nonlinear_arith)
        requires
            a >= 0,
            b > 0,
    ;
}

/// A Proportional-Integral-Derivative controller.
///
/// The gains and the integrator zone are plain configuration, readable and
/// writable by the owner between update calls; the two internal state
/// fields are private and observable through the controller's view (a
/// [`PidModel`]) alone.
#[derive(Debug, Clone, Copy, PartialEq)]
pub struct PidController {
    /// The proportional gain, in fixed-point units.
    pub kp: i64,
    /// The integral gain, in fixed-point units per second.
    pub ki: i64,
    /// The derivative gain, in fixed-point units times seconds.
    pub kd: i64,
    /// The range of error magnitudes for which the integrator accumulates.
    /// When the absolute value of the error exceeds this bound, the
    /// accumulator is reset to zero instead (anti-windup); when absent, the
    /// accumulator grows without bound.
    pub integrator_zone: Option<i64>,
    last_position: i64,
    i: i64,
}

/// The mathematical model of a controller: its configuration together
/// with the two pieces of internal state, the latter as unbounded
/// integers. [`PidController`]'s view is a `PidModel`, and every contract
/// of the controller speaks of it.
pub ghost struct PidModel {
    /// The proportional gain.
    pub kp: i64,
    /// The integral gain.
    pub ki: i64,
    /// The derivative gain.
    pub kd: i64,
    /// The integrator zone, when one is set.
    pub integrator_zone: Option<i64>,
    /// The measured state passed to the most recent update call (zero
    /// right after construction).
    pub last_state: int,
    /// The integrator's running sum of `error * dt`, in fixed point.
    pub accumulator: int,
}

impl View for PidController {
    type V = PidModel;

    closed spec fn view(&self) -> PidModel {
        PidModel {
            kp: self.kp,
            ki: self.ki,
            kd: self.kd,
            integrator_zone: self.integrator_zone,
            last_state: self.last_position as int,
            accumulator: self.i as int,
        }
    }
}

/// The error the controller steers on: `setpoint - state`.
pub open spec fn spec_error(setpoint: i64, state: i64) -> int {
    setpoint - state
}

/// Whether an update with error `error` resets the integrator: true
/// exactly when a zone is set and the error magnitude exceeds it.
pub open spec fn integrator_resets(i_zone: Option<i64>, error: int) -> bool {
    match i_zone {
        Option::Some(z) => vstd::math::abs(error) > z,
        Option::None => false,
    }
}

/// The accumulator after one update: reset to zero outside the integrator
/// zone, otherwise increased by `error` times the interval in seconds
/// (`error * dtn / SCALE` in fixed point, truncating).
pub open spec fn next_accumulator(acc: int, i_zone: Option<i64>, error: int, dtn: int) -> int {
    if integrator_resets(i_zone, error) {
        0
    } else {
        acc + div_trunc(error * dtn, SCALE as int)
    }
}

/// The proportional term: `kp * error`, in fixed point.
pub open spec fn proportional_term(kp: i64, error: int) -> int {
    div_trunc(kp * error, SCALE as int)
}

/// The integral term: `ki * acc`, in fixed point, where `acc` is the
/// accumulator already updated by the current call.
pub open spec fn integral_term(ki: i64, acc: int) -> int {
    div_trunc(ki * acc, SCALE as int)
}

/// The derivative term: `kd * delta / dt_seconds`, in fixed point, where
/// `delta` is the change of the measured state since the previous call.
/// With `dtn` nanoseconds to the interval this is `kd * delta / dtn`.
pub open spec fn derivative_term(kd: i64, delta: int, dtn: int) -> int {
    div_trunc(kd * delta, dtn)
}

/// The model a freshly constructed controller has: the given
/// configuration with both internal state fields zero.
pub open spec fn spec_new(kp: i64, ki: i64, kd: i64, i_zone: Option<i64>) -> PidModel {
    PidModel {
        kp,
        ki,
        kd,
        integrator_zone: i_zone,
        last_state: 0,
        accumulator: 0,
    }
}

/// The model the PD-only constructor yields: `spec_new` with a zero
/// integral gain and no integrator zone.
pub open spec fn spec_new_pd(kp: i64, kd: i64) -> PidModel {
    PidModel {
        kp,
        ki: 0,
        kd,
        integrator_zone: Option::None,
        last_state: 0,
        accumulator: 0,
    }
}

/// The model after one update call with the given setpoint, measured
/// state, and interval of `dtn` nanoseconds: the configuration is kept,
/// the accumulator moves by [`next_accumulator`], and `last_state`
/// becomes the state just measured.
pub open spec fn spec_step(m: PidModel, setpoint: i64, state: i64, dtn: int) -> PidModel {
    PidModel {
        last_state: state as int,
        accumulator: next_accumulator(
            m.accumulator,
            m.integrator_zone,
            spec_error(setpoint, state),
            dtn,
        ),
        ..m
    }
}

/// The output of one update call: the sum of the proportional term on
/// the current error, the integral term on the accumulator as already
/// updated by this call, and the derivative term on the change of the
/// measured state since the previous call.
pub open spec fn spec_output(m: PidModel, setpoint: i64, state: i64, dtn: int) -> int {
    let e = spec_error(setpoint, state);
    let acc = next_accumulator(m.accumulator, m.integrator_zone, e, dtn);
    proportional_term(m.kp, e) + integral_term(m.ki, acc) + derivative_term(
        m.kd,
        state - m.last_state,
        dtn,
    )
}

/// Whether one update call stays within the machine's integer ranges:
/// the products fit the `i128` the arithmetic runs in, and the new
/// accumulator, each term, and the output fit the `i64` they are stored
/// or returned in. These are representation limits only; within them the
/// update is exact.
pub open spec fn update_fits(m: PidModel, setpoint: i64, state: i64, dtn: int) -> bool {
    let e = spec_error(setpoint, state);
    let acc = next_accumulator(m.accumulator, m.integrator_zone, e, dtn);
    let delta = state - m.last_state;
    &&& (integrator_resets(m.integrator_zone, e) || in_i128(e * dtn))
    &&& in_i128(m.kp * e)
    &&& in_i128(m.ki * acc)
    &&& in_i128(m.kd * delta)
    &&& in_i64(acc)
    &&& in_i64(proportional_term(m.kp, e))
    &&& in_i64(integral_term(m.ki, acc))
    &&& in_i64(derivative_term(m.kd, delta, dtn))
    &&& in_i64(spec_output(m, setpoint, state, dtn))
}

impl PidController {
    /// Creates a new PID controller with the given gains and integrator
    /// zone.
    pub fn new_pid(kp: i64, ki: i64, kd: i64, i_zone: Option<i64>) -> (r: Self)
        ensures
            r@ == spec_new(kp, ki, kd, i_zone),
    {
        PidController {
            kp,
            ki,
            kd,
            integrator_zone: i_zone,
            last_position: 0,
            i: 0,
        }
    }

    /// Creates a new PD controller: the given `kp` and `kd`, a zero
    /// integral gain, and no integrator zone.
    pub fn new_pd(kp: i64, kd: i64) -> (r: Self)
        ensures
            r@ == spec_new_pd(kp, kd),
    {
        PidController {
            kp,
            ki: 0,
            kd,
            integrator_zone: Option::None,
            last_position: 0,
            i: 0,
        }
    }

    /// Updates the controller with the given setpoint, measured state,
    /// and elapsed time, and returns the correction output.
    ///
    /// A zero interval is a caller bug (the derivative term would divide
    /// by zero) and is excluded by contract; the update cannot be called
    /// with it. Within the representation limits of [`update_fits`] the
    /// call always succeeds, moves the state exactly as [`spec_step`]
    /// says, and returns exactly [`spec_output`].
    pub fn update(&mut self, setpoint: i64, state: i64, dt: Interval) -> (out: i64)
        requires
            dt.nanos > 0,
            update_fits(old(self)@, setpoint, state, dt.as_int()),
        ensures
            final(self)@ == spec_step(old(self)@, setpoint, state, dt.as_int()),
            out as int == spec_output(old(self)@, setpoint, state, dt.as_int()),
    {
        let dtn: i128 = dt.nanos as i128;
        let e: i128 = (setpoint as i128) - (state as i128);

        let resets: bool = match self.integrator_zone {
            Option::Some(z) => Math::abs(e) > (z as i128),
            Option::None => false,
        };
        if resets {
            self.i = 0;
        } else {
            let inc: i128 = div_trunc_i128(e * dtn, SCALE as i128);
            let acc: i128 = (self.i as i128) + inc;
            self.i = acc as i64;
        }

        let p: i128 = div_trunc_i128((self.kp as i128) * e, SCALE as i128);
        let it: i128 = div_trunc_i128((self.ki as i128) * (self.i as i128), SCALE as i128);
        let delta: i128 = (state as i128) - (self.last_position as i128);
        let d: i128 = div_trunc_i128((self.kd as i128) * delta, dtn);
        let output: i128 = p + it + d;

        self.last_position = state;

        output as i64
    }

    /// Updates the controller like [`PidController::update`], checking the
    /// representation limits at run time instead of by contract: exactly
    /// when [`update_fits`] holds it moves the state and returns the
    /// output in `Some`; otherwise it leaves the controller unchanged and
    /// returns `None`. A zero interval stays a caller bug, excluded by
    /// contract.
    pub fn try_update(&mut self, setpoint: i64, state: i64, dt: Interval) -> (out: Option<i64>)
        requires
            dt.nanos > 0,
        ensures
            out is Some <==> update_fits(old(self)@, setpoint, state, dt.as_int()),
            out is Some ==> final(self)@ == spec_step(old(self)@, setpoint, state, dt.as_int()),
            out is Some ==> out->0 as int == spec_output(old(self)@, setpoint, state, dt.as_int()),
            out is None ==> *final(self) == *old(self),
    {
        let dtn: i128 = dt.nanos as i128;
        let e: i128 = (setpoint as i128) - (state as i128);

        let resets: bool = match self.integrator_zone {
            Option::Some(z) => Math::abs(e) > (z as i128),
            Option::None => false,
        };
        let new_acc: i64;
        if resets {
            new_acc = 0;
        } else {
            let prod: i128 = match e.checked_mul(dtn) {
                Option::Some(v) => v,
                Option::None => {
                    return Option::None;
                },
            };
            if prod == i128::MIN {
                return Option::None;
            }
            let inc: i128 = div_trunc_i128(prod, SCALE as i128);
            let acc: i128 = match (self.i as i128).checked_add(inc) {
                Option::Some(v) => v,
                Option::None => {
                    return Option::None;
                },
            };
            if acc > i64::MAX as i128 || acc < i64::MIN as i128 {
                return Option::None;
            }
            new_acc = acc as i64;
        }

        let pk: i128 = match (self.kp as i128).checked_mul(e) {
            Option::Some(v) => v,
            Option::None => {
                return Option::None;
            },
        };
        if pk == i128::MIN {
            return Option::None;
        }
        let p: i128 = div_trunc_i128(pk, SCALE as i128);
        if p > i64::MAX as i128 || p < i64::MIN as i128 {
            return Option::None;
        }

        let ik: i128 = match (self.ki as i128).checked_mul(new_acc as i128) {
            Option::Some(v) => v,
            Option::None => {
                return Option::None;
            },
        };
        if ik == i128::MIN {
            return Option::None;
        }
        let it: i128 = div_trunc_i128(ik, SCALE as i128);
        if it > i64::MAX as i128 || it < i64::MIN as i128 {
            return Option::None;
        }

        let delta: i128 = (state as i128) - (self.last_position as i128);
        let dk: i128 = match (self.kd as i128).checked_mul(delta) {
            Option::Some(v) => v,
            Option::None => {
                return Option::None;
            },
        };
        if dk == i128::MIN {
            return Option::None;
        }
        let d: i128 = div_trunc_i128(dk, dtn);
        if d > i64::MAX as i128 || d < i64::MIN as i128 {
            return Option::None;
        }

        let output: i128 = p + it + d;
        if output > i64::MAX as i128 || output < i64::MIN as i128 {
            return Option::None;
        }

        self.i = new_acc;
        self.last_position = state;
        Option::Some(output as i64)
    }
}

/// The model after a whole sequence of update calls, each given as
/// (setpoint, measured state, interval in nanoseconds).
pub open spec fn spec_run(m: PidModel, calls: Seq<(i64, i64, u64)>) -> PidModel
    decreases calls.len(),
{
    if calls.len() == 0 {
        m
    } else {
        spec_run(spec_step(m, calls[0].0, calls[0].1, calls[0].2 as int), calls.drop_first())
    }
}

/// The sum of the integrator increments `error * dt` of a sequence of
/// update calls, in fixed point.
pub open spec fn sum_of_increments(calls: Seq<(i64, i64, u64)>) -> int
    decreases calls.len(),
{
    if calls.len() == 0 {
        0
    } else {
        div_trunc(spec_error(calls[0].0, calls[0].1) * (calls[0].2 as int), SCALE as int)
            + sum_of_increments(calls.drop_first())
    }
}

/// Pure proportional law: with zero integral and derivative gains, one
/// update returns exactly the proportional term `kp * error`, whatever
/// the interval and whatever state the controller has accumulated.
pub proof fn lemma_pure_proportional(m: PidModel, setpoint: i64, state: i64, dtn: int)
    requires
        m.ki == 0,
        m.kd == 0,
        dtn > 0,
    ensures
        spec_output(m, setpoint, state, dtn) == proportional_term(
            m.kp,
            spec_error(setpoint, state),
        ),
{
    let e = spec_error(setpoint, state);
    let acc = next_accumulator(m.accumulator, m.integrator_zone, e, dtn);
    assert(integral_term(0, acc) == 0) by {
        lemma_div_of_zero(SCALE as int);
    }
    assert(derivative_term(0, state - m.last_state, dtn) == 0) by {
        lemma_div_of_zero(dtn);
    }
}

/// Derivative-memory law: for a fixed setpoint and a derivative-only
/// controller, two consecutive updates with measured states `s1` then
/// `s2` make the second call return `kd * (s2 - s1) / dt` — the
/// derivative is taken on the previous call's measured state, never on
/// the setpoint.
pub proof fn lemma_derivative_uses_previous_state(
    m: PidModel,
    setpoint: i64,
    s1: i64,
    s2: i64,
    dt1: int,
    dt2: int,
)
    requires
        m.kp == 0,
        m.ki == 0,
        dt1 > 0,
        dt2 > 0,
    ensures
        spec_output(spec_step(m, setpoint, s1, dt1), setpoint, s2, dt2) == derivative_term(
            m.kd,
            s2 - s1,
            dt2,
        ),
{
    let m1 = spec_step(m, setpoint, s1, dt1);
    let e = spec_error(setpoint, s2);
    let acc = next_accumulator(m1.accumulator, m1.integrator_zone, e, dt2);
    assert(proportional_term(0, e) == 0) by {
        lemma_div_of_zero(SCALE as int);
    }
    assert(integral_term(0, acc) == 0) by {
        lemma_div_of_zero(SCALE as int);
    }
}

/// Construction-defaults law: the PD-only constructor yields exactly the
/// model of the full constructor with a zero integral gain and no
/// integrator zone; since one update's output and next state are
/// functions of the model alone, the two controllers behave identically
/// under any sequence of update calls.
pub proof fn lemma_pd_only_defaults(kp: i64, kd: i64)
    ensures
        spec_new_pd(kp, kd) == spec_new(kp, 0, kd, Option::None),
        forall|calls: Seq<(i64, i64, u64)>|
            spec_run(spec_new_pd(kp, kd), calls) == spec_run(
                spec_new(kp, 0, kd, Option::None),
                calls,
            ),
{
}

/// Unbounded-zone law, one step: without an integrator zone the
/// accumulator is never reset; one update moves it by exactly
/// `error * dt`.
pub proof fn lemma_unbounded_zone_step(m: PidModel, setpoint: i64, state: i64, dtn: int)
    requires
        m.integrator_zone is None,
    ensures
        spec_step(m, setpoint, state, dtn).accumulator == m.accumulator + div_trunc(
            spec_error(setpoint, state) * dtn,
            SCALE as int,
        ),
{
}

/// Unbounded-zone law, whole runs: without an integrator zone the
/// accumulator after any sequence of update calls is exactly the
/// accumulator before them plus the running sum of `error * dt` over the
/// calls — in particular, from construction on, exactly that running
/// sum.
pub proof fn lemma_unbounded_zone_run(m: PidModel, calls: Seq<(i64, i64, u64)>)
    requires
        m.integrator_zone is None,
    ensures
        spec_run(m, calls).accumulator == m.accumulator + sum_of_increments(calls),
    decreases calls.len(),
{
    if calls.len() > 0 {
        let m1 = spec_step(m, calls[0].0, calls[0].1, calls[0].2 as int);
        lemma_unbounded_zone_run(m1, calls.drop_first());
    }
}

/// Dividing zero by a positive number gives zero.
proof fn lemma_div_of_zero(b: int)
    requires
        b > 0,
    ensures
        div_trunc(0, b) == 0,
{
    assert(0int / b == 0) by (nonlinear_arith)
        requires
            b > 0,
    ;
}

} // verus!
