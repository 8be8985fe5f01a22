//! Tick arithmetic of the embassy clock, and the random latencies of the simulated
//! sensors.
//!
//! With the `std` driver the clock counts `TICK_HZ` ticks per second, one per microsecond.

use embassy_time::{Duration, Instant};
use rand::Rng;
use vstd::prelude::*;

verus! {

/// Clock ticks per second.
pub const TICK_HZ: u64 = 1_000_000;

/// Rate at which the simulation is stepped, in hertz.
pub const SIM_FREQUENCY: u64 = 1000;

/// The microseconds from `from` to `to`, both in ticks, or zero where `to` is not later
/// or there is nothing to count from.
pub open spec fn elapsed_us(from: Option<u64>, to: u64) -> u64 {
    match from {
        Some(t) => if to > t {
            (to - t) as u64
        } else {
            0
        },
        None => 0,
    }
}

/// The nearest whole number of ticks to one period of `hz`, and never less than one.
pub open spec fn period_ticks(hz: u64) -> int {
    if hz >= TICK_HZ {
        1
    } else {
        (TICK_HZ + hz / 2) / hz as int
    }
}

/// Subtracts two instants with `embassy_time::Instant::duration_since` (through the `-`
/// operator) and reads the difference in microseconds. Claimed: a tick lasts one
/// microsecond, so the result is the difference of the tick counts. The subtraction
/// panics where the first instant is the earlier one, which the precondition rules out.
#[verifier::external_body]
fn duration_since(later: u64, earlier: u64) -> (us: u64)
    requires
        earlier <= later,
    ensures
        us == later - earlier,
{
    (Instant::from_ticks(later) - Instant::from_ticks(earlier)).as_micros()
}

/// Calls `embassy_time::Duration::from_hz` and reads the duration in microseconds.
/// Claimed: one period, rounded to the nearest tick and at least one tick. The call
/// divides by `hz`, which the precondition keeps from zero.
#[verifier::external_body]
fn duration_from_hz(hz: u64) -> (us: u64)
    requires
        hz > 0,
    ensures
        us == period_ticks(hz),
{
    Duration::from_hz(hz).as_micros()
}

/// Calls `embassy_time::Instant::as_secs`. Claimed: whole seconds since start-up,
/// rounded down.
#[verifier::external_body]
fn instant_as_secs(ticks: u64) -> (secs: u64)
    ensures
        secs == ticks / TICK_HZ,
{
    Instant::from_ticks(ticks).as_secs()
}

/// Calls `embassy_time::Instant::from_micros` and reads the tick count. Claimed: a tick
/// lasts one microsecond, so the counts agree.
#[verifier::external_body]
fn instant_from_micros(us: u64) -> (ticks: u64)
    ensures
        ticks == us,
{
    Instant::from_micros(us).as_ticks()
}

/// Draws one word from the thread's generator, `rand::rng`, with `next_u64`. Nothing is
/// claimed of the word. The generator panics where the operating system cannot seed it.
#[verifier::external_body]
fn random_word() -> (word: u64)
{
    rand::rng().next_u64()
}

/// Microseconds from `from` to `to`, both in ticks; zero where `to` is not later or there
/// is no `from`.
pub fn elapsed_micros(from: Option<u64>, to: u64) -> (us: u64)
    ensures
        us == elapsed_us(from, to),
{
    match from {
        Some(t) => if to > t {
            duration_since(to, t)
        } else {
            0
        },
        None => 0,
    }
}

/// Length of one period of `hz`, in microseconds.
pub fn period_micros(hz: u64) -> (us: u64)
    requires
        hz > 0,
    ensures
        us == period_ticks(hz),
{
    duration_from_hz(hz)
}

/// The instant that lies `us` microseconds after start-up, in ticks.
pub fn ticks_at_micros(us: u64) -> (ticks: u64)
    ensures
        ticks == us,
{
    instant_from_micros(us)
}

/// What the simulation does next.
#[derive(Clone, Copy, Debug, PartialEq, Eq, Structural)]
pub enum SimStep {
    /// The time allotted to the test is used up: the test has failed.
    TimedOut,
    /// Advance the simulation by `step_us`; go on with the next step only where
    /// `proceed` is set.
    Advance { step_us: u64, proceed: bool },
}

/// Decides on one simulation step at instant `now`, in ticks, of a test that must end
/// before `limit_seconds` and goes on while `running`.
pub fn next_sim_step(now: u64, limit_seconds: u64, running: bool) -> (step: SimStep)
    ensures
        now / TICK_HZ >= limit_seconds ==> step == SimStep::TimedOut,
        now / TICK_HZ < limit_seconds ==> step == (SimStep::Advance {
            step_us: 1000,
            proceed: running,
        }),
{
    if instant_as_secs(now) < limit_seconds {
        SimStep::Advance { step_us: period_micros(SIM_FREQUENCY), proceed: running }
    } else {
        SimStep::TimedOut
    }
}

/// Delay of a camera frame in microseconds, from a random word: from 50 up to 60
/// milliseconds.
pub fn camera_delay_from(word: u64) -> (us: u64)
    ensures
        us == 50_000 + word % 10_000,
{
    50_000 + word % 10_000
}

/// Delay of an attitude sample in microseconds, from a random word: from 10 up to 15
/// milliseconds.
pub fn attitude_delay_from(word: u64) -> (us: u64)
    ensures
        us == 10_000 + word % 5_000,
{
    10_000 + word % 5_000
}

/// Draws the delay of a camera frame, in microseconds.
pub fn camera_delay() -> (us: u64)
    ensures
        50_000 <= us < 60_000,
{
    camera_delay_from(random_word())
}

/// Draws the delay of an attitude sample, in microseconds.
pub fn attitude_delay() -> (us: u64)
    ensures
        10_000 <= us < 15_000,
{
    attitude_delay_from(random_word())
}

/// Time is counted in full: from an instant, the microseconds that pass until another lead
/// there; none pass until an earlier one, and the time over a stop in between adds up.
pub proof fn elapsed_time_is_counted_in_full(a: u64, b: u64, c: u64, us: u64)
    requires
        call_ensures(elapsed_micros, (Some(a), b), us),
    ensures
        a <= b ==> a + us == b,
        b <= a ==> us == 0,
        us == elapsed_us(Some(a), b),
        elapsed_us(None, b) == 0,
        a <= b <= c ==> elapsed_us(Some(a), b) + elapsed_us(Some(b), c) == elapsed_us(Some(a), c),
{
}

/// A period is as long as whole microseconds let it be: as many of them as a second has periods
/// last a second, but for half a microsecond each.
pub proof fn periods_fill_a_second(hz: u64, us: u64)
    requires
        0 < hz,
        call_ensures(period_micros, (hz,), us),
    ensures
        us >= 1,
        hz <= 1_000_000 ==> -hz <= 2 * (us * hz - 1_000_000) <= hz,
        hz > 1_000_000 ==> us == 1,
{
    if hz < 1_000_000 {
        let n = 1_000_000 + hz / 2;
        let d = hz as int;
        vstd::arithmetic::div_mod::lemma_fundamental_div_mod(n, d);
        vstd::arithmetic::div_mod::lemma_mod_bound(n, d);
        vstd::arithmetic::mul::lemma_mul_is_commutative(d, n / d);
        assert(us == n / d);
        if us < 1 {
            assert(us * d == 0) by (nonlinear_arith)
                requires
                    us == 0,
            ;
        }
    } else {
        assert(us == 1);
        assert(us * hz == hz) by (nonlinear_arith)
            requires
                us == 1,
        ;
    }
}

/// A test times out exactly when as many seconds as it was given have passed, and stays timed
/// out; until then each step advances the simulation by a millisecond, and the test goes on
/// exactly while it is running.
pub proof fn tests_end_in_time(
    now: u64,
    limit_seconds: u64,
    running: bool,
    step: SimStep,
    later: u64,
    later_running: bool,
    later_step: SimStep,
)
    requires
        call_ensures(next_sim_step, (now, limit_seconds, running), step),
        call_ensures(next_sim_step, (later, limit_seconds, later_running), later_step),
        now <= later,
    ensures
        step == SimStep::TimedOut <==> now >= limit_seconds * 1_000_000,
        step != SimStep::TimedOut ==> step == (SimStep::Advance {
            step_us: 1_000,
            proceed: running,
        }),
        step == SimStep::TimedOut ==> later_step == SimStep::TimedOut,
{
}

/// Delays are spread over their whole range: that of a camera frame from 50 to 60 milliseconds,
/// that of an attitude from 10 to 15, and each next word delays by one microsecond more, until
/// the range is used up and starts again.
pub proof fn delays_are_spread_evenly(
    word: u64,
    camera: u64,
    attitude: u64,
    next_camera: u64,
    next_attitude: u64,
)
    requires
        word < u64::MAX,
        call_ensures(camera_delay_from, (word,), camera),
        call_ensures(attitude_delay_from, (word,), attitude),
        call_ensures(camera_delay_from, ((word + 1) as u64,), next_camera),
        call_ensures(attitude_delay_from, ((word + 1) as u64,), next_attitude),
    ensures
        50_000 <= camera < 60_000,
        10_000 <= attitude < 15_000,
        next_camera == if camera == 59_999 {
            50_000
        } else {
            camera + 1
        },
        next_attitude == if attitude == 14_999 {
            10_000
        } else {
            attitude + 1
        },
        word == 0 ==> camera == 50_000 && attitude == 10_000,
{
}

} // verus!
