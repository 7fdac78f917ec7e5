//! The temperature daemon's polling loop, as a step function from the current phase
//! and the cancellation flag to the next phase and the action to perform.
//!
//! A cycle samples the sensor once and then waits `SUBINTERVALS` sleeps of
//! `SUBINTERVAL_MS` each, checking the flag before every sleep, so a cancellation is
//! seen within one sleep rather than one full interval.
use vstd::prelude::*;
use crate::msi::{cpu_status_command, cpu_status_report};
use crate::sensor::{parse_i32_spec, read_temperature, trunc_div, SensorError};

verus! {

/// Seconds between two samples.
pub const INTERVAL_SECS: u64 = 2;
/// Length of one sleep between two checks of the cancellation flag.
pub const SUBINTERVAL_MS: u64 = 100;
/// Sleeps per interval.
pub const SUBINTERVALS: u8 = 20;

#[derive(Clone, Copy, Debug, PartialEq, Eq, Structural)]
pub enum DaemonPhase {
    /// About to read the sensor and push the temperature.
    Sample,
    /// Between samples, after the given number of sleeps.
    Wait(u8),
    /// The loop has ended.
    Stopped,
}

#[derive(Clone, Copy, Debug, PartialEq, Eq, Structural)]
pub enum DaemonAction {
    /// Read the sensor and push the temperature to the cooler; a failure of either is
    /// reported and the loop goes on.
    Sample,
    /// Sleep `SUBINTERVAL_MS` milliseconds.
    Sleep,
    /// Leave the loop.
    Exit,
}

/// The phase the loop starts in.
pub fn initial_phase() -> (r: DaemonPhase)
    ensures
        r == DaemonPhase::Sample,
{
    DaemonPhase::Sample
}

pub open spec fn daemon_next(phase: DaemonPhase, stop: bool) -> (DaemonPhase, DaemonAction) {
    if stop {
        (DaemonPhase::Stopped, DaemonAction::Exit)
    } else {
        match phase {
            DaemonPhase::Sample => (DaemonPhase::Wait(0), DaemonAction::Sample),
            DaemonPhase::Wait(t) => if t < SUBINTERVALS {
                (DaemonPhase::Wait((t + 1) as u8), DaemonAction::Sleep)
            } else {
                (DaemonPhase::Wait(0), DaemonAction::Sample)
            },
            DaemonPhase::Stopped => (DaemonPhase::Stopped, DaemonAction::Exit),
        }
    }
}

/// One step of the loop, given whether cancellation has been requested.
pub fn daemon_step(phase: DaemonPhase, stop: bool) -> (r: (DaemonPhase, DaemonAction))
    ensures
        r == daemon_next(phase, stop),
{
    if stop {
        return (DaemonPhase::Stopped, DaemonAction::Exit);
    }
    match phase {
        DaemonPhase::Sample => (DaemonPhase::Wait(0), DaemonAction::Sample),
        DaemonPhase::Wait(t) => {
            if t < SUBINTERVALS {
                (DaemonPhase::Wait(t + 1), DaemonAction::Sleep)
            } else {
                (DaemonPhase::Wait(0), DaemonAction::Sample)
            }
        },
        DaemonPhase::Stopped => (DaemonPhase::Stopped, DaemonAction::Exit),
    }
}

/// The phase reached from `phase` after `n` steps that all saw the flag clear.
pub open spec fn run_clear(phase: DaemonPhase, n: nat) -> DaemonPhase
    decreases n,
{
    if n == 0 {
        phase
    } else {
        run_clear(daemon_next(phase, false).0, (n - 1) as nat)
    }
}

/// Cancellation is honoured at once: whatever the phase, a step that sees the flag
/// set ends the loop without another sleep or sample, and the loop stays ended. So at
/// most the one sleep already under way, `SUBINTERVAL_MS`, passes after the flag is
/// set.
pub proof fn lemma_cancel_is_immediate(phase: DaemonPhase, stop_later: bool)
    ensures
        daemon_next(phase, true) == (DaemonPhase::Stopped, DaemonAction::Exit),
        daemon_next(DaemonPhase::Stopped, stop_later).1 == DaemonAction::Exit,
        daemon_next(DaemonPhase::Stopped, stop_later).0 == DaemonPhase::Stopped,
{
}

proof fn lemma_run_clear_wait(t: u8, n: nat)
    requires
        t + n <= SUBINTERVALS,
    ensures
        run_clear(DaemonPhase::Wait(t), n) == DaemonPhase::Wait((t + n) as u8),
    decreases n,
{
    if n > 0 {
        lemma_run_clear_wait((t + 1) as u8, (n - 1) as nat);
    }
}

/// While the flag stays clear the loop samples once, sleeps `SUBINTERVALS` times and
/// samples again: one sample per `INTERVAL_SECS`.
pub proof fn lemma_cycle_length()
    ensures
        daemon_next(DaemonPhase::Sample, false).1 == DaemonAction::Sample,
        forall|t: u8| t < SUBINTERVALS ==> (#[trigger] daemon_next(DaemonPhase::Wait(t), false)).1 == DaemonAction::Sleep,
        run_clear(DaemonPhase::Sample, 1 + SUBINTERVALS as nat) == DaemonPhase::Wait(SUBINTERVALS),
        daemon_next(DaemonPhase::Wait(SUBINTERVALS), false) == (DaemonPhase::Wait(0), DaemonAction::Sample),
        SUBINTERVALS as int * SUBINTERVAL_MS as int == INTERVAL_SECS as int * 1000,
{
    lemma_run_clear_wait(0, SUBINTERVALS as nat);
    assert(run_clear(DaemonPhase::Sample, 1 + SUBINTERVALS as nat) == run_clear(DaemonPhase::Wait(0), SUBINTERVALS as nat));
}

/// The work of one sample: the temperature that the sensor file holding `content`
/// reports and the CPU status report that carries it to the cooler.
pub fn sample_report(content: &[u8]) -> (r: Result<(i32, Vec<u8>), SensorError>)
    ensures
        r matches Ok((t, buf)) ==> parse_i32_spec(content@) matches Some(m) && t as int == trunc_div(m, 1000)
            && buf@ == cpu_status_report(t),
        r is Err <==> parse_i32_spec(content@) is None,
        r is Err ==> r == Err::<(i32, Vec<u8>), SensorError>(SensorError::Malformed),
{
    match read_temperature(content) {
        Ok(t) => Ok((t, cpu_status_command(t))),
        Err(e) => Err(e),
    }
}

} // verus!
