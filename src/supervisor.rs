//! The supervisor's cadence: configure the tasks once, take a warm-up run of
//! samples, then repeat a cycle of samples, an environment broadcast, a long
//! sleep and a time broadcast, until shutdown is requested. The shutdown
//! request is looked at after every wait.
use vstd::prelude::*;

verus! {

/// How many samples the supervisor takes before the first cycle, and in each
/// cycle.
#[derive(Clone, Copy, Debug, PartialEq, Eq, Structural)]
pub struct Cadence {
    pub warm_up: u32,
    pub per_cycle: u32,
}

/// Where the supervisor stands.
#[derive(Clone, Copy, Debug, PartialEq, Eq, Structural)]
pub enum Phase {
    /// Nothing has been sent yet.
    Start,
    /// This many warm-up samples have been taken.
    WarmUp(u32),
    /// This many samples of the current cycle have been taken.
    Cycle(u32),
    /// The cycle's environment has been broadcast.
    Broadcast,
    /// The long sleep of the cycle is over.
    Slept,
    /// `Exit` has been broadcast.
    Stopped,
}

/// What the supervisor does next.
#[derive(Clone, Copy, Debug, PartialEq, Eq, Structural)]
pub enum Duty {
    /// Broadcast the configuration.
    SendSetup,
    /// Read the sensor once, then wait one sample interval.
    Sample,
    /// Broadcast the de-noised environment.
    SendEnvironment,
    /// Wait one cycle interval.
    Sleep,
    /// Broadcast the time of day.
    SendTime,
    /// Broadcast `Exit`.
    SendExit,
    /// Return: everything is done.
    Finish,
}

/// The next duty in `phase` and the phase once it is done, when `stop` tells
/// whether shutdown has been requested.
pub open spec fn spec_next(cadence: Cadence, phase: Phase, stop: bool) -> (Phase, Duty) {
    match phase {
        Phase::Start => (Phase::WarmUp(0), Duty::SendSetup),
        Phase::Stopped => (Phase::Stopped, Duty::Finish),
        _ => if stop {
            (Phase::Stopped, Duty::SendExit)
        } else {
            match phase {
                Phase::WarmUp(k) => if k < cadence.warm_up {
                    (Phase::WarmUp((k + 1) as u32), Duty::Sample)
                } else {
                    spec_cycle(cadence, 0)
                },
                Phase::Cycle(k) => spec_cycle(cadence, k),
                Phase::Broadcast => (Phase::Slept, Duty::Sleep),
                _ => (Phase::Cycle(0), Duty::SendTime),
            }
        },
    }
}

/// Within a cycle after `k` samples: sample until the cycle has its share,
/// then broadcast the environment.
pub open spec fn spec_cycle(cadence: Cadence, k: u32) -> (Phase, Duty) {
    if k < cadence.per_cycle {
        (Phase::Cycle((k + 1) as u32), Duty::Sample)
    } else {
        (Phase::Broadcast, Duty::SendEnvironment)
    }
}

fn cycle(cadence: Cadence, k: u32) -> (r: (Phase, Duty))
    ensures
        r == spec_cycle(cadence, k),
{
    if k < cadence.per_cycle {
        (Phase::Cycle(k + 1), Duty::Sample)
    } else {
        (Phase::Broadcast, Duty::SendEnvironment)
    }
}

/// The supervisor's next duty in `phase`, and the phase once it is done.
pub fn next(cadence: Cadence, phase: Phase, stop: bool) -> (r: (Phase, Duty))
    ensures
        r == spec_next(cadence, phase, stop),
{
    match phase {
        Phase::Start => (Phase::WarmUp(0), Duty::SendSetup),
        Phase::Stopped => (Phase::Stopped, Duty::Finish),
        _ => if stop {
            (Phase::Stopped, Duty::SendExit)
        } else {
            match phase {
                Phase::WarmUp(k) => if k < cadence.warm_up {
                    (Phase::WarmUp(k + 1), Duty::Sample)
                } else {
                    cycle(cadence, 0)
                },
                Phase::Cycle(k) => cycle(cadence, k),
                Phase::Broadcast => (Phase::Slept, Duty::Sleep),
                _ => (Phase::Cycle(0), Duty::SendTime),
            }
        },
    }
}

/// The configuration is broadcast first, and never again.
pub proof fn lemma_setup_once(cadence: Cadence, phase: Phase, stop: bool)
    ensures
        phase == Phase::Start ==> spec_next(cadence, phase, stop).1 == Duty::SendSetup,
        spec_next(cadence, phase, stop).0 != Phase::Start,
        phase != Phase::Start ==> spec_next(cadence, phase, stop).1 != Duty::SendSetup,
{
}

/// Once configured, a shutdown request is acted on at the very next step:
/// `Exit` is broadcast, once, and then the supervisor finishes.
pub proof fn lemma_stop_is_prompt(cadence: Cadence, phase: Phase)
    ensures
        phase != Phase::Start && phase != Phase::Stopped ==> spec_next(cadence, phase, true) == (
            Phase::Stopped,
            Duty::SendExit,
        ),
        spec_next(cadence, Phase::Stopped, true) == (Phase::Stopped, Duty::Finish),
        spec_next(cadence, Phase::Stopped, false) == (Phase::Stopped, Duty::Finish),
{
}

/// Without a shutdown request, a cycle broadcasts the environment before it
/// sleeps, and the time after the sleep.
pub proof fn lemma_cycle_order(cadence: Cadence)
    ensures
        spec_next(cadence, Phase::Cycle(cadence.per_cycle), false) == (
            Phase::Broadcast,
            Duty::SendEnvironment,
        ),
        spec_next(cadence, Phase::Broadcast, false) == (Phase::Slept, Duty::Sleep),
        spec_next(cadence, Phase::Slept, false) == (Phase::Cycle(0), Duty::SendTime),
{
}

} // verus!
