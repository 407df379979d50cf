//! The crawl cycle as a state machine with two states. Whoever drives it
//! performs the action it is given and reports the event that follows.

use vstd::prelude::*;

verus! {

/// The wait between two cycles, in seconds.
pub const CYCLE_INTERVAL_SECS: u64 = 3600;

/// The wait after each processed repository, in milliseconds.
pub const POLITENESS_DELAY_MS: u64 = 500;

/// Where the scheduler stands.
#[derive(Debug, Clone, Copy, PartialEq, Eq, Structural)]
pub enum Phase {
    /// A cycle is under way: categories, their repositories, then retention.
    Running,
    /// Idle between two cycles.
    Sleeping,
}

/// What the driver reports.
#[derive(Debug, Clone, Copy, PartialEq, Eq, Structural)]
pub enum Event {
    /// The cycle went through all categories and the retention pass ended;
    /// `retention_failed` says whether the pass ended in an error.
    CycleCompleted { retention_failed: bool },
    /// The wait between cycles is over.
    TimerFired,
}

/// What the driver is to do next.
#[derive(Debug, Clone, Copy, PartialEq, Eq, Structural)]
pub enum Action {
    /// Crawl all categories, then run retention.
    RunCycle,
    /// Wait this many seconds; `report_retention_failure` asks to report the
    /// failed retention pass first.
    Sleep { seconds: u64, report_retention_failure: bool },
    /// The event does not belong to the phase: nothing to do.
    Ignore,
}

/// The phase and the action that follow `event` in `phase`. A completed
/// cycle leads to sleep whether or not retention failed; the timer leads
/// back to a cycle. There is no final phase.
pub open spec fn transition(phase: Phase, event: Event) -> (Phase, Action) {
    match (phase, event) {
        (Phase::Running, Event::CycleCompleted { retention_failed }) => (
            Phase::Sleeping,
            Action::Sleep {
                seconds: CYCLE_INTERVAL_SECS,
                report_retention_failure: retention_failed,
            },
        ),
        (Phase::Sleeping, Event::TimerFired) => (Phase::Running, Action::RunCycle),
        _ => (phase, Action::Ignore),
    }
}

/// The phase in which the scheduler starts, with the first cycle to run.
pub fn start() -> (r: (Phase, Action))
    ensures
        r == (Phase::Running, Action::RunCycle),
{
    (Phase::Running, Action::RunCycle)
}

/// The phase and the action that follow `event` in `phase`.
pub fn step(phase: Phase, event: Event) -> (r: (Phase, Action))
    ensures
        r == transition(phase, event),
        event is CycleCompleted && phase == Phase::Running ==> r.0 == Phase::Sleeping,
        event is TimerFired && phase == Phase::Sleeping ==> r.0 == Phase::Running,
{
    match phase {
        Phase::Running => match event {
            Event::CycleCompleted { retention_failed } => (
                Phase::Sleeping,
                Action::Sleep {
                    seconds: CYCLE_INTERVAL_SECS,
                    report_retention_failure: retention_failed,
                },
            ),
            Event::TimerFired => (Phase::Running, Action::Ignore),
        },
        Phase::Sleeping => match event {
            Event::TimerFired => (Phase::Running, Action::RunCycle),
            Event::CycleCompleted { .. } => (Phase::Sleeping, Action::Ignore),
        },
    }
}

} // verus!
