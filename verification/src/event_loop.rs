//! Tick policy and run/stop control of the single-threaded event loop.
//!
//! The loop itself (channel, worker thread) lives with the caller; this module decides
//! how long the loop waits and when it stops.
use std::time::Duration;

use vstd::prelude::*;

verus! {

/// Name for the answer of `Duration::is_zero` on `d`.
pub uninterp spec fn duration_is_zero(d: Duration) -> bool;

/// Calls `Duration::is_zero`: true when `d` spans no time. The contract only ties the
/// answer to `d` through [`duration_is_zero`].
#[verifier::external_body]
fn is_zero(d: &Duration) -> (r: bool)
    ensures
        r == duration_is_zero(*d),
{
    d.is_zero()
}

/// The tick that a requested tick policy normalises to: a zero duration would busy-loop,
/// so it becomes `None` (tickless).
pub open spec fn normalised_tick(tick: Option<Duration>) -> Option<Duration> {
    match tick {
        Some(d) => if duration_is_zero(d) {
            None
        } else {
            Some(d)
        },
        None => None,
    }
}

/// Normalises a tick policy: `Some(zero)` becomes `None`; everything else is kept.
pub fn tick_policy(tick: Option<Duration>) -> (r: Option<Duration>)
    ensures
        r == normalised_tick(tick),
{
    match tick {
        Some(d) => if is_zero(&d) {
            None
        } else {
            Some(d)
        },
        None => None,
    }
}

/// How a blocking wait for the next posted closure ended.
#[derive(Clone, Copy, Debug, PartialEq, Eq, Structural)]
pub enum WaitOutcome {
    /// A closure arrived and was run.
    Message,
    /// The tick elapsed with no closure (tick-based loops only).
    Timeout,
    /// Every sender is gone; nothing can arrive any more.
    Disconnected,
}

/// What the loop does after a wait.
#[derive(Clone, Copy, Debug, PartialEq, Eq, Structural)]
pub enum LoopStep {
    /// Check the stop flag and wait again.
    Continue,
    /// Leave the loop (then drain what is left).
    Exit,
}

/// Run/stop state of an event loop and its tick policy.
#[derive(Debug)]
pub struct LoopControl {
    running: bool,
    stop_requested: bool,
    tick: Option<Duration>,
}

impl LoopControl {
    /// True while `run` is executing.
    pub closed spec fn spec_running(&self) -> bool {
        self.running
    }

    /// True once a stop has been requested.
    pub closed spec fn spec_stop_requested(&self) -> bool {
        self.stop_requested
    }

    /// The normalised tick.
    pub closed spec fn spec_tick(&self) -> Option<Duration> {
        self.tick
    }

    /// An idle, tickless loop.
    pub fn new() -> (r: LoopControl)
        ensures
            !r.spec_running(),
            !r.spec_stop_requested(),
            r.spec_tick() is None,
    {
        LoopControl { running: false, stop_requested: false, tick: None }
    }

    /// An idle loop with the given tick policy (`Some(zero)` is normalised to tickless).
    pub fn with_tick(tick: Option<Duration>) -> (r: LoopControl)
        ensures
            !r.spec_running(),
            !r.spec_stop_requested(),
            r.spec_tick() == normalised_tick(tick),
    {
        LoopControl { running: false, stop_requested: false, tick: tick_policy(tick) }
    }

    /// The configured tick, `None` when tickless.
    pub fn tick(&self) -> (r: Option<Duration>)
        ensures
            r == self.spec_tick(),
    {
        self.tick
    }

    /// Marks the loop as running (entry of `run`).
    pub fn begin_run(&mut self)
        ensures
            final(self).spec_running(),
            final(self).spec_stop_requested() == old(self).spec_stop_requested(),
            final(self).spec_tick() == old(self).spec_tick(),
    {
        self.running = true;
    }

    /// Whether the loop waits for another closure: only while no stop was requested.
    pub fn should_continue(&self) -> (r: bool)
        ensures
            r == !self.spec_stop_requested(),
    {
        !self.stop_requested
    }

    /// Decides what follows a wait: a disconnected channel ends the loop.
    pub fn after_wait(&self, outcome: WaitOutcome) -> (r: LoopStep)
        ensures
            r == (if outcome == WaitOutcome::Disconnected {
                LoopStep::Exit
            } else {
                LoopStep::Continue
            }),
    {
        match outcome {
            WaitOutcome::Disconnected => LoopStep::Exit,
            _ => LoopStep::Continue,
        }
    }

    /// Marks the loop as stopped (exit of `run`).
    pub fn end_run(&mut self)
        ensures
            !final(self).spec_running(),
            final(self).spec_stop_requested() == old(self).spec_stop_requested(),
            final(self).spec_tick() == old(self).spec_tick(),
    {
        self.running = false;
    }

    /// Requests a stop; the caller then wakes the loop by posting a no-op.
    pub fn request_stop(&mut self)
        ensures
            final(self).spec_stop_requested(),
            final(self).spec_running() == old(self).spec_running(),
            final(self).spec_tick() == old(self).spec_tick(),
    {
        self.stop_requested = true;
    }

    /// True while `run` is executing.
    pub fn is_running(&self) -> (r: bool)
        ensures
            r == self.spec_running(),
    {
        self.running
    }
}

impl Default for LoopControl {
    /// An idle, tickless loop, as [`LoopControl::new`].
    fn default() -> (r: LoopControl)
        ensures
            !r.spec_running(),
            !r.spec_stop_requested(),
            r.spec_tick() is None,
    {
        LoopControl::new()
    }
}

} // verus!
