//! Interval timer: configuration snapshot, signal blocking, and the run state that the
//! driver callback consults on every fire.
use std::time::Duration;

use vstd::prelude::*;

use crate::ids::ObjectId;
use crate::object_tree::ObjectBase;

verus! {

/// Snapshot of a timer's configuration, handed to the driver when the timer starts.
#[derive(Clone, Copy, Debug)]
pub struct TimerConfig {
    /// Identity of the owning timer.
    pub timer_id: ObjectId,
    /// Duration between successive ticks.
    pub interval: Duration,
    /// When `true` the timer fires once and then stops.
    pub single_shot: bool,
}

/// Payload of the `tick` signal: the timer and its 0-indexed fire count.
#[derive(Clone, Copy, Debug, PartialEq, Eq, Structural)]
pub struct TimerEvent {
    /// Identity of the timer that fired.
    pub timer_id: ObjectId,
    /// How many fires preceded this one since the last start.
    pub fire_count: usize,
}

impl TimerEvent {
    /// Builds an event.
    pub fn new(timer_id: ObjectId, fire_count: usize) -> (r: TimerEvent)
        ensures
            r.timer_id == timer_id,
            r.fire_count == fire_count,
    {
        TimerEvent { timer_id, fire_count }
    }

    /// The timer that fired.
    pub fn timer_id(&self) -> (r: ObjectId)
        ensures
            r == self.timer_id,
    {
        self.timer_id
    }

    /// The 0-indexed fire count.
    pub fn fire_count(&self) -> (r: usize)
        ensures
            r == self.fire_count,
    {
        self.fire_count
    }
}

/// What one driver fire amounts to.
#[derive(Clone, Copy, Debug, PartialEq, Eq, Structural)]
pub enum FireOutcome {
    /// The timer is not running: nothing happens.
    Inactive,
    /// The `tick` signal is emitted with this event.
    Emit(TimerEvent),
    /// The fire is counted but signals are blocked: nothing is emitted.
    Suppressed,
}

/// Abstract state of a [`Timer`].
pub struct TimerModel {
    pub id: ObjectId,
    pub interval: Duration,
    pub single_shot: bool,
    pub running: bool,
    pub run_single_shot: bool,
    pub fire_count: usize,
    pub signals_blocked: bool,
}

/// The fire count after one more fire (wrapping like an atomic counter).
pub open spec fn next_count(c: usize) -> usize {
    if c == usize::MAX {
        0
    } else {
        (c + 1) as usize
    }
}

/// Effect of `start` on a stopped timer.
pub open spec fn model_start(m: TimerModel) -> TimerModel {
    TimerModel { running: true, run_single_shot: m.single_shot, fire_count: 0, ..m }
}

/// Effect of one fire on a running timer.
pub open spec fn model_fire(m: TimerModel) -> TimerModel {
    TimerModel {
        running: !m.run_single_shot,
        fire_count: next_count(m.fire_count),
        ..m
    }
}

/// Outcome of one fire on a running timer.
pub open spec fn fire_outcome(m: TimerModel) -> FireOutcome {
    if m.signals_blocked {
        FireOutcome::Suppressed
    } else {
        FireOutcome::Emit(TimerEvent { timer_id: m.id, fire_count: m.fire_count })
    }
}

/// Interval timer. Starting hands a [`TimerConfig`] to a driver; every driver fire goes
/// through [`on_fire`](Self::on_fire), which decides whether `tick` is emitted.
#[derive(Debug)]
pub struct Timer {
    /// Identity and name of the timer object.
    pub base: ObjectBase,
    /// Duration between successive ticks; takes effect on the next start.
    pub interval: Duration,
    /// When `true`, the timer fires exactly once per start; takes effect on the next start.
    pub single_shot: bool,
    running: bool,
    run_single_shot: bool,
    fire_count: usize,
    signals_blocked: bool,
}

impl View for Timer {
    type V = TimerModel;

    closed spec fn view(&self) -> TimerModel {
        TimerModel {
            id: self.base.id,
            interval: self.interval,
            single_shot: self.single_shot,
            running: self.running,
            run_single_shot: self.run_single_shot,
            fire_count: self.fire_count,
            signals_blocked: self.signals_blocked,
        }
    }
}

impl Timer {
    /// The identity and name of the timer object.
    pub closed spec fn spec_base(&self) -> ObjectBase {
        self.base
    }

    /// A stopped, anonymous timer.
    pub fn new(id: ObjectId, interval: Duration) -> (r: Timer)
        ensures
            r@.id == id,
            r@.interval == interval,
            !r@.single_shot,
            !r@.running,
            r@.fire_count == 0,
            !r@.signals_blocked,
            r.spec_base().name is None,
    {
        Timer {
            base: ObjectBase::new(id),
            interval,
            single_shot: false,
            running: false,
            run_single_shot: false,
            fire_count: 0,
            signals_blocked: false,
        }
    }

    /// A stopped, named timer.
    pub fn named(id: ObjectId, name: String, interval: Duration) -> (r: Timer)
        ensures
            r@.id == id,
            r@.interval == interval,
            !r@.single_shot,
            !r@.running,
            r@.fire_count == 0,
            !r@.signals_blocked,
            r.spec_base().name == Some(name),
    {
        Timer {
            base: ObjectBase::named(id, name),
            interval,
            single_shot: false,
            running: false,
            run_single_shot: false,
            fire_count: 0,
            signals_blocked: false,
        }
    }

    /// Starts the timer and returns the configuration for the driver; `None` (no
    /// effect) when it is already running.
    pub fn start(&mut self) -> (r: Option<TimerConfig>)
        ensures
            old(self)@.running ==> r is None && final(self)@ == old(self)@,
            !old(self)@.running ==> final(self)@ == model_start(old(self)@) && r == Some(
                TimerConfig {
                    timer_id: old(self)@.id,
                    interval: old(self)@.interval,
                    single_shot: old(self)@.single_shot,
                },
            ),
            final(self).spec_base() == old(self).spec_base(),
    {
        if self.running {
            return None;
        }
        self.running = true;
        self.run_single_shot = self.single_shot;
        self.fire_count = 0;
        Some(TimerConfig { timer_id: self.base.id, interval: self.interval, single_shot: self.single_shot })
    }

    /// Decides one driver fire: a stopped timer does nothing; a running one counts the
    /// fire, emits `tick` unless signals are blocked, and stops after a single shot.
    pub fn on_fire(&mut self) -> (r: FireOutcome)
        ensures
            !old(self)@.running ==> r == FireOutcome::Inactive && final(self)@ == old(self)@,
            old(self)@.running ==> r == fire_outcome(old(self)@) && final(self)@ == model_fire(old(self)@),
            final(self).spec_base() == old(self).spec_base(),
    {
        if !self.running {
            return FireOutcome::Inactive;
        }
        let count = self.fire_count;
        self.fire_count = self.fire_count.wrapping_add(1);
        let out = if self.signals_blocked {
            FireOutcome::Suppressed
        } else {
            FireOutcome::Emit(TimerEvent { timer_id: self.base.id, fire_count: count })
        };
        if self.run_single_shot {
            self.running = false;
        }
        out
    }

    /// Stops the timer; returns `true` when it was running (the driver must then be
    /// told to stop), `false` (no effect) otherwise.
    pub fn stop(&mut self) -> (r: bool)
        ensures
            r == old(self)@.running,
            final(self)@ == (TimerModel { running: false, ..old(self)@ }),
            final(self).spec_base() == old(self).spec_base(),
    {
        let was = self.running;
        self.running = false;
        was
    }

    /// The event to deliver for an explicit `tick` emission, or `None` while signals
    /// are blocked.
    pub fn emit_tick(&self, event: TimerEvent) -> (r: Option<TimerEvent>)
        ensures
            r == (if self@.signals_blocked {
                None
            } else {
                Some(event)
            }),
    {
        if self.signals_blocked {
            None
        } else {
            Some(event)
        }
    }

    /// Suppresses `tick` emissions until [`unblock_signals`](Self::unblock_signals).
    pub fn block_signals(&mut self)
        ensures
            final(self)@ == (TimerModel { signals_blocked: true, ..old(self)@ }),
            final(self).spec_base() == old(self).spec_base(),
    {
        self.signals_blocked = true;
    }

    /// Re-enables `tick` emissions.
    pub fn unblock_signals(&mut self)
        ensures
            final(self)@ == (TimerModel { signals_blocked: false, ..old(self)@ }),
            final(self).spec_base() == old(self).spec_base(),
    {
        self.signals_blocked = false;
    }

    /// True while emissions are blocked.
    pub fn signals_blocked(&self) -> (r: bool)
        ensures
            r == self@.signals_blocked,
    {
        self.signals_blocked
    }

    /// True while the driver is scheduling fires.
    pub fn is_running(&self) -> (r: bool)
        ensures
            r == self@.running,
    {
        self.running
    }
}

/// A single-shot timer fires exactly once per start: the first fire after a start has
/// count 0 and stops the timer, and any later fire is inactive.
pub proof fn law_single_shot_fires_once(m: TimerModel)
    requires
        !m.running,
        m.single_shot,
    ensures
        model_start(m).running,
        fire_outcome(model_start(m)) == (if m.signals_blocked {
            FireOutcome::Suppressed
        } else {
            FireOutcome::Emit(TimerEvent { timer_id: m.id, fire_count: 0 })
        }),
        !model_fire(model_start(m)).running,
{
}

/// A repeating timer counts its fires 0, 1, 2, ... from each start and keeps running.
pub proof fn law_repeating_counts(m: TimerModel)
    requires
        !m.running,
        !m.single_shot,
    ensures
        model_fire(model_start(m)).running,
        model_fire(model_start(m)).fire_count == 1,
        fire_outcome(model_fire(model_start(m))) == (if m.signals_blocked {
            FireOutcome::Suppressed
        } else {
            FireOutcome::Emit(TimerEvent { timer_id: m.id, fire_count: 1 })
        }),
{
}

/// The timer state after `n` calls of `on_fire` from `m` (a call on a stopped timer
/// changes nothing).
pub open spec fn fired(m: TimerModel, n: nat) -> TimerModel
    decreases n,
{
    if n == 0 {
        m
    } else {
        let p = fired(m, (n - 1) as nat);
        if p.running {
            model_fire(p)
        } else {
            p
        }
    }
}

/// After a start, a repeating timer's `k`-th fire (counting from 0) emits count `k`
/// (or is suppressed while signals are blocked) and the timer keeps running: `n`
/// fires give the counts 0, 1, ..., n - 1 in order, the count wrapping to 0 after
/// `usize::MAX`.
pub proof fn law_repeating_fire_sequence(m: TimerModel, n: nat)
    requires
        !m.single_shot,
    ensures
        fired(model_start(m), n).running,
        fired(model_start(m), n).fire_count == n % (usize::MAX as nat + 1),
        fired(model_start(m), n).signals_blocked == m.signals_blocked,
        fired(model_start(m), n).id == m.id,
        fire_outcome(fired(model_start(m), n)) == (if m.signals_blocked {
            FireOutcome::Suppressed
        } else {
            FireOutcome::Emit(TimerEvent { timer_id: m.id, fire_count: (n % (usize::MAX as nat + 1)) as usize })
        }),
    decreases n,
{
    let md: int = usize::MAX as int + 1;
    if n > 0 {
        law_repeating_fire_sequence(m, (n - 1) as nat);
        let c: int = (n - 1) as int % md;
        assert(c == usize::MAX ==> n as int % md == 0) by (nonlinear_arith)
            requires
                c == (n - 1) as int % md,
                md > 0,
                md == usize::MAX as int + 1,
                n >= 1,
        ;
        assert(c < usize::MAX ==> n as int % md == c + 1) by (nonlinear_arith)
            requires
                c == (n - 1) as int % md,
                md > 0,
                md == usize::MAX as int + 1,
                n >= 1,
        ;
    }
}

/// After a start, a single-shot timer fires once with count 0 and then stays stopped:
/// every later fire is inactive.
pub proof fn law_single_shot_fire_sequence(m: TimerModel, n: nat)
    requires
        m.single_shot,
        n >= 1,
    ensures
        !fired(model_start(m), n).running,
        fired(model_start(m), n).fire_count == 1,
    decreases n,
{
    if n > 1 {
        law_single_shot_fire_sequence(m, (n - 1) as nat);
    } else {
        assert(fired(model_start(m), 0) == model_start(m));
    }
}

} // verus!
