//! Scheduling decisions of the timer drivers.
//!
//! [`DriverTicker`] is the wake-up loop of the one-thread-per-timer drivers;
//! [`PoolSchedule`] is the shared deadline queue of the pool driver. Times are
//! nanoseconds on a monotonic clock chosen by the caller.
use std::collections::HashMap;

use vstd::prelude::*;

use crate::ids::ObjectId;

verus! {

broadcast use vstd::std_specs::hash::group_hash_axioms;

/// Run state of a driver thread that sleeps one interval between fires.
#[derive(Debug)]
pub struct DriverTicker {
    running: bool,
    single_shot: bool,
}

impl DriverTicker {
    /// True while the thread keeps firing.
    pub closed spec fn spec_running(&self) -> bool {
        self.running
    }

    /// True when the current run fires only once.
    pub closed spec fn spec_single_shot(&self) -> bool {
        self.single_shot
    }

    /// A driver that is not running.
    pub fn new() -> (r: DriverTicker)
        ensures
            !r.spec_running(),
    {
        DriverTicker { running: false, single_shot: false }
    }

    /// Starts a run.
    pub fn start(&mut self, single_shot: bool)
        ensures
            final(self).spec_running(),
            final(self).spec_single_shot() == single_shot,
    {
        self.running = true;
        self.single_shot = single_shot;
    }

    /// Decides a wake-up after one interval: `true` means "run the callback". A
    /// stopped driver ends its thread; a single-shot run stops after its fire.
    pub fn on_wake(&mut self) -> (r: bool)
        ensures
            r == old(self).spec_running(),
            final(self).spec_running() == (old(self).spec_running() && !old(self).spec_single_shot()),
            final(self).spec_single_shot() == old(self).spec_single_shot(),
    {
        if !self.running {
            return false;
        }
        if self.single_shot {
            self.running = false;
        }
        true
    }

    /// True while started and not stopped or spent.
    pub fn is_running(&self) -> (r: bool)
        ensures
            r == self.spec_running(),
    {
        self.running
    }

    /// Stops the run; the next wake-up ends the thread.
    pub fn stop(&mut self)
        ensures
            !final(self).spec_running(),
            final(self).spec_single_shot() == old(self).spec_single_shot(),
    {
        self.running = false;
    }
}

/// Re-scheduling data of one timer in the pool.
#[derive(Clone, Copy, Debug, PartialEq, Eq, Structural)]
pub struct PoolEntry {
    /// Interval in nanoseconds.
    pub interval: u64,
    /// Fire once, then forget the timer.
    pub single_shot: bool,
}

/// What the pool thread does next.
#[derive(Clone, Copy, Debug, PartialEq, Eq, Structural)]
pub enum PoolStep {
    /// Nothing is scheduled: wait for a start.
    Idle,
    /// The earliest deadline is in the future: wait this many nanoseconds, then step again.
    WaitFor(u64),
    /// The earliest entry belonged to a stopped timer and was discarded.
    Skip(ObjectId),
    /// Run the callback of this timer.
    Fire(ObjectId),
}

/// Abstract state of a [`PoolSchedule`]: the queued `(deadline, timer)` pairs and the
/// timers that are started.
pub struct PoolModel {
    pub queue: Seq<(u64, ObjectId)>,
    pub timers: Map<u64, PoolEntry>,
}

/// `a` comes no later than `b`: by deadline, then by timer id.
pub open spec fn no_later(a: (u64, ObjectId), b: (u64, ObjectId)) -> bool {
    a.0 < b.0 || (a.0 == b.0 && a.1.0 <= b.1.0)
}

/// `q[i]` is an earliest entry of `q`.
pub open spec fn earliest_at(q: Seq<(u64, ObjectId)>, i: int) -> bool {
    0 <= i < q.len() && forall|j: int| 0 <= j < q.len() ==> no_later(q[i], #[trigger] q[j])
}

/// The deadline `interval` after `now`, held at the end of the clock's range.
pub open spec fn deadline_after(now: u64, interval: u64) -> u64 {
    if now + interval > u64::MAX {
        u64::MAX
    } else {
        (now + interval) as u64
    }
}

/// The relation between the state before a step at time `now`, its result, and the
/// state after.
pub open spec fn step_relation(m: PoolModel, now: u64, r: PoolStep, m2: PoolModel) -> bool {
    if m.queue.len() == 0 {
        r == PoolStep::Idle && m2 == m
    } else {
        exists|i: int|
            #![trigger m.queue[i]]
            earliest_at(m.queue, i) && {
                let (deadline, id) = m.queue[i];
                let rest = m.queue.remove(i);
                if deadline > now {
                    r == PoolStep::WaitFor((deadline - now) as u64) && m2 == m
                } else if !m.timers.contains_key(id.0) {
                    r == PoolStep::Skip(id) && m2 == PoolModel { queue: rest, timers: m.timers }
                } else if m.timers[id.0].single_shot {
                    r == PoolStep::Fire(id) && m2 == PoolModel { queue: rest, timers: m.timers.remove(id.0) }
                } else {
                    r == PoolStep::Fire(id) && m2 == PoolModel {
                        queue: rest.push((deadline_after(now, m.timers[id.0].interval), id)),
                        timers: m.timers,
                    }
                }
            }
    }
}

/// Deadline queue shared by many timers, served by one thread.
pub struct PoolSchedule {
    queue: Vec<(u64, ObjectId)>,
    timers: HashMap<u64, PoolEntry>,
}

impl View for PoolSchedule {
    type V = PoolModel;

    closed spec fn view(&self) -> PoolModel {
        PoolModel { queue: self.queue@, timers: self.timers@ }
    }
}

impl PoolSchedule {
    /// An empty pool.
    pub fn new() -> (r: PoolSchedule)
        ensures
            r@.queue == Seq::<(u64, ObjectId)>::empty(),
            r@.timers == Map::<u64, PoolEntry>::empty(),
    {
        PoolSchedule { queue: Vec::new(), timers: HashMap::new() }
    }

    /// Starts timer `id` at time `now`: its first deadline is `interval` after `now`.
    pub fn start(&mut self, id: ObjectId, now: u64, interval: u64, single_shot: bool)
        ensures
            final(self)@.queue == old(self)@.queue.push((deadline_after(now, interval), id)),
            final(self)@.timers == old(self)@.timers.insert(id.0, PoolEntry { interval, single_shot }),
    {
        self.queue.push((now.saturating_add(interval), id));
        self.timers.insert(id.0, PoolEntry { interval, single_shot });
    }

    /// Stops timer `id`: its queued deadlines are discarded when they come up.
    pub fn stop(&mut self, id: ObjectId)
        ensures
            final(self)@.queue == old(self)@.queue,
            final(self)@.timers == old(self)@.timers.remove(id.0),
    {
        self.timers.remove(&id.0);
    }

    /// Whether timer `id` is started and not yet stopped or spent.
    pub fn is_started(&self, id: ObjectId) -> (r: bool)
        ensures
            r == self@.timers.contains_key(id.0),
    {
        self.timers.contains_key(&id.0)
    }

    /// Position of an earliest entry of a non-empty queue.
    fn earliest_index(&self) -> (r: usize)
        requires
            self.queue@.len() > 0,
        ensures
            earliest_at(self.queue@, r as int),
    {
        let mut best: usize = 0;
        let mut i: usize = 1;
        while i < self.queue.len()
            invariant
                1 <= i <= self.queue@.len(),
                best < i,
                forall|j: int| 0 <= j < i ==> no_later(self.queue@[best as int], #[trigger] self.queue@[j]),
            decreases self.queue@.len() - i,
        {
            let (d, id) = self.queue[i];
            let (bd, bid) = self.queue[best];
            if d < bd || (d == bd && id.0 < bid.0) {
                best = i;
            }
            i = i + 1;
        }
        best
    }

    /// Decides the pool thread's next action at time `now`.
    pub fn step(&mut self, now: u64) -> (r: PoolStep)
        ensures
            step_relation(old(self)@, now, r, final(self)@),
    {
        let ghost old_model = self@;
        if self.queue.len() == 0 {
            return PoolStep::Idle;
        }
        let i = self.earliest_index();
        let (deadline, id) = self.queue[i];
        assert(old_model.queue[i as int] == (deadline, id));
        if deadline > now {
            return PoolStep::WaitFor(deadline - now);
        }
        self.queue.remove(i);
        match self.timers.get(&id.0) {
            None => {
                assert(self@ == PoolModel { queue: old_model.queue.remove(i as int), timers: old_model.timers });
                PoolStep::Skip(id)
            },
            Some(entry) => {
                let e = *entry;
                if e.single_shot {
                    self.timers.remove(&id.0);
                    assert(self@ == PoolModel {
                        queue: old_model.queue.remove(i as int),
                        timers: old_model.timers.remove(id.0),
                    });
                } else {
                    assert(old_model.timers.contains_key(id.0));
                    self.queue.push((now.saturating_add(e.interval), id));
                    assert(self@ == PoolModel {
                        queue: old_model.queue.remove(i as int).push((deadline_after(now, e.interval), id)),
                        timers: old_model.timers,
                    });
                }
                PoolStep::Fire(id)
            },
        }
    }
}

/// A stopped timer never fires again: while `id` is not started, a step neither fires
/// it nor starts it.
pub proof fn law_stopped_never_fires(m: PoolModel, now: u64, r: PoolStep, m2: PoolModel, id: ObjectId)
    requires
        step_relation(m, now, r, m2),
        !m.timers.contains_key(id.0),
    ensures
        r != PoolStep::Fire(id),
        !m2.timers.contains_key(id.0),
{
    if m.queue.len() > 0 {
        let i = choose|i: int| #![trigger m.queue[i]] earliest_at(m.queue, i) && {
            let (deadline, id2) = m.queue[i];
            let rest = m.queue.remove(i);
            if deadline > now {
                r == PoolStep::WaitFor((deadline - now) as u64) && m2 == m
            } else if !m.timers.contains_key(id2.0) {
                r == PoolStep::Skip(id2) && m2 == PoolModel { queue: rest, timers: m.timers }
            } else if m.timers[id2.0].single_shot {
                r == PoolStep::Fire(id2) && m2 == PoolModel { queue: rest, timers: m.timers.remove(id2.0) }
            } else {
                r == PoolStep::Fire(id2) && m2 == PoolModel {
                    queue: rest.push((deadline_after(now, m.timers[id2.0].interval), id2)),
                    timers: m.timers,
                }
            }
        };
    }
}

/// A single-shot timer is forgotten once it fires, so it fires at most once per start.
pub proof fn law_single_shot_forgotten(m: PoolModel, now: u64, id: ObjectId, m2: PoolModel)
    requires
        step_relation(m, now, PoolStep::Fire(id), m2),
        m.timers.contains_key(id.0),
        m.timers[id.0].single_shot,
    ensures
        !m2.timers.contains_key(id.0),
{
}

/// A fire or skip takes an earliest queued entry, and only once its deadline is due.
pub proof fn law_fires_earliest_due(m: PoolModel, now: u64, r: PoolStep, m2: PoolModel)
    requires
        step_relation(m, now, r, m2),
        r is Fire || r is Skip,
    ensures
        exists|i: int| #![trigger m.queue[i]] earliest_at(m.queue, i) && m.queue[i].0 <= now
            && (r == PoolStep::Fire(m.queue[i].1) || r == PoolStep::Skip(m.queue[i].1)),
{
}

/// A step fires or skips a timer only through a queued entry of it that is due: while
/// every queued entry of `id` lies after `now`, a step neither fires nor skips `id`.
pub proof fn law_not_before_deadline(m: PoolModel, now: u64, r: PoolStep, m2: PoolModel, id: ObjectId)
    requires
        step_relation(m, now, r, m2),
        forall|k: int| 0 <= k < m.queue.len() && (#[trigger] m.queue[k]).1 == id ==> m.queue[k].0 > now,
    ensures
        r != PoolStep::Fire(id),
        r != PoolStep::Skip(id),
{
}

/// A timer started at time `t` with interval `iv` (and no other entry of it queued) is
/// neither fired nor skipped by a step before `t + iv` (within the clock's range).
pub proof fn law_start_waits_interval(
    m: PoolModel,
    id: ObjectId,
    t: u64,
    iv: u64,
    single_shot: bool,
    now: u64,
    r: PoolStep,
    m2: PoolModel,
)
    requires
        forall|k: int| 0 <= k < m.queue.len() ==> (#[trigger] m.queue[k]).1 != id,
        now < t + iv,
        t + iv <= u64::MAX,
        step_relation(
            PoolModel {
                queue: m.queue.push((deadline_after(t, iv), id)),
                timers: m.timers.insert(id.0, PoolEntry { interval: iv, single_shot }),
            },
            now,
            r,
            m2,
        ),
    ensures
        r != PoolStep::Fire(id),
        r != PoolStep::Skip(id),
{
    let q = m.queue.push((deadline_after(t, iv), id));
    assert forall|k: int| 0 <= k < q.len() && (#[trigger] q[k]).1 == id implies q[k].0 > now by {
        if k < m.queue.len() {
            assert(q[k] == m.queue[k]);
        } else {
            assert(q[k] == (deadline_after(t, iv), id));
        }
    }
    law_not_before_deadline(
        PoolModel { queue: q, timers: m.timers.insert(id.0, PoolEntry { interval: iv, single_shot }) },
        now,
        r,
        m2,
        id,
    );
}

} // verus!
