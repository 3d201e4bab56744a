//! Periodic-task scheduler driven by a single wake timer.
//!
//! Tasks are registered with an individual frequency; the scheduler keeps
//! one deadline per task and always wakes at the soonest of them, never
//! with one timer per task. On each wake every task whose deadline has
//! arrived fires once, in registration order, and is rescheduled one full
//! period after the wake. A task's first fire comes one full period after
//! registration, not immediately.
//!
//! Time is the scheduler's own millisecond clock, advanced by `run_for`
//! exactly as the background loop's sleeps would advance it: each wake
//! lands exactly on the soonest deadline, so every deadline in this core
//! lies ahead of the clock and a task with frequency F fires once every F
//! milliseconds, with no drift.

use vstd::prelude::*;

verus! {

/// An object that can be "ticked" to update its state.
pub trait Tickable: Send + Sync {
    fn tick(&mut self);
}

/// A registered task with its cadence bookkeeping: frequency in
/// milliseconds, the clock value of the most recent fire (or of
/// registration), the deadline of the next fire, and how often it has
/// fired. `next_tick == last_tick + frequency` at all times between fires.
pub struct TickableEntry<T> {
    pub task: T,
    pub frequency: u32,
    pub last_tick: u64,
    pub next_tick: u64,
    pub fires: u64,
}

/// How a live entry `e` relates to its state `e0` at the start of a run:
/// same frequency, fired some whole number of periods since, bookkeeping
/// consistent, and its deadline still ahead of the clock.
pub open spec fn tracks<T>(e0: TickableEntry<T>, e: TickableEntry<T>, now: u64) -> bool {
    &&& e.frequency == e0.frequency
    &&& e0.fires <= e.fires
    &&& e.last_tick == e0.last_tick + (e.fires - e0.fires) * e0.frequency
    &&& e.next_tick == e.last_tick + e.frequency
    &&& e.last_tick <= now
    &&& e.next_tick > now
    &&& e.fires <= e.last_tick
}

/// Manages a set of tickable tasks and fires each at its own frequency
/// from one wake timer.
pub struct Ticker<T> {
    entries: Vec<TickableEntry<T>>,
    running: bool,
    now: u64,
}

impl<T: Tickable> Ticker<T> {
    /// The registered entries, in registration order.
    pub closed spec fn slots(&self) -> Seq<TickableEntry<T>> {
        self.entries@
    }

    /// The scheduler's clock, in milliseconds since creation.
    pub closed spec fn clock(&self) -> u64 {
        self.now
    }

    /// Whether the background loop is running.
    pub closed spec fn is_running(&self) -> bool {
        self.running
    }

    /// Bookkeeping of every entry is consistent and the clock has room for
    /// one more period.
    pub closed spec fn wf(&self) -> bool {
        &&& self.now + u32::MAX <= u64::MAX
        &&& forall|i: int|
            0 <= i < self.entries@.len() ==> {
                let e = #[trigger] self.entries@[i];
                &&& 1 <= e.frequency
                &&& e.next_tick == e.last_tick + e.frequency
                &&& e.last_tick <= self.now
                &&& e.next_tick > self.now
                &&& e.fires <= e.last_tick
            }
    }

    /// A stopped scheduler with no tasks and its clock at zero.
    pub fn new() -> (r: Ticker<T>)
        ensures
            r.wf(),
            r.slots() == Seq::<TickableEntry<T>>::empty(),
            !r.is_running(),
            r.clock() == 0,
    {
        Ticker { entries: Vec::new(), running: false, now: 0 }
    }

    /// Registers a task. Its first deadline is one full period from now and
    /// it has not fired yet. Frequencies are positive: a frequency of zero
    /// is rejected by this precondition rather than given a meaning.
    pub fn add_tickable(&mut self, frequency: u32, task: T)
        requires
            old(self).wf(),
            frequency >= 1,
        ensures
            final(self).wf(),
            final(self).slots().len() == old(self).slots().len() + 1,
            final(self).slots().last().task == task,
            final(self).slots().last().frequency == frequency,
            final(self).slots().last().last_tick == old(self).clock(),
            final(self).slots().last().next_tick == old(self).clock() + frequency,
            final(self).slots().last().fires == 0,
            forall|i: int|
                0 <= i < old(self).slots().len() ==> final(self).slots()[i] == old(self).slots()[i],
            final(self).clock() == old(self).clock(),
            final(self).is_running() == old(self).is_running(),
    {
        let entry = TickableEntry {
            task,
            frequency,
            last_tick: self.now,
            next_tick: self.now + frequency as u64,
            fires: 0,
        };
        self.entries.push(entry);
    }

    /// Starts the background loop.
    pub fn start(&mut self)
        requires
            old(self).wf(),
        ensures
            final(self).wf(),
            final(self).is_running(),
            final(self).slots() == old(self).slots(),
            final(self).clock() == old(self).clock(),
    {
        self.running = true;
    }

    /// Stops the background loop; it exits at the top of its next cycle.
    pub fn stop(&mut self)
        requires
            old(self).wf(),
        ensures
            final(self).wf(),
            !final(self).is_running(),
            final(self).slots() == old(self).slots(),
            final(self).clock() == old(self).clock(),
    {
        self.running = false;
    }

    /// Number of registered tasks.
    pub fn task_count(&self) -> (r: usize)
        ensures
            r == self.slots().len(),
    {
        self.entries.len()
    }

    /// How often task `i` has fired.
    pub fn fires_at(&self, i: usize) -> (r: u64)
        requires
            i < self.slots().len(),
        ensures
            r == self.slots()[i as int].fires,
    {
        self.entries[i].fires
    }

    /// Read access to task `i`.
    pub fn task_at(&self, i: usize) -> (r: &T)
        requires
            i < self.slots().len(),
        ensures
            *r == self.slots()[i as int].task,
    {
        &self.entries[i].task
    }

    /// The soonest deadline not after `end`, or nothing when every deadline
    /// lies past `end` (in particular when no task is registered, matching
    /// the loop's fallback sleep: it wakes to fire nothing).
    fn next_due(&self, end: u64) -> (r: Option<u64>)
        ensures
            match r {
                Option::None => forall|i: int|
                    0 <= i < self.slots().len() ==> #[trigger] self.slots()[i].next_tick > end,
                Option::Some(d) => d <= end && (exists|i: int|
                    0 <= i < self.slots().len() && #[trigger] self.slots()[i].next_tick == d)
                    && forall|i: int|
                    0 <= i < self.slots().len() ==> #[trigger] self.slots()[i].next_tick >= d,
            },
    {
        let n = self.entries.len();
        let mut best: Option<u64> = None;
        let mut i: usize = 0;
        while i < n
            invariant
                i <= n,
                n == self.slots().len(),
                match best {
                    Option::None => forall|j: int|
                        0 <= j < i ==> #[trigger] self.slots()[j].next_tick > end,
                    Option::Some(d) => d <= end && (exists|j: int|
                        0 <= j < i && #[trigger] self.slots()[j].next_tick == d) && forall|j: int|
                        0 <= j < i ==> #[trigger] self.slots()[j].next_tick >= d,
                },
            decreases n - i,
        {
            let next = self.entries[i].next_tick;
            if next <= end {
                match best {
                    Option::None => {
                        best = Some(next);
                    },
                    Option::Some(d) => {
                        if next < d {
                            best = Some(next);
                        }
                    },
                }
            }
            i = i + 1;
        }
        best
    }

    /// Fires every task whose deadline has arrived: the task ticks once,
    /// and its next deadline is one full period after this wake.
    fn fire_due(&mut self)
        requires
            old(self).now + u32::MAX <= u64::MAX,
            forall|i: int|
                0 <= i < old(self).slots().len() ==> {
                    let e = #[trigger] old(self).slots()[i];
                    1 <= e.frequency && e.next_tick == e.last_tick + e.frequency && e.last_tick
                        <= old(self).now && e.fires <= e.last_tick
                },
        ensures
            final(self).clock() == old(self).clock(),
            final(self).is_running() == old(self).is_running(),
            final(self).slots().len() == old(self).slots().len(),
            forall|i: int|
                0 <= i < old(self).slots().len() ==> {
                    let e0 = #[trigger] old(self).slots()[i];
                    let e = final(self).slots()[i];
                    if e0.next_tick <= old(self).clock() {
                        e.frequency == e0.frequency && e.fires == e0.fires + 1 && e.last_tick
                            == old(self).clock() && e.next_tick == old(self).clock() + e0.frequency
                    } else {
                        e == e0
                    }
                },
    {
        let now = self.now;
        let n = self.entries.len();
        let mut j: usize = 0;
        while j < n
            invariant
                j <= n,
                n == self.slots().len(),
                self.now == now,
                self.now == old(self).clock(),
                self.running == old(self).is_running(),
                old(self).now + u32::MAX <= u64::MAX,
                forall|i: int|
                    0 <= i < n ==> {
                        let e = #[trigger] old(self).slots()[i];
                        1 <= e.frequency && e.next_tick == e.last_tick + e.frequency && e.last_tick
                            <= now && e.fires <= e.last_tick
                    },
                forall|i: int|
                    0 <= i < j ==> {
                        let e0 = #[trigger] old(self).slots()[i];
                        let e = self.slots()[i];
                        if e0.next_tick <= now {
                            e.frequency == e0.frequency && e.fires == e0.fires + 1 && e.last_tick
                                == now && e.next_tick == now + e0.frequency
                        } else {
                            e == e0
                        }
                    },
                forall|i: int| j <= i < n ==> self.slots()[i] == old(self).slots()[i],
            decreases n - j,
        {
            let due = self.entries[j].next_tick <= now;
            if due {
                let e = &mut self.entries[j];
                e.task.tick();
                e.fires = e.fires + 1;
                e.last_tick = now;
                e.next_tick = now + e.frequency as u64;
            }
            j = j + 1;
        }
    }

    /// Runs the scheduler for `duration` milliseconds: the cycle of
    /// "wake at the soonest deadline, fire everything due, reschedule one
    /// period after the wake" repeats until every deadline lies past the
    /// end of the window. A stopped scheduler does nothing.
    ///
    /// A task registered with frequency F that last fired (or was
    /// registered) at time L fires exactly (end - L) / F more times in a
    /// window ending at `end`, so tasks with different frequencies fire
    /// independently, each at its own cadence, from this one loop.
    pub fn run_for(&mut self, duration: u64)
        requires
            old(self).wf(),
            old(self).clock() + duration + u32::MAX <= u64::MAX,
        ensures
            final(self).wf(),
            final(self).is_running() == old(self).is_running(),
            final(self).slots().len() == old(self).slots().len(),
            !old(self).is_running() ==> *final(self) == *old(self),
            old(self).is_running() ==> final(self).clock() == old(self).clock() + duration,
            old(self).is_running() ==> forall|i: int|
                0 <= i < old(self).slots().len() ==> {
                    let e0 = #[trigger] old(self).slots()[i];
                    let e = final(self).slots()[i];
                    &&& e.frequency == e0.frequency
                    &&& e.fires == e0.fires + (old(self).clock() + duration - e0.last_tick) / (
                    e0.frequency as int)
                    &&& e.last_tick == e0.last_tick + (e.fires - e0.fires) * e0.frequency
                    &&& e.next_tick == e.last_tick + e0.frequency
                },
    {
        if !self.running {
            return ;
        }
        let end = self.now + duration;
        let ghost orig = *old(self);
        loop
            invariant_except_break
                self.running,
                orig.is_running(),
                self.slots().len() == orig.slots().len(),
                self.now <= end,
                orig.clock() <= self.now,
                end == orig.clock() + duration,
                end + u32::MAX <= u64::MAX,
                forall|i: int|
                    0 <= i < orig.slots().len() ==> tracks(
                        orig.slots()[i],
                        #[trigger] self.slots()[i],
                        self.now,
                    ),
            ensures
                self.running,
                self.slots().len() == orig.slots().len(),
                self.now <= end,
                end == orig.clock() + duration,
                forall|i: int|
                    0 <= i < orig.slots().len() ==> tracks(
                        orig.slots()[i],
                        #[trigger] self.slots()[i],
                        self.now,
                    ),
                forall|i: int|
                    0 <= i < self.slots().len() ==> #[trigger] self.slots()[i].next_tick > end,
            decreases end - self.now,
        {
            match self.next_due(end) {
                Option::None => {
                    break ;
                },
                Option::Some(d) => {
                    let ghost before = *self;
                    proof {
                        assert forall|i: int|
                            0 <= i < self.slots().len() implies #[trigger] self.slots()[i].next_tick
                            > self.now by {
                            assert(tracks(orig.slots()[i], self.slots()[i], self.now));
                        }
                    }
                    self.now = d;
                    self.fire_due();
                    proof {
                        assert forall|i: int| 0 <= i < orig.slots().len() implies tracks(
                            orig.slots()[i],
                            #[trigger] self.slots()[i],
                            self.now,
                        ) by {
                            let e0 = orig.slots()[i];
                            let eb = before.entries@[i];
                            let e = self.slots()[i];
                            assert(tracks(e0, eb, before.now));
                            if eb.next_tick <= d {
                                assert(eb.next_tick == d);
                                let k = eb.fires - e0.fires;
                                assert((k + 1) * e0.frequency == k * e0.frequency
                                    + e0.frequency) by (nonlinear_arith);
                            }
                        }
                    }
                },
            }
        }
        let ghost n_exit = self.now;
        self.now = end;
        proof {
            assert forall|i: int| 0 <= i < orig.slots().len() implies {
                let e0 = #[trigger] orig.slots()[i];
                let e = self.slots()[i];
                e.fires == e0.fires + (end - e0.last_tick) / (e0.frequency as int)
            } by {
                let e0 = orig.slots()[i];
                let e = self.slots()[i];
                assert(tracks(e0, e, n_exit));
                let k = e.fires - e0.fires;
                let r = end - e0.last_tick - k * e0.frequency;
                assert(e.last_tick == e0.last_tick + k * e0.frequency);
                assert(e.last_tick <= end);
                assert(e.next_tick == e.last_tick + e0.frequency);
                assert(e.next_tick > end);
                vstd::arithmetic::div_mod::lemma_fundamental_div_mod_converse(
                    end - e0.last_tick,
                    e0.frequency as int,
                    k,
                    r,
                );
            }
        }
    }
}

} // verus!
