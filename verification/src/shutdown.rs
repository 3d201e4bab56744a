//! One-shot, multi-observer cancellation signal.
//!
//! A single coordinator is created at process start. Components obtain an
//! independent observer each at their own start time; firing the signal
//! wakes every observer that subscribed before the fire, each of which sees
//! the event at most once and non-destructively for the others. An observer
//! subscribed after the fire never sees the event, and firing again changes
//! nothing — the signal is a single logical event, not a queue.

use vstd::prelude::*;

verus! {

/// State of one observer: whether the fire reached it, and whether it has
/// already taken the event.
#[derive(Clone, Copy, PartialEq, Eq, Structural)]
pub struct ObserverSlot {
    pub notified: bool,
    pub consumed: bool,
}

/// Mathematical view of the coordinator.
pub struct ShutdownView {
    pub fired: bool,
    pub slots: Seq<ObserverSlot>,
}

/// Subscription: a fresh observer that has seen nothing yet. Its index is
/// the observer's handle.
pub open spec fn spec_subscribe(v: ShutdownView) -> ShutdownView {
    ShutdownView { fired: v.fired, slots: v.slots.push(ObserverSlot { notified: false, consumed: false }) }
}

/// Firing: the first fire notifies every current observer; any further
/// fire is a no-op.
pub open spec fn spec_fire(v: ShutdownView) -> ShutdownView {
    if v.fired {
        v
    } else {
        ShutdownView {
            fired: true,
            slots: v.slots.map_values(
                |s: ObserverSlot| ObserverSlot { notified: true, consumed: s.consumed },
            ),
        }
    }
}

/// Observation: the observer takes the event exactly when it was notified
/// and has not taken it before.
pub open spec fn spec_observe(v: ShutdownView, i: int) -> (ShutdownView, bool) {
    let saw = v.slots[i].notified && !v.slots[i].consumed;
    (
        ShutdownView {
            fired: v.fired,
            slots: v.slots.update(
                i,
                ObserverSlot { notified: v.slots[i].notified, consumed: v.slots[i].consumed || saw },
            ),
        },
        saw,
    )
}

pub struct ShutdownCoordinator {
    fired: bool,
    observers: Vec<ObserverSlot>,
}

impl ShutdownCoordinator {
    /// The coordinator's view.
    pub closed spec fn view(&self) -> ShutdownView {
        ShutdownView { fired: self.fired, slots: self.observers@ }
    }

    /// A coordinator that has not fired and has no observers yet.
    pub fn new() -> (r: ShutdownCoordinator)
        ensures
            !r.view().fired,
            r.view().slots == Seq::<ObserverSlot>::empty(),
    {
        ShutdownCoordinator { fired: false, observers: Vec::new() }
    }

    /// Number of observers handed out so far.
    pub fn observer_count(&self) -> (r: usize)
        ensures
            r == self.view().slots.len(),
    {
        self.observers.len()
    }

    /// Whether the signal has fired.
    pub fn has_fired(&self) -> (r: bool)
        ensures
            r == self.view().fired,
    {
        self.fired
    }

    /// Hands out a fresh observer and returns its handle.
    pub fn subscribe(&mut self) -> (idx: usize)
        ensures
            final(self).view() == spec_subscribe(old(self).view()),
            idx == old(self).view().slots.len(),
    {
        let idx = self.observers.len();
        self.observers.push(ObserverSlot { notified: false, consumed: false });
        idx
    }

    /// Fires the signal. The first fire notifies every observer subscribed
    /// so far; firing again is a harmless no-op, never an error.
    pub fn fire(&mut self)
        ensures
            final(self).view() == spec_fire(old(self).view()),
            final(self).view().fired,
    {
        if self.fired {
            return ;
        }
        self.fired = true;
        let n = self.observers.len();
        let mut i: usize = 0;
        while i < n
            invariant
                i <= n,
                n == self.observers@.len(),
                self.fired,
                forall|j: int|
                    0 <= j < i ==> self.observers@[j] == (ObserverSlot {
                        notified: true,
                        consumed: old(self).view().slots[j].consumed,
                    }),
                forall|j: int| i <= j < n ==> self.observers@[j] == old(self).view().slots[j],
            decreases n - i,
        {
            let slot = &mut self.observers[i];
            slot.notified = true;
            i = i + 1;
        }
        proof {
            assert(self.view().slots =~= spec_fire(old(self).view()).slots);
        }
    }

    /// Lets observer `idx` poll the signal: true exactly once after the
    /// fire reached it, false before the fire and forever after the first
    /// true.
    pub fn observe(&mut self, idx: usize) -> (r: bool)
        requires
            idx < old(self).view().slots.len(),
        ensures
            final(self).view() == spec_observe(old(self).view(), idx as int).0,
            r == spec_observe(old(self).view(), idx as int).1,
    {
        let slot = &mut self.observers[idx];
        let r = slot.notified && !slot.consumed;
        if r {
            slot.consumed = true;
        }
        proof {
            assert(self.view().slots =~= spec_observe(old(self).view(), idx as int).0.slots);
        }
        r
    }
}

/// Each observer sees the event at most once: two observations in a row
/// cannot both report it.
pub proof fn lemma_observe_at_most_once(v: ShutdownView, i: int)
    requires
        0 <= i < v.slots.len(),
    ensures
        !(spec_observe(v, i).1 && spec_observe(spec_observe(v, i).0, i).1),
{
}

/// Observation is non-destructive for every other observer: it leaves
/// their slots, and the fired flag, untouched.
pub proof fn lemma_observe_isolated(v: ShutdownView, i: int, j: int)
    requires
        0 <= i < v.slots.len(),
        0 <= j < v.slots.len(),
        i != j,
    ensures
        spec_observe(v, i).0.slots[j] == v.slots[j],
        spec_observe(v, i).0.fired == v.fired,
{
}

/// An observer that subscribes after the fire never sees the event: its
/// slot starts unnotified, any further fire is a no-op, and observing it
/// reports nothing.
pub proof fn lemma_late_subscriber_sees_nothing(v: ShutdownView)
    requires
        v.fired,
    ensures
        !spec_subscribe(v).slots.last().notified,
        spec_fire(spec_subscribe(v)) == spec_subscribe(v),
        !spec_observe(spec_subscribe(v), v.slots.len() as int).1,
{
}

/// Observers subscribed before the fire are all woken by it: after the
/// first fire every one of them is notified.
pub proof fn lemma_fire_wakes_all(v: ShutdownView, i: int)
    requires
        !v.fired,
        0 <= i < v.slots.len(),
    ensures
        spec_fire(v).slots[i].notified,
        spec_observe(spec_fire(v), i).1 == !v.slots[i].consumed,
{
}

} // verus!
