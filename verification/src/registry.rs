//! Concurrent directory of active subscribers and their outbound queues.
//!
//! Every registered subscriber owns an unbounded FIFO queue; the registry
//! holds the send half and the subscriber's write task drains the receive
//! half. `broadcast` attempts to enqueue a payload once on every current
//! queue; a per-subscriber enqueue failure (the write task already exited)
//! is counted and never aborts the fan-out, and removal stays the
//! responsibility of the owning connection's lifecycle.
//!
//! The registry's mathematical view is a map from subscriber identity to the
//! sequence of payloads broadcast to that subscriber while it was
//! registered, newest last. All operations relate the new view to the old
//! one through the `spec_register`, `spec_unregister` and `spec_broadcast`
//! transitions.

use vstd::prelude::*;
use tokio::sync::mpsc::UnboundedReceiver;
use tokio::sync::mpsc::UnboundedSender;

verus! {

#[verifier::external_type_specification]
#[verifier::external_body]
#[verifier::reject_recursive_types(T)]
pub struct ExUnboundedSender<T>(UnboundedSender<T>);

#[verifier::external_type_specification]
#[verifier::external_body]
#[verifier::reject_recursive_types(T)]
pub struct ExUnboundedReceiver<T>(UnboundedReceiver<T>);

/// Relies on tokio::sync::mpsc::unbounded_channel: returns the linked send
/// and receive halves of a fresh unbounded FIFO queue.
#[verifier::external_body]
pub(crate) fn open_queue() -> (r: (UnboundedSender<Vec<u8>>, UnboundedReceiver<Vec<u8>>)) {
    tokio::sync::mpsc::unbounded_channel()
}

/// Relies on tokio::sync::mpsc::UnboundedSender::send: enqueues a clone of
/// the payload without blocking and reports success, or reports failure when
/// the receive half of the queue has been dropped. Nothing is assumed about
/// which outcome occurs.
#[verifier::external_body]
fn send_bytes(tx: &UnboundedSender<Vec<u8>>, payload: &Vec<u8>) -> (ok: bool) {
    tx.send(payload.clone()).is_ok()
}

/// Registration of `id`: its queue starts empty; an entry already under
/// `id` is overwritten.
pub open spec fn spec_register(m: Map<u128, Seq<Seq<u8>>>, id: u128) -> Map<u128, Seq<Seq<u8>>> {
    m.insert(id, Seq::empty())
}

/// Removal of `id`; removing an absent identity changes nothing.
pub open spec fn spec_unregister(m: Map<u128, Seq<Seq<u8>>>, id: u128) -> Map<u128, Seq<Seq<u8>>> {
    m.remove(id)
}

/// Fan-out of one payload: every registered subscriber's queue grows by
/// exactly that payload, appended at the end, and no identity joins or
/// leaves.
pub open spec fn spec_broadcast(m: Map<u128, Seq<Seq<u8>>>, p: Seq<u8>) -> Map<
    u128,
    Seq<Seq<u8>>,
> {
    Map::new(|k: u128| m.dom().contains(k), |k: u128| m[k].push(p))
}

pub struct SubscriberRegistry {
    ids: Vec<u128>,
    senders: Vec<UnboundedSender<Vec<u8>>>,
    history: Ghost<Map<u128, Seq<Seq<u8>>>>,
}

impl SubscriberRegistry {
    /// The queues: each registered identity mapped to the payloads broadcast
    /// to it since registration, in broadcast order.
    pub closed spec fn queues(&self) -> Map<u128, Seq<Seq<u8>>> {
        self.history@
    }

    /// The registered identities, in registration order.
    pub closed spec fn ids_seq(&self) -> Seq<u128> {
        self.ids@
    }

    /// At most one entry per identity, and the view covers exactly the
    /// registered identities.
    pub closed spec fn wf(&self) -> bool {
        &&& self.ids@.len() == self.senders@.len()
        &&& self.ids@.no_duplicates()
        &&& forall|k: u128| #[trigger] self.history@.dom().contains(k) <==> self.ids@.contains(k)
    }

    pub fn new() -> (r: SubscriberRegistry)
        ensures
            r.wf(),
            r.queues() == Map::<u128, Seq<Seq<u8>>>::empty(),
            r.ids_seq() == Seq::<u128>::empty(),
    {
        let r = SubscriberRegistry {
            ids: Vec::new(),
            senders: Vec::new(),
            history: Ghost(Map::empty()),
        };
        proof {
            assert(r.history@.dom() =~= Set::empty());
        }
        r
    }

    /// Index of the entry under `id`, if any.
    fn index_of(&self, id: u128) -> (r: Option<usize>)
        ensures
            match r {
                Some(i) => i < self.ids@.len() && self.ids@[i as int] == id,
                None => !self.ids@.contains(id),
            },
    {
        let n = self.ids.len();
        let mut i: usize = 0;
        while i < n
            invariant
                i <= n,
                n == self.ids@.len(),
                forall|j: int| 0 <= j < i ==> self.ids@[j] != id,
            decreases n - i,
        {
            if self.ids[i] == id {
                return Some(i);
            }
            i = i + 1;
        }
        None
    }

    /// Whether `id` currently has an entry.
    pub fn contains(&self, id: u128) -> (r: bool)
        requires
            self.wf(),
        ensures
            r == self.queues().dom().contains(id),
    {
        match self.index_of(id) {
            Some(i) => {
                assert(self.ids@.contains(id));
                true
            },
            None => false,
        }
    }

    /// Number of registered subscribers.
    pub fn count(&self) -> (r: usize)
        ensures
            r == self.ids_seq().len(),
    {
        self.ids.len()
    }

    /// Inserts `id` with a fresh, empty queue, overwriting any colliding
    /// entry. Never fails.
    pub fn register(&mut self, id: u128, tx: UnboundedSender<Vec<u8>>)
        requires
            old(self).wf(),
        ensures
            final(self).wf(),
            final(self).queues() == spec_register(old(self).queues(), id),
            final(self).queues().dom().contains(id),
    {
        self.unregister(id);
        let ghost mid = *self;
        self.ids.push(id);
        self.senders.push(tx);
        proof {
            self.history@ = self.history@.insert(id, Seq::empty());
            assert(self.history@ =~= spec_register(old(self).queues(), id));
            assert(!mid.ids@.contains(id));
            let n = self.ids@.len();
            assert(self.ids@[n - 1] == id);
            assert(self.ids@.no_duplicates()) by {
                assert forall|a: int, b: int|
                    0 <= a < b < n implies self.ids@[a] != self.ids@[b] by {
                    assert(self.ids@[a] == mid.ids@[a]);
                    if b < n - 1 {
                        assert(self.ids@[b] == mid.ids@[b]);
                    }
                }
            }
            assert forall|k: u128| #[trigger] self.history@.dom().contains(
                k,
            ) implies self.ids@.contains(k) by {
                if k == id {
                    assert(self.ids@[n - 1] == k);
                } else {
                    let j = choose|j: int| 0 <= j < mid.ids@.len() && mid.ids@[j] == k;
                    assert(self.ids@[j] == k);
                }
            }
            assert forall|k: u128| self.ids@.contains(k) implies self.history@.dom().contains(
                k,
            ) by {
                let j = choose|j: int| 0 <= j < n && self.ids@[j] == k;
                if j < n - 1 {
                    assert(mid.ids@[j] == k);
                }
            }
        }
    }

    /// Removes the entry under `id` if one exists; a no-op otherwise. Never
    /// fails.
    pub fn unregister(&mut self, id: u128)
        requires
            old(self).wf(),
        ensures
            final(self).wf(),
            final(self).queues() == spec_unregister(old(self).queues(), id),
            !final(self).queues().dom().contains(id),
    {
        match self.index_of(id) {
            Some(i) => {
                let ghost prev = *self;
                let ghost ii = i as int;
                self.ids.remove(i);
                self.senders.remove(i);
                proof {
                    self.history@ = self.history@.remove(id);
                    assert(self.history@ =~= spec_unregister(old(self).queues(), id));
                    assert forall|j: int| 0 <= j < self.ids@.len() implies self.ids@[j]
                        != id by {
                        if j < ii {
                            assert(self.ids@[j] == prev.ids@[j]);
                            assert(prev.ids@.no_duplicates());
                        } else {
                            assert(self.ids@[j] == prev.ids@[j + 1]);
                        }
                    }
                    assert(!self.ids@.contains(id));
                    assert(self.ids@.no_duplicates()) by {
                        assert forall|a: int, b: int|
                            0 <= a < b < self.ids@.len() implies self.ids@[a] != self.ids@[b] by {
                            let pa = if a < ii {
                                a
                            } else {
                                a + 1
                            };
                            let pb = if b < ii {
                                b
                            } else {
                                b + 1
                            };
                            assert(self.ids@[a] == prev.ids@[pa]);
                            assert(self.ids@[b] == prev.ids@[pb]);
                        }
                    }
                    assert forall|k: u128| #[trigger] self.ids@.contains(k) implies prev.ids@.contains(
                        k,
                    ) by {
                        let j = choose|j: int| 0 <= j < self.ids@.len() && self.ids@[j] == k;
                        if j < ii {
                            assert(prev.ids@[j] == k);
                        } else {
                            assert(prev.ids@[j + 1] == k);
                        }
                    }
                    assert forall|k: u128| k != id && prev.ids@.contains(k) implies self.ids@.contains(
                        k,
                    ) by {
                        let j = choose|j: int| 0 <= j < prev.ids@.len() && prev.ids@[j] == k;
                        if j < ii {
                            assert(self.ids@[j] == k);
                        } else {
                            assert(j != ii);
                            assert(self.ids@[j - 1] == k);
                        }
                    }
                }
            },
            None => {
                proof {
                    assert(!self.history@.dom().contains(id));
                    assert(self.history@ =~= spec_unregister(old(self).queues(), id));
                }
            },
        }
    }

    /// Attempts to enqueue `payload` once on every current subscriber's
    /// queue and returns how many enqueues failed because the subscriber's
    /// write task had already exited. A failure never aborts the fan-out and
    /// never removes the entry.
    pub fn broadcast(&mut self, payload: &Vec<u8>) -> (failed: usize)
        requires
            old(self).wf(),
        ensures
            final(self).wf(),
            final(self).queues() == spec_broadcast(old(self).queues(), payload@),
            final(self).ids_seq() == old(self).ids_seq(),
            failed <= old(self).ids_seq().len(),
    {
        let n = self.senders.len();
        let mut failed: usize = 0;
        let mut i: usize = 0;
        while i < n
            invariant
                i <= n,
                failed <= i,
                n == self.senders@.len(),
                *self == *old(self),
            decreases n - i,
        {
            let ok = send_bytes(&self.senders[i], payload);
            if !ok {
                failed = failed + 1;
            }
            i = i + 1;
        }
        proof {
            self.history@ = spec_broadcast(self.history@, payload@);
        }
        failed
    }
}

/// Fan-out correctness: one broadcast of `p` delivers `p` to the queue of a
/// registered subscriber exactly once — the queue grows by one entry, that
/// entry is `p`, and the set of subscribers is unchanged.
pub proof fn lemma_fan_out(m: Map<u128, Seq<Seq<u8>>>, p: Seq<u8>, id: u128)
    requires
        m.dom().contains(id),
    ensures
        spec_broadcast(m, p).dom() =~= m.dom(),
        spec_broadcast(m, p)[id] == m[id].push(p),
        spec_broadcast(m, p)[id].len() == m[id].len() + 1,
        spec_broadcast(m, p)[id].last() == p,
{
}

/// Fan-out of a whole sequence of payloads, in order.
pub open spec fn spec_broadcast_all(m: Map<u128, Seq<Seq<u8>>>, ps: Seq<Seq<u8>>) -> Map<
    u128,
    Seq<Seq<u8>>,
>
    decreases ps.len(),
{
    if ps.len() == 0 {
        m
    } else {
        spec_broadcast_all(spec_broadcast(m, ps[0]), ps.drop_first())
    }
}

/// Broadcasting touches no identity: the set of subscribers after any
/// sequence of broadcasts is the set before.
pub proof fn lemma_broadcast_all_dom(m: Map<u128, Seq<Seq<u8>>>, ps: Seq<Seq<u8>>)
    ensures
        spec_broadcast_all(m, ps).dom() =~= m.dom(),
    decreases ps.len(),
{
    if ps.len() > 0 {
        lemma_broadcast_all_dom(spec_broadcast(m, ps[0]), ps.drop_first());
        assert(spec_broadcast(m, ps[0]).dom() =~= m.dom());
    }
}

/// Order preservation per subscriber: a subscriber that stays registered
/// while the payloads `ps` are broadcast in that order receives exactly
/// `ps`, appended to its queue in the same order — no reordering, no
/// duplication, no loss.
pub proof fn lemma_order_preserved(m: Map<u128, Seq<Seq<u8>>>, ps: Seq<Seq<u8>>, id: u128)
    requires
        m.dom().contains(id),
    ensures
        spec_broadcast_all(m, ps).dom().contains(id),
        spec_broadcast_all(m, ps)[id] == m[id] + ps,
    decreases ps.len(),
{
    if ps.len() == 0 {
        assert(m[id] + ps =~= m[id]);
    } else {
        lemma_order_preserved(spec_broadcast(m, ps[0]), ps.drop_first(), id);
        assert(m[id].push(ps[0]) + ps.drop_first() =~= m[id] + ps);
    }
}

/// Disconnect cleanup: once an identity is unregistered it is absent from
/// the registry, and no later broadcast, however long the sequence, ever
/// reaches it again.
pub proof fn lemma_disconnect_cleanup(m: Map<u128, Seq<Seq<u8>>>, id: u128, ps: Seq<Seq<u8>>)
    ensures
        !spec_unregister(m, id).dom().contains(id),
        !spec_broadcast_all(spec_unregister(m, id), ps).dom().contains(id),
{
    lemma_broadcast_all_dom(spec_unregister(m, id), ps);
}

} // verus!
