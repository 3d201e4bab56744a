//! Decisions of the datagram receive loop.
//!
//! Each iteration of the loop observes exactly one event: a datagram
//! arrived, the transport reported a receive error, or the shutdown signal
//! fired. A datagram is broadcast only when its bytes decode as UTF-8 text;
//! an invalid payload is dropped without touching the registry or any
//! queue. Receive errors are non-fatal and only the shutdown signal ends
//! the loop. The surrounding transport loop performs the receive itself and
//! feeds every observed event through `ingest_step`.

use vstd::prelude::*;
use crate::registry::SubscriberRegistry;
use crate::registry::spec_broadcast;
use crate::text::is_utf8;
use crate::text::is_valid_utf8;

verus! {

/// One event observed by the receive loop.
pub enum IngestEvent {
    /// A datagram arrived with these bytes (already truncated to the
    /// transport's receive buffer).
    Datagram(Vec<u8>),
    /// The transport reported a receive error.
    RecvError,
    /// The shutdown signal fired.
    ShutdownObserved,
}

/// What one iteration decided about the datagram itself.
pub enum IngestOutcome {
    /// The payload was valid UTF-8 text and was broadcast; `failed_sends`
    /// subscribers had already closed their queue.
    Delivered { failed_sends: usize },
    /// The payload was not valid UTF-8 and was dropped.
    RejectedNonUtf8,
    /// The event carried no payload.
    NoPayload,
}

/// Whether the receive loop continues.
pub enum IngestControl {
    Continue,
    Stop,
}

/// Decodes one datagram and fans it out.
///
/// A valid UTF-8 payload is broadcast to every registered subscriber; an
/// invalid one is dropped and the registry — every queue included — is left
/// exactly as it was.
pub fn ingest_datagram(reg: &mut SubscriberRegistry, data: &Vec<u8>) -> (r: IngestOutcome)
    requires
        old(reg).wf(),
    ensures
        final(reg).wf(),
        is_utf8(data@) ==> (r matches IngestOutcome::Delivered { failed_sends }
            && final(reg).queues() == spec_broadcast(old(reg).queues(), data@)
            && failed_sends <= old(reg).ids_seq().len()),
        !is_utf8(data@) ==> r == IngestOutcome::RejectedNonUtf8 && *final(reg) == *old(reg),
        final(reg).ids_seq() == old(reg).ids_seq(),
{
    if is_valid_utf8(data) {
        let failed_sends = reg.broadcast(data);
        IngestOutcome::Delivered { failed_sends }
    } else {
        IngestOutcome::RejectedNonUtf8
    }
}

/// One iteration of the receive loop.
///
/// A datagram is processed by `ingest_datagram` and the loop continues; a
/// transport receive error is contained and the loop continues; the
/// shutdown signal is terminal. Nothing but a valid datagram ever changes
/// the registry.
pub fn ingest_step(reg: &mut SubscriberRegistry, event: IngestEvent) -> (r: (
    IngestControl,
    IngestOutcome,
))
    requires
        old(reg).wf(),
    ensures
        final(reg).wf(),
        match event {
            IngestEvent::Datagram(data) => r.0 matches IngestControl::Continue
                && (is_utf8(data@) ==> final(reg).queues() == spec_broadcast(old(reg).queues(), data@))
                && (!is_utf8(data@) ==> *final(reg) == *old(reg)),
            IngestEvent::RecvError => r.0 matches IngestControl::Continue
                && *final(reg) == *old(reg)
                && r.1 matches IngestOutcome::NoPayload,
            IngestEvent::ShutdownObserved => r.0 matches IngestControl::Stop
                && *final(reg) == *old(reg)
                && r.1 matches IngestOutcome::NoPayload,
        },
        final(reg).ids_seq() == old(reg).ids_seq(),
{
    match event {
        IngestEvent::Datagram(data) => {
            let outcome = ingest_datagram(reg, &data);
            (IngestControl::Continue, outcome)
        },
        IngestEvent::RecvError => (IngestControl::Continue, IngestOutcome::NoPayload),
        IngestEvent::ShutdownObserved => (IngestControl::Stop, IngestOutcome::NoPayload),
    }
}

} // verus!
