//! Per-connection lifecycle of a stream subscriber.
//!
//! A connection moves through `Connecting -> Open -> Closing -> Closed`.
//! On upgrade it receives a fresh identity and an unbounded outbound queue
//! and is registered; the first of reader-ended or shutdown-fired starts the
//! teardown; teardown cancels the writer and reader tasks first and only
//! then unregisters the identity, so no late enqueue can target a queue
//! whose reader is already gone. The surrounding task pair and the race
//! between its halves run outside; every lifecycle decision is taken here.

use vstd::prelude::*;
use tokio::sync::mpsc::UnboundedReceiver;
use crate::registry::SubscriberRegistry;
use crate::registry::open_queue;
use crate::registry::spec_register;
use crate::registry::spec_unregister;

verus! {

/// Relies on uuid::Uuid::new_v4: a freshly generated random identity,
/// returned as its 128-bit value. Nothing is assumed about the value.
#[verifier::external_body]
fn fresh_identity() -> (id: u128) {
    uuid::Uuid::new_v4().as_u128()
}

/// State of one connection.
#[derive(PartialEq, Eq, Structural)]
pub enum ConnPhase {
    Connecting,
    Open,
    Closing,
    Closed,
}

/// Event observed by the connection's supervising task.
#[derive(PartialEq, Eq, Structural)]
pub enum ConnEvent {
    /// The stream handshake completed.
    Upgraded,
    /// The reader task ended: the peer closed or a read failed.
    ReaderEnded,
    /// The shutdown signal fired.
    ShutdownFired,
    /// Both the writer and the reader task have been cancelled.
    TasksCancelled,
}

/// Action the supervising task must perform, in the order returned.
#[derive(PartialEq, Eq, Structural)]
pub enum ConnAction {
    /// Register the identity and spawn the writer and reader tasks.
    RegisterAndSpawn,
    /// Cancel the writer task (idempotent if it already finished).
    CancelWriter,
    /// Cancel the reader task (idempotent if it already finished).
    CancelReader,
    /// Remove the identity from the registry.
    Unregister,
}

/// The transition table of the connection state machine, as a relation on
/// (phase, event, result).
pub open spec fn conn_step_spec(
    phase: ConnPhase,
    event: ConnEvent,
    r: (ConnPhase, Seq<ConnAction>),
) -> bool {
    if phase == ConnPhase::Connecting && event == ConnEvent::Upgraded {
        r == (ConnPhase::Open, seq![ConnAction::RegisterAndSpawn])
    } else if phase == ConnPhase::Open && (event == ConnEvent::ReaderEnded || event
    == ConnEvent::ShutdownFired) {
        r == (ConnPhase::Closing, seq![ConnAction::CancelWriter, ConnAction::CancelReader])
    } else if phase == ConnPhase::Closing && event == ConnEvent::TasksCancelled {
        r == (ConnPhase::Closed, seq![ConnAction::Unregister])
    } else {
        r == (phase, Seq::<ConnAction>::empty())
    }
}

/// One step of the connection state machine: the next phase and the actions
/// to perform, in order.
///
/// From `Open`, the first of `ReaderEnded` and `ShutdownFired` wins the
/// race and starts the teardown; both tasks are cancelled before the
/// identity is unregistered. Every other pairing of phase and event is a
/// no-op, so a step after `Closed` never acts again.
pub fn conn_step(phase: ConnPhase, event: ConnEvent) -> (r: (ConnPhase, Vec<ConnAction>))
    ensures
        conn_step_spec(phase, event, (r.0, r.1@)),
{
    match (phase, event) {
        (ConnPhase::Connecting, ConnEvent::Upgraded) => {
            let mut actions: Vec<ConnAction> = Vec::new();
            actions.push(ConnAction::RegisterAndSpawn);
            proof {
                assert(actions@ =~= seq![ConnAction::RegisterAndSpawn]);
            }
            (ConnPhase::Open, actions)
        },
        (ConnPhase::Open, ConnEvent::ReaderEnded) | (
            ConnPhase::Open,
            ConnEvent::ShutdownFired,
        ) => {
            let mut actions: Vec<ConnAction> = Vec::new();
            actions.push(ConnAction::CancelWriter);
            actions.push(ConnAction::CancelReader);
            proof {
                assert(actions@ =~= seq![ConnAction::CancelWriter, ConnAction::CancelReader]);
            }
            (ConnPhase::Closing, actions)
        },
        (ConnPhase::Closing, ConnEvent::TasksCancelled) => {
            let mut actions: Vec<ConnAction> = Vec::new();
            actions.push(ConnAction::Unregister);
            proof {
                assert(actions@ =~= seq![ConnAction::Unregister]);
            }
            (ConnPhase::Closed, actions)
        },
        (p, _) => (p, Vec::new()),
    }
}

/// Opens a connection: generates a fresh identity, creates its outbound
/// queue, registers the send half and hands the receive half back for the
/// writer task.
pub fn open_connection(reg: &mut SubscriberRegistry) -> (r: (u128, UnboundedReceiver<Vec<u8>>))
    requires
        old(reg).wf(),
    ensures
        final(reg).wf(),
        final(reg).queues() == spec_register(old(reg).queues(), r.0),
        final(reg).queues().dom().contains(r.0),
{
    let id = fresh_identity();
    let (tx, rx) = open_queue();
    reg.register(id, tx);
    (id, rx)
}

/// Closes a connection: removes the identity from the registry. Performed
/// only after both tasks were cancelled, per `conn_step`.
pub fn close_connection(reg: &mut SubscriberRegistry, id: u128)
    requires
        old(reg).wf(),
    ensures
        final(reg).wf(),
        final(reg).queues() == spec_unregister(old(reg).queues(), id),
        !final(reg).queues().dom().contains(id),
{
    reg.unregister(id);
}

/// Teardown order: an `Unregister` action only ever comes out of the
/// `Closing` phase, and `Closing` is only ever entered by the step that
/// orders both tasks cancelled — so the registry entry outlives the queue's
/// reader never.
pub proof fn lemma_unregister_after_cancel(
    phase: ConnPhase,
    event: ConnEvent,
    r: (ConnPhase, Seq<ConnAction>),
)
    requires
        conn_step_spec(phase, event, r),
        r.1.contains(ConnAction::Unregister),
    ensures
        phase == ConnPhase::Closing,
        event == ConnEvent::TasksCancelled,
        r.0 == ConnPhase::Closed,
{
}

} // verus!
