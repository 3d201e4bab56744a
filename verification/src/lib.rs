//! Core of a real-time datagram relay with a companion periodic-task
//! scheduler.
//!
//! Datagrams that decode as UTF-8 text are fanned out, unmodified, to every
//! currently registered stream subscriber; subscribers join and leave through
//! a registry that keeps at most one entry per identity. A shutdown
//! coordinator models the one-shot, multi-observer cancellation signal, and
//! the tick scheduler drives independently registered periodic tasks from a
//! single wake timer.

pub mod gateway;
pub mod ingest;
pub mod registry;
pub mod shutdown;
pub mod text;
pub mod tick;
