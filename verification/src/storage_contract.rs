//! What the host's event storage must provide.

use vstd::prelude::*;

use crate::envelope::{AggregateRef, EventEnvelope, IdempotencyKey};
use crate::ids::PosError;

verus! {

/// Expected per-aggregate version for optimistic concurrency control.
#[derive(Clone, Copy, Debug, PartialEq, Eq, Structural)]
pub enum ExpectedVersion {
    /// No concurrency check (accept the current head).
    Any,
    /// Expect the stream to be empty (version 0).
    NoStream,
    /// Expect the current stream version to equal this value.
    Exact(u64),
}

/// Host-facing event storage.
///
/// Implementations must preserve append-only order per aggregate, assign
/// `EventEnvelope.seq` as the per-aggregate version after each event, and
/// reject or retry on version conflicts using `ExpectedVersion`. Workflows
/// that touch several aggregates must be committed atomically by the host.
pub trait EventStore {
    /// The full event stream of an aggregate, in order.
    fn load_stream(&self, aggregate: AggregateRef) -> Result<Vec<EventEnvelope>, PosError>;

    /// Appends events with optimistic concurrency; sequence numbers start at
    /// the current version plus one, and the new version is returned (the
    /// current one when `events` is empty).
    fn append_to_stream(
        &mut self,
        aggregate: AggregateRef,
        expected: ExpectedVersion,
        events: Vec<EventEnvelope>,
    ) -> Result<u64, PosError>;

    /// The events recorded for `(aggregate, key)`, if any.
    fn get_idempotency(&self, aggregate: AggregateRef, key: &IdempotencyKey) -> Result<
        Option<Vec<EventEnvelope>>,
        PosError,
    >;

    /// Records the events produced for `(aggregate, key)`.
    fn put_idempotency(
        &mut self,
        aggregate: AggregateRef,
        key: IdempotencyKey,
        events: Vec<EventEnvelope>,
    ) -> Result<(), PosError>;
}

} // verus!
