//! The unified command and event types and their transport envelopes.

use vstd::prelude::*;

use crate::checks::{Check, CheckCommand, CheckEvent};
use crate::ids::{
    is_v4_uuid, random_uuid, ActorID, CheckID, OrderID, OrderItemID, PosError, TableID,
    VenueID,
};
use crate::orders::{Order, OrderCommand, OrderEvent};
use crate::tables::{Table, TableCommand, TableEvent};
use crate::versioning::{ensure_supported_schema, schema_supported, SCHEMA_VERSION};

verus! {

/// Client-provided retry key for deduplication.
#[derive(Debug)]
pub struct IdempotencyKey(pub String);

impl IdempotencyKey {
    pub fn new(key: &str) -> (r: IdempotencyKey)
        ensures
            r.0@ == key@,
    {
        IdempotencyKey(key.to_owned())
    }

    /// The key as text.
    pub fn to_text(&self) -> (r: String)
        ensures
            r@ == self.0@,
    {
        self.0.clone()
    }
}

impl Clone for IdempotencyKey {
    fn clone(&self) -> (r: Self)
        ensures
            r == *self,
    {
        IdempotencyKey(self.0.clone())
    }
}

impl From<String> for IdempotencyKey {
    fn from(value: String) -> (r: IdempotencyKey) {
        IdempotencyKey(value)
    }
}

impl vstd::std_specs::convert::FromSpecImpl<String> for IdempotencyKey {
    open spec fn obeys_from_spec() -> bool {
        true
    }

    open spec fn from_spec(v: String) -> IdempotencyKey {
        IdempotencyKey(v)
    }
}

/// A command for any aggregate, or a workflow across several.
pub enum CoreCommand {
    Order(OrderCommand),
    Check(CheckCommand),
    Table(TableCommand),
    Workflow(WorkflowCommand),
}

/// Cross-aggregate actions.
pub enum WorkflowCommand {
    SplitCheckCreate { venue_id: VenueID, from_check_id: CheckID, new_check_id: CheckID },
    SplitCheckMoveLineQty {
        venue_id: VenueID,
        from_check_id: CheckID,
        to_check_id: CheckID,
        order_item_id: OrderItemID,
        qty: u32,
    },
    OpenTableSession {
        venue_id: VenueID,
        table_id: TableID,
        order_id: OrderID,
        check_id: CheckID,
    },
    CloseTableSession {
        venue_id: VenueID,
        table_id: TableID,
        order_id: OrderID,
        check_id: CheckID,
        reason: String,
    },
}

/// An event of any aggregate.
#[derive(Debug)]
pub enum CoreEvent {
    Order(OrderEvent),
    Check(CheckEvent),
    Table(TableEvent),
}

impl Clone for CoreEvent {
    fn clone(&self) -> (r: Self)
        ensures
            r == *self,
    {
        match self {
            CoreEvent::Order(e) => CoreEvent::Order(e.clone()),
            CoreEvent::Check(e) => CoreEvent::Check(e.clone()),
            CoreEvent::Table(e) => CoreEvent::Table(e.clone()),
        }
    }
}

/// The aggregates that the host loaded for a command.
pub struct CoreContext<'a> {
    pub order: Option<&'a Order>,
    pub check: Option<&'a Check>,
    pub table: Option<&'a Table>,
    /// The second check of a split.
    pub to_check: Option<&'a Check>,
}

impl<'a> CoreContext<'a> {
    pub fn empty() -> (r: Self)
        ensures
            r.order is None,
            r.check is None,
            r.table is None,
            r.to_check is None,
    {
        CoreContext { order: None, check: None, table: None, to_check: None }
    }
}

#[derive(Clone, Copy, Debug, PartialEq, Eq, Structural)]
pub enum AggregateType {
    Order,
    Check,
    Table,
}

/// An aggregate's type and id.
#[derive(Clone, Copy, Debug, PartialEq, Eq, Structural)]
pub struct AggregateRef {
    pub ty: AggregateType,
    pub id: u128,
}

impl AggregateRef {
    pub fn order(id: OrderID) -> (r: Self)
        ensures
            r == (AggregateRef { ty: AggregateType::Order, id: id.0 }),
    {
        AggregateRef { ty: AggregateType::Order, id: id.0 }
    }

    pub fn check(id: CheckID) -> (r: Self)
        ensures
            r == (AggregateRef { ty: AggregateType::Check, id: id.0 }),
    {
        AggregateRef { ty: AggregateType::Check, id: id.0 }
    }

    pub fn table(id: TableID) -> (r: Self)
        ensures
            r == (AggregateRef { ty: AggregateType::Table, id: id.0 }),
    {
        AggregateRef { ty: AggregateType::Table, id: id.0 }
    }
}

/// Event wrapper for transport and sync.
///
/// `seq` is the per-aggregate version after applying this event. It is not a
/// global stream position; the storage layer assigns it when appending: if
/// the current version is 7 and two events are appended, they get 8 and 9.
#[derive(Debug)]
pub struct EventEnvelope {
    pub schema_version: u16,
    pub event_id: u128,
    pub aggregate: AggregateRef,
    pub seq: Option<u64>,
    pub actor_id: Option<ActorID>,
    pub causation_id: Option<u128>,
    pub correlation_id: Option<u128>,
    pub event: CoreEvent,
}

impl Clone for EventEnvelope {
    fn clone(&self) -> (r: Self)
        ensures
            r == *self,
    {
        EventEnvelope {
            schema_version: self.schema_version,
            event_id: self.event_id,
            aggregate: self.aggregate,
            seq: self.seq,
            actor_id: self.actor_id,
            causation_id: self.causation_id,
            correlation_id: self.correlation_id,
            event: self.event.clone(),
        }
    }
}

impl EventEnvelope {
    /// A fresh envelope: current schema, a random event id, no sequence number
    /// and no tracing.
    pub fn new(aggregate: AggregateRef, event: CoreEvent) -> (r: Self)
        ensures
            r.schema_version == SCHEMA_VERSION,
            is_v4_uuid(r.event_id),
            r.aggregate == aggregate,
            r.seq is None,
            r.actor_id is None,
            r.causation_id is None,
            r.correlation_id is None,
            r.event == event,
    {
        EventEnvelope {
            schema_version: SCHEMA_VERSION,
            event_id: random_uuid(),
            aggregate,
            seq: None,
            actor_id: None,
            causation_id: None,
            correlation_id: None,
            event,
        }
    }

    /// Refuses an envelope whose schema version this build cannot read.
    pub fn ensure_supported_schema(&self) -> (r: Result<(), PosError>)
        ensures
            r is Ok <==> schema_supported(self.schema_version),
    {
        ensure_supported_schema(self.schema_version)
    }
}

/// The aggregate an event belongs to.
pub open spec fn event_aggregate(e: CoreEvent) -> AggregateRef {
    match e {
        CoreEvent::Order(o) => AggregateRef {
            ty: AggregateType::Order,
            id: match o {
                OrderEvent::OrderOpened { order_id, .. } => order_id.0,
                OrderEvent::ItemAdded { order_id, .. } => order_id.0,
                OrderEvent::ItemRemoved { order_id, .. } => order_id.0,
                OrderEvent::OrderClosed { order_id, .. } => order_id.0,
            },
        },
        CoreEvent::Check(c) => AggregateRef {
            ty: AggregateType::Check,
            id: match c {
                CheckEvent::CheckOpened { check_id, .. } => check_id.0,
                CheckEvent::LineAdded { check_id, .. } => check_id.0,
                CheckEvent::LineRemoved { check_id, .. } => check_id.0,
                CheckEvent::DiscountPercentApplied { check_id, .. } => check_id.0,
                CheckEvent::ServiceChargeApplied { check_id, .. } => check_id.0,
                CheckEvent::CheckClosed { check_id, .. } => check_id.0,
                CheckEvent::PaymentRecorded { check_id, .. } => check_id.0,
                CheckEvent::PaymentVoided { check_id, .. } => check_id.0,
                CheckEvent::RefundRecorded { check_id, .. } => check_id.0,
                CheckEvent::SplitCheckCreated { check_id, .. } => check_id.0,
                CheckEvent::LineQtyDecreased { check_id, .. } => check_id.0,
                CheckEvent::PaymentAuthorised { check_id, .. } => check_id.0,
                CheckEvent::PaymentCaptured { check_id, .. } => check_id.0,
            },
        },
        CoreEvent::Table(t) => AggregateRef {
            ty: AggregateType::Table,
            id: match t {
                TableEvent::TableCreated { table_id, .. } => table_id.0,
                TableEvent::OrderAssignedToTable { table_id, .. } => table_id.0,
                TableEvent::OrderUnassingedFromTable { table_id, .. } => table_id.0,
                TableEvent::TableClosed { table_id, .. } => table_id.0,
                TableEvent::TableReopened { table_id, .. } => table_id.0,
            },
        },
    }
}

impl CoreEvent {
    /// The aggregate this event belongs to: its order, check or table.
    pub fn aggregate_ref(&self) -> (r: AggregateRef)
        ensures
            r == event_aggregate(*self),
    {
        match self {
            CoreEvent::Order(e) => match e {
                OrderEvent::OrderOpened { order_id, .. } => AggregateRef::order(*order_id),
                OrderEvent::ItemAdded { order_id, .. } => AggregateRef::order(*order_id),
                OrderEvent::ItemRemoved { order_id, .. } => AggregateRef::order(*order_id),
                OrderEvent::OrderClosed { order_id, .. } => AggregateRef::order(*order_id),
            },
            CoreEvent::Check(e) => match e {
                CheckEvent::CheckOpened { check_id, .. } => AggregateRef::check(*check_id),
                CheckEvent::LineAdded { check_id, .. } => AggregateRef::check(*check_id),
                CheckEvent::LineRemoved { check_id, .. } => AggregateRef::check(*check_id),
                CheckEvent::DiscountPercentApplied { check_id, .. } => AggregateRef::check(
                    *check_id,
                ),
                CheckEvent::ServiceChargeApplied { check_id, .. } => AggregateRef::check(
                    *check_id,
                ),
                CheckEvent::CheckClosed { check_id, .. } => AggregateRef::check(*check_id),
                CheckEvent::PaymentRecorded { check_id, .. } => AggregateRef::check(*check_id),
                CheckEvent::PaymentVoided { check_id, .. } => AggregateRef::check(*check_id),
                CheckEvent::RefundRecorded { check_id, .. } => AggregateRef::check(*check_id),
                CheckEvent::SplitCheckCreated { check_id, .. } => AggregateRef::check(*check_id),
                CheckEvent::LineQtyDecreased { check_id, .. } => AggregateRef::check(*check_id),
                CheckEvent::PaymentAuthorised { check_id, .. } => AggregateRef::check(*check_id),
                CheckEvent::PaymentCaptured { check_id, .. } => AggregateRef::check(*check_id),
            },
            CoreEvent::Table(e) => match e {
                TableEvent::TableCreated { table_id, .. } => AggregateRef::table(*table_id),
                TableEvent::OrderAssignedToTable { table_id, .. } => AggregateRef::table(
                    *table_id,
                ),
                TableEvent::OrderUnassingedFromTable { table_id, .. } => AggregateRef::table(
                    *table_id,
                ),
                TableEvent::TableClosed { table_id, .. } => AggregateRef::table(*table_id),
                TableEvent::TableReopened { table_id, .. } => AggregateRef::table(*table_id),
            },
        }
    }
}

/// Command wrapper for transport and sync.
///
/// When `idempotency_key` is set, the host or storage layer must answer the
/// same `(aggregate, key)` with the same events; the core only carries the key.
pub struct CommandEnvelope {
    pub schema_version: u16,
    pub command_id: u128,
    /// Client-provided retry key (the same logical command sent again).
    pub idempotency_key: Option<IdempotencyKey>,
    /// Traces a request across many commands and events.
    pub correlation_id: Option<u128>,
    /// Optional link to a prior event or command that caused this one.
    pub causation_id: Option<u128>,
    pub actor_id: Option<ActorID>,
    pub command: CoreCommand,
}

impl CommandEnvelope {
    /// A fresh envelope: current schema, a random command id, no key and no
    /// tracing.
    pub fn new(command: CoreCommand) -> (r: Self)
        ensures
            r.schema_version == SCHEMA_VERSION,
            is_v4_uuid(r.command_id),
            r.idempotency_key is None,
            r.correlation_id is None,
            r.causation_id is None,
            r.actor_id is None,
            r.command == command,
    {
        CommandEnvelope {
            schema_version: SCHEMA_VERSION,
            command_id: random_uuid(),
            idempotency_key: None,
            correlation_id: None,
            causation_id: None,
            actor_id: None,
            command,
        }
    }

    /// Refuses an envelope whose schema version this build cannot read.
    pub fn ensure_supported_schema(&self) -> (r: Result<(), PosError>)
        ensures
            r is Ok <==> schema_supported(self.schema_version),
    {
        ensure_supported_schema(self.schema_version)
    }
}

/// Outcome of a host-side idempotency check.
pub enum DedupeDecision {
    /// Treat as a new command and generate events.
    New,
    /// Replay previously stored events for this idempotency key.
    Replay(Vec<EventEnvelope>),
}

} // verus!
