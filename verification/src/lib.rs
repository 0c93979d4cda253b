//! Verified core of a restaurant point-of-sale system: orders, checks,
//! tables, command routing, event replay and the kitchen display projection.

pub mod amount;
pub mod ids;
pub mod orders;
pub mod tables;
pub mod checks;
pub mod totals;
pub mod aggregate;
pub mod handler;
pub mod workflows;
pub mod versioning;
pub mod envelope;
pub mod router;
pub mod snapshot;
pub mod projections;
pub mod storage_contract;
pub mod kds;
pub mod laws;

pub use ids::PosError;

pub use envelope::{
    AggregateRef, AggregateType, CommandEnvelope, CoreCommand, CoreContext, CoreEvent,
    DedupeDecision, EventEnvelope, IdempotencyKey, WorkflowCommand,
};

pub use router::{route_command_envelope_enveloped, route_core_command, route_core_command_enveloped};

pub use snapshot::{
    rebuild_check_from_events, rebuild_check_from_snapshot_and_events, rebuild_kds_from_events,
    rebuild_order_from_events, rebuild_order_from_snapshot_and_events, rebuild_table_from_events,
    rebuild_table_from_snapshot_and_events, snapshot_check, snapshot_order, snapshot_table,
    Snapshot,
};
pub use storage_contract::{EventStore, ExpectedVersion};
pub use versioning::{
    ensure_supported_schema, MAX_SUPPORTED_SCHEMA_VERSION, MIN_SUPPORTED_SCHEMA_VERSION,
    SCHEMA_VERSION,
};

pub use orders::{Order, OrderCommand, OrderEvent, OrderItem, OrderStatus};

pub use checks::{
    Check, CheckCommand, CheckEvent, CheckLine, CheckStatus, Discount, Payment, PaymentStatus,
    ProcessorRef, ServiceCharge, TenderType,
};
pub use totals::{totals, CheckTotals};

pub use tables::{Table, TableCommand, TableEvent, TableStatus};

pub use projections::{can_close_check, check_balance_due, table_is_available};

pub use kds::{
    apply_core_event_to_kds, apply_kds_event, apply_order_event, delta_tickets_since, expo_view,
    kitchen_tickets, printable_lines_from_ticket, station_for_item, ticket_has_active_lines,
    ticket_is_ready, tickets_for_printing, KdsChange, KdsChangeKind, KdsCursorStore, KdsDeltaKind,
    KdsDeltaLine, KdsDeltaTicket, KdsEvent, KdsLine, KdsLineStatus, KdsPrintCursor, KdsState,
    KdsStateStore, KdsTicket, KdsTicketKey, KdsTicketStatus, PrintableLine, PrintableTicket,
    RoutingRule, RoutingTable, StationId,
};
