//! The kitchen display system: projects order events onto station tickets,
//! tracks the kitchen's progress on them and prepares what printers print.

pub mod model;
pub mod routing;
pub mod events;
pub mod projector;
pub mod printing;
pub mod store;

pub use events::KdsEvent;
pub use model::{
    KdsChange, KdsChangeKind, KdsLine, KdsLineStatus, KdsState, KdsTicket, KdsTicketKey,
    KdsTicketStatus, StationId,
};
pub use printing::{
    delta_tickets_since, printable_lines_from_ticket, ticket_has_active_lines, ticket_is_ready,
    tickets_for_printing, KdsDeltaKind, KdsDeltaLine, KdsDeltaTicket, KdsPrintCursor,
    PrintableLine, PrintableTicket,
};
pub use projector::{
    apply_core_event_to_kds, apply_kds_event, apply_order_event, expo_view, fnv1a64,
    kitchen_tickets,
};
pub use routing::{station_for_item, RoutingRule, RoutingTable};
pub use store::{KdsCursorStore, KdsStateStore};
pub mod laws;
