//! The table aggregate: a place in the venue that hosts at most one order.

use vstd::prelude::*;

use crate::ids::{AreaID, OrderID, PosError, PosErrorView, TableID, VenueID};

verus! {

#[derive(Debug)]
pub struct Table {
    pub venue_id: VenueID,
    pub table_id: TableID,
    pub label: String,
    pub area_id: Option<AreaID>,
    pub status: TableStatus,
    pub active_order_id: Option<OrderID>,
    pub version: u64,
}

impl Clone for Table {
    fn clone(&self) -> (r: Self)
        ensures
            r == *self,
    {
        Table {
            venue_id: self.venue_id,
            table_id: self.table_id,
            label: self.label.clone(),
            area_id: self.area_id,
            status: self.status,
            active_order_id: self.active_order_id,
            version: self.version,
        }
    }
}

#[derive(Clone, Copy, Debug, PartialEq, Eq, Structural)]
pub enum TableStatus {
    Available,
    Occupied,
    Closed,
}

impl Table {
    pub fn new(venue_id: VenueID, table_id: TableID, label: &str, area_id: Option<AreaID>) -> (r:
        Table)
        ensures
            r.venue_id == venue_id,
            r.table_id == table_id,
            r.label@ == label@,
            r.area_id == area_id,
            r.status == TableStatus::Available,
            r.active_order_id is None,
            r.version == 0,
    {
        Table {
            venue_id,
            table_id,
            label: label.to_owned(),
            area_id,
            status: TableStatus::Available,
            active_order_id: None,
            version: 0,
        }
    }
}

pub enum TableCommand {
    CreateTable { venue_id: VenueID, table_id: TableID, label: String, area_id: Option<AreaID> },
    AssignOrder { venue_id: VenueID, table_id: TableID, order_id: OrderID },
    UnassignOrder { venue_id: VenueID, table_id: TableID, reason: String },
    CloseTable { venue_id: VenueID, table_id: TableID },
    ReopenTable { venue_id: VenueID, table_id: TableID },
}

#[derive(Debug)]
pub enum TableEvent {
    TableCreated { venue_id: VenueID, table_id: TableID, label: String, area_id: Option<AreaID> },
    OrderAssignedToTable { venue_id: VenueID, table_id: TableID, order_id: OrderID },
    OrderUnassingedFromTable { venue_id: VenueID, table_id: TableID, reason: String },
    TableClosed { venue_id: VenueID, table_id: TableID },
    TableReopened { venue_id: VenueID, table_id: TableID },
}

impl Clone for TableEvent {
    fn clone(&self) -> (r: Self)
        ensures
            r == *self,
    {
        match self {
            TableEvent::TableCreated { venue_id, table_id, label, area_id } =>
                TableEvent::TableCreated {
                venue_id: *venue_id,
                table_id: *table_id,
                label: label.clone(),
                area_id: *area_id,
            },
            TableEvent::OrderAssignedToTable { venue_id, table_id, order_id } =>
                TableEvent::OrderAssignedToTable {
                venue_id: *venue_id,
                table_id: *table_id,
                order_id: *order_id,
            },
            TableEvent::OrderUnassingedFromTable { venue_id, table_id, reason } =>
                TableEvent::OrderUnassingedFromTable {
                venue_id: *venue_id,
                table_id: *table_id,
                reason: reason.clone(),
            },
            TableEvent::TableClosed { venue_id, table_id } => TableEvent::TableClosed {
                venue_id: *venue_id,
                table_id: *table_id,
            },
            TableEvent::TableReopened { venue_id, table_id } => TableEvent::TableReopened {
                venue_id: *venue_id,
                table_id: *table_id,
            },
        }
    }
}

/// Refuses a closed table.
pub fn ensure_table_not_closed(t: &Table) -> (r: Result<(), PosError>)
    ensures
        r is Ok <==> t.status != TableStatus::Closed,
        r matches Err(e) ==> e@ == PosErrorView::Validation("table is closed"@),
{
    if t.status == TableStatus::Closed {
        return Err(PosError::validation("table is closed"));
    }
    Ok(())
}

/// Refuses a table that already hosts an order.
pub fn ensure_table_has_no_active_order(t: &Table) -> (r: Result<(), PosError>)
    ensures
        r is Ok <==> t.active_order_id is None,
        r matches Err(e) ==> e@ == PosErrorView::Validation("table already has an active order"@),
{
    if t.active_order_id.is_some() {
        return Err(PosError::validation("table already has an active order"));
    }
    Ok(())
}

/// Refuses a table that hosts no order.
pub fn ensure_table_has_active_order(t: &Table) -> (r: Result<(), PosError>)
    ensures
        r is Ok <==> t.active_order_id is Some,
        r matches Err(e) ==> e@ == PosErrorView::Validation("table has no active order"@),
{
    if t.active_order_id.is_none() {
        return Err(PosError::validation("table has no active order"));
    }
    Ok(())
}

} // verus!
