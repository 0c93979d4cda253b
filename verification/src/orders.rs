//! The order aggregate: what was ordered at a venue, item by item.

use vstd::prelude::*;

use crate::ids::{MenuItemID, Money, OrderID, OrderItemID, PosError, PosErrorView, VenueID};

verus! {

pub fn clone_opt_string(s: &Option<String>) -> (r: Option<String>)
    ensures
        r == *s,
{
    match s {
        Some(v) => Some(v.clone()),
        None => None,
    }
}

#[derive(Debug)]
pub struct Order {
    pub venue_id: VenueID,
    pub order_id: OrderID,
    pub status: OrderStatus,
    pub items: Vec<OrderItem>,
    pub version: u64,
}

#[derive(Clone, Copy, Debug, PartialEq, Eq, Structural)]
pub enum OrderStatus {
    Open,
    Closed,
    Cancelled,
}

#[derive(Debug)]
pub struct OrderItem {
    pub item_id: OrderItemID,
    pub menu_item_id: MenuItemID,
    pub name: String,
    pub unit_price: Money,
    pub qty: u32,
    pub notes: Option<String>,
}

impl Clone for OrderItem {
    fn clone(&self) -> (r: Self)
        ensures
            r == *self,
    {
        OrderItem {
            item_id: self.item_id,
            menu_item_id: self.menu_item_id,
            name: self.name.clone(),
            unit_price: self.unit_price,
            qty: self.qty,
            notes: clone_opt_string(&self.notes),
        }
    }
}

/// An order with its items read as a sequence.
pub struct OrderView {
    pub venue_id: VenueID,
    pub order_id: OrderID,
    pub status: OrderStatus,
    pub items: Seq<OrderItem>,
    pub version: u64,
}

impl View for Order {
    type V = OrderView;

    open spec fn view(&self) -> OrderView {
        OrderView {
            venue_id: self.venue_id,
            order_id: self.order_id,
            status: self.status,
            items: self.items@,
            version: self.version,
        }
    }
}

impl Clone for Order {
    fn clone(&self) -> (r: Self)
        ensures
            r@ == self@,
    {
        let items = self.items.clone();
        proof {
            assert(items@ =~= self.items@);
        }
        Order {
            venue_id: self.venue_id,
            order_id: self.order_id,
            status: self.status,
            items,
            version: self.version,
        }
    }
}

impl Order {
    pub fn new(venue_id: VenueID, order_id: OrderID) -> (r: Order)
        ensures
            r@ == new_order(venue_id, order_id),
    {
        Order { venue_id, order_id, status: OrderStatus::Open, items: Vec::new(), version: 0 }
    }
}

pub open spec fn new_order(venue_id: VenueID, order_id: OrderID) -> OrderView {
    OrderView { venue_id, order_id, status: OrderStatus::Open, items: Seq::empty(), version: 0 }
}

pub enum OrderCommand {
    OpenOrder { venue_id: VenueID, order_id: OrderID },
    AddItem {
        venue_id: VenueID,
        order_id: OrderID,
        order_item_id: OrderItemID,
        menu_item_id: MenuItemID,
        name: String,
        unit_price: Money,
        qty: u32,
        notes: Option<String>,
    },
    RemoveItem { venue_id: VenueID, order_id: OrderID, order_item_id: OrderItemID, reason: String },
    CloseOrder { venue_id: VenueID, order_id: OrderID },
}

#[derive(Debug)]
pub enum OrderEvent {
    OrderOpened { venue_id: VenueID, order_id: OrderID },
    ItemAdded {
        venue_id: VenueID,
        order_id: OrderID,
        order_item_id: OrderItemID,
        menu_item_id: MenuItemID,
        name: String,
        unit_price: Money,
        qty: u32,
        notes: Option<String>,
    },
    ItemRemoved {
        venue_id: VenueID,
        order_id: OrderID,
        order_item_id: OrderItemID,
        reason: Option<String>,
    },
    OrderClosed { venue_id: VenueID, order_id: OrderID },
}

impl Clone for OrderEvent {
    fn clone(&self) -> (r: Self)
        ensures
            r == *self,
    {
        match self {
            OrderEvent::OrderOpened { venue_id, order_id } => OrderEvent::OrderOpened {
                venue_id: *venue_id,
                order_id: *order_id,
            },
            OrderEvent::ItemAdded {
                venue_id,
                order_id,
                order_item_id,
                menu_item_id,
                name,
                unit_price,
                qty,
                notes,
            } => OrderEvent::ItemAdded {
                venue_id: *venue_id,
                order_id: *order_id,
                order_item_id: *order_item_id,
                menu_item_id: *menu_item_id,
                name: name.clone(),
                unit_price: *unit_price,
                qty: *qty,
                notes: clone_opt_string(notes),
            },
            OrderEvent::ItemRemoved { venue_id, order_id, order_item_id, reason } =>
                OrderEvent::ItemRemoved {
                venue_id: *venue_id,
                order_id: *order_id,
                order_item_id: *order_item_id,
                reason: clone_opt_string(reason),
            },
            OrderEvent::OrderClosed { venue_id, order_id } => OrderEvent::OrderClosed {
                venue_id: *venue_id,
                order_id: *order_id,
            },
        }
    }
}

/// Refuses an order that is no longer open.
pub fn ensure_order_open(order: &Order) -> (r: Result<(), PosError>)
    ensures
        r is Ok <==> order.status == OrderStatus::Open,
        r matches Err(e) ==> e@ == PosErrorView::Validation("order is not open"@),
{
    if order.status != OrderStatus::Open {
        return Err(PosError::validation("order is not open"));
    }
    Ok(())
}

/// Refuses a quantity of zero.
pub fn ensure_qty_positive(qty: u32) -> (r: Result<(), PosError>)
    ensures
        r is Ok <==> qty >= 1,
        r matches Err(e) ==> e@ == PosErrorView::Validation("qty must be >= 1"@),
{
    if qty == 0 {
        return Err(PosError::validation("qty must be >= 1"));
    }
    Ok(())
}

} // verus!
