use pos_core::amount::Amount;
use pos_core::ids::{MenuItemID, Money, OrderID, OrderItemID, TableID, VenueID};
use pos_core::{
    apply_kds_event, apply_order_event, delta_tickets_since, kitchen_tickets, KdsDeltaKind,
    KdsEvent, KdsLineStatus, KdsState, KdsTicketStatus, OrderEvent, RoutingRule, RoutingTable,
    Table,
};

#[test]
fn projects_items_into_station_tickets() {
    let venue_id = VenueID::new();
    let order_id = OrderID::new();
    let item_grill = OrderItemID::new();
    let item_bar = OrderItemID::new();
    let menu_grill = MenuItemID::new();
    let menu_bar = MenuItemID::new();

    let routing = RoutingTable::new(
        vec![RoutingRule::for_menu_item(menu_grill, "grill"), RoutingRule::for_menu_item(menu_bar, "bar")],
        "kitchen",
    );

    let table = Table::new(venue_id, TableID::new(), "T1", None);
    let mut state = KdsState::new();

    apply_order_event(
        &mut state,
        &OrderEvent::OrderOpened { venue_id, order_id },
        1,
        &routing,
        Some(&table),
    )
    .unwrap();

    apply_order_event(
        &mut state,
        &OrderEvent::ItemAdded {
            venue_id,
            order_id,
            order_item_id: item_grill,
            menu_item_id: menu_grill,
            name: "Burger".into(),
            unit_price: Money::gbp(Amount::new(1000, 2)),
            qty: 1,
            notes: None,
        },
        2,
        &routing,
        Some(&table),
    )
    .unwrap();

    apply_order_event(
        &mut state,
        &OrderEvent::ItemAdded {
            venue_id,
            order_id,
            order_item_id: item_bar,
            menu_item_id: menu_bar,
            name: "Beer".into(),
            unit_price: Money::gbp(Amount::new(450, 2)),
            qty: 2,
            notes: None,
        },
        3,
        &routing,
        Some(&table),
    )
    .unwrap();

    let mut tickets = kitchen_tickets(&state, None);
    tickets.sort_by(|a, b| a.station.cmp(&b.station));

    assert_eq!(tickets.len(), 2);
    assert_eq!(tickets[0].station, "bar");
    assert_eq!(tickets[0].lines.len(), 1);
    assert_eq!(tickets[0].lines[0].name, "Beer");
    assert_eq!(tickets[0].lines[0].qty, 2);
    assert_eq!(tickets[0].lines[0].status, KdsLineStatus::New);

    assert_eq!(tickets[1].station, "grill");
    assert_eq!(tickets[1].lines.len(), 1);
    assert_eq!(tickets[1].lines[0].name, "Burger");
    assert_eq!(tickets[1].lines[0].qty, 1);
    assert_eq!(tickets[1].table_label.as_deref(), Some("T1"));
}

#[test]
fn projection_is_deterministic() {
    let venue_id = VenueID::new();
    let order_id = OrderID::new();
    let order_item_id = OrderItemID::new();
    let menu_item_id = MenuItemID::new();

    let routing = RoutingTable::default();

    let events = vec![
        (1, OrderEvent::OrderOpened { venue_id, order_id }),
        (
            2,
            OrderEvent::ItemAdded {
                venue_id,
                order_id,
                order_item_id,
                menu_item_id,
                name: "Fries".into(),
                unit_price: Money::gbp(Amount::new(350, 2)),
                qty: 1,
                notes: None,
            },
        ),
    ];

    let mut state_a = KdsState::new();
    let mut state_b = KdsState::new();

    for (seq, event) in events.clone() {
        apply_order_event(&mut state_a, &event, seq, &routing, None).unwrap();
    }
    for (seq, event) in events {
        apply_order_event(&mut state_b, &event, seq, &routing, None).unwrap();
    }

    let tickets_a = kitchen_tickets(&state_a, None);
    let tickets_b = kitchen_tickets(&state_b, None);

    assert_eq!(tickets_a, tickets_b);
}

#[test]
fn lifecycle_events_update_ticket_and_line_statuses() {
    let venue_id = VenueID::new();
    let order_id = OrderID::new();
    let order_item_id = OrderItemID::new();
    let menu_item_id = MenuItemID::new();

    let routing = RoutingTable::default();
    let mut state = KdsState::new();

    apply_order_event(
        &mut state,
        &OrderEvent::ItemAdded {
            venue_id,
            order_id,
            order_item_id,
            menu_item_id,
            name: "Steak".into(),
            unit_price: Money::gbp(Amount::new(2500, 2)),
            qty: 1,
            notes: None,
        },
        1,
        &routing,
        None,
    )
    .unwrap();

    let ticket = kitchen_tickets(&state, Some("kitchen")).into_iter().next().expect("ticket missing");
    let line_id = ticket.lines[0].line_id;

    apply_kds_event(
        &mut state,
        &KdsEvent::TicketAcknowledged { venue_id, station: "kitchen".into(), order_id },
        2,
    )
    .unwrap();

    let ticket = kitchen_tickets(&state, Some("kitchen"))[0].clone();
    assert_eq!(ticket.status, KdsTicketStatus::Acknowledged);

    apply_kds_event(
        &mut state,
        &KdsEvent::LineStarted { venue_id, station: "kitchen".into(), order_id, line_id },
        3,
    )
    .unwrap();

    let ticket = kitchen_tickets(&state, Some("kitchen"))[0].clone();
    assert_eq!(ticket.status, KdsTicketStatus::InProgress);
    assert_eq!(ticket.lines[0].status, KdsLineStatus::InProgress);

    apply_kds_event(
        &mut state,
        &KdsEvent::LineDone { venue_id, station: "kitchen".into(), order_id, line_id },
        4,
    )
    .unwrap();

    let ticket = kitchen_tickets(&state, Some("kitchen"))[0].clone();
    assert_eq!(ticket.status, KdsTicketStatus::Ready);
    assert_eq!(ticket.lines[0].status, KdsLineStatus::Done);

    apply_kds_event(
        &mut state,
        &KdsEvent::TicketBumped { venue_id, station: "kitchen".into(), order_id },
        5,
    )
    .unwrap();

    let ticket = kitchen_tickets(&state, Some("kitchen"))[0].clone();
    assert_eq!(ticket.status, KdsTicketStatus::Completed);

    apply_kds_event(
        &mut state,
        &KdsEvent::TicketRecalled { venue_id, station: "kitchen".into(), order_id },
        6,
    )
    .unwrap();

    let ticket = kitchen_tickets(&state, Some("kitchen"))[0].clone();
    assert_eq!(ticket.status, KdsTicketStatus::InProgress);
}

#[test]
fn delta_printing_tracks_adds_qty_changes_and_voids() {
    let venue_id = VenueID::new();
    let order_id = OrderID::new();
    let order_item_id = OrderItemID::new();
    let menu_item_id = MenuItemID::new();

    let routing = RoutingTable::default();
    let mut state = KdsState::new();

    apply_order_event(&mut state, &OrderEvent::OrderOpened { venue_id, order_id }, 1, &routing, None)
        .unwrap();

    apply_order_event(
        &mut state,
        &OrderEvent::ItemAdded {
            venue_id,
            order_id,
            order_item_id,
            menu_item_id,
            name: "Pizza".into(),
            unit_price: Money::gbp(Amount::new(1200, 2)),
            qty: 2,
            notes: None,
        },
        2,
        &routing,
        None,
    )
    .unwrap();

    let delta = delta_tickets_since(&state, "kitchen", 0);
    assert_eq!(delta.len(), 1);
    assert_eq!(delta[0].lines.len(), 1);
    assert!(matches!(delta[0].lines[0].kind, KdsDeltaKind::Added));

    apply_order_event(
        &mut state,
        &OrderEvent::ItemAdded {
            venue_id,
            order_id,
            order_item_id,
            menu_item_id,
            name: "Pizza".into(),
            unit_price: Money::gbp(Amount::new(1200, 2)),
            qty: 1,
            notes: None,
        },
        3,
        &routing,
        None,
    )
    .unwrap();

    apply_order_event(
        &mut state,
        &OrderEvent::ItemRemoved {
            venue_id,
            order_id,
            order_item_id,
            reason: Some("cancelled".into()),
        },
        4,
        &routing,
        None,
    )
    .unwrap();

    let delta = delta_tickets_since(&state, "kitchen", 2);
    assert_eq!(delta.len(), 1);
    assert_eq!(delta[0].lines.len(), 2);
    assert!(matches!(delta[0].lines[0].kind, KdsDeltaKind::QtyChanged { .. }));
    assert!(matches!(delta[0].lines[1].kind, KdsDeltaKind::Voided));

    let tickets = kitchen_tickets(&state, Some("kitchen"));
    assert_eq!(tickets.len(), 1);
    assert_eq!(tickets[0].lines.len(), 1);
    assert_eq!(tickets[0].lines[0].status, KdsLineStatus::Voided);
}
