use pos_core::aggregate::Apply;
use pos_core::amount::Amount;
use pos_core::handler::{handle_check_command, handle_order_command, handle_table_command};
use pos_core::ids::{AreaID, CheckID, MenuItemID, Money, OrderID, OrderItemID, PaymentID, TableID, VenueID};
use pos_core::{
    can_close_check, check_balance_due, table_is_available, Check, CheckCommand, Order,
    OrderCommand, Table, TableCommand, TableEvent, TableStatus, TenderType,
};

#[test]
fn can_open_add_and_close_order() {
    let venue_id = VenueID::new();
    let order_id = OrderID::new();

    // open
    let open_events =
        handle_order_command(None, OrderCommand::OpenOrder { venue_id, order_id }).unwrap();
    let mut order = Order::new(venue_id, order_id);
    for e in &open_events {
        order.apply(e).unwrap();
    }

    // add item
    let add_events = handle_order_command(
        Some(&order),
        OrderCommand::AddItem {
            venue_id,
            order_id,
            order_item_id: OrderItemID::new(),
            menu_item_id: MenuItemID::new(),
            name: "Burger".to_string(),
            unit_price: Money::gbp(Amount::new(1299, 2)), // 12.99 GBP
            qty: 1,
            notes: Some("No onions".into()),
        },
    )
    .unwrap();

    for e in &add_events {
        order.apply(e).unwrap();
    }
    assert_eq!(order.items.len(), 1);

    // close
    let close_events =
        handle_order_command(Some(&order), OrderCommand::CloseOrder { venue_id, order_id }).unwrap();
    for e in &close_events {
        order.apply(e).unwrap();
    }
}

#[test]
fn can_create_assign_unassign_and_close_table() {
    let venue_id = VenueID::new();
    let table_id = TableID::new();
    let area_id = Some(AreaID::new());

    // Create
    let ev = handle_table_command(
        None,
        TableCommand::CreateTable { venue_id, table_id, label: "T1".into(), area_id },
    )
    .unwrap();

    let mut table = Table::new(venue_id, table_id, "T1", area_id);
    for e in &ev {
        table.apply(e).unwrap();
    }
    assert_eq!(table.status, TableStatus::Available);

    // assign order
    let order_id = OrderID::new();
    let ev = handle_table_command(
        Some(&table),
        TableCommand::AssignOrder { venue_id, table_id, order_id },
    )
    .unwrap();
    for e in &ev {
        table.apply(e).unwrap();
    }
    assert_eq!(table.status, TableStatus::Occupied);
    assert_eq!(table.active_order_id, Some(order_id));

    // Unassign
    let ev = handle_table_command(
        Some(&table),
        TableCommand::UnassignOrder { venue_id, table_id, reason: "paid".into() },
    )
    .unwrap();
    for e in &ev {
        table.apply(e).unwrap();
    }
    assert_eq!(table.status, TableStatus::Available);
    assert_eq!(table.active_order_id, None);

    // Close
    let ev = handle_table_command(Some(&table), TableCommand::CloseTable { venue_id, table_id })
        .unwrap();
    for e in &ev {
        table.apply(e).unwrap();
    }
    assert_eq!(table.status, TableStatus::Closed);
}

#[test]
fn table_is_available_tracks_assignment() {
    let venue_id = VenueID::new();
    let table_id = TableID::new();
    let order_id = OrderID::new();

    let mut table = Table::new(venue_id, table_id, "T1", None);
    assert!(table_is_available(&table));

    table.apply(&TableEvent::OrderAssignedToTable { venue_id, table_id, order_id }).unwrap();

    assert!(!table_is_available(&table));
}

#[test]
fn check_balance_due_and_can_close_check() {
    let venue_id = VenueID::new();
    let order_id = OrderID::new();
    let check_id = CheckID::new();

    let mut check = Check::new(venue_id, check_id, order_id);

    let ev = handle_check_command(None, CheckCommand::OpenCheck { venue_id, check_id, order_id })
        .unwrap();
    for e in &ev {
        check.apply(e).unwrap();
    }

    let ev = handle_check_command(
        Some(&check),
        CheckCommand::AddLineFromOrderItem {
            venue_id,
            check_id,
            order_item_id: OrderItemID::new(),
            qty: 1,
            unit_price: Money::gbp(Amount::new(1000, 2)),
            name: "Coffee".into(),
        },
    )
    .unwrap();
    for e in &ev {
        check.apply(e).unwrap();
    }

    let due = check_balance_due(&check);
    assert_eq!(due.amount, Amount::new(1000, 2));
    assert!(!can_close_check(&check));

    let ev = handle_check_command(
        Some(&check),
        CheckCommand::RecordPayment {
            venue_id,
            check_id,
            payment_id: PaymentID::new(),
            tender: TenderType::Card,
            amount: Money::gbp(Amount::new(1000, 2)),
            tip: None,
            processor: None,
        },
    )
    .unwrap();
    for e in &ev {
        check.apply(e).unwrap();
    }

    let due = check_balance_due(&check);
    assert_eq!(due.amount, Amount::new(0, 2));
    assert!(can_close_check(&check));
}
