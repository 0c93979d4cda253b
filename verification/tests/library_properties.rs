use pos_core::aggregate::Apply;
use pos_core::amount::Amount;
use pos_core::handler::{handle_check_command, handle_order_command, handle_table_command};
use pos_core::ids::{CheckID, Currency, MenuItemID, Money, OrderID, OrderItemID, PaymentID, TableID, VenueID};
use pos_core::kds::projector::{stable_uuid_for_ticket, FNV_OFFSET_BASIS, FNV_SECOND_SEED};
use pos_core::kds::printing::delta_line_from_change;
use pos_core::workflows::split_check_move_line_qty;
use pos_core::{
    can_close_check, apply_kds_event, apply_order_event, delta_tickets_since, ensure_supported_schema, expo_view,
    kitchen_tickets, printable_lines_from_ticket, station_for_item, ticket_has_active_lines,
    ticket_is_ready, tickets_for_printing, totals, Check, CheckCommand, CheckEvent, IdempotencyKey,
    KdsChangeKind, KdsDeltaKind, KdsEvent, KdsLine, KdsLineStatus, KdsState, KdsTicketKey,
    OrderCommand, OrderEvent, PaymentStatus, PosError, RoutingRule, RoutingTable, Table,
    TableCommand, TableStatus, TenderType,
};

fn dec(num: i64, scale: u32) -> Amount {
    Amount::new(num, scale)
}

fn apply_all(check: &mut Check, events: &[CheckEvent]) {
    for e in events {
        check.apply(e).unwrap();
    }
}

fn open_check_with_line(price_cents: i64, qty: u32) -> (Check, VenueID, CheckID) {
    let venue_id = VenueID::new();
    let check_id = CheckID::new();
    let order_id = OrderID::new();
    let mut check = Check::new(venue_id, check_id, order_id);
    let ev = handle_check_command(None, CheckCommand::OpenCheck { venue_id, check_id, order_id })
        .unwrap();
    apply_all(&mut check, &ev);
    let ev = handle_check_command(
        Some(&check),
        CheckCommand::AddLineFromOrderItem {
            venue_id,
            check_id,
            order_item_id: OrderItemID::new(),
            qty,
            unit_price: Money::gbp(dec(price_cents, 2)),
            name: "Item".into(),
        },
    )
    .unwrap();
    apply_all(&mut check, &ev);
    (check, venue_id, check_id)
}

fn message(e: &PosError) -> String {
    match e {
        PosError::Validation(m) | PosError::NotFound(m) | PosError::Conflict(m) => m.clone(),
    }
}

#[test]
fn balance_due_is_total_less_paid() {
    let (mut check, venue_id, check_id) = open_check_with_line(1000, 2);
    let ev = handle_check_command(
        Some(&check),
        CheckCommand::ApplyServiceChargePercent {
            venue_id,
            check_id,
            label: "Service".into(),
            percent: 12,
            reason: "policy".into(),
        },
    )
    .unwrap();
    apply_all(&mut check, &ev);
    let ev = handle_check_command(
        Some(&check),
        CheckCommand::RecordPayment {
            venue_id,
            check_id,
            payment_id: PaymentID::new(),
            tender: TenderType::Cash,
            amount: Money::gbp(dec(500, 2)),
            tip: Some(Money::gbp(dec(100, 2))),
            processor: None,
        },
    )
    .unwrap();
    apply_all(&mut check, &ev);

    let t = totals(&check);
    assert_eq!(t.subtotal.amount, dec(2000, 2));
    assert_eq!(t.service_charge.amount, dec(240, 2));
    assert_eq!(t.total.amount, dec(2240, 2));
    assert_eq!(t.paid.amount, dec(500, 2));
    assert_eq!(t.tip.amount, dec(100, 2));
    assert_eq!(t.balance_due.amount, dec(1740, 2));
    assert_eq!(t.total.currency, Currency::GBP);
    assert_eq!(t.balance_due.currency, Currency::GBP);
}

#[test]
fn payments_stay_consistent_through_capture_refund_and_void() {
    let (mut check, venue_id, check_id) = open_check_with_line(1000, 1);
    let payment_id = PaymentID::new();
    let ev = handle_check_command(
        Some(&check),
        CheckCommand::AuthorisePayment {
            venue_id,
            check_id,
            payment_id,
            tender: TenderType::Card,
            amount: Money::gbp(dec(1000, 2)),
            tip: None,
            processor: None,
        },
    )
    .unwrap();
    apply_all(&mut check, &ev);
    for cents in [300i64, 700] {
        let ev = handle_check_command(
            Some(&check),
            CheckCommand::CapturePayment { venue_id, check_id, payment_id, amount: Money::gbp(dec(cents, 2)) },
        )
        .unwrap();
        apply_all(&mut check, &ev);
    }
    // Nothing is left to capture.
    let err = handle_check_command(
        Some(&check),
        CheckCommand::CapturePayment { venue_id, check_id, payment_id, amount: Money::gbp(dec(1, 2)) },
    )
    .unwrap_err();
    assert_eq!(message(&err), "capture amount exceeds authorised remaining");

    // Refund everything: the payment becomes refunded.
    let ev = handle_check_command(
        Some(&check),
        CheckCommand::RecordRefund {
            venue_id,
            check_id,
            payment_id,
            amount: Money::gbp(dec(1000, 2)),
            reason: "all".into(),
        },
    )
    .unwrap();
    apply_all(&mut check, &ev);
    let p = &check.payments[0];
    assert_eq!(p.status, PaymentStatus::Refunded);
    assert_eq!(p.captured.amount, dec(1000, 2));
    assert_eq!(p.refunded.amount, dec(1000, 2));
    assert_eq!(totals(&check).paid.amount, dec(0, 2));

    // A refunded payment can no longer be captured, and cannot be voided.
    let err = handle_check_command(
        Some(&check),
        CheckCommand::CapturePayment { venue_id, check_id, payment_id, amount: Money::gbp(dec(1, 2)) },
    )
    .unwrap_err();
    assert_eq!(message(&err), "payment is not capturable");
    let err = handle_check_command(
        Some(&check),
        CheckCommand::VoidPayment { venue_id, check_id, payment_id, reason: "x".into() },
    )
    .unwrap_err();
    assert_eq!(message(&err), "cannot void a captured payment; refund it instead");
}

#[test]
fn check_command_errors_name_their_cause() {
    let venue_id = VenueID::new();
    let check_id = CheckID::new();

    let err = handle_check_command(None, CheckCommand::CloseCheck { venue_id, check_id }).unwrap_err();
    assert!(matches!(err, PosError::NotFound(_)));
    assert_eq!(message(&err), "check not found");

    let (mut check, venue_id, check_id) = open_check_with_line(1000, 1);

    let err = handle_check_command(
        Some(&check),
        CheckCommand::OpenCheck { venue_id, check_id, order_id: check.order_id },
    )
    .unwrap_err();
    assert!(matches!(err, PosError::Conflict(_)));

    let err = handle_check_command(
        Some(&check),
        CheckCommand::AddLineFromOrderItem {
            venue_id,
            check_id,
            order_item_id: OrderItemID::new(),
            qty: 0,
            unit_price: Money::gbp(dec(100, 2)),
            name: "None".into(),
        },
    )
    .unwrap_err();
    assert_eq!(message(&err), "qty must be >= 1");

    let err = handle_check_command(
        Some(&check),
        CheckCommand::ApplyServiceChargePercent {
            venue_id,
            check_id,
            label: "S".into(),
            percent: 101,
            reason: "r".into(),
        },
    )
    .unwrap_err();
    assert_eq!(message(&err), "percent must be between 0 and 100");

    let err = handle_check_command(Some(&check), CheckCommand::CloseCheck { venue_id, check_id })
        .unwrap_err();
    assert_eq!(message(&err), "cannot close unpaid check");

    let err = handle_check_command(
        Some(&check),
        CheckCommand::RecordPayment {
            venue_id,
            check_id,
            payment_id: PaymentID::new(),
            tender: TenderType::Card,
            amount: Money::usd(dec(1000, 2)),
            tip: None,
            processor: None,
        },
    )
    .unwrap_err();
    assert_eq!(message(&err), "currency mismatch");

    let err = handle_check_command(
        Some(&check),
        CheckCommand::VoidPayment { venue_id, check_id, payment_id: PaymentID::new(), reason: "r".into() },
    )
    .unwrap_err();
    assert!(matches!(err, PosError::NotFound(_)));
    assert_eq!(message(&err), "payment not found");

    let payment_id = PaymentID::new();
    let record = CheckCommand::RecordPayment {
        venue_id,
        check_id,
        payment_id,
        tender: TenderType::Card,
        amount: Money::gbp(dec(1000, 2)),
        tip: None,
        processor: None,
    };
    let ev = handle_check_command(Some(&check), record).unwrap();
    apply_all(&mut check, &ev);
    let err = handle_check_command(
        Some(&check),
        CheckCommand::AuthorisePayment {
            venue_id,
            check_id,
            payment_id,
            tender: TenderType::Card,
            amount: Money::gbp(dec(100, 2)),
            tip: None,
            processor: None,
        },
    )
    .unwrap_err();
    assert!(matches!(err, PosError::Conflict(_)));
    assert_eq!(message(&err), "payment_id already exists");

    let ev = handle_check_command(Some(&check), CheckCommand::CloseCheck { venue_id, check_id }).unwrap();
    apply_all(&mut check, &ev);
    let err = handle_check_command(
        Some(&check),
        CheckCommand::RemoveLine { venue_id, check_id, order_item_id: OrderItemID::new(), reason: "r".into() },
    )
    .unwrap_err();
    assert_eq!(message(&err), "check is not open");
}

#[test]
fn empty_check_cannot_close() {
    let venue_id = VenueID::new();
    let check_id = CheckID::new();
    let order_id = OrderID::new();
    let check = Check::new(venue_id, check_id, order_id);
    let err = handle_check_command(Some(&check), CheckCommand::CloseCheck { venue_id, check_id })
        .unwrap_err();
    assert_eq!(message(&err), "cannot close an empty check");
    assert!(!can_close_check(&check));
}

#[test]
fn discount_above_one_hundred_percent_is_refused() {
    let (check, venue_id, check_id) = open_check_with_line(1000, 1);
    let err = handle_check_command(
        Some(&check),
        CheckCommand::ApplyDiscountPercent {
            venue_id,
            check_id,
            label: "D".into(),
            percent: 101,
            reason: "r".into(),
        },
    )
    .unwrap_err();
    assert_eq!(message(&err), "percent must be between 0 and 100");
    let ok = handle_check_command(
        Some(&check),
        CheckCommand::ApplyDiscountPercent {
            venue_id,
            check_id,
            label: "D".into(),
            percent: 100,
            reason: "r".into(),
        },
    );
    assert!(ok.is_ok());
}

#[test]
fn totals_are_exact_at_many_fractional_digits_without_percentages() {
    let venue_id = VenueID::new();
    let check_id = CheckID::new();
    let order_id = OrderID::new();
    let mut check = Check::new(venue_id, check_id, order_id);
    let ev = handle_check_command(None, CheckCommand::OpenCheck { venue_id, check_id, order_id })
        .unwrap();
    apply_all(&mut check, &ev);
    let ev = handle_check_command(
        Some(&check),
        CheckCommand::AddLineFromOrderItem {
            venue_id,
            check_id,
            order_item_id: OrderItemID::new(),
            qty: 3,
            unit_price: Money::gbp(dec(1, 26)),
            name: "Tiny".into(),
        },
    )
    .unwrap();
    apply_all(&mut check, &ev);
    let t = totals(&check);
    assert!(t.subtotal.amount == dec(3, 26));
    assert!(t.total.amount == dec(3, 26));
    assert!(t.balance_due.amount == dec(3, 26));
    assert!(t.discount.amount == dec(0, 0));
}

#[test]
fn table_with_an_order_cannot_close_and_closed_table_takes_no_order() {
    let venue_id = VenueID::new();
    let table_id = TableID::new();
    let mut table = Table::new(venue_id, table_id, "T9", None);
    let ev = handle_table_command(
        Some(&table),
        TableCommand::AssignOrder { venue_id, table_id, order_id: OrderID::new() },
    )
    .unwrap();
    for e in &ev {
        table.apply(e).unwrap();
    }
    let err = handle_table_command(Some(&table), TableCommand::CloseTable { venue_id, table_id })
        .unwrap_err();
    assert_eq!(message(&err), "cannot close table with active order");
    assert_eq!(table.status, TableStatus::Occupied);

    let ev = handle_table_command(
        Some(&table),
        TableCommand::UnassignOrder { venue_id, table_id, reason: "done".into() },
    )
    .unwrap();
    for e in &ev {
        table.apply(e).unwrap();
    }
    let ev = handle_table_command(Some(&table), TableCommand::CloseTable { venue_id, table_id }).unwrap();
    for e in &ev {
        table.apply(e).unwrap();
    }
    let err = handle_table_command(
        Some(&table),
        TableCommand::AssignOrder { venue_id, table_id, order_id: OrderID::new() },
    )
    .unwrap_err();
    assert_eq!(message(&err), "table is closed");
    let err = handle_table_command(None, TableCommand::CloseTable { venue_id, table_id }).unwrap_err();
    assert!(matches!(err, PosError::NotFound(_)));
    assert_eq!(table.active_order_id, None);
}

#[test]
fn order_refuses_items_after_close() {
    let venue_id = VenueID::new();
    let order_id = OrderID::new();
    let mut order = pos_core::Order::new(venue_id, order_id);
    let err = handle_order_command(Some(&order), OrderCommand::CloseOrder { venue_id, order_id })
        .unwrap_err();
    assert_eq!(message(&err), "cannot close an empty order");
    let ev = handle_order_command(
        Some(&order),
        OrderCommand::AddItem {
            venue_id,
            order_id,
            order_item_id: OrderItemID::new(),
            menu_item_id: MenuItemID::new(),
            name: "Soup".into(),
            unit_price: Money::gbp(dec(100, 2)),
            qty: 1,
            notes: None,
        },
    )
    .unwrap();
    for e in &ev {
        order.apply(e).unwrap();
    }
    let ev = handle_order_command(Some(&order), OrderCommand::CloseOrder { venue_id, order_id }).unwrap();
    for e in &ev {
        order.apply(e).unwrap();
    }
    let err = handle_order_command(
        Some(&order),
        OrderCommand::AddItem {
            venue_id,
            order_id,
            order_item_id: OrderItemID::new(),
            menu_item_id: MenuItemID::new(),
            name: "Late".into(),
            unit_price: Money::gbp(dec(100, 2)),
            qty: 1,
            notes: None,
        },
    )
    .unwrap_err();
    assert_eq!(message(&err), "order is not open");
}

#[test]
fn moved_line_reason_names_the_target_check() {
    let (from, venue_id, _) = open_check_with_line(1000, 2);
    let item_id = from.lines[0].order_item_id;
    let to_id = CheckID(0x0123_4567_89ab_cdef_0011_2233_4455_6677);
    let mut to = Check::new(venue_id, to_id, from.order_id);
    let ev = handle_check_command(None, CheckCommand::OpenCheck { venue_id, check_id: to_id, order_id: from.order_id })
        .unwrap();
    apply_all(&mut to, &ev);
    let evs = split_check_move_line_qty(&from, &to, venue_id, item_id, 1).unwrap();
    match &evs[0] {
        CheckEvent::LineQtyDecreased { reason, .. } => {
            assert_eq!(reason, "moved to check 01234567-89ab-cdef-0011-223344556677");
        }
        other => panic!("unexpected event {:?}", other),
    }
    let err = split_check_move_line_qty(&from, &to, venue_id, item_id, 3).unwrap_err();
    assert_eq!(message(&err), "cannot move more qty than exists on from_check");
}

#[test]
fn unsupported_schema_versions_are_named() {
    assert!(ensure_supported_schema(2).is_ok());
    let err = ensure_supported_schema(1).unwrap_err();
    assert_eq!(message(&err), "unsupported schema_version 1");
    let err = ensure_supported_schema(65535).unwrap_err();
    assert_eq!(message(&err), "unsupported schema_version 65535");
}

#[test]
fn fresh_ids_are_random_version_four_uuids() {
    let a = OrderID::new();
    let b = OrderID::new();
    assert_ne!(a, b);
    assert_eq!((a.0 >> 76) & 0xf, 4);
    assert_eq!((a.0 >> 62) & 0x3, 2);
}

#[test]
fn idempotency_key_keeps_its_text() {
    let key = IdempotencyKey::new("retry-1");
    assert_eq!(key.to_text(), "retry-1");
}

/// FNV-1a over bytes, written out independently of the library.
fn fnv(data: &[u8], seed: u64) -> u64 {
    let mut h = seed;
    for b in data {
        h ^= *b as u64;
        h = h.wrapping_mul(0x100000001b3);
    }
    h
}

#[test]
fn fnv1a64_matches_reference_values() {
    assert_eq!(pos_core::kds::fnv1a64(b"", FNV_OFFSET_BASIS), 0xcbf29ce484222325);
    assert_eq!(pos_core::kds::fnv1a64(b"a", FNV_OFFSET_BASIS), 0xaf63dc4c8601ec8c);
    assert_eq!(pos_core::kds::fnv1a64(b"foobar", FNV_OFFSET_BASIS), 0x85944171f73967e8);
}

#[test]
fn ticket_ids_come_from_order_and_station() {
    let order_id = OrderID(0x00112233_44556677_8899aabb_ccddeeff);
    let mut data: Vec<u8> = order_id.0.to_be_bytes().to_vec();
    data.extend_from_slice("grill".as_bytes());
    let expected = ((fnv(&data, FNV_OFFSET_BASIS) as u128) << 64)
        | (fnv(&data, FNV_OFFSET_BASIS ^ FNV_SECOND_SEED) as u128);
    assert_eq!(stable_uuid_for_ticket(order_id, "grill"), expected);
    assert_ne!(stable_uuid_for_ticket(order_id, "grill"), stable_uuid_for_ticket(order_id, "bar"));
}

#[test]
fn routing_tries_rules_in_order_then_default() {
    let burger = MenuItemID::new();
    let routing = RoutingTable::new(
        vec![
            RoutingRule::for_name_prefix("Bur", "grill"),
            RoutingRule::for_menu_item(burger, "bar"),
            RoutingRule::for_name_prefix("Cafè", "coffee"),
        ],
        "kitchen",
    );
    assert_eq!(station_for_item(burger, "Burger", &routing), "grill");
    assert_eq!(station_for_item(burger, "Beer", &routing), "bar");
    assert_eq!(station_for_item(MenuItemID::new(), "Cafè latte", &routing), "coffee");
    assert_eq!(station_for_item(MenuItemID::new(), "Cafe latte", &routing), "kitchen");
    assert_eq!(station_for_item(MenuItemID::new(), "Bu", &routing), "kitchen");
    assert_eq!(RoutingTable::default().default_station, "kitchen");
}

#[test]
fn ticket_keys_order_by_order_then_station() {
    let a = KdsTicketKey::new(OrderID(1), "grill".to_string());
    let b = KdsTicketKey::new(OrderID(1), "grilled".to_string());
    let c = KdsTicketKey::new(OrderID(2), "bar".to_string());
    assert!(a.precedes(&b));
    assert!(b.precedes(&c));
    assert!(a.precedes(&c));
    assert!(!a.precedes(&a));
    assert!(!c.precedes(&a));
    assert_eq!(a.precedes(&b), a < b);
    assert_eq!(c.precedes(&a), c < a);
}

fn item_added(venue_id: VenueID, order_id: OrderID, item: OrderItemID, name: &str, qty: u32) -> OrderEvent {
    OrderEvent::ItemAdded {
        venue_id,
        order_id,
        order_item_id: item,
        menu_item_id: MenuItemID::new(),
        name: name.into(),
        unit_price: Money::gbp(dec(100, 2)),
        qty,
        notes: None,
    }
}

#[test]
fn expo_view_lists_tickets_in_key_order_with_lines_by_id() {
    let venue_id = VenueID::new();
    let routing = RoutingTable::new(vec![RoutingRule::for_name_prefix("Beer", "bar")], "kitchen");
    let mut state = KdsState::new();
    let late_order = OrderID(9);
    let early_order = OrderID(3);
    apply_order_event(&mut state, &item_added(venue_id, late_order, OrderItemID(50), "Soup", 1), 1, &routing, None).unwrap();
    apply_order_event(&mut state, &item_added(venue_id, early_order, OrderItemID(40), "Steak", 1), 2, &routing, None).unwrap();
    apply_order_event(&mut state, &item_added(venue_id, early_order, OrderItemID(20), "Beer", 1), 3, &routing, None).unwrap();
    apply_order_event(&mut state, &item_added(venue_id, early_order, OrderItemID(30), "Salad", 2), 4, &routing, None).unwrap();

    let view = expo_view(&state);
    let keys: Vec<(u128, String)> = view.iter().map(|t| (t.order_id.0, t.station.clone())).collect();
    assert_eq!(
        keys,
        vec![(3, "bar".to_string()), (3, "kitchen".to_string()), (9, "kitchen".to_string())]
    );
    let ids: Vec<u128> = view[1].lines.iter().map(|l| l.line_id).collect();
    assert_eq!(ids, vec![30, 40]);
    assert_eq!(state.cursor, 4);

    let printed = tickets_for_printing(&state, Some("kitchen"));
    assert_eq!(printed.len(), 2);
    assert_eq!(printed[0].ticket, view[1]);
    let lines = printable_lines_from_ticket(&state.tickets[1]);
    assert_eq!(lines.iter().map(|l| l.line_id).collect::<Vec<u128>>(), vec![30, 40]);
    assert_eq!(lines[0].qty, 2);
}

#[test]
fn refused_kds_events_only_move_the_cursor() {
    let venue_id = VenueID::new();
    let order_id = OrderID::new();
    let routing = RoutingTable::default();
    let mut state = KdsState::new();
    apply_order_event(&mut state, &item_added(venue_id, order_id, OrderItemID(7), "Soup", 1), 3, &routing, None).unwrap();

    let err = apply_order_event(
        &mut state,
        &OrderEvent::ItemRemoved { venue_id, order_id, order_item_id: OrderItemID(8), reason: None },
        9,
        &routing,
        None,
    )
    .unwrap_err();
    assert_eq!(message(&err), "kds ticket for item not found");
    assert_eq!(state.cursor, 9);
    assert_eq!(state.changes.len(), 1);

    let err = apply_kds_event(
        &mut state,
        &KdsEvent::TicketBumped { venue_id, station: "grill".into(), order_id },
        12,
    )
    .unwrap_err();
    assert_eq!(message(&err), "kds ticket not found");
    let err = apply_kds_event(
        &mut state,
        &KdsEvent::LineDone { venue_id, station: "kitchen".into(), order_id, line_id: 99 },
        5,
    )
    .unwrap_err();
    assert_eq!(message(&err), "kds ticket for line not found");
    assert_eq!(state.cursor, 12);
    assert_eq!(kitchen_tickets(&state, None)[0].status, pos_core::KdsTicketStatus::New);
}

#[test]
fn closing_an_order_completes_its_tickets_and_notes_are_logged() {
    let venue_id = VenueID::new();
    let order_id = OrderID::new();
    let routing = RoutingTable::default();
    let mut state = KdsState::new();
    apply_order_event(&mut state, &item_added(venue_id, order_id, OrderItemID(1), "Soup", 1), 1, &routing, None).unwrap();
    apply_kds_event(
        &mut state,
        &KdsEvent::TicketNoteAdded { venue_id, station: "kitchen".into(), order_id, note: "allergy".into() },
        2,
    )
    .unwrap();
    assert_eq!(state.tickets[0].notes, vec!["allergy".to_string()]);
    assert!(matches!(state.changes[1].change, KdsChangeKind::TicketNoteAdded { .. }));
    // Notes are not printed as delta lines.
    assert_eq!(delta_tickets_since(&state, "kitchen", 1).len(), 0);

    apply_order_event(&mut state, &OrderEvent::OrderClosed { venue_id, order_id }, 3, &routing, None).unwrap();
    assert_eq!(state.tickets[0].status, pos_core::KdsTicketStatus::Completed);
    assert_eq!(state.tickets[0].updated_at_seq, 3);
    assert!(ticket_has_active_lines(&state.tickets[0]));
    assert!(!ticket_is_ready(&state.tickets[0]));
}

#[test]
fn re_adding_an_item_grows_its_line_and_revives_a_voided_one() {
    let venue_id = VenueID::new();
    let order_id = OrderID::new();
    let routing = RoutingTable::default();
    let mut state = KdsState::new();
    let item = OrderItemID(5);
    apply_order_event(&mut state, &item_added(venue_id, order_id, item, "Soup", 2), 1, &routing, None).unwrap();
    apply_order_event(
        &mut state,
        &OrderEvent::ItemRemoved { venue_id, order_id, order_item_id: item, reason: None },
        2,
        &routing,
        None,
    )
    .unwrap();
    assert!(!ticket_has_active_lines(&state.tickets[0]));
    assert!(ticket_is_ready(&state.tickets[0]));
    // Voiding twice logs once.
    apply_order_event(
        &mut state,
        &OrderEvent::ItemRemoved { venue_id, order_id, order_item_id: item, reason: None },
        3,
        &routing,
        None,
    )
    .unwrap();
    assert_eq!(state.changes.len(), 2);
    apply_order_event(&mut state, &item_added(venue_id, order_id, item, "Soup", u32::MAX), 4, &routing, None).unwrap();
    let line: &KdsLine = &state.tickets[0].lines[0];
    assert_eq!(line.qty, u32::MAX);
    assert_eq!(line.status, KdsLineStatus::New);
    let delta = delta_tickets_since(&state, "kitchen", 3);
    assert_eq!(delta.len(), 1);
    assert_eq!(delta[0].seq, 4);
    assert_eq!(delta[0].lines[0].kind, KdsDeltaKind::QtyChanged { from_qty: 2, to_qty: u32::MAX });
    assert!(delta_line_from_change(&state.changes[0].change).is_some());
    assert_eq!(delta_tickets_since(&state, "kitchen", 4).len(), 0);
}

#[test]
fn removing_an_item_twice_is_removing_it_once() {
    let venue_id = VenueID::new();
    let order_id = OrderID(5);
    let routing = RoutingTable::default();
    let mut state = KdsState::new();
    apply_order_event(&mut state, &item_added(venue_id, order_id, OrderItemID(11), "Soup", 2), 1, &routing, None).unwrap();
    let removed = OrderEvent::ItemRemoved { venue_id, order_id, order_item_id: OrderItemID(11), reason: Some("r".into()) };
    apply_order_event(&mut state, &removed, 2, &routing, None).unwrap();
    let tickets_once = format!("{:?}", state.tickets);
    let changes_once = format!("{:?}", state.changes);
    let cursor_once = state.cursor;
    apply_order_event(&mut state, &removed, 2, &routing, None).unwrap();
    assert_eq!(format!("{:?}", state.tickets), tickets_once);
    assert_eq!(format!("{:?}", state.changes), changes_once);
    assert_eq!(state.cursor, cursor_once);
    assert_eq!(state.changes.len(), 2);
}

#[test]
fn fnv1a64_of_a_concatenation_continues_from_the_first_part() {
    let whole = pos_core::kds::fnv1a64(b"foobar", FNV_OFFSET_BASIS);
    let first = pos_core::kds::fnv1a64(b"foo", FNV_OFFSET_BASIS);
    assert_eq!(pos_core::kds::fnv1a64(b"bar", first), whole);
    assert_eq!(fnv(b"foobar", FNV_OFFSET_BASIS), whole);
}

#[test]
fn delta_print_gathers_one_ticket_per_order() {
    let venue_id = VenueID::new();
    let routing = RoutingTable::default();
    let mut state = KdsState::new();
    apply_order_event(&mut state, &item_added(venue_id, OrderID(7), OrderItemID(1), "Soup", 1), 1, &routing, None).unwrap();
    apply_order_event(&mut state, &item_added(venue_id, OrderID(3), OrderItemID(2), "Steak", 1), 2, &routing, None).unwrap();
    apply_order_event(&mut state, &item_added(venue_id, OrderID(7), OrderItemID(3), "Bread", 1), 3, &routing, None).unwrap();
    let deltas = delta_tickets_since(&state, "kitchen", 0);
    assert_eq!(deltas.len(), 2);
    assert_eq!(deltas[0].order_id, OrderID(7));
    assert_eq!(deltas[0].lines.len(), 2);
    assert_eq!(deltas[0].seq, 3);
    assert_eq!(deltas[1].order_id, OrderID(3));
    assert_eq!(deltas[1].lines.len(), 1);
    assert_eq!(deltas[1].seq, 2);
    let later = delta_tickets_since(&state, "kitchen", 2);
    assert_eq!(later.len(), 1);
    assert_eq!(later[0].lines.len(), 1);
}

#[test]
fn totals_carry_the_fractional_digits_rust_decimal_gives() {
    let (mut check, venue_id, check_id) = open_check_with_line(1080, 2);
    let ev = handle_check_command(
        Some(&check),
        CheckCommand::ApplyDiscountPercent {
            venue_id,
            check_id,
            label: "D".into(),
            percent: 10,
            reason: "r".into(),
        },
    )
    .unwrap();
    apply_all(&mut check, &ev);
    let t = totals(&check);
    assert_eq!((t.subtotal.amount.mantissa(), t.subtotal.amount.scale()), (2160, 2));
    assert_eq!((t.discount.amount.mantissa(), t.discount.amount.scale()), (216, 2));
    assert_eq!((t.total.amount.mantissa(), t.total.amount.scale()), (1944, 2));
    assert_eq!((t.paid.amount.mantissa(), t.paid.amount.scale()), (0, 0));
    assert_eq!((t.service_charge.amount.mantissa(), t.service_charge.amount.scale()), (0, 0));

    let (mut small, venue_id, check_id) = open_check_with_line(15, 1);
    let ev = handle_check_command(
        Some(&small),
        CheckCommand::ApplyDiscountPercent {
            venue_id,
            check_id,
            label: "D".into(),
            percent: 10,
            reason: "r".into(),
        },
    )
    .unwrap();
    apply_all(&mut small, &ev);
    let t = totals(&small);
    assert_eq!((t.discount.amount.mantissa(), t.discount.amount.scale()), (150, 4));
}

#[test]
fn captured_amounts_carry_the_digits_of_their_sum() {
    let (mut check, venue_id, check_id) = open_check_with_line(1000, 1);
    let payment_id = PaymentID::new();
    let ev = handle_check_command(
        Some(&check),
        CheckCommand::AuthorisePayment {
            venue_id,
            check_id,
            payment_id,
            tender: TenderType::Card,
            amount: Money::gbp(dec(1000, 2)),
            tip: None,
            processor: None,
        },
    )
    .unwrap();
    apply_all(&mut check, &ev);
    let ev = handle_check_command(
        Some(&check),
        CheckCommand::CapturePayment { venue_id, check_id, payment_id, amount: Money::gbp(dec(55, 1)) },
    )
    .unwrap();
    apply_all(&mut check, &ev);
    let c = check.payments[0].captured.amount;
    assert_eq!((c.mantissa(), c.scale()), (55, 1));
    let ev = handle_check_command(
        Some(&check),
        CheckCommand::CapturePayment { venue_id, check_id, payment_id, amount: Money::gbp(dec(225, 2)) },
    )
    .unwrap();
    apply_all(&mut check, &ev);
    let c = check.payments[0].captured.amount;
    assert_eq!((c.mantissa(), c.scale()), (775, 2));
}
