use pos_core::aggregate::Apply;
use pos_core::amount::Amount;
use pos_core::handler::{handle_check_command, handle_order_command, handle_table_command};
use pos_core::ids::{ActorID, CheckID, MenuItemID, Money, OrderID, OrderItemID, PaymentID, TableID, VenueID};
use pos_core::workflows::{split_check_create, split_check_move_line_qty};
use pos_core::{
    route_command_envelope_enveloped, route_core_command, totals, AggregateType, Check,
    CheckCommand, CheckEvent, CheckStatus, CommandEnvelope, CoreCommand, CoreContext, CoreEvent,
    Order, OrderCommand, OrderEvent, Table, TableCommand, TableEvent, TableStatus, TenderType,
    WorkflowCommand,
};

fn dec(num: i64, scale: u32) -> Amount {
    Amount::new(num, scale)
}

#[test]
fn core_event_can_produce_aggregate_ref() {
    let venue_id = VenueID::new();
    let order_id = OrderID::new();

    let ev = CoreEvent::Order(OrderEvent::OrderOpened { venue_id, order_id });
    let agg = ev.aggregate_ref();

    assert_eq!(agg.ty as u8, AggregateType::Order as u8);
    assert_eq!(agg.id, order_id.0);
}

#[test]
fn can_route_check_command_and_workflow_split() {
    let venue_id = VenueID::new();
    let order_id = OrderID::new();
    let from_check_id = CheckID::new();
    let to_check_id = CheckID::new();

    // open FROM check via CoreCommand
    let evs = route_core_command(
        CoreContext { check: None, order: None, table: None, to_check: None },
        CoreCommand::Check(CheckCommand::OpenCheck { venue_id, check_id: from_check_id, order_id }),
    )
    .unwrap();

    let mut from = Check::new(venue_id, from_check_id, order_id);
    for e in evs {
        if let CoreEvent::Check(ce) = e {
            from.apply(&ce).unwrap();
        }
    }

    // add 2x item
    let item_id = OrderItemID::new();
    let evs = route_core_command(
        CoreContext { check: Some(&from), order: None, table: None, to_check: None },
        CoreCommand::Check(CheckCommand::AddLineFromOrderItem {
            venue_id,
            check_id: from_check_id,
            order_item_id: item_id,
            qty: 2,
            unit_price: Money::gbp(dec(1000, 2)),
            name: "Pasta".into(),
        }),
    )
    .unwrap();
    for e in evs {
        if let CoreEvent::Check(ce) = e {
            from.apply(&ce).unwrap();
        }
    }

    // create split check via workflow
    let evs = route_core_command(
        CoreContext { check: Some(&from), order: None, table: None, to_check: None },
        CoreCommand::Workflow(WorkflowCommand::SplitCheckCreate {
            venue_id,
            from_check_id,
            new_check_id: to_check_id,
        }),
    )
    .unwrap();

    let mut to = Check::new(venue_id, to_check_id, order_id);
    for e in evs {
        if let CoreEvent::Check(ce) = e {
            // route by check_id
            match &ce {
                CheckEvent::CheckOpened { check_id, .. }
                | CheckEvent::SplitCheckCreated { check_id, .. } => {
                    if *check_id == to_check_id {
                        to.apply(&ce).unwrap();
                    }
                }
                _ => {}
            }
        }
    }

    // move qty=1 via workflow
    let evs = route_core_command(
        CoreContext { check: Some(&from), order: None, table: None, to_check: Some(&to) },
        CoreCommand::Workflow(WorkflowCommand::SplitCheckMoveLineQty {
            venue_id,
            from_check_id,
            to_check_id,
            order_item_id: item_id,
            qty: 1,
        }),
    )
    .unwrap();

    for e in evs {
        if let CoreEvent::Check(ce) = e {
            match &ce {
                CheckEvent::LineQtyDecreased { check_id, .. } => {
                    if *check_id == from_check_id {
                        from.apply(&ce).unwrap();
                    }
                }
                CheckEvent::LineAdded { check_id, .. } => {
                    if *check_id == to_check_id {
                        to.apply(&ce).unwrap();
                    }
                }
                _ => {}
            }
        }
    }

    assert_eq!(from.lines[0].qty, 1);
    assert_eq!(to.lines[0].qty, 1);
}

#[test]
fn can_split_check_and_move_qty_between_checks() {
    let venue_id = VenueID::new();
    let order_id = OrderID::new();
    let from_check_id = CheckID::new();
    let to_check_id = CheckID::new();

    // open FROM check
    let ev = handle_check_command(
        None,
        CheckCommand::OpenCheck { venue_id, check_id: from_check_id, order_id },
    )
    .unwrap();
    let mut from = Check::new(venue_id, from_check_id, order_id);
    for e in &ev {
        from.apply(e).unwrap();
    }

    // add line: 2x 10.00
    let item_id = OrderItemID::new();
    let ev = handle_check_command(
        Some(&from),
        CheckCommand::AddLineFromOrderItem {
            venue_id,
            check_id: from_check_id,
            order_item_id: item_id,
            qty: 2,
            unit_price: Money::gbp(dec(1000, 2)),
            name: "Pasta".into(),
        },
    )
    .unwrap();
    for e in &ev {
        from.apply(e).unwrap();
    }

    assert_eq!(totals(&from).total.amount, dec(2000, 2));

    // create split check (TO)
    let evs = split_check_create(&from, venue_id, to_check_id).unwrap();
    let mut to = Check::new(venue_id, to_check_id, order_id);
    for e in &evs {
        // route by check_id
        match e {
            CheckEvent::CheckOpened { check_id, .. }
            | CheckEvent::SplitCheckCreated { check_id, .. } => {
                if *check_id == to_check_id {
                    to.apply(e).unwrap();
                }
            }
            _ => {}
        }
    }

    // move qty=1 from FROM -> TO
    let evs = split_check_move_line_qty(&from, &to, venue_id, item_id, 1).unwrap();

    for e in &evs {
        // route events to correct aggregate
        match e {
            CheckEvent::LineQtyDecreased { check_id, .. } => {
                if *check_id == from_check_id {
                    from.apply(e).unwrap();
                }
            }
            CheckEvent::LineAdded { check_id, .. } => {
                if *check_id == to_check_id {
                    to.apply(e).unwrap();
                }
            }
            _ => {}
        }
    }

    assert_eq!(from.lines[0].qty, 1);
    assert_eq!(to.lines[0].qty, 1);

    assert_eq!(totals(&from).total.amount, dec(1000, 2));
    assert_eq!(totals(&to).total.amount, dec(1000, 2));
}

fn created_table(venue_id: VenueID, table_id: TableID) -> Table {
    let mut table = Table::new(venue_id, table_id, "T1", None);
    let created = handle_table_command(
        None,
        TableCommand::CreateTable { venue_id, table_id, label: "T1".into(), area_id: None },
    )
    .unwrap();
    for e in &created {
        table.apply(e).unwrap();
    }
    table
}

#[test]
fn open_table_session_emits_order_check_and_table_events() {
    let venue_id = VenueID::new();
    let table_id = TableID::new();
    let order_id = OrderID::new();
    let check_id = CheckID::new();

    // Create a table first
    let mut table = created_table(venue_id, table_id);
    assert_eq!(table.status, TableStatus::Available);
    assert!(table.active_order_id.is_none());

    // Run OpenTableSession workflow
    let events = route_core_command(
        CoreContext { table: Some(&table), order: None, check: None, to_check: None },
        CoreCommand::Workflow(WorkflowCommand::OpenTableSession {
            venue_id,
            table_id,
            order_id,
            check_id,
        }),
    )
    .unwrap();

    // Validate the 3 events exist
    assert!(events.iter().any(|e| matches!(e, CoreEvent::Order(_))));
    assert!(events.iter().any(|e| matches!(e, CoreEvent::Check(_))));
    assert!(events.iter().any(|e| matches!(e, CoreEvent::Table(_))));

    // Apply only the table event to table, to ensure it becomes occupied
    for e in events {
        if let CoreEvent::Table(te) = e {
            table.apply(&te).unwrap();
        }
    }

    assert_eq!(table.status, TableStatus::Occupied);
    assert_eq!(table.active_order_id, Some(order_id));
}

#[test]
fn close_table_session_closes_paid_check_and_unassigns_table() {
    let venue_id = VenueID::new();
    let table_id = TableID::new();
    let order_id = OrderID::new();
    let check_id = CheckID::new();

    // Create table
    let mut table = created_table(venue_id, table_id);

    // Assign order to table (simulate open session outcome)
    let evs = handle_table_command(
        Some(&table),
        TableCommand::AssignOrder { venue_id, table_id, order_id },
    )
    .unwrap();
    for e in &evs {
        table.apply(e).unwrap();
    }
    assert_eq!(table.status, TableStatus::Occupied);

    // Open check
    let mut check = Check::new(venue_id, check_id, order_id);
    let evs = handle_check_command(None, CheckCommand::OpenCheck { venue_id, check_id, order_id })
        .unwrap();
    for e in &evs {
        check.apply(e).unwrap();
    }

    // Add line 10.00
    let item_id = OrderItemID::new();
    let evs = handle_check_command(
        Some(&check),
        CheckCommand::AddLineFromOrderItem {
            venue_id,
            check_id,
            order_item_id: item_id,
            qty: 1,
            unit_price: Money::gbp(dec(1000, 2)),
            name: "Coffee".into(),
        },
    )
    .unwrap();
    for e in &evs {
        check.apply(e).unwrap();
    }

    // Pay 10.00
    let evs = handle_check_command(
        Some(&check),
        CheckCommand::RecordPayment {
            venue_id,
            check_id,
            payment_id: PaymentID::new(),
            tender: TenderType::Card,
            amount: Money::gbp(dec(1000, 2)),
            tip: None,
            processor: None,
        },
    )
    .unwrap();
    for e in &evs {
        check.apply(e).unwrap();
    }

    let tt = totals(&check);
    assert_eq!(tt.balance_due.amount, dec(0, 2));

    // Close table session
    let out = route_core_command(
        CoreContext { table: Some(&table), check: Some(&check), order: None, to_check: None },
        CoreCommand::Workflow(WorkflowCommand::CloseTableSession {
            venue_id,
            table_id,
            order_id,
            check_id,
            reason: "paid".into(),
        }),
    )
    .unwrap();

    // Apply routed events to aggregates
    for e in out {
        match e {
            CoreEvent::Check(ce) => check.apply(&ce).unwrap(),
            CoreEvent::Table(te) => table.apply(&te).unwrap(),
            _ => {}
        }
    }

    assert_eq!(check.status, CheckStatus::Closed);
    assert_eq!(table.status, TableStatus::Available);
    assert_eq!(table.active_order_id, None);
}

#[test]
fn mvp_flow_end_to_end() {
    let venue_id = VenueID::new();
    let table_id = TableID::new();
    let order_id = OrderID::new();
    let check_id = CheckID::new();
    let split_check_id = CheckID::new();

    // create table
    let mut table = Table::new(venue_id, table_id, "T1", None);
    let events = route_core_command(
        CoreContext::empty(),
        CoreCommand::Table(TableCommand::CreateTable {
            venue_id,
            table_id,
            label: "T1".into(),
            area_id: None,
        }),
    )
    .unwrap();
    for e in events {
        if let CoreEvent::Table(te) = e {
            table.apply(&te).unwrap();
        }
    }

    // open table session (order + check + table assignment)
    let events = route_core_command(
        CoreContext { table: Some(&table), order: None, check: None, to_check: None },
        CoreCommand::Workflow(WorkflowCommand::OpenTableSession {
            venue_id,
            table_id,
            order_id,
            check_id,
        }),
    )
    .unwrap();

    let mut order = Order::new(venue_id, order_id);
    let mut check = Check::new(venue_id, check_id, order_id);

    for e in events {
        match e {
            CoreEvent::Order(oe) => order.apply(&oe).unwrap(),
            CoreEvent::Check(ce) => check.apply(&ce).unwrap(),
            CoreEvent::Table(te) => table.apply(&te).unwrap(),
        }
    }

    // add order item
    let order_item_id = OrderItemID::new();
    let menu_item_id = MenuItemID::new();
    let unit_price = Money::gbp(dec(1000, 2));

    let events = route_core_command(
        CoreContext { order: Some(&order), check: None, table: None, to_check: None },
        CoreCommand::Order(OrderCommand::AddItem {
            venue_id,
            order_id,
            order_item_id,
            menu_item_id,
            name: "Burger".into(),
            unit_price,
            qty: 2,
            notes: None,
        }),
    )
    .unwrap();
    for e in events {
        if let CoreEvent::Order(oe) = e {
            order.apply(&oe).unwrap();
        }
    }

    // add line to check from order item
    let events = route_core_command(
        CoreContext { order: None, check: Some(&check), table: None, to_check: None },
        CoreCommand::Check(CheckCommand::AddLineFromOrderItem {
            venue_id,
            check_id,
            order_item_id,
            qty: 2,
            unit_price,
            name: "Burger".into(),
        }),
    )
    .unwrap();
    for e in events {
        if let CoreEvent::Check(ce) = e {
            check.apply(&ce).unwrap();
        }
    }

    // split check
    let events = route_core_command(
        CoreContext { order: None, check: Some(&check), table: None, to_check: None },
        CoreCommand::Workflow(WorkflowCommand::SplitCheckCreate {
            venue_id,
            from_check_id: check_id,
            new_check_id: split_check_id,
        }),
    )
    .unwrap();

    let mut split_check = Check::new(venue_id, split_check_id, order_id);
    for e in events {
        if let CoreEvent::Check(ce) = e {
            split_check.apply(&ce).unwrap();
        }
    }

    let events = route_core_command(
        CoreContext { order: None, check: Some(&check), table: None, to_check: Some(&split_check) },
        CoreCommand::Workflow(WorkflowCommand::SplitCheckMoveLineQty {
            venue_id,
            from_check_id: check_id,
            to_check_id: split_check_id,
            order_item_id,
            qty: 2,
        }),
    )
    .unwrap();

    for e in events {
        if let CoreEvent::Check(ce) = e {
            match &ce {
                CheckEvent::LineQtyDecreased { check_id: from_id, .. } => {
                    if *from_id == check_id {
                        check.apply(&ce).unwrap();
                    }
                }
                CheckEvent::LineAdded { check_id: to_id, .. } => {
                    if *to_id == split_check_id {
                        split_check.apply(&ce).unwrap();
                    }
                }
                _ => {}
            }
        }
    }

    // authorise + capture payment on split check
    let payment_id = PaymentID::new();
    let amount = Money::gbp(dec(2000, 2));

    let events = route_core_command(
        CoreContext { order: None, check: Some(&split_check), table: None, to_check: None },
        CoreCommand::Check(CheckCommand::AuthorisePayment {
            venue_id,
            check_id: split_check_id,
            payment_id,
            tender: TenderType::Card,
            amount,
            tip: None,
            processor: None,
        }),
    )
    .unwrap();
    for e in events {
        if let CoreEvent::Check(ce) = e {
            split_check.apply(&ce).unwrap();
        }
    }

    let events = route_core_command(
        CoreContext { order: None, check: Some(&split_check), table: None, to_check: None },
        CoreCommand::Check(CheckCommand::CapturePayment {
            venue_id,
            check_id: split_check_id,
            payment_id,
            amount,
        }),
    )
    .unwrap();
    for e in events {
        if let CoreEvent::Check(ce) = e {
            split_check.apply(&ce).unwrap();
        }
    }

    // close table session using split check
    let events = route_core_command(
        CoreContext {
            order: Some(&order),
            check: Some(&split_check),
            table: Some(&table),
            to_check: None,
        },
        CoreCommand::Workflow(WorkflowCommand::CloseTableSession {
            venue_id,
            table_id,
            order_id,
            check_id: split_check_id,
            reason: "settled".into(),
        }),
    )
    .unwrap();

    for e in events {
        match e {
            CoreEvent::Check(ce) => split_check.apply(&ce).unwrap(),
            CoreEvent::Table(te) => table.apply(&te).unwrap(),
            CoreEvent::Order(_) => {}
        }
    }

    let t = totals(&split_check);
    assert_eq!(t.balance_due.amount, dec(0, 2));
    assert_eq!(split_check.status, CheckStatus::Closed);
    assert_eq!(table.status, TableStatus::Available);
    assert!(table.active_order_id.is_none());
}

#[test]
fn actor_id_propagates_to_event_envelopes() {
    let venue_id = VenueID::new();
    let order_id = OrderID::new();
    let actor_id = ActorID::new();

    let mut env = CommandEnvelope::new(CoreCommand::Order(OrderCommand::OpenOrder {
        venue_id,
        order_id,
    }));
    env.actor_id = Some(actor_id);

    let events = route_command_envelope_enveloped(CoreContext::empty(), env).unwrap();
    assert!(!events.is_empty());
    for ev in events {
        assert_eq!(ev.actor_id, Some(actor_id));
    }
}

/// The reason given to a sensitive action travels in its event.
fn assert_event_reason(event: CoreEvent, expected: &str) {
    match event {
        CoreEvent::Order(OrderEvent::ItemRemoved { reason, .. }) => {
            assert_eq!(reason.as_deref(), Some(expected));
        }
        CoreEvent::Check(CheckEvent::LineRemoved { reason, .. }) => {
            assert_eq!(reason, expected);
        }
        CoreEvent::Check(CheckEvent::DiscountPercentApplied { reason, .. }) => {
            assert_eq!(reason, expected);
        }
        CoreEvent::Check(CheckEvent::ServiceChargeApplied { reason, .. }) => {
            assert_eq!(reason, expected);
        }
        CoreEvent::Check(CheckEvent::PaymentVoided { reason, .. }) => {
            assert_eq!(reason, expected);
        }
        CoreEvent::Check(CheckEvent::RefundRecorded { reason, .. }) => {
            assert_eq!(reason, expected);
        }
        CoreEvent::Table(TableEvent::OrderUnassingedFromTable { reason, .. }) => {
            assert_eq!(reason, expected);
        }
        other => panic!("unexpected event for reason roundtrip: {:?}", other),
    }
}

#[test]
fn reason_fields_roundtrip_for_sensitive_actions() {
    let venue_id = VenueID::new();
    let order_id = OrderID::new();
    let check_id = CheckID::new();
    let table_id = TableID::new();

    let mut check = Check::new(venue_id, check_id, order_id);
    let mut order = Order::new(venue_id, order_id);
    let mut table = Table::new(venue_id, table_id, "T1", None);

    // Order item removal
    let order_item_id = OrderItemID::new();
    let order_remove_reason = "voided".to_string();
    let order_events = handle_order_command(
        Some(&order),
        OrderCommand::RemoveItem {
            venue_id,
            order_id,
            order_item_id,
            reason: order_remove_reason.clone(),
        },
    )
    .unwrap();
    for event in &order_events {
        order.apply(event).unwrap();
    }
    assert_event_reason(CoreEvent::Order(order_events[0].clone()), &order_remove_reason);

    // Check line removal
    let check_remove_reason = "mistake".to_string();
    let check_events = handle_check_command(
        Some(&check),
        CheckCommand::RemoveLine {
            venue_id,
            check_id,
            order_item_id: OrderItemID::new(),
            reason: check_remove_reason.clone(),
        },
    )
    .unwrap();
    for event in &check_events {
        check.apply(event).unwrap();
    }
    assert_event_reason(CoreEvent::Check(check_events[0].clone()), &check_remove_reason);

    // Discount reason
    let discount_reason = "manager override".to_string();
    let discount_events = handle_check_command(
        Some(&check),
        CheckCommand::ApplyDiscountPercent {
            venue_id,
            check_id,
            label: "Comp".into(),
            percent: 10,
            reason: discount_reason.clone(),
        },
    )
    .unwrap();
    for event in &discount_events {
        check.apply(event).unwrap();
    }
    assert_event_reason(CoreEvent::Check(discount_events[0].clone()), &discount_reason);

    // Service charge reason
    let service_reason = "service policy".to_string();
    let service_events = handle_check_command(
        Some(&check),
        CheckCommand::ApplyServiceChargePercent {
            venue_id,
            check_id,
            label: "Service".into(),
            percent: 12,
            reason: service_reason.clone(),
        },
    )
    .unwrap();
    for event in &service_events {
        check.apply(event).unwrap();
    }
    assert_event_reason(CoreEvent::Check(service_events[0].clone()), &service_reason);

    // Authorise payment then void
    let payment_id = PaymentID::new();
    let auth_events = handle_check_command(
        Some(&check),
        CheckCommand::AuthorisePayment {
            venue_id,
            check_id,
            payment_id,
            tender: TenderType::Card,
            amount: Money::gbp(dec(1000, 2)),
            tip: None,
            processor: None,
        },
    )
    .unwrap();
    for event in &auth_events {
        check.apply(event).unwrap();
    }

    let void_reason = "duplicate".to_string();
    let void_events = handle_check_command(
        Some(&check),
        CheckCommand::VoidPayment { venue_id, check_id, payment_id, reason: void_reason.clone() },
    )
    .unwrap();
    for event in &void_events {
        check.apply(event).unwrap();
    }
    assert_event_reason(CoreEvent::Check(void_events[0].clone()), &void_reason);

    // Record payment then refund
    let payment_id = PaymentID::new();
    let record_events = handle_check_command(
        Some(&check),
        CheckCommand::RecordPayment {
            venue_id,
            check_id,
            payment_id,
            tender: TenderType::Card,
            amount: Money::gbp(dec(1500, 2)),
            tip: None,
            processor: None,
        },
    )
    .unwrap();
    for event in &record_events {
        check.apply(event).unwrap();
    }

    let refund_reason = "guest request".to_string();
    let refund_events = handle_check_command(
        Some(&check),
        CheckCommand::RecordRefund {
            venue_id,
            check_id,
            payment_id,
            amount: Money::gbp(dec(500, 2)),
            reason: refund_reason.clone(),
        },
    )
    .unwrap();
    for event in &refund_events {
        check.apply(event).unwrap();
    }
    assert_event_reason(CoreEvent::Check(refund_events[0].clone()), &refund_reason);

    // Table unassign reason
    let assign_events = handle_table_command(
        Some(&table),
        TableCommand::AssignOrder { venue_id, table_id, order_id },
    )
    .unwrap();
    for event in &assign_events {
        table.apply(event).unwrap();
    }

    let unassign_reason = "closed".to_string();
    let unassign_events = handle_table_command(
        Some(&table),
        TableCommand::UnassignOrder { venue_id, table_id, reason: unassign_reason.clone() },
    )
    .unwrap();
    for event in &unassign_events {
        table.apply(event).unwrap();
    }
    assert_event_reason(CoreEvent::Table(unassign_events[0].clone()), &unassign_reason);
}
