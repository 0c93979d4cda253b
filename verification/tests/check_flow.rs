use pos_core::aggregate::Apply;
use pos_core::amount::Amount;
use pos_core::handler::handle_check_command;
use pos_core::ids::{CheckID, Money, OrderID, OrderItemID, PaymentID, VenueID};
use pos_core::{totals, Check, CheckCommand, TenderType};

fn dec(num: i64, scale: u32) -> Amount {
    Amount::new(num, scale)
}

fn open_check(venue_id: VenueID, check_id: CheckID, order_id: OrderID) -> Check {
    let ev = handle_check_command(None, CheckCommand::OpenCheck { venue_id, check_id, order_id })
        .unwrap();
    let mut check = Check::new(venue_id, check_id, order_id);
    for e in &ev {
        check.apply(e).unwrap();
    }
    check
}

#[test]
fn can_open_add_discount_service_and_total() {
    let venue_id = VenueID::new();
    let order_id = OrderID::new();
    let check_id = CheckID::new();

    let mut check = open_check(venue_id, check_id, order_id);

    // add line 2x 10.00
    let ev = handle_check_command(
        Some(&check),
        CheckCommand::AddLineFromOrderItem {
            venue_id,
            check_id,
            order_item_id: OrderItemID::new(),
            qty: 2,
            unit_price: Money::gbp(dec(1000, 2)),
            name: "Pasta".into(),
        },
    )
    .unwrap();
    for e in &ev {
        check.apply(e).unwrap();
    }

    // 10% discount
    let ev = handle_check_command(
        Some(&check),
        CheckCommand::ApplyDiscountPercent {
            venue_id,
            check_id,
            label: "Staff".into(),
            percent: 10,
            reason: "staff discount".into(),
        },
    )
    .unwrap();
    for e in &ev {
        check.apply(e).unwrap();
    }

    // 12% service
    let ev = handle_check_command(
        Some(&check),
        CheckCommand::ApplyServiceChargePercent {
            venue_id,
            check_id,
            label: "Service".into(),
            percent: 12,
            reason: "service charge".into(),
        },
    )
    .unwrap();
    for e in &ev {
        check.apply(e).unwrap();
    }

    let t = totals(&check);
    // subtotal = 20.00, discount = 2.00, after = 18.00, service = 2.16, total = 20.16
    assert_eq!(t.subtotal.amount, dec(2000, 2));
    assert_eq!(t.discount.amount, dec(200, 2));
    assert_eq!(t.service_charge.amount, dec(216, 2));
    assert_eq!(t.total.amount, dec(2016, 2));
}

#[test]
fn can_record_payment_and_close_check() {
    let venue_id = VenueID::new();
    let order_id = OrderID::new();
    let check_id = CheckID::new();

    let mut check = open_check(venue_id, check_id, order_id);

    // add line 1x 10.00
    let ev = handle_check_command(
        Some(&check),
        CheckCommand::AddLineFromOrderItem {
            venue_id,
            check_id,
            order_item_id: OrderItemID::new(),
            qty: 1,
            unit_price: Money::gbp(dec(1000, 2)),
            name: "Coffee".into(),
        },
    )
    .unwrap();
    for e in &ev {
        check.apply(e).unwrap();
    }

    let t = totals(&check);
    assert_eq!(t.total.amount, dec(1000, 2));
    assert_eq!(t.balance_due.amount, dec(1000, 2));

    // pay 10.00
    let ev = handle_check_command(
        Some(&check),
        CheckCommand::RecordPayment {
            venue_id,
            check_id,
            payment_id: PaymentID::new(),
            tender: TenderType::Card,
            amount: Money::gbp(dec(1000, 2)),
            tip: None,
            processor: None,
        },
    )
    .unwrap();
    for e in &ev {
        check.apply(e).unwrap();
    }

    let t = totals(&check);
    assert_eq!(t.paid.amount, dec(1000, 2));
    assert_eq!(t.balance_due.amount, dec(0, 2));

    // close
    let ev = handle_check_command(Some(&check), CheckCommand::CloseCheck { venue_id, check_id })
        .unwrap();
    for e in &ev {
        check.apply(e).unwrap();
    }
}

#[test]
fn payment_authorise_capture_refund_and_limits() {
    let venue_id = VenueID::new();
    let order_id = OrderID::new();
    let check_id = CheckID::new();

    let mut check = open_check(venue_id, check_id, order_id);

    let ev = handle_check_command(
        Some(&check),
        CheckCommand::AddLineFromOrderItem {
            venue_id,
            check_id,
            order_item_id: OrderItemID::new(),
            qty: 1,
            unit_price: Money::gbp(dec(1000, 2)),
            name: "Coffee".into(),
        },
    )
    .unwrap();
    for e in &ev {
        check.apply(e).unwrap();
    }

    let payment_id = PaymentID::new();

    // authorise 10.00
    let ev = handle_check_command(
        Some(&check),
        CheckCommand::AuthorisePayment {
            venue_id,
            check_id,
            payment_id,
            tender: TenderType::Card,
            amount: Money::gbp(dec(1000, 2)),
            tip: None,
            processor: None,
        },
    )
    .unwrap();
    for e in &ev {
        check.apply(e).unwrap();
    }

    let t = totals(&check);
    assert_eq!(t.paid.amount, dec(0, 2));
    assert_eq!(t.balance_due.amount, dec(1000, 2));

    // capture beyond remaining should fail
    let err = handle_check_command(
        Some(&check),
        CheckCommand::CapturePayment {
            venue_id,
            check_id,
            payment_id,
            amount: Money::gbp(dec(1200, 2)),
        },
    )
    .unwrap_err();
    assert!(matches!(err, pos_core::PosError::Validation(_)));

    // partial capture 6.00
    let ev = handle_check_command(
        Some(&check),
        CheckCommand::CapturePayment {
            venue_id,
            check_id,
            payment_id,
            amount: Money::gbp(dec(600, 2)),
        },
    )
    .unwrap();
    for e in &ev {
        check.apply(e).unwrap();
    }

    let t = totals(&check);
    assert_eq!(t.paid.amount, dec(600, 2));
    assert_eq!(t.balance_due.amount, dec(400, 2));

    // refund 2.00
    let ev = handle_check_command(
        Some(&check),
        CheckCommand::RecordRefund {
            venue_id,
            check_id,
            payment_id,
            amount: Money::gbp(dec(200, 2)),
            reason: "guest complaint".into(),
        },
    )
    .unwrap();
    for e in &ev {
        check.apply(e).unwrap();
    }

    let t = totals(&check);
    assert_eq!(t.paid.amount, dec(400, 2));
    assert_eq!(t.balance_due.amount, dec(600, 2));

    // refund beyond captured should fail
    let err = handle_check_command(
        Some(&check),
        CheckCommand::RecordRefund {
            venue_id,
            check_id,
            payment_id,
            amount: Money::gbp(dec(500, 2)),
            reason: "too much".into(),
        },
    )
    .unwrap_err();
    assert!(matches!(err, pos_core::PosError::Validation(_)));

    // void after capture should fail
    let err = handle_check_command(
        Some(&check),
        CheckCommand::VoidPayment {
            venue_id,
            check_id,
            payment_id,
            reason: "too late".into(),
        },
    )
    .unwrap_err();
    assert!(matches!(err, pos_core::PosError::Validation(_)));
}

#[test]
fn can_void_authorised_payment_before_capture() {
    let venue_id = VenueID::new();
    let order_id = OrderID::new();
    let check_id = CheckID::new();

    let mut check = open_check(venue_id, check_id, order_id);

    let payment_id = PaymentID::new();

    let ev = handle_check_command(
        Some(&check),
        CheckCommand::AuthorisePayment {
            venue_id,
            check_id,
            payment_id,
            tender: TenderType::Card,
            amount: Money::gbp(dec(1000, 2)),
            tip: None,
            processor: None,
        },
    )
    .unwrap();
    for e in &ev {
        check.apply(e).unwrap();
    }

    let ev = handle_check_command(
        Some(&check),
        CheckCommand::VoidPayment {
            venue_id,
            check_id,
            payment_id,
            reason: "guest canceled".into(),
        },
    )
    .unwrap();
    for e in &ev {
        check.apply(e).unwrap();
    }

    let payment = check.payments.iter().find(|p| p.payment_id == payment_id).unwrap();
    assert_eq!(payment.status, pos_core::PaymentStatus::Voided);
}
