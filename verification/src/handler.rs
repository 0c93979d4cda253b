//! Command handlers: each decides, from the current aggregate (if any) and a
//! command, either the events to record or why the command is refused.

use vstd::prelude::*;

use crate::amount::dec_gt;
use crate::checks::{
    ensure_check_open, ensure_currency_matches, ensure_payment_can_capture,
    ensure_payment_can_refund, ensure_payment_can_void, ensure_payment_exists,
    ensure_percent_valid, ensure_qty_positive as ensure_line_qty, find_payment, first_payment,
    has_payment, held_payment, capture_fits, refund_fits, is_void_or_refunded, Check, CheckCommand, CheckEvent, CheckStatus, CheckView,
};
use crate::ids::{Money, PosError, PosErrorView};
use crate::orders::{
    ensure_order_open, ensure_qty_positive, Order, OrderCommand, OrderEvent, OrderStatus,
    OrderView,
};
use crate::tables::{
    ensure_table_has_active_order, ensure_table_has_no_active_order, ensure_table_not_closed,
    Table, TableCommand, TableEvent, TableStatus,
};
use crate::totals::{balance_due_value, totals, totals_fit};

verus! {

/// A handler's outcome with the error read as a view.
pub open spec fn outcome<E>(r: Result<Vec<E>, PosError>) -> Result<Seq<E>, PosErrorView> {
    match r {
        Ok(v) => Ok(v@),
        Err(e) => Err(e@),
    }
}

pub open spec fn order_opt_view(o: Option<&Order>) -> Option<OrderView> {
    match o {
        Some(v) => Some(v@),
        None => None,
    }
}

/// A vector holding one event.
pub fn one<E>(e: E) -> (r: Vec<E>)
    ensures
        r@ == seq![e],
{
    let mut v = Vec::new();
    v.push(e);
    assert(v@ =~= seq![e]);
    v
}

/// A vector holding two events, in order.
pub fn two<E>(a: E, b: E) -> (r: Vec<E>)
    ensures
        r@ == seq![a, b],
{
    let mut v = Vec::new();
    v.push(a);
    v.push(b);
    assert(v@ =~= seq![a, b]);
    v
}

// ---------------------------------------------------------------------------
// Orders
// ---------------------------------------------------------------------------

/// What the order handler decides.
pub open spec fn order_decision(current: Option<OrderView>, cmd: OrderCommand) -> Result<
    Seq<OrderEvent>,
    PosErrorView,
> {
    match cmd {
        OrderCommand::OpenOrder { venue_id, order_id } => {
            if current is Some && current->0.status != OrderStatus::Cancelled {
                Err(PosErrorView::Conflict("order already exists"@))
            } else {
                Ok(seq![OrderEvent::OrderOpened { venue_id, order_id }])
            }
        },
        OrderCommand::AddItem {
            venue_id,
            order_id,
            order_item_id,
            menu_item_id,
            name,
            unit_price,
            qty,
            notes,
        } => {
            if current is None {
                Err(PosErrorView::NotFound("order not found"@))
            } else if current->0.status != OrderStatus::Open {
                Err(PosErrorView::Validation("order is not open"@))
            } else if qty == 0 {
                Err(PosErrorView::Validation("qty must be >= 1"@))
            } else {
                Ok(
                    seq![
                        OrderEvent::ItemAdded {
                            venue_id,
                            order_id,
                            order_item_id,
                            menu_item_id,
                            name,
                            unit_price,
                            qty,
                            notes,
                        },
                    ],
                )
            }
        },
        OrderCommand::RemoveItem { venue_id, order_id, order_item_id, reason } => {
            if current is None {
                Err(PosErrorView::NotFound("order not found"@))
            } else if current->0.status != OrderStatus::Open {
                Err(PosErrorView::Validation("order is not open"@))
            } else {
                Ok(
                    seq![
                        OrderEvent::ItemRemoved {
                            venue_id,
                            order_id,
                            order_item_id,
                            reason: Some(reason),
                        },
                    ],
                )
            }
        },
        OrderCommand::CloseOrder { venue_id, order_id } => {
            if current is None {
                Err(PosErrorView::NotFound("order not found"@))
            } else if current->0.status != OrderStatus::Open {
                Err(PosErrorView::Validation("order is not open"@))
            } else if current->0.items.len() == 0 {
                Err(PosErrorView::Validation("cannot close an empty order"@))
            } else {
                Ok(seq![OrderEvent::OrderClosed { venue_id, order_id }])
            }
        },
    }
}

pub fn handle_order_command(current: Option<&Order>, cmd: OrderCommand) -> (r: Result<
    Vec<OrderEvent>,
    PosError,
>)
    ensures
        outcome(r) == order_decision(order_opt_view(current), cmd),
{
    match cmd {
        OrderCommand::OpenOrder { venue_id, order_id } => {
            if let Some(o) = current {
                if o.status != OrderStatus::Cancelled {
                    return Err(PosError::conflict("order already exists"));
                }
            }
            Ok(one(OrderEvent::OrderOpened { venue_id, order_id }))
        },
        OrderCommand::AddItem {
            venue_id,
            order_id,
            order_item_id,
            menu_item_id,
            name,
            unit_price,
            qty,
            notes,
        } => {
            let o = match current {
                Some(o) => o,
                None => return Err(PosError::not_found("order not found")),
            };
            if let Err(e) = ensure_order_open(o) {
                return Err(e);
            }
            if let Err(e) = ensure_qty_positive(qty) {
                return Err(e);
            }
            Ok(
                one(OrderEvent::ItemAdded {
                        venue_id,
                        order_id,
                        order_item_id,
                        menu_item_id,
                        name,
                        unit_price,
                        qty,
                        notes,
                    }),
            )
        },
        OrderCommand::RemoveItem { venue_id, order_id, order_item_id, reason } => {
            let o = match current {
                Some(o) => o,
                None => return Err(PosError::not_found("order not found")),
            };
            if let Err(e) = ensure_order_open(o) {
                return Err(e);
            }
            Ok(
                one(OrderEvent::ItemRemoved {
                        venue_id,
                        order_id,
                        order_item_id,
                        reason: Some(reason),
                    }),
            )
        },
        OrderCommand::CloseOrder { venue_id, order_id } => {
            let o = match current {
                Some(o) => o,
                None => return Err(PosError::not_found("order not found")),
            };
            if let Err(e) = ensure_order_open(o) {
                return Err(e);
            }
            if o.items.len() == 0 {
                return Err(PosError::validation("cannot close an empty order"));
            }
            Ok(one(OrderEvent::OrderClosed { venue_id, order_id }))
        },
    }
}

// ---------------------------------------------------------------------------
// Tables
// ---------------------------------------------------------------------------

/// What the table handler decides.
pub open spec fn table_decision(current: Option<Table>, cmd: TableCommand) -> Result<
    Seq<TableEvent>,
    PosErrorView,
> {
    match cmd {
        TableCommand::CreateTable { venue_id, table_id, label, area_id } => {
            if current is Some {
                Err(PosErrorView::Conflict("table already exists"@))
            } else {
                Ok(seq![TableEvent::TableCreated { venue_id, table_id, label, area_id }])
            }
        },
        TableCommand::AssignOrder { venue_id, table_id, order_id } => {
            if current is None {
                Err(PosErrorView::NotFound("table not found"@))
            } else if current->0.status == TableStatus::Closed {
                Err(PosErrorView::Validation("table is closed"@))
            } else if current->0.active_order_id is Some {
                Err(PosErrorView::Validation("table already has an active order"@))
            } else {
                Ok(seq![TableEvent::OrderAssignedToTable { venue_id, table_id, order_id }])
            }
        },
        TableCommand::UnassignOrder { venue_id, table_id, reason } => {
            if current is None {
                Err(PosErrorView::NotFound("table not found"@))
            } else if current->0.status == TableStatus::Closed {
                Err(PosErrorView::Validation("table is closed"@))
            } else if current->0.active_order_id is None {
                Err(PosErrorView::Validation("table has no active order"@))
            } else {
                Ok(seq![TableEvent::OrderUnassingedFromTable { venue_id, table_id, reason }])
            }
        },
        TableCommand::CloseTable { venue_id, table_id } => {
            if current is None {
                Err(PosErrorView::NotFound("table not found"@))
            } else if current->0.status == TableStatus::Closed {
                Err(PosErrorView::Conflict("table already closed"@))
            } else if current->0.active_order_id is Some {
                Err(PosErrorView::Validation("cannot close table with active order"@))
            } else {
                Ok(seq![TableEvent::TableClosed { venue_id, table_id }])
            }
        },
        TableCommand::ReopenTable { venue_id, table_id } => {
            if current is None {
                Err(PosErrorView::NotFound("table not found"@))
            } else if current->0.status != TableStatus::Closed {
                Err(PosErrorView::Conflict("table is not closed"@))
            } else {
                Ok(seq![TableEvent::TableReopened { venue_id, table_id }])
            }
        },
    }
}

pub open spec fn table_opt(t: Option<&Table>) -> Option<Table> {
    match t {
        Some(v) => Some(*v),
        None => None,
    }
}

pub fn handle_table_command(current: Option<&Table>, cmd: TableCommand) -> (r: Result<
    Vec<TableEvent>,
    PosError,
>)
    ensures
        outcome(r) == table_decision(table_opt(current), cmd),
{
    match cmd {
        TableCommand::CreateTable { venue_id, table_id, label, area_id } => {
            if current.is_some() {
                return Err(PosError::conflict("table already exists"));
            }
            Ok(one(TableEvent::TableCreated { venue_id, table_id, label, area_id }))
        },
        TableCommand::AssignOrder { venue_id, table_id, order_id } => {
            let t = match current {
                Some(t) => t,
                None => return Err(PosError::not_found("table not found")),
            };
            if let Err(e) = ensure_table_not_closed(t) {
                return Err(e);
            }
            if let Err(e) = ensure_table_has_no_active_order(t) {
                return Err(e);
            }
            Ok(one(TableEvent::OrderAssignedToTable { venue_id, table_id, order_id }))
        },
        TableCommand::UnassignOrder { venue_id, table_id, reason } => {
            let t = match current {
                Some(t) => t,
                None => return Err(PosError::not_found("table not found")),
            };
            if let Err(e) = ensure_table_not_closed(t) {
                return Err(e);
            }
            if let Err(e) = ensure_table_has_active_order(t) {
                return Err(e);
            }
            Ok(one(TableEvent::OrderUnassingedFromTable { venue_id, table_id, reason }))
        },
        TableCommand::CloseTable { venue_id, table_id } => {
            let t = match current {
                Some(t) => t,
                None => return Err(PosError::not_found("table not found")),
            };
            if t.status == TableStatus::Closed {
                return Err(PosError::conflict("table already closed"));
            }
            if t.active_order_id.is_some() {
                return Err(PosError::validation("cannot close table with active order"));
            }
            Ok(one(TableEvent::TableClosed { venue_id, table_id }))
        },
        TableCommand::ReopenTable { venue_id, table_id } => {
            let t = match current {
                Some(t) => t,
                None => return Err(PosError::not_found("table not found")),
            };
            if t.status != TableStatus::Closed {
                return Err(PosError::conflict("table is not closed"));
            }
            Ok(one(TableEvent::TableReopened { venue_id, table_id }))
        },
    }
}

// ---------------------------------------------------------------------------
// Checks
// ---------------------------------------------------------------------------

pub open spec fn currency_ok(c: CheckView, m: Money) -> bool {
    c.lines.len() == 0 || c.lines[0].unit_price.currency == m.currency
}

pub open spec fn tip_currency_ok(c: CheckView, tip: Option<Money>) -> bool {
    match tip {
        Some(t) => currency_ok(c, t),
        None => true,
    }
}

pub open spec fn check_opt(c: Option<&Check>) -> Option<Check> {
    match c {
        Some(v) => Some(*v),
        None => None,
    }
}

/// The decimal work that handling `cmd` does on `current` is exact: the
/// totals of a check being closed, and the remaining amount of a payment
/// being captured or refunded.
pub open spec fn check_command_fits(current: Option<Check>, cmd: CheckCommand) -> bool {
    match current {
        None => true,
        Some(c) => {
            c.status == CheckStatus::Open ==> match cmd {
                CheckCommand::CloseCheck { .. } => c.lines@.len() > 0 ==> totals_fit(c),
                CheckCommand::CapturePayment { payment_id, amount, .. } => {
                    (currency_ok(c@, amount) && has_payment(c@.payments, payment_id)
                        && !is_void_or_refunded(first_payment(c@.payments, payment_id).status))
                        ==> capture_fits(held_payment(c, payment_id))
                },
                CheckCommand::RecordRefund { payment_id, amount, .. } => {
                    (currency_ok(c@, amount) && has_payment(c@.payments, payment_id)
                        && first_payment(c@.payments, payment_id).status
                        != crate::checks::PaymentStatus::Voided) ==> refund_fits(
                        held_payment(c, payment_id),
                    )
                },
                _ => true,
            }
        },
    }
}

/// What the check handler decides.
pub open spec fn check_decision(current: Option<Check>, cmd: CheckCommand) -> Result<
    Seq<CheckEvent>,
    PosErrorView,
> {
    let missing = Err(PosErrorView::NotFound("check not found"@));
    let not_open = Err(PosErrorView::Validation("check is not open"@));
    let mismatch = Err(PosErrorView::Validation("currency mismatch"@));
    match cmd {
        CheckCommand::OpenCheck { venue_id, check_id, order_id } => {
            if current is Some && current->0.status != CheckStatus::Voided {
                Err(PosErrorView::Conflict("check already exists"@))
            } else {
                Ok(seq![CheckEvent::CheckOpened { venue_id, check_id, order_id }])
            }
        },
        CheckCommand::AddLineFromOrderItem {
            venue_id,
            check_id,
            order_item_id,
            qty,
            unit_price,
            name,
        } => {
            if current is None {
                missing
            } else if current->0.status != CheckStatus::Open {
                not_open
            } else if qty == 0 {
                Err(PosErrorView::Validation("qty must be >= 1"@))
            } else {
                Ok(
                    seq![
                        CheckEvent::LineAdded {
                            venue_id,
                            check_id,
                            order_item_id,
                            qty,
                            unit_price,
                            name,
                        },
                    ],
                )
            }
        },
        CheckCommand::RemoveLine { venue_id, check_id, order_item_id, reason } => {
            if current is None {
                missing
            } else if current->0.status != CheckStatus::Open {
                not_open
            } else {
                Ok(seq![CheckEvent::LineRemoved { venue_id, check_id, order_item_id, reason }])
            }
        },
        CheckCommand::ApplyDiscountPercent { venue_id, check_id, label, percent, reason } => {
            if current is None {
                missing
            } else if current->0.status != CheckStatus::Open {
                not_open
            } else if percent > 100 {
                Err(PosErrorView::Validation("percent must be between 0 and 100"@))
            } else {
                Ok(
                    seq![
                        CheckEvent::DiscountPercentApplied {
                            venue_id,
                            check_id,
                            label,
                            percent,
                            reason,
                        },
                    ],
                )
            }
        },
        CheckCommand::ApplyServiceChargePercent { venue_id, check_id, label, percent, reason } => {
            if current is None {
                missing
            } else if current->0.status != CheckStatus::Open {
                not_open
            } else if percent > 100 {
                Err(PosErrorView::Validation("percent must be between 0 and 100"@))
            } else {
                Ok(
                    seq![
                        CheckEvent::ServiceChargeApplied {
                            venue_id,
                            check_id,
                            label,
                            percent,
                            reason,
                        },
                    ],
                )
            }
        },
        CheckCommand::CloseCheck { venue_id, check_id } => {
            if current is None {
                missing
            } else if current->0.status != CheckStatus::Open {
                not_open
            } else if current->0.lines@.len() == 0 {
                Err(PosErrorView::Validation("cannot close an empty check"@))
            } else if balance_due_value(current->0@) > 0 {
                Err(PosErrorView::Validation("cannot close unpaid check"@))
            } else {
                Ok(seq![CheckEvent::CheckClosed { venue_id, check_id }])
            }
        },
        CheckCommand::RecordPayment {
            venue_id,
            check_id,
            payment_id,
            tender,
            amount,
            tip,
            processor,
        } => {
            if current is None {
                missing
            } else if current->0.status != CheckStatus::Open {
                not_open
            } else if !currency_ok(current->0@, amount) || !tip_currency_ok(current->0@, tip) {
                mismatch
            } else if has_payment(current->0@.payments, payment_id) {
                Err(PosErrorView::Conflict("payment_id already exists"@))
            } else {
                Ok(
                    seq![
                        CheckEvent::PaymentAuthorised {
                            venue_id,
                            check_id,
                            payment_id,
                            tender,
                            amount,
                            tip,
                            processor,
                        },
                        CheckEvent::PaymentCaptured { venue_id, check_id, payment_id, amount },
                    ],
                )
            }
        },
        CheckCommand::VoidPayment { venue_id, check_id, payment_id, reason } => {
            if current is None {
                missing
            } else if current->0.status != CheckStatus::Open {
                not_open
            } else if !has_payment(current->0@.payments, payment_id) {
                Err(PosErrorView::NotFound("payment not found"@))
            } else if first_payment(current->0@.payments, payment_id).captured.amount > 0 {
                Err(PosErrorView::Validation("cannot void a captured payment; refund it instead"@))
            } else {
                Ok(seq![CheckEvent::PaymentVoided { venue_id, check_id, payment_id, reason }])
            }
        },
        CheckCommand::RecordRefund { venue_id, check_id, payment_id, amount, reason } => {
            if current is None {
                missing
            } else if current->0.status != CheckStatus::Open {
                not_open
            } else if !currency_ok(current->0@, amount) {
                mismatch
            } else if !has_payment(current->0@.payments, payment_id) {
                Err(PosErrorView::NotFound("payment not found"@))
            } else if first_payment(current->0@.payments, payment_id).status
                == crate::checks::PaymentStatus::Voided {
                Err(PosErrorView::Validation("cannot refund a voided payment"@))
            } else if amount.amount@ > first_payment(current->0@.payments, payment_id).captured.amount
                - first_payment(current->0@.payments, payment_id).refunded.amount {
                Err(PosErrorView::Validation("refund amount exceeds refundable amount"@))
            } else {
                Ok(
                    seq![
                        CheckEvent::RefundRecorded {
                            venue_id,
                            check_id,
                            payment_id,
                            amount,
                            reason,
                        },
                    ],
                )
            }
        },
        CheckCommand::SplitChecksCreate { .. } => Err(
            PosErrorView::Validation(
                "SplitChecksCreate must be handled by workflow (requires both checks)"@,
            ),
        ),
        CheckCommand::SplitCheckMoveLineQty { .. } => Err(
            PosErrorView::Validation(
                "SplitCheckMoveLineQty must be handled by workflow (requires both checks)"@,
            ),
        ),
        CheckCommand::AuthorisePayment {
            venue_id,
            check_id,
            payment_id,
            tender,
            amount,
            tip,
            processor,
        } => {
            if current is None {
                missing
            } else if current->0.status != CheckStatus::Open {
                not_open
            } else if !currency_ok(current->0@, amount) || !tip_currency_ok(current->0@, tip) {
                mismatch
            } else if has_payment(current->0@.payments, payment_id) {
                Err(PosErrorView::Conflict("payment_id already exists"@))
            } else {
                Ok(
                    seq![
                        CheckEvent::PaymentAuthorised {
                            venue_id,
                            check_id,
                            payment_id,
                            tender,
                            amount,
                            tip,
                            processor,
                        },
                    ],
                )
            }
        },
        CheckCommand::CapturePayment { venue_id, check_id, payment_id, amount } => {
            if current is None {
                missing
            } else if current->0.status != CheckStatus::Open {
                not_open
            } else if !currency_ok(current->0@, amount) {
                mismatch
            } else if !has_payment(current->0@.payments, payment_id) {
                Err(PosErrorView::NotFound("payment not found"@))
            } else if is_void_or_refunded(first_payment(current->0@.payments, payment_id).status) {
                Err(PosErrorView::Validation("payment is not capturable"@))
            } else if amount.amount@ > first_payment(current->0@.payments, payment_id).authorised.amount
                - first_payment(current->0@.payments, payment_id).captured.amount {
                Err(PosErrorView::Validation("capture amount exceeds authorised remaining"@))
            } else {
                Ok(seq![CheckEvent::PaymentCaptured { venue_id, check_id, payment_id, amount }])
            }
        },
    }
}

pub fn handle_check_command(current: Option<&Check>, cmd: CheckCommand) -> (r: Result<
    Vec<CheckEvent>,
    PosError,
>)
    requires
        check_command_fits(check_opt(current), cmd),
    ensures
        outcome(r) == check_decision(check_opt(current), cmd),
{
    match cmd {
        CheckCommand::OpenCheck { venue_id, check_id, order_id } => {
            if let Some(c) = current {
                if c.status != CheckStatus::Voided {
                    return Err(PosError::conflict("check already exists"));
                }
            }
            Ok(one(CheckEvent::CheckOpened { venue_id, check_id, order_id }))
        },
        CheckCommand::AddLineFromOrderItem {
            venue_id,
            check_id,
            order_item_id,
            qty,
            unit_price,
            name,
        } => {
            let c = match current {
                Some(c) => c,
                None => return Err(PosError::not_found("check not found")),
            };
            if let Err(e) = ensure_check_open(c) {
                return Err(e);
            }
            if let Err(e) = ensure_line_qty(qty) {
                return Err(e);
            }
            Ok(
                one(
                    CheckEvent::LineAdded {
                        venue_id,
                        check_id,
                        order_item_id,
                        qty,
                        unit_price,
                        name,
                    },
                ),
            )
        },
        CheckCommand::RemoveLine { venue_id, check_id, order_item_id, reason } => {
            let c = match current {
                Some(c) => c,
                None => return Err(PosError::not_found("check not found")),
            };
            if let Err(e) = ensure_check_open(c) {
                return Err(e);
            }
            Ok(one(CheckEvent::LineRemoved { venue_id, check_id, order_item_id, reason }))
        },
        CheckCommand::ApplyDiscountPercent { venue_id, check_id, label, percent, reason } => {
            let c = match current {
                Some(c) => c,
                None => return Err(PosError::not_found("check not found")),
            };
            if let Err(e) = ensure_check_open(c) {
                return Err(e);
            }
            if let Err(e) = ensure_percent_valid(percent) {
                return Err(e);
            }
            Ok(
                one(
                    CheckEvent::DiscountPercentApplied { venue_id, check_id, label, percent, reason },
                ),
            )
        },
        CheckCommand::ApplyServiceChargePercent { venue_id, check_id, label, percent, reason } => {
            let c = match current {
                Some(c) => c,
                None => return Err(PosError::not_found("check not found")),
            };
            if let Err(e) = ensure_check_open(c) {
                return Err(e);
            }
            if let Err(e) = ensure_percent_valid(percent) {
                return Err(e);
            }
            Ok(
                one(
                    CheckEvent::ServiceChargeApplied { venue_id, check_id, label, percent, reason },
                ),
            )
        },
        CheckCommand::CloseCheck { venue_id, check_id } => {
            let c = match current {
                Some(c) => c,
                None => return Err(PosError::not_found("check not found")),
            };
            if let Err(e) = ensure_check_open(c) {
                return Err(e);
            }
            if c.lines.len() == 0 {
                return Err(PosError::validation("cannot close an empty check"));
            }
            let t = totals(c);
            if dec_gt(t.balance_due.amount, crate::amount::Amount::zero()) {
                return Err(PosError::validation("cannot close unpaid check"));
            }
            Ok(one(CheckEvent::CheckClosed { venue_id, check_id }))
        },
        CheckCommand::RecordPayment {
            venue_id,
            check_id,
            payment_id,
            tender,
            amount,
            tip,
            processor,
        } => {
            let c = match current {
                Some(c) => c,
                None => return Err(PosError::not_found("check not found")),
            };
            if let Err(e) = ensure_check_open(c) {
                return Err(e);
            }
            if let Err(e) = ensure_currency_matches(c, &amount) {
                return Err(e);
            }
            if let Some(t) = &tip {
                if let Err(e) = ensure_currency_matches(c, t) {
                    return Err(e);
                }
            }
            if find_payment(&c.payments, payment_id).is_some() {
                return Err(PosError::conflict("payment_id already exists"));
            }
            // Recording a payment authorises and captures it at once.
            Ok(
                two(
                    CheckEvent::PaymentAuthorised {
                        venue_id,
                        check_id,
                        payment_id,
                        tender,
                        amount,
                        tip,
                        processor,
                    },
                    CheckEvent::PaymentCaptured { venue_id, check_id, payment_id, amount },
                ),
            )
        },
        CheckCommand::VoidPayment { venue_id, check_id, payment_id, reason } => {
            let c = match current {
                Some(c) => c,
                None => return Err(PosError::not_found("check not found")),
            };
            if let Err(e) = ensure_check_open(c) {
                return Err(e);
            }
            if let Err(e) = ensure_payment_exists(c, payment_id) {
                return Err(e);
            }
            if let Err(e) = ensure_payment_can_void(c, payment_id) {
                return Err(e);
            }
            Ok(one(CheckEvent::PaymentVoided { venue_id, check_id, payment_id, reason }))
        },
        CheckCommand::RecordRefund { venue_id, check_id, payment_id, amount, reason } => {
            let c = match current {
                Some(c) => c,
                None => return Err(PosError::not_found("check not found")),
            };
            if let Err(e) = ensure_check_open(c) {
                return Err(e);
            }
            if let Err(e) = ensure_currency_matches(c, &amount) {
                return Err(e);
            }
            if let Err(e) = ensure_payment_exists(c, payment_id) {
                return Err(e);
            }
            if let Err(e) = ensure_payment_can_refund(c, payment_id, &amount) {
                return Err(e);
            }
            Ok(one(CheckEvent::RefundRecorded { venue_id, check_id, payment_id, amount, reason }))
        },
        CheckCommand::SplitChecksCreate { .. } => Err(
            PosError::validation(
                "SplitChecksCreate must be handled by workflow (requires both checks)",
            ),
        ),
        CheckCommand::SplitCheckMoveLineQty { .. } => Err(
            PosError::validation(
                "SplitCheckMoveLineQty must be handled by workflow (requires both checks)",
            ),
        ),
        CheckCommand::AuthorisePayment {
            venue_id,
            check_id,
            payment_id,
            tender,
            amount,
            tip,
            processor,
        } => {
            let c = match current {
                Some(c) => c,
                None => return Err(PosError::not_found("check not found")),
            };
            if let Err(e) = ensure_check_open(c) {
                return Err(e);
            }
            if let Err(e) = ensure_currency_matches(c, &amount) {
                return Err(e);
            }
            if let Some(t) = &tip {
                if let Err(e) = ensure_currency_matches(c, t) {
                    return Err(e);
                }
            }
            if find_payment(&c.payments, payment_id).is_some() {
                return Err(PosError::conflict("payment_id already exists"));
            }
            Ok(
                one(
                    CheckEvent::PaymentAuthorised {
                        venue_id,
                        check_id,
                        payment_id,
                        tender,
                        amount,
                        tip,
                        processor,
                    },
                ),
            )
        },
        CheckCommand::CapturePayment { venue_id, check_id, payment_id, amount } => {
            let c = match current {
                Some(c) => c,
                None => return Err(PosError::not_found("check not found")),
            };
            if let Err(e) = ensure_check_open(c) {
                return Err(e);
            }
            if let Err(e) = ensure_currency_matches(c, &amount) {
                return Err(e);
            }
            if let Err(e) = ensure_payment_exists(c, payment_id) {
                return Err(e);
            }
            if let Err(e) = ensure_payment_can_capture(c, payment_id, &amount) {
                return Err(e);
            }
            Ok(one(CheckEvent::PaymentCaptured { venue_id, check_id, payment_id, amount }))
        },
    }
}

} // verus!
