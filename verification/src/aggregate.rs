//! Applying events to the aggregates. Every event is accepted and moves the
//! aggregate's version up by one; the decisions were taken when the command
//! was handled.

use vstd::prelude::*;

use crate::amount::{dec_add, dec_ge, max_scale, sum_fits, sum_scale_of, Amount};
use crate::checks::{
    clone_opt_processor, find_line, find_payment, has_line, has_payment, held_payment,
    line_index, lines_view, opt_money_view, payment_index, payments_view, remove_lines,
    retain_lines_without, Check, CheckEvent, CheckLine, CheckLineView, CheckStatus, CheckView,
    Discount, MoneyView, Payment, PaymentStatus, PaymentView, ServiceCharge,
};
use crate::ids::{Money, PaymentID, PosError};
use crate::orders::{clone_opt_string, Order, OrderEvent, OrderItem, OrderStatus, OrderView};
use crate::tables::{Table, TableEvent, TableStatus};

verus! {

/// Folding an event into an aggregate.
pub trait Apply<E> {
    /// The event can be applied without overflowing a counter or a decimal.
    spec fn can_apply(&self, event: &E) -> bool;

    fn apply(&mut self, event: &E) -> (r: Result<(), PosError>)
        requires
            old(self).can_apply(event),
    ;
}

// ---------------------------------------------------------------------------
// Orders
// ---------------------------------------------------------------------------

/// The items that are not this order item, in their order.
pub open spec fn remove_items(items: Seq<OrderItem>, id: crate::ids::OrderItemID) -> Seq<
    OrderItem,
>
    decreases items.len(),
{
    if items.len() == 0 {
        items
    } else {
        let rest = remove_items(items.drop_last(), id);
        if items.last().item_id == id {
            rest
        } else {
            rest.push(items.last())
        }
    }
}

/// The order after one event.
pub open spec fn order_after(o: OrderView, e: OrderEvent) -> OrderView {
    let o2 = match e {
        OrderEvent::OrderOpened { venue_id, order_id } => OrderView {
            venue_id,
            order_id,
            status: OrderStatus::Open,
            ..o
        },
        OrderEvent::ItemAdded {
            order_item_id,
            menu_item_id,
            name,
            unit_price,
            qty,
            notes,
            ..
        } => OrderView {
            items: o.items.push(
                OrderItem { item_id: order_item_id, menu_item_id, name, unit_price, qty, notes },
            ),
            ..o
        },
        OrderEvent::ItemRemoved { order_item_id, .. } => OrderView {
            items: remove_items(o.items, order_item_id),
            ..o
        },
        OrderEvent::OrderClosed { .. } => OrderView { status: OrderStatus::Closed, ..o },
    };
    OrderView { version: (o.version + 1) as u64, ..o2 }
}

fn retain_items_without(items: &Vec<OrderItem>, id: crate::ids::OrderItemID) -> (r: Vec<
    OrderItem,
>)
    ensures
        r@ == remove_items(items@, id),
{
    let mut out: Vec<OrderItem> = Vec::new();
    let mut i: usize = 0;
    assert(items@.take(0) =~= Seq::<OrderItem>::empty());
    while i < items.len()
        invariant
            i <= items.len(),
            out@ == remove_items(items@.take(i as int), id),
        decreases items.len() - i,
    {
        assert(items@.take(i + 1).drop_last() =~= items@.take(i as int));
        if items[i].item_id != id {
            out.push(items[i].clone());
        }
        i += 1;
    }
    assert(items@.take(items.len() as int) =~= items@);
    out
}

impl Apply<OrderEvent> for Order {
    open spec fn can_apply(&self, event: &OrderEvent) -> bool {
        self.version < u64::MAX
    }

    fn apply(&mut self, event: &OrderEvent) -> (r: Result<(), PosError>)
        ensures
            r is Ok,
            final(self)@ == order_after(old(self)@, *event),
    {
        match event {
            OrderEvent::OrderOpened { venue_id, order_id } => {
                self.venue_id = *venue_id;
                self.order_id = *order_id;
                self.status = OrderStatus::Open;
            },
            OrderEvent::ItemAdded {
                order_item_id,
                menu_item_id,
                name,
                unit_price,
                qty,
                notes,
                ..
            } => {
                self.items.push(
                    OrderItem {
                        item_id: *order_item_id,
                        menu_item_id: *menu_item_id,
                        name: name.clone(),
                        unit_price: *unit_price,
                        qty: *qty,
                        notes: clone_opt_string(notes),
                    },
                );
            },
            OrderEvent::ItemRemoved { order_item_id, .. } => {
                self.items = retain_items_without(&self.items, *order_item_id);
            },
            OrderEvent::OrderClosed { .. } => {
                self.status = OrderStatus::Closed;
            },
        }
        self.version = self.version + 1;
        Ok(())
    }
}

// ---------------------------------------------------------------------------
// Tables
// ---------------------------------------------------------------------------

/// The table after one event.
pub open spec fn table_after(t: Table, e: TableEvent) -> Table {
    let t2 = match e {
        TableEvent::TableCreated { venue_id, table_id, label, area_id } => Table {
            venue_id,
            table_id,
            label,
            area_id,
            status: TableStatus::Available,
            active_order_id: None,
            ..t
        },
        TableEvent::OrderAssignedToTable { order_id, .. } => Table {
            active_order_id: Some(order_id),
            status: TableStatus::Occupied,
            ..t
        },
        TableEvent::OrderUnassingedFromTable { .. } => Table {
            active_order_id: None,
            status: TableStatus::Available,
            ..t
        },
        TableEvent::TableClosed { .. } => Table { status: TableStatus::Closed, ..t },
        TableEvent::TableReopened { .. } => Table { status: TableStatus::Available, ..t },
    };
    Table { version: (t.version + 1) as u64, ..t2 }
}

impl Apply<TableEvent> for Table {
    open spec fn can_apply(&self, event: &TableEvent) -> bool {
        self.version < u64::MAX
    }

    fn apply(&mut self, event: &TableEvent) -> (r: Result<(), PosError>)
        ensures
            r is Ok,
            *final(self) == table_after(*old(self), *event),
    {
        match event {
            TableEvent::TableCreated { venue_id, table_id, label, area_id } => {
                self.venue_id = *venue_id;
                self.table_id = *table_id;
                self.label = label.clone();
                self.area_id = *area_id;
                self.status = TableStatus::Available;
                self.active_order_id = None;
            },
            TableEvent::OrderAssignedToTable { order_id, .. } => {
                self.active_order_id = Some(*order_id);
                self.status = TableStatus::Occupied;
            },
            TableEvent::OrderUnassingedFromTable { .. } => {
                self.active_order_id = None;
                self.status = TableStatus::Available;
            },
            TableEvent::TableClosed { .. } => {
                self.status = TableStatus::Closed;
            },
            TableEvent::TableReopened { .. } => {
                // Reopening makes the table available; an order is assigned by command.
                self.status = TableStatus::Available;
            },
        }
        self.version = self.version + 1;
        Ok(())
    }
}

// ---------------------------------------------------------------------------
// Checks
// ---------------------------------------------------------------------------

pub open spec fn zero_money(currency: crate::ids::Currency) -> MoneyView {
    MoneyView { amount: 0, currency }
}

/// Adds `qty` to the first line for this item, or appends a new line.
pub open spec fn lines_after_add(
    ls: Seq<CheckLineView>,
    order_item_id: crate::ids::OrderItemID,
    qty: u32,
    unit_price: MoneyView,
    name: String,
) -> Seq<CheckLineView> {
    if has_line(ls, order_item_id) {
        let i = line_index(ls, order_item_id);
        ls.update(i, CheckLineView { qty: (ls[i].qty + qty) as u32, ..ls[i] })
    } else {
        ls.push(CheckLineView { order_item_id, qty, unit_price, name })
    }
}

/// Takes `qty` off the first line for this item; a line left with nothing
/// is removed (with any other line for the same item).
pub open spec fn lines_after_decrease(
    ls: Seq<CheckLineView>,
    order_item_id: crate::ids::OrderItemID,
    qty: u32,
) -> Seq<CheckLineView> {
    if has_line(ls, order_item_id) {
        let i = line_index(ls, order_item_id);
        if ls[i].qty <= qty {
            remove_lines(ls, order_item_id)
        } else {
            ls.update(i, CheckLineView { qty: (ls[i].qty - qty) as u32, ..ls[i] })
        }
    } else {
        ls
    }
}

pub open spec fn payments_after_capture(
    ps: Seq<PaymentView>,
    payment_id: crate::ids::PaymentID,
    amount: int,
) -> Seq<PaymentView> {
    if has_payment(ps, payment_id) {
        let i = payment_index(ps, payment_id);
        let p = ps[i];
        ps.update(
            i,
            PaymentView {
                captured: MoneyView { amount: p.captured.amount + amount, ..p.captured },
                status: PaymentStatus::Captured,
                ..p
            },
        )
    } else {
        ps
    }
}

pub open spec fn payments_after_void(ps: Seq<PaymentView>, payment_id: crate::ids::PaymentID) -> Seq<
    PaymentView,
> {
    if has_payment(ps, payment_id) {
        let i = payment_index(ps, payment_id);
        ps.update(i, PaymentView { status: PaymentStatus::Voided, ..ps[i] })
    } else {
        ps
    }
}

/// Adds to what was refunded; once the refunds reach what was captured the
/// payment is refunded.
pub open spec fn payments_after_refund(
    ps: Seq<PaymentView>,
    payment_id: crate::ids::PaymentID,
    amount: int,
) -> Seq<PaymentView> {
    if has_payment(ps, payment_id) {
        let i = payment_index(ps, payment_id);
        let p = ps[i];
        let refunded = p.refunded.amount + amount;
        ps.update(
            i,
            PaymentView {
                refunded: MoneyView { amount: refunded, ..p.refunded },
                status: if refunded >= p.captured.amount {
                    PaymentStatus::Refunded
                } else {
                    p.status
                },
                ..p
            },
        )
    } else {
        ps
    }
}

/// The check after one event.
pub open spec fn check_after(c: CheckView, e: CheckEvent) -> CheckView {
    let c2 = match e {
        CheckEvent::CheckOpened { venue_id, check_id, order_id } => CheckView {
            venue_id,
            check_id,
            order_id,
            status: CheckStatus::Open,
            ..c
        },
        CheckEvent::LineAdded { order_item_id, qty, unit_price, name, .. } => CheckView {
            lines: lines_after_add(c.lines, order_item_id, qty, unit_price@, name),
            ..c
        },
        CheckEvent::LineRemoved { order_item_id, .. } => CheckView {
            lines: remove_lines(c.lines, order_item_id),
            ..c
        },
        CheckEvent::DiscountPercentApplied { label, percent, .. } => CheckView {
            discount: Some(Discount::Percent { label, percent }),
            ..c
        },
        CheckEvent::ServiceChargeApplied { label, percent, .. } => CheckView {
            service_charge: Some(ServiceCharge::Percent { label, percent }),
            ..c
        },
        CheckEvent::CheckClosed { .. } => CheckView { status: CheckStatus::Closed, ..c },
        CheckEvent::PaymentRecorded { payment_id, tender, amount, tip, processor, .. } =>
            CheckView {
            payments: c.payments.push(
                PaymentView {
                    payment_id,
                    tender,
                    authorised: amount@,
                    captured: amount@,
                    refunded: zero_money(amount.currency),
                    tip: opt_money_view(tip),
                    status: PaymentStatus::Captured,
                    processor,
                },
            ),
            ..c
        },
        CheckEvent::PaymentAuthorised { payment_id, tender, amount, tip, processor, .. } =>
            CheckView {
            payments: c.payments.push(
                PaymentView {
                    payment_id,
                    tender,
                    authorised: amount@,
                    captured: zero_money(amount.currency),
                    refunded: zero_money(amount.currency),
                    tip: opt_money_view(tip),
                    status: PaymentStatus::Authorized,
                    processor,
                },
            ),
            ..c
        },
        CheckEvent::PaymentCaptured { payment_id, amount, .. } => CheckView {
            payments: payments_after_capture(c.payments, payment_id, amount.amount@),
            ..c
        },
        CheckEvent::PaymentVoided { payment_id, .. } => CheckView {
            payments: payments_after_void(c.payments, payment_id),
            ..c
        },
        CheckEvent::RefundRecorded { payment_id, amount, .. } => CheckView {
            payments: payments_after_refund(c.payments, payment_id, amount.amount@),
            ..c
        },
        CheckEvent::SplitCheckCreated { .. } => c,
        CheckEvent::LineQtyDecreased { order_item_id, qty, .. } => CheckView {
            lines: lines_after_decrease(c.lines, order_item_id, qty),
            ..c
        },
    };
    CheckView { version: (c.version + 1) as u64, ..c2 }
}

/// Most fractional digits of a payment's captured and refunded amounts.
pub open spec fn payment_amount_scale(p: Payment) -> nat {
    max_scale(p.captured.amount.scale_of(), p.refunded.amount.scale_of())
}

/// Most fractional digits of the captured and refunded amounts of the payments.
pub open spec fn amounts_scale(ps: Seq<Payment>) -> nat
    decreases ps.len(),
{
    if ps.len() == 0 {
        0
    } else {
        max_scale(amounts_scale(ps.drop_last()), payment_amount_scale(ps.last()))
    }
}

/// Fractional digits of the amount a payment event carries (0 for others).
pub open spec fn event_scale(e: CheckEvent) -> nat {
    match e {
        CheckEvent::PaymentRecorded { amount, .. } => amount.amount.scale_of(),
        CheckEvent::PaymentAuthorised { amount, .. } => amount.amount.scale_of(),
        CheckEvent::PaymentCaptured { amount, .. } => amount.amount.scale_of(),
        CheckEvent::RefundRecorded { amount, .. } => amount.amount.scale_of(),
        _ => 0,
    }
}

pub proof fn lemma_amounts_scale_elem(ps: Seq<Payment>, i: int)
    requires
        0 <= i < ps.len(),
    ensures
        payment_amount_scale(ps[i]) <= amounts_scale(ps),
    decreases ps.len(),
{
    if i < ps.len() - 1 {
        lemma_amounts_scale_elem(ps.drop_last(), i);
    }
}

pub proof fn lemma_amounts_scale_push(ps: Seq<Payment>, p: Payment)
    ensures
        amounts_scale(ps.push(p)) == max_scale(amounts_scale(ps), payment_amount_scale(p)),
{
    assert(ps.push(p).drop_last() =~= ps);
}

pub proof fn lemma_amounts_scale_update(ps: Seq<Payment>, i: int, p: Payment)
    requires
        0 <= i < ps.len(),
    ensures
        amounts_scale(ps.update(i, p)) <= max_scale(amounts_scale(ps), payment_amount_scale(p)),
    decreases ps.len(),
{
    if i == ps.len() - 1 {
        assert(ps.update(i, p).drop_last() =~= ps.drop_last());
    } else {
        lemma_amounts_scale_update(ps.drop_last(), i, p);
        assert(ps.update(i, p).drop_last() =~= ps.drop_last().update(i, p));
    }
}

/// What applying an event to a check needs: the version counter, a merged
/// line quantity and an updated payment amount all stay within their types.
pub open spec fn check_can_apply(c: Check, e: CheckEvent) -> bool {
    &&& c.version < u64::MAX
    &&& match e {
        CheckEvent::LineAdded { order_item_id, qty, .. } => has_line(c@.lines, order_item_id)
            ==> c@.lines[line_index(c@.lines, order_item_id)].qty + qty <= u32::MAX,
        CheckEvent::PaymentCaptured { payment_id, amount, .. } => has_payment(
            c@.payments,
            payment_id,
        ) ==> {
            let p = held_payment(c, payment_id);
            sum_fits(p.captured.amount, amount.amount, p.captured.amount@ + amount.amount@)
        },
        CheckEvent::RefundRecorded { payment_id, amount, .. } => has_payment(
            c@.payments,
            payment_id,
        ) ==> {
            let p = held_payment(c, payment_id);
            sum_fits(p.refunded.amount, amount.amount, p.refunded.amount@ + amount.amount@)
        },
        _ => true,
    }
}

impl Check {
    fn add_line(
        &mut self,
        order_item_id: crate::ids::OrderItemID,
        qty: u32,
        unit_price: Money,
        name: &String,
    )
        requires
            has_line(old(self)@.lines, order_item_id) ==> old(self)@.lines[line_index(
                old(self)@.lines,
                order_item_id,
            )].qty + qty <= u32::MAX,
        ensures
            final(self)@ == (CheckView {
                lines: lines_after_add(old(self)@.lines, order_item_id, qty, unit_price@, *name),
                ..old(self)@
            }),
            final(self).payments@ == old(self).payments@,
    {
        let ghost lv = old(self)@.lines;
        match find_line(&self.lines, order_item_id) {
            Some(i) => {
                let mut line = self.lines[i].clone();
                line.qty = line.qty + qty;
                self.lines.set(i, line);
                assert(lines_view(self.lines@) =~= lv.update(
                    i as int,
                    CheckLineView { qty: (lv[i as int].qty + qty) as u32, ..lv[i as int] },
                ));
            },
            None => {
                self.lines.push(
                    CheckLine { order_item_id, qty, unit_price, name: name.clone() },
                );
                assert(lines_view(self.lines@) =~= lv.push(
                    CheckLineView { order_item_id, qty, unit_price: unit_price@, name: *name },
                ));
            },
        }
    }

    fn decrease_line(&mut self, order_item_id: crate::ids::OrderItemID, qty: u32)
        ensures
            final(self)@ == (CheckView {
                lines: lines_after_decrease(old(self)@.lines, order_item_id, qty),
                ..old(self)@
            }),
            final(self).payments@ == old(self).payments@,
    {
        let ghost lv = old(self)@.lines;
        match find_line(&self.lines, order_item_id) {
            Some(i) => {
                if self.lines[i].qty <= qty {
                    self.lines = retain_lines_without(&self.lines, order_item_id);
                } else {
                    let mut line = self.lines[i].clone();
                    line.qty = line.qty - qty;
                    self.lines.set(i, line);
                    assert(lines_view(self.lines@) =~= lv.update(
                        i as int,
                        CheckLineView { qty: (lv[i as int].qty - qty) as u32, ..lv[i as int] },
                    ));
                }
            },
            None => {},
        }
    }

    fn push_payment(&mut self, p: Payment)
        ensures
            final(self)@ == (CheckView { payments: old(self)@.payments.push(p@), ..old(self)@ }),
            amounts_scale(final(self).payments@) == max_scale(
                amounts_scale(old(self).payments@),
                payment_amount_scale(p),
            ),
    {
        let ghost pv = old(self)@.payments;
        proof {
            lemma_amounts_scale_push(self.payments@, p);
        }
        self.payments.push(p);
        assert(payments_view(self.payments@) =~= pv.push(p@));
    }

    fn capture(&mut self, payment_id: crate::ids::PaymentID, amount: Amount)
        requires
            has_payment(old(self)@.payments, payment_id) ==> {
                let p = held_payment(*old(self), payment_id);
                sum_fits(p.captured.amount, amount, p.captured.amount@ + amount@)
            },
        ensures
            final(self)@ == (CheckView {
                payments: payments_after_capture(old(self)@.payments, payment_id, amount@),
                ..old(self)@
            }),
            amounts_scale(final(self).payments@) <= max_scale(
                amounts_scale(old(self).payments@),
                amount.scale_of(),
            ),
            has_payment(old(self)@.payments, payment_id) ==> captured_scale_after(
                *final(self),
                *old(self),
                payment_id,
                amount,
            ),
    {
        let ghost pv = old(self)@.payments;
        match find_payment(&self.payments, payment_id) {
            Some(i) => {
                let mut p = self.payments[i].clone();
                p.captured.amount = dec_add(p.captured.amount, amount);
                p.status = PaymentStatus::Captured;
                proof {
                    lemma_amounts_scale_elem(self.payments@, i as int);
                    lemma_amounts_scale_update(self.payments@, i as int, p);
                }
                self.payments.set(i, p);
                assert(payments_view(self.payments@) =~= payments_after_capture(
                    pv,
                    payment_id,
                    amount@,
                ));
            },
            None => {},
        }
    }

    fn void(&mut self, payment_id: crate::ids::PaymentID)
        ensures
            final(self)@ == (CheckView {
                payments: payments_after_void(old(self)@.payments, payment_id),
                ..old(self)@
            }),
            amounts_scale(final(self).payments@) <= amounts_scale(old(self).payments@),
    {
        let ghost pv = old(self)@.payments;
        match find_payment(&self.payments, payment_id) {
            Some(i) => {
                let mut p = self.payments[i].clone();
                p.status = PaymentStatus::Voided;
                proof {
                    lemma_amounts_scale_elem(self.payments@, i as int);
                    lemma_amounts_scale_update(self.payments@, i as int, p);
                }
                self.payments.set(i, p);
                assert(payments_view(self.payments@) =~= payments_after_void(pv, payment_id));
            },
            None => {},
        }
    }

    fn refund(&mut self, payment_id: crate::ids::PaymentID, amount: Amount)
        requires
            has_payment(old(self)@.payments, payment_id) ==> {
                let p = held_payment(*old(self), payment_id);
                sum_fits(p.refunded.amount, amount, p.refunded.amount@ + amount@)
            },
        ensures
            final(self)@ == (CheckView {
                payments: payments_after_refund(old(self)@.payments, payment_id, amount@),
                ..old(self)@
            }),
            amounts_scale(final(self).payments@) <= max_scale(
                amounts_scale(old(self).payments@),
                amount.scale_of(),
            ),
            has_payment(old(self)@.payments, payment_id) ==> refunded_scale_after(
                *final(self),
                *old(self),
                payment_id,
                amount,
            ),
    {
        let ghost pv = old(self)@.payments;
        match find_payment(&self.payments, payment_id) {
            Some(i) => {
                let mut p = self.payments[i].clone();
                p.refunded.amount = dec_add(p.refunded.amount, amount);
                if dec_ge(p.refunded.amount, p.captured.amount) {
                    p.status = PaymentStatus::Refunded;
                }
                proof {
                    lemma_amounts_scale_elem(self.payments@, i as int);
                    lemma_amounts_scale_update(self.payments@, i as int, p);
                }
                self.payments.set(i, p);
                assert(payments_view(self.payments@) =~= payments_after_refund(
                    pv,
                    payment_id,
                    amount@,
                ));
            },
            None => {},
        }
    }
}

/// After a capture of `amount` on the payment `id`, its captured amount has
/// the fractional digits of the sum that `rust_decimal` forms.
pub open spec fn captured_scale_after(after: Check, before: Check, id: PaymentID, amount: Amount) -> bool {
    let p = held_payment(before, id);
    after.payments@[payment_index(before@.payments, id)].captured.amount.scale_of() == sum_scale_of(
        p.captured.amount@,
        p.captured.amount.scale_of(),
        amount@,
        amount.scale_of(),
    )
}

/// After a refund of `amount` on the payment `id`, its refunded amount has
/// the fractional digits of the sum that `rust_decimal` forms.
pub open spec fn refunded_scale_after(after: Check, before: Check, id: PaymentID, amount: Amount) -> bool {
    let p = held_payment(before, id);
    after.payments@[payment_index(before@.payments, id)].refunded.amount.scale_of() == sum_scale_of(
        p.refunded.amount@,
        p.refunded.amount.scale_of(),
        amount@,
        amount.scale_of(),
    )
}

impl Apply<CheckEvent> for Check {
    open spec fn can_apply(&self, event: &CheckEvent) -> bool {
        check_can_apply(*self, *event)
    }

    fn apply(&mut self, event: &CheckEvent) -> (r: Result<(), PosError>)
        ensures
            r is Ok,
            final(self)@ == check_after(old(self)@, *event),
            amounts_scale(final(self).payments@) <= max_scale(
                amounts_scale(old(self).payments@),
                event_scale(*event),
            ),
            *event matches CheckEvent::PaymentCaptured { payment_id, amount, .. } ==> (has_payment(
                old(self)@.payments,
                payment_id,
            ) ==> captured_scale_after(*final(self), *old(self), payment_id, amount.amount)),
            *event matches CheckEvent::RefundRecorded { payment_id, amount, .. } ==> (has_payment(
                old(self)@.payments,
                payment_id,
            ) ==> refunded_scale_after(*final(self), *old(self), payment_id, amount.amount)),
    {
        match event {
            CheckEvent::CheckOpened { venue_id, check_id, order_id } => {
                self.venue_id = *venue_id;
                self.check_id = *check_id;
                self.order_id = *order_id;
                self.status = CheckStatus::Open;
            },
            CheckEvent::LineAdded { order_item_id, qty, unit_price, name, .. } => {
                self.add_line(*order_item_id, *qty, *unit_price, name);
            },
            CheckEvent::LineRemoved { order_item_id, .. } => {
                self.lines = retain_lines_without(&self.lines, *order_item_id);
            },
            CheckEvent::DiscountPercentApplied { label, percent, .. } => {
                self.discount = Some(Discount::Percent { label: label.clone(), percent: *percent });
            },
            CheckEvent::ServiceChargeApplied { label, percent, .. } => {
                self.service_charge = Some(
                    ServiceCharge::Percent { label: label.clone(), percent: *percent },
                );
            },
            CheckEvent::CheckClosed { .. } => {
                self.status = CheckStatus::Closed;
            },
            CheckEvent::PaymentRecorded { payment_id, tender, amount, tip, processor, .. } => {
                self.push_payment(
                    Payment {
                        payment_id: *payment_id,
                        tender: tender.clone(),
                        authorised: *amount,
                        captured: *amount,
                        refunded: Money { amount: Amount::zero(), currency: amount.currency },
                        tip: *tip,
                        status: PaymentStatus::Captured,
                        processor: clone_opt_processor(processor),
                    },
                );
            },
            CheckEvent::PaymentAuthorised { payment_id, tender, amount, tip, processor, .. } => {
                self.push_payment(
                    Payment {
                        payment_id: *payment_id,
                        tender: tender.clone(),
                        authorised: *amount,
                        captured: Money { amount: Amount::zero(), currency: amount.currency },
                        refunded: Money { amount: Amount::zero(), currency: amount.currency },
                        tip: *tip,
                        status: PaymentStatus::Authorized,
                        processor: clone_opt_processor(processor),
                    },
                );
            },
            CheckEvent::PaymentCaptured { payment_id, amount, .. } => {
                self.capture(*payment_id, amount.amount);
            },
            CheckEvent::PaymentVoided { payment_id, .. } => {
                self.void(*payment_id);
            },
            CheckEvent::RefundRecorded { payment_id, amount, .. } => {
                self.refund(*payment_id, amount.amount);
            },
            CheckEvent::SplitCheckCreated { .. } => {
                // An audit record: the new check was opened by its own event.
            },
            CheckEvent::LineQtyDecreased { order_item_id, qty, .. } => {
                self.decrease_line(*order_item_id, *qty);
            },
        }
        self.version = self.version + 1;
        Ok(())
    }
}

} // verus!
