//! What holds of the library as a whole: invariants that every accepted
//! command keeps, and how the functions relate to one another.

use vstd::prelude::*;

use crate::aggregate::check_after;
use crate::checks::{
    first_payment, has_payment, is_first_payment, is_void_or_refunded, lemma_payment_index,
    payment_index, Check, CheckCommand, CheckEvent, CheckView, PaymentStatus, PaymentView,
};
use crate::ids::{CheckID, PaymentID, PosErrorView, VenueID};
use crate::handler::{check_decision, currency_ok, order_decision, table_decision};
use crate::aggregate::{order_after, remove_items};
use crate::orders::{OrderCommand, OrderItem, OrderStatus};
use crate::snapshot::{check_tail, fold_check, fold_order, fold_table, order_tail, table_tail};
use crate::envelope::{AggregateRef, EventEnvelope};
use crate::orders::{OrderEvent, OrderView};
use crate::aggregate::table_after;
use crate::checks::{
    has_line, is_first_line, line_index, lemma_line_index, remove_lines, CheckLineView, CheckStatus,
};
use crate::workflows::{move_decision, move_events};
use crate::envelope::{CoreContext, CoreEvent, WorkflowCommand};
use crate::router::{close_session_decision, open_session_decision};
use crate::tables::{Table, TableCommand, TableEvent, TableStatus};
use crate::totals::{counts_as_paid, paid_sum, payment_net, totals_of};

verus! {

// ---------------------------------------------------------------------------
// Totals

/// The totals add up: the total is the subtotal less the discount plus the
/// service charge, the balance due is the total less what was paid, what was
/// paid is the captured less the refunded amounts of the payments that were
/// captured or refunded, and every figure is in one currency.
pub proof fn law_totals_add_up(c: CheckView)
    ensures
        totals_of(c).total.amount == totals_of(c).subtotal.amount - totals_of(c).discount.amount
            + totals_of(c).service_charge.amount,
        totals_of(c).balance_due.amount == totals_of(c).total.amount - totals_of(c).paid.amount,
        totals_of(c).paid.amount == paid_sum(c.payments),
        paid_sum(c.payments) == (if c.payments.len() == 0 {
            0
        } else {
            paid_sum(c.payments.drop_last()) + if counts_as_paid(c.payments.last()) {
                payment_net(c.payments.last())
            } else {
                0
            }
        }),
        totals_of(c).subtotal.currency == totals_of(c).total.currency,
        totals_of(c).discount.currency == totals_of(c).total.currency,
        totals_of(c).service_charge.currency == totals_of(c).total.currency,
        totals_of(c).paid.currency == totals_of(c).total.currency,
        totals_of(c).tip.currency == totals_of(c).total.currency,
        totals_of(c).balance_due.currency == totals_of(c).total.currency,
        c.lines.len() > 0 ==> totals_of(c).total.currency == c.lines[0].unit_price.currency,
{
}

// ---------------------------------------------------------------------------
// Payments

/// A payment's amounts are ordered: nothing negative, no more refunded than
/// captured, no more captured than authorised; a voided payment captured
/// nothing.
pub open spec fn payment_consistent(p: PaymentView) -> bool {
    &&& 0 <= p.refunded.amount <= p.captured.amount <= p.authorised.amount
    &&& p.status == PaymentStatus::Voided ==> p.captured.amount == 0
}

pub open spec fn payments_consistent(ps: Seq<PaymentView>) -> bool {
    forall|i: int| 0 <= i < ps.len() ==> payment_consistent(#[trigger] ps[i])
}

/// The amounts a payment command carries are not negative.
pub open spec fn payment_amounts_nonnegative(cmd: CheckCommand) -> bool {
    match cmd {
        CheckCommand::RecordPayment { amount, .. } => amount.amount@ >= 0,
        CheckCommand::AuthorisePayment { amount, .. } => amount.amount@ >= 0,
        CheckCommand::CapturePayment { amount, .. } => amount.amount@ >= 0,
        CheckCommand::RecordRefund { amount, .. } => amount.amount@ >= 0,
        _ => true,
    }
}

proof fn lemma_fold_one(c: CheckView, e: crate::checks::CheckEvent)
    ensures
        fold_check(c, seq![e]) == check_after(c, e),
{
    assert(seq![e].drop_last() =~= Seq::<crate::checks::CheckEvent>::empty());
    assert(fold_check(c, Seq::<crate::checks::CheckEvent>::empty()) == c);
    assert(seq![e].last() == e);
}

proof fn lemma_fold_two(c: CheckView, a: crate::checks::CheckEvent, b: crate::checks::CheckEvent)
    ensures
        fold_check(c, seq![a, b]) == check_after(check_after(c, a), b),
{
    assert(seq![a, b].drop_last() =~= seq![a]);
    assert(seq![a, b].last() == b);
    lemma_fold_one(c, a);
}

/// Updating the payment at `i` with a consistent one keeps all consistent.
proof fn lemma_consistent_update(ps: Seq<PaymentView>, i: int, p: PaymentView)
    requires
        payments_consistent(ps),
        0 <= i < ps.len(),
        payment_consistent(p),
    ensures
        payments_consistent(ps.update(i, p)),
{
    assert forall|j: int| 0 <= j < ps.update(i, p).len() implies payment_consistent(
        #[trigger] ps.update(i, p)[j],
    ) by {
        if j != i {
            assert(ps.update(i, p)[j] == ps[j]);
        }
    }
}

/// A new payment with nothing captured yet, then a capture of the whole
/// amount, keeps the payments consistent.
proof fn lemma_record_payment_consistent(c: CheckView, a: CheckEvent, b: CheckEvent)
    requires
        payments_consistent(c.payments),
        a matches CheckEvent::PaymentAuthorised { payment_id, amount, .. } && amount.amount@ >= 0
            && !has_payment(c.payments, payment_id) && b == (CheckEvent::PaymentCaptured {
            venue_id: a->PaymentAuthorised_venue_id,
            check_id: a->PaymentAuthorised_check_id,
            payment_id,
            amount,
        }),
    ensures
        payments_consistent(check_after(check_after(c, a), b).payments),
{
    let ps = c.payments;
    let c1 = check_after(c, a);
    let ps1 = c1.payments;
    let payment_id = a->PaymentAuthorised_payment_id;
    assert forall|j: int| 0 <= j < ps1.len() implies payment_consistent(#[trigger] ps1[j]) by {
        if j < ps.len() {
            assert(ps1[j] == ps[j]);
        }
    }
    let n = ps.len() as int;
    assert(is_first_payment(ps1, payment_id, n));
    lemma_payment_index(ps1, payment_id);
    let ps2 = check_after(c1, b).payments;
    lemma_consistent_update(ps1, n, ps2[n]);
    assert(ps2 =~= ps1.update(n, ps2[n]));
}

/// A new authorised payment keeps the payments consistent.
proof fn lemma_authorise_consistent(c: CheckView, a: CheckEvent)
    requires
        payments_consistent(c.payments),
        a matches CheckEvent::PaymentAuthorised { amount, .. } && amount.amount@ >= 0,
    ensures
        payments_consistent(check_after(c, a).payments),
{
    let ps = c.payments;
    let ps1 = check_after(c, a).payments;
    assert forall|j: int| 0 <= j < ps1.len() implies payment_consistent(#[trigger] ps1[j]) by {
        if j < ps.len() {
            assert(ps1[j] == ps[j]);
        }
    }
}

/// An event that changes one existing payment into a consistent one keeps
/// the payments consistent.
proof fn lemma_payment_event_consistent(c: CheckView, e: CheckEvent, payment_id: PaymentID)
    requires
        payments_consistent(c.payments),
        has_payment(c.payments, payment_id),
        check_after(c, e).payments == c.payments.update(
            payment_index(c.payments, payment_id),
            check_after(c, e).payments[payment_index(c.payments, payment_id)],
        ),
        payment_consistent(check_after(c, e).payments[payment_index(c.payments, payment_id)]),
    ensures
        payments_consistent(check_after(c, e).payments),
{
    lemma_payment_index(c.payments, payment_id);
    lemma_consistent_update(
        c.payments,
        payment_index(c.payments, payment_id),
        check_after(c, e).payments[payment_index(c.payments, payment_id)],
    );
}

/// Every command that the check handler accepts keeps each payment
/// consistent (amounts ordered, a voided payment captured nothing), as long
/// as the amounts it carries are not negative.
pub proof fn law_payments_stay_consistent(c: Check, cmd: CheckCommand)
    requires
        payments_consistent(c@.payments),
        payment_amounts_nonnegative(cmd),
    ensures
        match check_decision(Some(c), cmd) {
            Ok(evs) => payments_consistent(fold_check(c@, evs).payments),
            Err(_) => true,
        },
{
    let ps = c@.payments;
    let d = check_decision(Some(c), cmd);
    if d is Ok {
        let evs = d->Ok_0;
        match cmd {
            CheckCommand::RecordPayment { venue_id, check_id, payment_id, tender, amount, tip, processor } => {
                let a = CheckEvent::PaymentAuthorised { venue_id, check_id, payment_id, tender, amount, tip, processor };
                let b = CheckEvent::PaymentCaptured { venue_id, check_id, payment_id, amount };
                assert(evs == seq![a, b]);
                lemma_fold_two(c@, a, b);
                lemma_record_payment_consistent(c@, a, b);
            },
            CheckCommand::AuthorisePayment { venue_id, check_id, payment_id, tender, amount, tip, processor } => {
                let a = CheckEvent::PaymentAuthorised { venue_id, check_id, payment_id, tender, amount, tip, processor };
                assert(evs == seq![a]);
                lemma_fold_one(c@, a);
                lemma_authorise_consistent(c@, a);
            },
            CheckCommand::CapturePayment { venue_id, check_id, payment_id, amount } => {
                let e = CheckEvent::PaymentCaptured { venue_id, check_id, payment_id, amount };
                assert(evs == seq![e]);
                lemma_fold_one(c@, e);
                lemma_payment_index(ps, payment_id);
                let i = payment_index(ps, payment_id);
                assert(check_after(c@, e).payments =~= ps.update(i, check_after(c@, e).payments[i]));
                lemma_payment_event_consistent(c@, e, payment_id);
            },
            CheckCommand::RecordRefund { venue_id, check_id, payment_id, amount, reason } => {
                let e = CheckEvent::RefundRecorded { venue_id, check_id, payment_id, amount, reason };
                assert(evs == seq![e]);
                lemma_fold_one(c@, e);
                lemma_payment_index(ps, payment_id);
                let i = payment_index(ps, payment_id);
                assert(check_after(c@, e).payments =~= ps.update(i, check_after(c@, e).payments[i]));
                lemma_payment_event_consistent(c@, e, payment_id);
            },
            CheckCommand::VoidPayment { venue_id, check_id, payment_id, reason } => {
                let e = CheckEvent::PaymentVoided { venue_id, check_id, payment_id, reason };
                assert(evs == seq![e]);
                lemma_fold_one(c@, e);
                lemma_payment_index(ps, payment_id);
                let i = payment_index(ps, payment_id);
                assert(check_after(c@, e).payments =~= ps.update(i, check_after(c@, e).payments[i]));
                lemma_payment_event_consistent(c@, e, payment_id);
            },
            _ => {
                assert(evs.len() == 1);
                assert(evs =~= seq![evs[0]]);
                lemma_fold_one(c@, evs[0]);
            },
        }
    }
}


/// The payment commands are accepted exactly at their boundaries: a capture
/// while the payment is neither voided nor refunded and the amount is within
/// what remains authorised; a refund while the payment is not voided and the
/// amount is within what was captured and not yet refunded; a void while
/// nothing was captured.
pub proof fn law_payment_command_boundaries(
    c: Check,
    venue_id: crate::ids::VenueID,
    check_id: crate::ids::CheckID,
    payment_id: PaymentID,
    amount: crate::ids::Money,
    reason: String,
)
    requires
        c.status == CheckStatus::Open,
        has_payment(c@.payments, payment_id),
        currency_ok(c@, amount),
        payments_consistent(c@.payments),
    ensures
        ({
            let p = first_payment(c@.payments, payment_id);
            &&& check_decision(
                Some(c),
                CheckCommand::CapturePayment { venue_id, check_id, payment_id, amount },
            ) is Ok <==> (!is_void_or_refunded(p.status) && amount.amount@ <= p.authorised.amount
                - p.captured.amount)
            &&& check_decision(
                Some(c),
                CheckCommand::RecordRefund { venue_id, check_id, payment_id, amount, reason },
            ) is Ok <==> (p.status != PaymentStatus::Voided && amount.amount@ <= p.captured.amount
                - p.refunded.amount)
            &&& check_decision(
                Some(c),
                CheckCommand::VoidPayment { venue_id, check_id, payment_id, reason },
            ) is Ok <==> p.captured.amount == 0
        }),
{
    lemma_payment_index(c@.payments, payment_id);
    assert(payment_consistent(c@.payments[payment_index(c@.payments, payment_id)]));
}

// ---------------------------------------------------------------------------
// Check lines

pub open spec fn lines_positive(ls: Seq<CheckLineView>) -> bool {
    forall|i: int| 0 <= i < ls.len() ==> (#[trigger] ls[i]).qty > 0
}

proof fn lemma_remove_lines_positive(ls: Seq<CheckLineView>, id: crate::ids::OrderItemID)
    requires
        lines_positive(ls),
    ensures
        lines_positive(remove_lines(ls, id)),
    decreases ls.len(),
{
    if ls.len() > 0 {
        lemma_remove_lines_positive(ls.drop_last(), id);
    }
}

/// Adding an item's quantity to its line does not overflow.
pub open spec fn add_line_fits(c: CheckView, cmd: CheckCommand) -> bool {
    match cmd {
        CheckCommand::AddLineFromOrderItem { order_item_id, qty, .. } => has_line(
            c.lines,
            order_item_id,
        ) ==> c.lines[line_index(c.lines, order_item_id)].qty + qty <= u32::MAX,
        _ => true,
    }
}

/// Every command that the check handler accepts keeps every line's quantity
/// above zero (when a merged quantity fits in its type).
pub proof fn law_check_lines_stay_positive(c: Check, cmd: CheckCommand)
    requires
        lines_positive(c@.lines),
        add_line_fits(c@, cmd),
    ensures
        match check_decision(Some(c), cmd) {
            Ok(evs) => lines_positive(fold_check(c@, evs).lines),
            Err(_) => true,
        },
{
    let ls = c@.lines;
    let d = check_decision(Some(c), cmd);
    if d is Ok {
        let evs = d->Ok_0;
        match cmd {
            CheckCommand::RecordPayment { venue_id, check_id, payment_id, tender, amount, tip, processor } => {
                let a = CheckEvent::PaymentAuthorised { venue_id, check_id, payment_id, tender, amount, tip, processor };
                let b = CheckEvent::PaymentCaptured { venue_id, check_id, payment_id, amount };
                assert(evs == seq![a, b]);
                lemma_fold_two(c@, a, b);
            },
            CheckCommand::AddLineFromOrderItem { order_item_id, .. } => {
                assert(evs =~= seq![evs[0]]);
                lemma_fold_one(c@, evs[0]);
                let out = fold_check(c@, evs).lines;
                if has_line(ls, order_item_id) {
                    lemma_line_index(ls, order_item_id);
                    let i = line_index(ls, order_item_id);
                    assert forall|j: int| 0 <= j < out.len() implies (#[trigger] out[j]).qty > 0 by {
                        if j != i {
                            assert(out[j] == ls[j]);
                        }
                    }
                } else {
                    assert forall|j: int| 0 <= j < out.len() implies (#[trigger] out[j]).qty > 0 by {
                        if j < ls.len() {
                            assert(out[j] == ls[j]);
                        }
                    }
                }
            },
            CheckCommand::RemoveLine { order_item_id, .. } => {
                assert(evs =~= seq![evs[0]]);
                lemma_fold_one(c@, evs[0]);
                lemma_remove_lines_positive(ls, order_item_id);
            },
            _ => {
                assert(evs.len() == 1);
                assert(evs =~= seq![evs[0]]);
                lemma_fold_one(c@, evs[0]);
            },
        }
    }
}

// ---------------------------------------------------------------------------
// Tables

/// An available table has no order; a table with an order is occupied; a
/// closed table has no order.
pub open spec fn table_consistent(t: Table) -> bool {
    &&& t.status == TableStatus::Available ==> t.active_order_id is None
    &&& t.active_order_id is Some ==> t.status == TableStatus::Occupied
    &&& t.status == TableStatus::Closed ==> t.active_order_id is None
}

proof fn lemma_fold_table_one(t: Table, e: TableEvent)
    ensures
        fold_table(t, seq![e]) == table_after(t, e),
{
    assert(seq![e].drop_last() =~= Seq::<TableEvent>::empty());
    assert(fold_table(t, Seq::<TableEvent>::empty()) == t);
    assert(seq![e].last() == e);
}

/// Every command that the table handler accepts keeps the table consistent.
pub proof fn law_table_stays_consistent(t: Table, cmd: TableCommand)
    requires
        table_consistent(t),
    ensures
        match table_decision(Some(t), cmd) {
            Ok(evs) => table_consistent(fold_table(t, evs)),
            Err(_) => true,
        },
{
    let d = table_decision(Some(t), cmd);
    if d is Ok {
        let evs = d->Ok_0;
        assert(evs =~= seq![evs[0]]);
        lemma_fold_table_one(t, evs[0]);
    }
}

/// A created table is consistent, whatever it was made from.
pub proof fn law_created_table_is_consistent(base: Table, cmd: TableCommand)
    ensures
        match table_decision(None, cmd) {
            Ok(evs) => table_consistent(fold_table(base, evs)),
            Err(_) => true,
        },
{
    let d = table_decision(None, cmd);
    if d is Ok {
        let evs = d->Ok_0;
        assert(evs =~= seq![evs[0]]);
        lemma_fold_table_one(base, evs[0]);
    }
}

/// The table events among a workflow's events, in order.
pub open spec fn table_events(evs: Seq<CoreEvent>) -> Seq<TableEvent>
    decreases evs.len(),
{
    if evs.len() == 0 {
        Seq::empty()
    } else {
        let rest = table_events(evs.drop_last());
        match evs.last() {
            CoreEvent::Table(e) => rest.push(e),
            _ => rest,
        }
    }
}

proof fn lemma_table_events_push(evs: Seq<CoreEvent>, e: CoreEvent)
    ensures
        table_events(evs.push(e)) == match e {
            CoreEvent::Table(t) => table_events(evs).push(t),
            _ => table_events(evs),
        },
{
    assert(evs.push(e).drop_last() =~= evs);
}

/// Opening and closing a table session keep the table consistent.
pub proof fn law_table_sessions_keep_table_consistent(ctx: CoreContext, w: WorkflowCommand)
    requires
        ctx.table is Some,
        table_consistent(*ctx.table->0),
    ensures
        match open_session_decision(ctx, w) {
            Ok(evs) => table_consistent(fold_table(*ctx.table->0, table_events(evs))),
            Err(_) => true,
        },
        match close_session_decision(ctx, w) {
            Ok(evs) => table_consistent(fold_table(*ctx.table->0, table_events(evs))),
            Err(_) => true,
        },
{
    let t = *ctx.table->0;
    let o = open_session_decision(ctx, w);
    if o is Ok {
        let evs = o->Ok_0;
        let x0 = Seq::<CoreEvent>::empty();
        let x1 = x0.push(evs[0]);
        let x2 = x1.push(evs[1]);
        let x3 = x2.push(evs[2]);
        assert(x3 =~= evs);
        lemma_table_events_push(x0, evs[0]);
        lemma_table_events_push(x1, evs[1]);
        lemma_table_events_push(x2, evs[2]);
        let e = evs[2]->Table_0;
        assert(table_events(evs) =~= seq![e]);
        lemma_fold_table_one(t, e);
    }
    let c = close_session_decision(ctx, w);
    if c is Ok {
        let evs = c->Ok_0;
        let x0 = Seq::<CoreEvent>::empty();
        let x1 = x0.push(evs[0]);
        lemma_table_events_push(x0, evs[0]);
        if evs.len() == 2 {
            let x2 = x1.push(evs[1]);
            assert(x2 =~= evs);
            lemma_table_events_push(x1, evs[1]);
            let e = evs[1]->Table_0;
            assert(table_events(evs) =~= seq![e]);
            lemma_fold_table_one(t, e);
        } else {
            assert(x1 =~= evs);
            let e = evs[0]->Table_0;
            assert(table_events(evs) =~= seq![e]);
            lemma_fold_table_one(t, e);
        }
    }
}


// ---------------------------------------------------------------------------
// Snapshots

/// Envelopes for `agg`, numbered 1, 2, ... in order, each carrying the order
/// event at its place.
pub open spec fn order_stream(agg: AggregateRef, envs: Seq<EventEnvelope>, evs: Seq<OrderEvent>) -> bool {
    &&& envs.len() == evs.len()
    &&& forall|i: int|
        0 <= i < envs.len() ==> (#[trigger] envs[i]).aggregate == agg && envs[i].seq == Some(
            (i + 1) as u64,
        ) && envs[i].event == CoreEvent::Order(evs[i])
}

proof fn lemma_order_tail_prefix(
    init: OrderView,
    agg: AggregateRef,
    envs: Seq<EventEnvelope>,
    evs: Seq<OrderEvent>,
    k: int,
    n: int,
)
    requires
        order_stream(agg, envs, evs),
        evs.len() < u64::MAX,
        0 <= k <= evs.len(),
        0 <= n <= evs.len(),
    ensures
        order_tail(fold_order(init, evs.take(k)), agg, k as u64, envs.take(n)) == Ok::<
            OrderView,
            PosErrorView,
        >(fold_order(init, evs.take(if n <= k { k } else { n }))),
    decreases n,
{
    if n > 0 {
        lemma_order_tail_prefix(init, agg, envs, evs, k, n - 1);
        assert(envs.take(n).drop_last() =~= envs.take(n - 1));
        assert(envs.take(n).last() == envs[n - 1]);
        if n > k {
            assert(evs.take(n).drop_last() =~= evs.take(n - 1));
            assert(evs.take(n).last() == evs[n - 1]);
        }
    }
}

/// Replaying a stream from a snapshot gives the same order as replaying it
/// from the start: the snapshot taken after the first `k` events, then the
/// envelopes numbered above `k`.
pub proof fn law_order_snapshot_then_tail(
    init: OrderView,
    agg: AggregateRef,
    envs: Seq<EventEnvelope>,
    evs: Seq<OrderEvent>,
    k: int,
)
    requires
        order_stream(agg, envs, evs),
        evs.len() < u64::MAX,
        0 <= k <= evs.len(),
    ensures
        order_tail(fold_order(init, evs.take(k)), agg, k as u64, envs) == Ok::<
            OrderView,
            PosErrorView,
        >(fold_order(init, evs)),
{
    lemma_order_tail_prefix(init, agg, envs, evs, k, evs.len() as int);
    assert(envs.take(evs.len() as int) =~= envs);
    assert(evs.take(evs.len() as int) =~= evs);
}

/// Envelopes for `agg`, numbered 1, 2, ... in order, each carrying the table
/// event at its place.
pub open spec fn table_stream(agg: AggregateRef, envs: Seq<EventEnvelope>, evs: Seq<TableEvent>) -> bool {
    &&& envs.len() == evs.len()
    &&& forall|i: int|
        0 <= i < envs.len() ==> (#[trigger] envs[i]).aggregate == agg && envs[i].seq == Some(
            (i + 1) as u64,
        ) && envs[i].event == CoreEvent::Table(evs[i])
}

proof fn lemma_table_tail_prefix(
    init: Table,
    agg: AggregateRef,
    envs: Seq<EventEnvelope>,
    evs: Seq<TableEvent>,
    k: int,
    n: int,
)
    requires
        table_stream(agg, envs, evs),
        evs.len() < u64::MAX,
        0 <= k <= evs.len(),
        0 <= n <= evs.len(),
    ensures
        table_tail(fold_table(init, evs.take(k)), agg, k as u64, envs.take(n)) == Ok::<
            Table,
            PosErrorView,
        >(fold_table(init, evs.take(if n <= k { k } else { n }))),
    decreases n,
{
    if n > 0 {
        lemma_table_tail_prefix(init, agg, envs, evs, k, n - 1);
        assert(envs.take(n).drop_last() =~= envs.take(n - 1));
        assert(envs.take(n).last() == envs[n - 1]);
        if n > k {
            assert(evs.take(n).drop_last() =~= evs.take(n - 1));
            assert(evs.take(n).last() == evs[n - 1]);
        }
    }
}

/// Replaying a table stream from a snapshot gives the same table as
/// replaying it from the start.
pub proof fn law_table_snapshot_then_tail(
    init: Table,
    agg: AggregateRef,
    envs: Seq<EventEnvelope>,
    evs: Seq<TableEvent>,
    k: int,
)
    requires
        table_stream(agg, envs, evs),
        evs.len() < u64::MAX,
        0 <= k <= evs.len(),
    ensures
        table_tail(fold_table(init, evs.take(k)), agg, k as u64, envs) == Ok::<Table, PosErrorView>(
            fold_table(init, evs),
        ),
{
    lemma_table_tail_prefix(init, agg, envs, evs, k, evs.len() as int);
    assert(envs.take(evs.len() as int) =~= envs);
    assert(evs.take(evs.len() as int) =~= evs);
}

/// Envelopes for `agg`, numbered 1, 2, ... in order, each carrying the check
/// event at its place.
pub open spec fn check_stream(agg: AggregateRef, envs: Seq<EventEnvelope>, evs: Seq<CheckEvent>) -> bool {
    &&& envs.len() == evs.len()
    &&& forall|i: int|
        0 <= i < envs.len() ==> (#[trigger] envs[i]).aggregate == agg && envs[i].seq == Some(
            (i + 1) as u64,
        ) && envs[i].event == CoreEvent::Check(evs[i])
}

proof fn lemma_check_tail_prefix(
    init: CheckView,
    agg: AggregateRef,
    envs: Seq<EventEnvelope>,
    evs: Seq<CheckEvent>,
    k: int,
    n: int,
)
    requires
        check_stream(agg, envs, evs),
        evs.len() < u64::MAX,
        0 <= k <= evs.len(),
        0 <= n <= evs.len(),
    ensures
        check_tail(fold_check(init, evs.take(k)), agg, k as u64, envs.take(n)) == Ok::<
            CheckView,
            PosErrorView,
        >(fold_check(init, evs.take(if n <= k { k } else { n }))),
    decreases n,
{
    if n > 0 {
        lemma_check_tail_prefix(init, agg, envs, evs, k, n - 1);
        assert(envs.take(n).drop_last() =~= envs.take(n - 1));
        assert(envs.take(n).last() == envs[n - 1]);
        if n > k {
            assert(evs.take(n).drop_last() =~= evs.take(n - 1));
            assert(evs.take(n).last() == evs[n - 1]);
        }
    }
}

/// Replaying a check stream from a snapshot gives the same check as
/// replaying it from the start.
pub proof fn law_check_snapshot_then_tail(
    init: CheckView,
    agg: AggregateRef,
    envs: Seq<EventEnvelope>,
    evs: Seq<CheckEvent>,
    k: int,
)
    requires
        check_stream(agg, envs, evs),
        evs.len() < u64::MAX,
        0 <= k <= evs.len(),
    ensures
        check_tail(fold_check(init, evs.take(k)), agg, k as u64, envs) == Ok::<
            CheckView,
            PosErrorView,
        >(fold_check(init, evs)),
{
    lemma_check_tail_prefix(init, agg, envs, evs, k, evs.len() as int);
    assert(envs.take(evs.len() as int) =~= envs);
    assert(evs.take(evs.len() as int) =~= evs);
}


// ---------------------------------------------------------------------------
// Splitting checks

/// The quantity of an order item on a check: that of its first line, or zero.
pub open spec fn item_qty(c: CheckView, id: crate::ids::OrderItemID) -> int {
    if has_line(c.lines, id) {
        c.lines[line_index(c.lines, id)].qty as int
    } else {
        0
    }
}

proof fn lemma_remove_lines_gone(ls: Seq<CheckLineView>, id: crate::ids::OrderItemID)
    ensures
        !has_line(remove_lines(ls, id), id),
    decreases ls.len(),
{
    if ls.len() > 0 {
        lemma_remove_lines_gone(ls.drop_last(), id);
        let rest = remove_lines(ls.drop_last(), id);
        if ls.last().order_item_id != id {
            assert forall|i: int| 0 <= i < rest.push(ls.last()).len() implies rest.push(
                ls.last(),
            )[i].order_item_id != id by {
                if i < rest.len() {
                    assert(rest.push(ls.last())[i] == rest[i]);
                }
            }
        }
    }
}

/// Replacing the first line of an item by another line of that item keeps it
/// the first.
proof fn lemma_first_line_update(ls: Seq<CheckLineView>, id: crate::ids::OrderItemID, x: CheckLineView)
    requires
        has_line(ls, id),
        x.order_item_id == id,
    ensures
        has_line(ls.update(line_index(ls, id), x), id),
        line_index(ls.update(line_index(ls, id), x), id) == line_index(ls, id),
{
    lemma_line_index(ls, id);
    let i = line_index(ls, id);
    let u = ls.update(i, x);
    assert(is_first_line(u, id, i));
    assert(u[i].order_item_id == id);
    lemma_line_index(u, id);
}

/// Moving a quantity of an item between two checks of an order neither makes
/// nor loses any: what leaves one check joins the other (when the joined
/// quantity fits in its type).
pub proof fn law_move_conserves_quantity(
    from: Check,
    to: Check,
    venue_id: crate::ids::VenueID,
    id: crate::ids::OrderItemID,
    qty: u32,
    v: Seq<CheckEvent>,
)
    requires
        move_decision(from, to, venue_id, id, qty) is Ok,
        move_events(v, from, to, venue_id, id, qty),
        item_qty(to@, id) + qty <= u32::MAX,
    ensures
        item_qty(check_after(from@, v[0]), id) == item_qty(from@, id) - qty,
        item_qty(check_after(to@, v[1]), id) == item_qty(to@, id) + qty,
        item_qty(check_after(from@, v[0]), id) + item_qty(check_after(to@, v[1]), id) == item_qty(
            from@,
            id,
        ) + item_qty(to@, id),
{
    let fl = from@.lines;
    lemma_line_index(fl, id);
    let i = line_index(fl, id);
    if fl[i].qty <= qty {
        lemma_remove_lines_gone(fl, id);
    } else {
        lemma_first_line_update(fl, id, CheckLineView { qty: (fl[i].qty - qty) as u32, ..fl[i] });
    }
    let tl = to@.lines;
    if has_line(tl, id) {
        lemma_line_index(tl, id);
        let j = line_index(tl, id);
        lemma_first_line_update(tl, id, CheckLineView { qty: (tl[j].qty + qty) as u32, ..tl[j] });
    } else {
        let line = from.lines@[line_index(fl, id)];
        let pushed = tl.push(
            CheckLineView { order_item_id: id, qty, unit_price: line.unit_price@, name: line.name },
        );
        assert(is_first_line(pushed, id, tl.len() as int));
        lemma_line_index(pushed, id);
    }
}


// ---------------------------------------------------------------------------
// Closed aggregates and order items

/// A closed order refuses every command.
pub proof fn law_closed_order_refuses_everything(o: OrderView, cmd: OrderCommand)
    requires
        o.status == OrderStatus::Closed,
    ensures
        order_decision(Some(o), cmd) is Err,
{
}

/// A closed check refuses every command.
pub proof fn law_closed_check_refuses_everything(c: Check, cmd: CheckCommand)
    requires
        c.status == CheckStatus::Closed,
    ensures
        check_decision(Some(c), cmd) is Err,
{
}

pub open spec fn items_positive(items: Seq<OrderItem>) -> bool {
    forall|i: int| 0 <= i < items.len() ==> (#[trigger] items[i]).qty > 0
}

proof fn lemma_remove_items_positive(items: Seq<OrderItem>, id: crate::ids::OrderItemID)
    requires
        items_positive(items),
    ensures
        items_positive(remove_items(items, id)),
    decreases items.len(),
{
    if items.len() > 0 {
        lemma_remove_items_positive(items.drop_last(), id);
    }
}

proof fn lemma_fold_order_one(o: OrderView, e: OrderEvent)
    ensures
        fold_order(o, seq![e]) == order_after(o, e),
{
    assert(seq![e].drop_last() =~= Seq::<OrderEvent>::empty());
    assert(fold_order(o, Seq::<OrderEvent>::empty()) == o);
    assert(seq![e].last() == e);
}

/// Every command that the order handler accepts keeps each item's quantity
/// above zero.
pub proof fn law_order_items_stay_positive(o: OrderView, cmd: OrderCommand)
    requires
        items_positive(o.items),
    ensures
        match order_decision(Some(o), cmd) {
            Ok(evs) => items_positive(fold_order(o, evs).items),
            Err(_) => true,
        },
{
    let d = order_decision(Some(o), cmd);
    if d is Ok {
        let evs = d->Ok_0;
        assert(evs =~= seq![evs[0]]);
        lemma_fold_order_one(o, evs[0]);
        match cmd {
            OrderCommand::RemoveItem { order_item_id, .. } => {
                lemma_remove_items_positive(o.items, order_item_id);
            },
            OrderCommand::AddItem { .. } => {
                let out = order_after(o, evs[0]).items;
                assert forall|i: int| 0 <= i < out.len() implies (#[trigger] out[i]).qty > 0 by {
                    if i < o.items.len() {
                        assert(out[i] == o.items[i]);
                    }
                }
            },
            _ => {},
        }
    }
}


/// A check can be closed exactly when closing it is accepted: what
/// `can_close_check` answers is whether `CloseCheck` gives its event.
pub proof fn law_can_close_matches_close_command(c: Check, venue_id: VenueID, check_id: CheckID)
    ensures
        crate::projections::check_closable(c@) <==> check_decision(
            Some(c),
            CheckCommand::CloseCheck { venue_id, check_id },
        ) is Ok,
{
}


/// A refund adds its amount to what the payment refunded and leaves what it
/// captured alone; the payment becomes refunded only once its refunds reach
/// what was captured, and until then keeps its status (so it can still be
/// captured further). Other payments are untouched.
pub proof fn law_refund_marks_refunded_only_when_fully_refunded(c: CheckView, e: CheckEvent)
    requires
        e matches CheckEvent::RefundRecorded { payment_id, .. } && has_payment(c.payments, payment_id),
    ensures
        ({
            let id = e->RefundRecorded_payment_id;
            let amount = e->RefundRecorded_amount.amount@;
            let i = payment_index(c.payments, id);
            let p = c.payments[i];
            let after = check_after(c, e).payments;
            let q = after[i];
            &&& after.len() == c.payments.len()
            &&& forall|j: int| 0 <= j < after.len() && j != i ==> #[trigger] after[j] == c.payments[j]
            &&& q.refunded.amount == p.refunded.amount + amount
            &&& q.captured == p.captured
            &&& q.authorised == p.authorised
            &&& p.refunded.amount + amount < p.captured.amount ==> q.status == p.status
            &&& p.refunded.amount + amount >= p.captured.amount ==> q.status == PaymentStatus::Refunded
        }),
{
    lemma_payment_index(c.payments, e->RefundRecorded_payment_id);
}

/// A closed table, and only a closed table, can be reopened: the command
/// gives the single event that reopens it, and on a table that is not
/// closed it is refused as a conflict.
pub proof fn law_only_closed_tables_reopen(t: Table, venue_id: VenueID, table_id: crate::ids::TableID)
    ensures
        ({
            let d = table_decision(Some(t), TableCommand::ReopenTable { venue_id, table_id });
            &&& d is Ok <==> t.status == TableStatus::Closed
            &&& d matches Ok(evs) ==> evs == seq![TableEvent::TableReopened { venue_id, table_id }]
            &&& d matches Err(err) ==> err == PosErrorView::Conflict("table is not closed"@)
        }),
{
}


/// The event that answers a table command carries the command's own fields.
pub open spec fn answers_table_command(cmd: TableCommand, ev: TableEvent) -> bool {
    match cmd {
        TableCommand::CreateTable { venue_id, table_id, label, area_id } => ev
            == TableEvent::TableCreated { venue_id, table_id, label, area_id },
        TableCommand::AssignOrder { venue_id, table_id, order_id } => ev
            == TableEvent::OrderAssignedToTable { venue_id, table_id, order_id },
        TableCommand::UnassignOrder { venue_id, table_id, reason } => ev
            == TableEvent::OrderUnassingedFromTable { venue_id, table_id, reason },
        TableCommand::CloseTable { venue_id, table_id } => ev == TableEvent::TableClosed {
            venue_id,
            table_id,
        },
        TableCommand::ReopenTable { venue_id, table_id } => ev == TableEvent::TableReopened {
            venue_id,
            table_id,
        },
    }
}

/// When each table command is accepted: a table is created only where none
/// exists; every other command needs the table. An order is assigned only to
/// an open table without one, and unassigned only from an open table with
/// one; a table closes only when it is not closed and has no order, and
/// reopens only when it is closed. An accepted command gives exactly one
/// event, which carries the command's fields.
pub proof fn law_table_commands_accepted_exactly(cur: Option<Table>, cmd: TableCommand)
    ensures
        ({
            let d = table_decision(cur, cmd);
            &&& cmd is CreateTable ==> (d is Ok <==> cur is None)
            &&& !(cmd is CreateTable) && cur is None ==> d is Err
            &&& cur matches Some(t) ==> {
                &&& cmd is AssignOrder ==> (d is Ok <==> t.status != TableStatus::Closed
                    && t.active_order_id is None)
                &&& cmd is UnassignOrder ==> (d is Ok <==> t.status != TableStatus::Closed
                    && t.active_order_id is Some)
                &&& cmd is CloseTable ==> (d is Ok <==> t.status != TableStatus::Closed
                    && t.active_order_id is None)
                &&& cmd is ReopenTable ==> (d is Ok <==> t.status == TableStatus::Closed)
            }
            &&& d matches Ok(evs) ==> evs.len() == 1 && answers_table_command(cmd, evs[0])
        }),
{
}

/// A capture adds its amount to what the payment captured, marks it
/// captured and leaves its other amounts and the other payments alone.
pub proof fn law_capture_adds_to_captured(c: CheckView, e: CheckEvent)
    requires
        e matches CheckEvent::PaymentCaptured { payment_id, .. } && has_payment(c.payments, payment_id),
    ensures
        ({
            let i = payment_index(c.payments, e->PaymentCaptured_payment_id);
            let p = c.payments[i];
            let after = check_after(c, e).payments;
            let q = after[i];
            &&& after.len() == c.payments.len()
            &&& forall|j: int| 0 <= j < after.len() && j != i ==> #[trigger] after[j] == c.payments[j]
            &&& q.captured.amount == p.captured.amount + e->PaymentCaptured_amount.amount@
            &&& q.refunded == p.refunded
            &&& q.authorised == p.authorised
            &&& q.status == PaymentStatus::Captured
        }),
{
    lemma_payment_index(c.payments, e->PaymentCaptured_payment_id);
}

/// Voiding a payment changes only its status, to voided.
pub proof fn law_void_changes_only_the_status(c: CheckView, e: CheckEvent)
    requires
        e matches CheckEvent::PaymentVoided { payment_id, .. } && has_payment(c.payments, payment_id),
    ensures
        ({
            let i = payment_index(c.payments, e->PaymentVoided_payment_id);
            let p = c.payments[i];
            let after = check_after(c, e).payments;
            &&& after.len() == c.payments.len()
            &&& forall|j: int| 0 <= j < after.len() && j != i ==> #[trigger] after[j] == c.payments[j]
            &&& after[i] == (PaymentView { status: PaymentStatus::Voided, ..p })
        }),
{
    lemma_payment_index(c.payments, e->PaymentVoided_payment_id);
}


/// Closing a free table and reopening it gives the table back as it was,
/// available and without an order, two versions on; both commands are
/// accepted along the way.
pub proof fn law_close_then_reopen_restores_the_table(
    t: Table,
    venue_id: VenueID,
    table_id: crate::ids::TableID,
)
    requires
        t.status == TableStatus::Available,
        t.active_order_id is None,
        t.version + 2 <= u64::MAX,
    ensures
        ({
            let closed = table_after(t, TableEvent::TableClosed { venue_id, table_id });
            let reopened = table_after(closed, TableEvent::TableReopened { venue_id, table_id });
            &&& table_decision(Some(t), TableCommand::CloseTable { venue_id, table_id }) is Ok
            &&& closed.status == TableStatus::Closed
            &&& table_decision(Some(closed), TableCommand::ReopenTable { venue_id, table_id }) is Ok
            &&& reopened == (Table { version: (t.version + 2) as u64, ..t })
        }),
{
}

/// Assigning an order to a free table and unassigning it gives the table back
/// as it was, two versions on; while assigned the table is occupied by that
/// order.
pub proof fn law_assign_then_unassign_restores_the_table(
    t: Table,
    venue_id: VenueID,
    table_id: crate::ids::TableID,
    order_id: crate::ids::OrderID,
    reason: String,
)
    requires
        t.status == TableStatus::Available,
        t.active_order_id is None,
        t.version + 2 <= u64::MAX,
    ensures
        ({
            let assigned = table_after(t, TableEvent::OrderAssignedToTable { venue_id, table_id, order_id });
            let freed = table_after(
                assigned,
                TableEvent::OrderUnassingedFromTable { venue_id, table_id, reason },
            );
            &&& assigned.status == TableStatus::Occupied
            &&& assigned.active_order_id == Some(order_id)
            &&& table_decision(
                Some(assigned),
                TableCommand::UnassignOrder { venue_id, table_id, reason },
            ) is Ok
            &&& freed == (Table { version: (t.version + 2) as u64, ..t })
        }),
{
}

} // verus!
