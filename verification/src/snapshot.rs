//! Snapshots of aggregates and rebuilding aggregates by replaying events.

use vstd::prelude::*;

use crate::aggregate::{
    amounts_scale, check_after, event_scale, lemma_amounts_scale_elem, order_after, table_after,
    Apply,
};
use crate::amount::{in_range, lemma_in_range_mono, max_scale};
use crate::checks::{
    first_payment, has_line, has_payment, held_payment, line_index, new_check, payment_index,
    Check, CheckEvent, CheckView,
};
use crate::envelope::{AggregateRef, AggregateType, CoreEvent, EventEnvelope};
use crate::ids::{err_is, PosError, PosErrorView};
use crate::orders::{new_order, Order, OrderEvent, OrderView};
use crate::tables::{Table, TableEvent, TableStatus};
use crate::kds::model::{empty_kds, kds_wf, KdsState};
use crate::kds::projector::{apply_core_event_to_kds, kds_after_core_event, kds_ok, KdsOutcome};
use crate::kds::routing::RoutingTable;

verus! {

/// An aggregate as it stood at a per-aggregate version.
pub struct Snapshot<T> {
    pub aggregate: AggregateRef,
    pub version: u64,
    pub state: T,
}

impl<T> Snapshot<T> {
    pub fn new(aggregate: AggregateRef, version: u64, state: T) -> (r: Self)
        ensures
            r.aggregate == aggregate,
            r.version == version,
            r.state == state,
    {
        Snapshot { aggregate, version, state }
    }
}

pub fn snapshot_order(order: &Order) -> (r: Snapshot<Order>)
    ensures
        r.aggregate == (AggregateRef { ty: AggregateType::Order, id: order.order_id.0 }),
        r.version == order.version,
        r.state@ == order@,
{
    Snapshot::new(AggregateRef::order(order.order_id), order.version, order.clone())
}

pub fn snapshot_check(check: &Check) -> (r: Snapshot<Check>)
    ensures
        r.aggregate == (AggregateRef { ty: AggregateType::Check, id: check.check_id.0 }),
        r.version == check.version,
        r.state@ == check@,
        r.state.payments@ == check.payments@,
{
    Snapshot::new(AggregateRef::check(check.check_id), check.version, check.clone())
}

pub fn snapshot_table(table: &Table) -> (r: Snapshot<Table>)
    ensures
        r.aggregate == (AggregateRef { ty: AggregateType::Table, id: table.table_id.0 }),
        r.version == table.version,
        r.state == *table,
{
    Snapshot::new(AggregateRef::table(table.table_id), table.version, table.clone())
}

// ---------------------------------------------------------------------------
// Replaying a stream from the start
// ---------------------------------------------------------------------------

/// The order after a sequence of events, applied in order.
pub open spec fn fold_order(o: OrderView, evs: Seq<OrderEvent>) -> OrderView
    decreases evs.len(),
{
    if evs.len() == 0 {
        o
    } else {
        order_after(fold_order(o, evs.drop_last()), evs.last())
    }
}

pub open spec fn fold_table(t: Table, evs: Seq<TableEvent>) -> Table
    decreases evs.len(),
{
    if evs.len() == 0 {
        t
    } else {
        table_after(fold_table(t, evs.drop_last()), evs.last())
    }
}

pub open spec fn fold_check(c: CheckView, evs: Seq<CheckEvent>) -> CheckView
    decreases evs.len(),
{
    if evs.len() == 0 {
        c
    } else {
        check_after(fold_check(c, evs.drop_last()), evs.last())
    }
}

/// The order that an order event names.
pub open spec fn order_event_ids(e: OrderEvent) -> (crate::ids::VenueID, crate::ids::OrderID) {
    match e {
        OrderEvent::OrderOpened { venue_id, order_id } => (venue_id, order_id),
        OrderEvent::ItemAdded { venue_id, order_id, .. } => (venue_id, order_id),
        OrderEvent::ItemRemoved { venue_id, order_id, .. } => (venue_id, order_id),
        OrderEvent::OrderClosed { venue_id, order_id } => (venue_id, order_id),
    }
}

/// Replays an order stream, starting from an open, empty order with the
/// venue and id of the first event.
pub fn rebuild_order_from_events(events: &[OrderEvent]) -> (r: Result<Order, PosError>)
    ensures
        events@.len() == 0 ==> err_is(r, PosErrorView::NotFound("order events empty"@)),
        events@.len() > 0 ==> (r matches Ok(o) && o@ == fold_order(
            new_order(order_event_ids(events@[0]).0, order_event_ids(events@[0]).1),
            events@,
        )),
{
    if events.len() == 0 {
        return Err(PosError::not_found("order events empty"));
    }
    let (venue_id, order_id) = match &events[0] {
        OrderEvent::OrderOpened { venue_id, order_id } => (*venue_id, *order_id),
        OrderEvent::ItemAdded { venue_id, order_id, .. } => (*venue_id, *order_id),
        OrderEvent::ItemRemoved { venue_id, order_id, .. } => (*venue_id, *order_id),
        OrderEvent::OrderClosed { venue_id, order_id } => (*venue_id, *order_id),
    };
    let ghost init = new_order(venue_id, order_id);
    let mut order = Order::new(venue_id, order_id);
    let mut i: usize = 0;
    assert(events@.take(0) =~= Seq::<OrderEvent>::empty());
    while i < events.len()
        invariant
            i <= events.len(),
            order@ == fold_order(init, events@.take(i as int)),
            order.version == i,
        decreases events.len() - i,
    {
        assert(events@.take(i + 1).drop_last() =~= events@.take(i as int));
        let _ = order.apply(&events[i]);
        i += 1;
    }
    assert(events@.take(events@.len() as int) =~= events@);
    Ok(order)
}

/// Replays a table stream, which must start with the table's creation.
pub fn rebuild_table_from_events(events: &[TableEvent]) -> (r: Result<Table, PosError>)
    ensures
        events@.len() == 0 ==> err_is(r, PosErrorView::NotFound("table events empty"@)),
        events@.len() > 0 ==> match events@[0] {
            TableEvent::TableCreated { venue_id, table_id, label, area_id } => (r matches Ok(t)
                && t == fold_table(
                Table {
                    venue_id,
                    table_id,
                    label,
                    area_id,
                    status: TableStatus::Available,
                    active_order_id: None,
                    version: 0,
                },
                events@,
            )),
            _ => err_is(
                r,
                PosErrorView::Validation("table rebuild requires first event to be TableCreated"@),
            ),
        },
{
    if events.len() == 0 {
        return Err(PosError::not_found("table events empty"));
    }
    let mut table = match &events[0] {
        TableEvent::TableCreated { venue_id, table_id, label, area_id } => Table {
            venue_id: *venue_id,
            table_id: *table_id,
            label: label.clone(),
            area_id: *area_id,
            status: TableStatus::Available,
            active_order_id: None,
            version: 0,
        },
        _ => {
            return Err(
                PosError::validation("table rebuild requires first event to be TableCreated"),
            );
        },
    };
    let ghost init = table;
    let mut i: usize = 0;
    assert(events@.take(0) =~= Seq::<TableEvent>::empty());
    while i < events.len()
        invariant
            i <= events.len(),
            table == fold_table(init, events@.take(i as int)),
            table.version == i,
        decreases events.len() - i,
    {
        assert(events@.take(i + 1).drop_last() =~= events@.take(i as int));
        let _ = table.apply(&events[i]);
        i += 1;
    }
    assert(events@.take(events@.len() as int) =~= events@);
    Ok(table)
}

// ---------------------------------------------------------------------------
// Replaying checks
// ---------------------------------------------------------------------------

/// Most fractional digits among the amounts of the payment events.
pub open spec fn events_scale(evs: Seq<CheckEvent>) -> nat
    decreases evs.len(),
{
    if evs.len() == 0 {
        0
    } else {
        max_scale(events_scale(evs.drop_last()), event_scale(evs.last()))
    }
}

/// Applying `e` to `c` keeps the version counter, a merged line quantity and
/// an updated payment amount within their types, payment amounts being
/// counted with `s` fractional digits.
pub open spec fn check_step_fits(c: CheckView, e: CheckEvent, s: int) -> bool {
    &&& c.version < u64::MAX
    &&& match e {
        CheckEvent::LineAdded { order_item_id, qty, .. } => has_line(c.lines, order_item_id)
            ==> c.lines[line_index(c.lines, order_item_id)].qty + qty <= u32::MAX,
        CheckEvent::PaymentCaptured { payment_id, amount, .. } => has_payment(
            c.payments,
            payment_id,
        ) ==> {
            let p = first_payment(c.payments, payment_id);
            &&& in_range(p.captured.amount, s)
            &&& in_range(amount.amount@, s)
            &&& in_range(p.captured.amount + amount.amount@, s)
        },
        CheckEvent::RefundRecorded { payment_id, amount, .. } => has_payment(
            c.payments,
            payment_id,
        ) ==> {
            let p = first_payment(c.payments, payment_id);
            &&& in_range(p.refunded.amount, s)
            &&& in_range(amount.amount@, s)
            &&& in_range(p.refunded.amount + amount.amount@, s)
        },
        _ => true,
    }
}

/// Every step of replaying `evs` onto `c` fits.
pub open spec fn check_replay_fits(c: CheckView, evs: Seq<CheckEvent>, s: int) -> bool
    decreases evs.len(),
{
    evs.len() == 0 || (check_replay_fits(c, evs.drop_last(), s) && check_step_fits(
        fold_check(c, evs.drop_last()),
        evs.last(),
        s,
    ))
}

proof fn lemma_replay_step(c: CheckView, evs: Seq<CheckEvent>, s: int, k: int)
    requires
        check_replay_fits(c, evs, s),
        0 <= k < evs.len(),
    ensures
        check_step_fits(fold_check(c, evs.take(k)), evs[k], s),
    decreases evs.len(),
{
    if k == evs.len() - 1 {
        assert(evs.take(k) =~= evs.drop_last());
    } else {
        lemma_replay_step(c, evs.drop_last(), s, k);
        assert(evs.drop_last().take(k) =~= evs.take(k));
    }
}

proof fn lemma_events_scale(evs: Seq<CheckEvent>, k: int)
    requires
        0 <= k < evs.len(),
    ensures
        event_scale(evs[k]) <= events_scale(evs),
        events_scale(evs.take(k + 1)) <= events_scale(evs),
        events_scale(evs.take(k + 1)) == max_scale(events_scale(evs.take(k)), event_scale(evs[k])),
    decreases evs.len(),
{
    assert(evs.take(k + 1).drop_last() =~= evs.take(k));
    if k < evs.len() - 1 {
        lemma_events_scale(evs.drop_last(), k);
        assert(evs.drop_last().take(k + 1) =~= evs.take(k + 1));
        assert(evs.drop_last().take(k) =~= evs.take(k));
    } else {
        assert(evs.take(k + 1) =~= evs);
    }
}

/// A step that fits, on the check that holds `c@`, can be applied.
proof fn lemma_step_applies(c: Check, e: CheckEvent, s: int)
    requires
        check_step_fits(c@, e, s),
        amounts_scale(c.payments@) <= s,
        event_scale(e) <= s,
        s <= 28,
    ensures
        c.can_apply(&e),
{
    match e {
        CheckEvent::PaymentCaptured { payment_id, amount, .. } => {
            if has_payment(c@.payments, payment_id) {
                let i = payment_index(c@.payments, payment_id);
                crate::checks::lemma_payment_index(c@.payments, payment_id);
                lemma_amounts_scale_elem(c.payments@, i);
                let p = held_payment(c, payment_id);
                assert(p@ == c@.payments[i]);
                let m = max_scale(p.captured.amount.scale_of(), amount.amount.scale_of()) as int;
                lemma_in_range_mono(p.captured.amount@, m, s);
                lemma_in_range_mono(amount.amount@, m, s);
                lemma_in_range_mono(p.captured.amount@ + amount.amount@, m, s);
            }
        },
        CheckEvent::RefundRecorded { payment_id, amount, .. } => {
            if has_payment(c@.payments, payment_id) {
                let i = payment_index(c@.payments, payment_id);
                crate::checks::lemma_payment_index(c@.payments, payment_id);
                lemma_amounts_scale_elem(c.payments@, i);
                let p = held_payment(c, payment_id);
                assert(p@ == c@.payments[i]);
                let m = max_scale(p.refunded.amount.scale_of(), amount.amount.scale_of()) as int;
                lemma_in_range_mono(p.refunded.amount@, m, s);
                lemma_in_range_mono(amount.amount@, m, s);
                lemma_in_range_mono(p.refunded.amount@ + amount.amount@, m, s);
            }
        },
        _ => {},
    }
}

/// Replays a check stream, which must start with the check being opened.
pub fn rebuild_check_from_events(events: &[CheckEvent]) -> (r: Result<Check, PosError>)
    requires
        events_scale(events@) <= 28,
        events@.len() > 0 ==> match events@[0] {
            CheckEvent::CheckOpened { venue_id, check_id, order_id } => check_replay_fits(
                new_check(venue_id, check_id, order_id),
                events@,
                events_scale(events@) as int,
            ),
            _ => true,
        },
    ensures
        events@.len() == 0 ==> err_is(r, PosErrorView::NotFound("check events empty"@)),
        events@.len() > 0 ==> match events@[0] {
            CheckEvent::CheckOpened { venue_id, check_id, order_id } => (r matches Ok(c) && c@
                == fold_check(new_check(venue_id, check_id, order_id), events@)),
            _ => err_is(
                r,
                PosErrorView::Validation("check rebuild requires first event to be CheckOpened"@),
            ),
        },
{
    if events.len() == 0 {
        return Err(PosError::not_found("check events empty"));
    }
    let (venue_id, check_id, order_id) = match &events[0] {
        CheckEvent::CheckOpened { venue_id, check_id, order_id } => (
            *venue_id,
            *check_id,
            *order_id,
        ),
        _ => {
            return Err(
                PosError::validation("check rebuild requires first event to be CheckOpened"),
            );
        },
    };
    let ghost init = new_check(venue_id, check_id, order_id);
    let ghost s = events_scale(events@) as int;
    let mut check = Check::new(venue_id, check_id, order_id);
    let mut i: usize = 0;
    assert(events@.take(0) =~= Seq::<CheckEvent>::empty());
    while i < events.len()
        invariant
            i <= events.len(),
            s == events_scale(events@) as int,
            s <= 28,
            check_replay_fits(init, events@, s),
            check@ == fold_check(init, events@.take(i as int)),
            amounts_scale(check.payments@) <= events_scale(events@.take(i as int)),
        decreases events.len() - i,
    {
        proof {
            assert(events@.take(i + 1).drop_last() =~= events@.take(i as int));
            lemma_replay_step(init, events@, s, i as int);
            lemma_events_scale(events@, i as int);
            lemma_step_applies(check, events@[i as int], s);
        }
        let _ = check.apply(&events[i]);
        i += 1;
    }
    assert(events@.take(events@.len() as int) =~= events@);
    Ok(check)
}

// ---------------------------------------------------------------------------
// Replaying the tail of a stream onto a snapshot
// ---------------------------------------------------------------------------

/// What one envelope does to the state when replaying onto a snapshot of
/// `agg` at `version`: envelopes of other aggregates and those at or below
/// the snapshot's version are skipped; a newer one must have a sequence
/// number and an event of the snapshot's kind.
pub enum TailStep<E> {
    Skip,
    Apply(E),
    Fail(PosErrorView),
}

pub open spec fn tail_step<E>(
    agg: AggregateRef,
    version: u64,
    env: EventEnvelope,
    pick: spec_fn(CoreEvent) -> Option<E>,
    wrong_kind: Seq<char>,
) -> TailStep<E> {
    if env.aggregate != agg {
        TailStep::Skip
    } else if env.seq is None {
        TailStep::Fail(PosErrorView::Validation("event seq missing"@))
    } else if env.seq->0 <= version {
        TailStep::Skip
    } else {
        match pick(env.event) {
            Some(e) => TailStep::Apply(e),
            None => TailStep::Fail(PosErrorView::Validation(wrong_kind)),
        }
    }
}

pub open spec fn pick_order(e: CoreEvent) -> Option<OrderEvent> {
    match e {
        CoreEvent::Order(o) => Some(o),
        _ => None,
    }
}

pub open spec fn pick_check(e: CoreEvent) -> Option<CheckEvent> {
    match e {
        CoreEvent::Check(c) => Some(c),
        _ => None,
    }
}

pub open spec fn pick_table(e: CoreEvent) -> Option<TableEvent> {
    match e {
        CoreEvent::Table(t) => Some(t),
        _ => None,
    }
}

/// The order after replaying the newer envelopes of its stream, or the first
/// refusal.
pub open spec fn order_tail(o: OrderView, agg: AggregateRef, version: u64, envs: Seq<EventEnvelope>) -> Result<
    OrderView,
    PosErrorView,
>
    decreases envs.len(),
{
    if envs.len() == 0 {
        Ok(o)
    } else {
        match order_tail(o, agg, version, envs.drop_last()) {
            Err(e) => Err(e),
            Ok(o2) => match tail_step(
                agg,
                version,
                envs.last(),
                |e: CoreEvent| pick_order(e),
                "non-order event in order stream"@,
            ) {
                TailStep::Skip => Ok(o2),
                TailStep::Apply(e) => Ok(order_after(o2, e)),
                TailStep::Fail(err) => Err(err),
            },
        }
    }
}

/// No applied event overflows the order's version counter.
pub open spec fn order_tail_fits(
    o: OrderView,
    agg: AggregateRef,
    version: u64,
    envs: Seq<EventEnvelope>,
) -> bool
    decreases envs.len(),
{
    envs.len() == 0 || (order_tail_fits(o, agg, version, envs.drop_last()) && match order_tail(
        o,
        agg,
        version,
        envs.drop_last(),
    ) {
        Ok(o2) => match tail_step(
            agg,
            version,
            envs.last(),
            |e: CoreEvent| pick_order(e),
            "non-order event in order stream"@,
        ) {
            TailStep::Apply(_) => o2.version < u64::MAX,
            _ => true,
        },
        Err(_) => true,
    })
}

pub open spec fn table_tail(t: Table, agg: AggregateRef, version: u64, envs: Seq<EventEnvelope>) -> Result<
    Table,
    PosErrorView,
>
    decreases envs.len(),
{
    if envs.len() == 0 {
        Ok(t)
    } else {
        match table_tail(t, agg, version, envs.drop_last()) {
            Err(e) => Err(e),
            Ok(t2) => match tail_step(
                agg,
                version,
                envs.last(),
                |e: CoreEvent| pick_table(e),
                "non-table event in table stream"@,
            ) {
                TailStep::Skip => Ok(t2),
                TailStep::Apply(e) => Ok(table_after(t2, e)),
                TailStep::Fail(err) => Err(err),
            },
        }
    }
}

pub open spec fn table_tail_fits(t: Table, agg: AggregateRef, version: u64, envs: Seq<EventEnvelope>) -> bool
    decreases envs.len(),
{
    envs.len() == 0 || (table_tail_fits(t, agg, version, envs.drop_last()) && match table_tail(
        t,
        agg,
        version,
        envs.drop_last(),
    ) {
        Ok(t2) => match tail_step(
            agg,
            version,
            envs.last(),
            |e: CoreEvent| pick_table(e),
            "non-table event in table stream"@,
        ) {
            TailStep::Apply(_) => t2.version < u64::MAX,
            _ => true,
        },
        Err(_) => true,
    })
}

pub open spec fn check_tail(c: CheckView, agg: AggregateRef, version: u64, envs: Seq<EventEnvelope>) -> Result<
    CheckView,
    PosErrorView,
>
    decreases envs.len(),
{
    if envs.len() == 0 {
        Ok(c)
    } else {
        match check_tail(c, agg, version, envs.drop_last()) {
            Err(e) => Err(e),
            Ok(c2) => match tail_step(
                agg,
                version,
                envs.last(),
                |e: CoreEvent| pick_check(e),
                "non-check event in check stream"@,
            ) {
                TailStep::Skip => Ok(c2),
                TailStep::Apply(e) => Ok(check_after(c2, e)),
                TailStep::Fail(err) => Err(err),
            },
        }
    }
}

/// Most fractional digits among the amounts of the check events in envelopes.
pub open spec fn envelopes_scale(envs: Seq<EventEnvelope>) -> nat
    decreases envs.len(),
{
    if envs.len() == 0 {
        0
    } else {
        max_scale(
            envelopes_scale(envs.drop_last()),
            match envs.last().event {
                CoreEvent::Check(e) => event_scale(e),
                _ => 0,
            },
        )
    }
}

pub open spec fn check_tail_fits(
    c: CheckView,
    agg: AggregateRef,
    version: u64,
    envs: Seq<EventEnvelope>,
    s: int,
) -> bool
    decreases envs.len(),
{
    envs.len() == 0 || (check_tail_fits(c, agg, version, envs.drop_last(), s) && match check_tail(
        c,
        agg,
        version,
        envs.drop_last(),
    ) {
        Ok(c2) => match tail_step(
            agg,
            version,
            envs.last(),
            |e: CoreEvent| pick_check(e),
            "non-check event in check stream"@,
        ) {
            TailStep::Apply(e) => check_step_fits(c2, e, s),
            _ => true,
        },
        Err(_) => true,
    })
}

proof fn lemma_envelopes_scale(envs: Seq<EventEnvelope>, k: int)
    requires
        0 <= k < envs.len(),
    ensures
        envs[k].event matches CoreEvent::Check(e) ==> event_scale(e) <= envelopes_scale(envs),
    decreases envs.len(),
{
    if k < envs.len() - 1 {
        lemma_envelopes_scale(envs.drop_last(), k);
    }
}

/// Replays the newer envelopes of an order's stream onto its snapshot.
pub fn rebuild_order_from_snapshot_and_events(snapshot: Snapshot<Order>, events: &[EventEnvelope]) -> (r:
    Result<Order, PosError>)
    requires
        order_tail_fits(snapshot.state@, snapshot.aggregate, snapshot.version, events@),
    ensures
        snapshot.aggregate.ty != AggregateType::Order ==> err_is(
            r,
            PosErrorView::Validation("snapshot aggregate is not Order"@),
        ),
        snapshot.aggregate.ty == AggregateType::Order ==> match order_tail(
            snapshot.state@,
            snapshot.aggregate,
            snapshot.version,
            events@,
        ) {
            Ok(o) => r matches Ok(x) && x@ == o,
            Err(e) => err_is(r, e),
        },
{
    if snapshot.aggregate.ty != AggregateType::Order {
        return Err(PosError::validation("snapshot aggregate is not Order"));
    }
    let agg = snapshot.aggregate;
    let version = snapshot.version;
    let ghost init = snapshot.state@;
    let mut order = snapshot.state;
    let mut i: usize = 0;
    assert(events@.take(0) =~= Seq::<EventEnvelope>::empty());
    while i < events.len()
        invariant
            i <= events.len(),
            agg == snapshot.aggregate,
            agg.ty == AggregateType::Order,
            version == snapshot.version,
            init == snapshot.state@,
            order_tail_fits(init, agg, version, events@),
            order_tail(init, agg, version, events@.take(i as int)) == Ok::<
                OrderView,
                PosErrorView,
            >(order@),
        decreases events.len() - i,
    {
        proof {
            assert(events@.take(i + 1).drop_last() =~= events@.take(i as int));
            lemma_order_tail_fits_prefix(init, agg, version, events@, i + 1);
        }
        let env = &events[i];
        if env.aggregate != agg {
            i += 1;
            continue;
        }
        let seq = match env.seq {
            Some(s) => s,
            None => {
                proof {
                    lemma_order_tail_fail(init, agg, version, events@, i as int);
                }
                return Err(PosError::validation("event seq missing"));
            },
        };
        if seq <= version {
            i += 1;
            continue;
        }
        match &env.event {
            CoreEvent::Order(event) => {
                let _ = order.apply(event);
            },
            _ => {
                proof {
                    lemma_order_tail_fail(init, agg, version, events@, i as int);
                }
                return Err(PosError::validation("non-order event in order stream"));
            },
        }
        i += 1;
    }
    assert(events@.take(events@.len() as int) =~= events@);
    Ok(order)
}

proof fn lemma_order_tail_fits_prefix(
    o: OrderView,
    agg: AggregateRef,
    version: u64,
    envs: Seq<EventEnvelope>,
    k: int,
)
    requires
        order_tail_fits(o, agg, version, envs),
        0 <= k <= envs.len(),
    ensures
        order_tail_fits(o, agg, version, envs.take(k)),
    decreases envs.len(),
{
    if k == envs.len() {
        assert(envs.take(k) =~= envs);
    } else {
        lemma_order_tail_fits_prefix(o, agg, version, envs.drop_last(), k);
        assert(envs.drop_last().take(k) =~= envs.take(k));
    }
}

/// Once a step fails, the replay stays failed with that error.
proof fn lemma_order_tail_fail(
    o: OrderView,
    agg: AggregateRef,
    version: u64,
    envs: Seq<EventEnvelope>,
    k: int,
)
    requires
        0 <= k < envs.len(),
        order_tail(o, agg, version, envs.take(k)) is Ok,
        tail_step(
            agg,
            version,
            envs[k],
            |e: CoreEvent| pick_order(e),
            "non-order event in order stream"@,
        ) is Fail,
    ensures
        order_tail(o, agg, version, envs) == Err::<OrderView, PosErrorView>(
            tail_step(
                agg,
                version,
                envs[k],
                |e: CoreEvent| pick_order(e),
                "non-order event in order stream"@,
            )->Fail_0,
        ),
    decreases envs.len(),
{
    if k == envs.len() - 1 {
        assert(envs.drop_last() =~= envs.take(k));
    } else {
        assert(envs.drop_last().take(k) =~= envs.take(k));
        assert(envs.drop_last()[k] == envs[k]);
        lemma_order_tail_fail(o, agg, version, envs.drop_last(), k);
    }
}

/// Replays the newer envelopes of a table's stream onto its snapshot.
pub fn rebuild_table_from_snapshot_and_events(snapshot: Snapshot<Table>, events: &[EventEnvelope]) -> (r:
    Result<Table, PosError>)
    requires
        table_tail_fits(snapshot.state, snapshot.aggregate, snapshot.version, events@),
    ensures
        snapshot.aggregate.ty != AggregateType::Table ==> err_is(
            r,
            PosErrorView::Validation("snapshot aggregate is not Table"@),
        ),
        snapshot.aggregate.ty == AggregateType::Table ==> match table_tail(
            snapshot.state,
            snapshot.aggregate,
            snapshot.version,
            events@,
        ) {
            Ok(t) => r matches Ok(x) && x == t,
            Err(e) => err_is(r, e),
        },
{
    if snapshot.aggregate.ty != AggregateType::Table {
        return Err(PosError::validation("snapshot aggregate is not Table"));
    }
    let agg = snapshot.aggregate;
    let version = snapshot.version;
    let ghost init = snapshot.state;
    let mut table = snapshot.state;
    let mut i: usize = 0;
    assert(events@.take(0) =~= Seq::<EventEnvelope>::empty());
    while i < events.len()
        invariant
            i <= events.len(),
            agg == snapshot.aggregate,
            agg.ty == AggregateType::Table,
            version == snapshot.version,
            init == snapshot.state,
            table_tail_fits(init, agg, version, events@),
            table_tail(init, agg, version, events@.take(i as int)) == Ok::<Table, PosErrorView>(
                table,
            ),
        decreases events.len() - i,
    {
        proof {
            assert(events@.take(i + 1).drop_last() =~= events@.take(i as int));
            lemma_table_tail_fits_prefix(init, agg, version, events@, i + 1);
        }
        let env = &events[i];
        if env.aggregate != agg {
            i += 1;
            continue;
        }
        let seq = match env.seq {
            Some(s) => s,
            None => {
                proof {
                    lemma_table_tail_fail(init, agg, version, events@, i as int);
                }
                return Err(PosError::validation("event seq missing"));
            },
        };
        if seq <= version {
            i += 1;
            continue;
        }
        match &env.event {
            CoreEvent::Table(event) => {
                let _ = table.apply(event);
            },
            _ => {
                proof {
                    lemma_table_tail_fail(init, agg, version, events@, i as int);
                }
                return Err(PosError::validation("non-table event in table stream"));
            },
        }
        i += 1;
    }
    assert(events@.take(events@.len() as int) =~= events@);
    Ok(table)
}

proof fn lemma_table_tail_fits_prefix(
    t: Table,
    agg: AggregateRef,
    version: u64,
    envs: Seq<EventEnvelope>,
    k: int,
)
    requires
        table_tail_fits(t, agg, version, envs),
        0 <= k <= envs.len(),
    ensures
        table_tail_fits(t, agg, version, envs.take(k)),
    decreases envs.len(),
{
    if k == envs.len() {
        assert(envs.take(k) =~= envs);
    } else {
        lemma_table_tail_fits_prefix(t, agg, version, envs.drop_last(), k);
        assert(envs.drop_last().take(k) =~= envs.take(k));
    }
}

proof fn lemma_table_tail_fail(
    t: Table,
    agg: AggregateRef,
    version: u64,
    envs: Seq<EventEnvelope>,
    k: int,
)
    requires
        0 <= k < envs.len(),
        table_tail(t, agg, version, envs.take(k)) is Ok,
        tail_step(
            agg,
            version,
            envs[k],
            |e: CoreEvent| pick_table(e),
            "non-table event in table stream"@,
        ) is Fail,
    ensures
        table_tail(t, agg, version, envs) == Err::<Table, PosErrorView>(
            tail_step(
                agg,
                version,
                envs[k],
                |e: CoreEvent| pick_table(e),
                "non-table event in table stream"@,
            )->Fail_0,
        ),
    decreases envs.len(),
{
    if k == envs.len() - 1 {
        assert(envs.drop_last() =~= envs.take(k));
    } else {
        assert(envs.drop_last().take(k) =~= envs.take(k));
        assert(envs.drop_last()[k] == envs[k]);
        lemma_table_tail_fail(t, agg, version, envs.drop_last(), k);
    }
}

/// Replays the newer envelopes of a check's stream onto its snapshot.
pub fn rebuild_check_from_snapshot_and_events(snapshot: Snapshot<Check>, events: &[EventEnvelope]) -> (r:
    Result<Check, PosError>)
    requires
        ({
            let s = max_scale(amounts_scale(snapshot.state.payments@), envelopes_scale(events@));
            &&& s <= 28
            &&& check_tail_fits(
                snapshot.state@,
                snapshot.aggregate,
                snapshot.version,
                events@,
                s as int,
            )
        }),
    ensures
        snapshot.aggregate.ty != AggregateType::Check ==> err_is(
            r,
            PosErrorView::Validation("snapshot aggregate is not Check"@),
        ),
        snapshot.aggregate.ty == AggregateType::Check ==> match check_tail(
            snapshot.state@,
            snapshot.aggregate,
            snapshot.version,
            events@,
        ) {
            Ok(c) => r matches Ok(x) && x@ == c,
            Err(e) => err_is(r, e),
        },
{
    if snapshot.aggregate.ty != AggregateType::Check {
        return Err(PosError::validation("snapshot aggregate is not Check"));
    }
    let agg = snapshot.aggregate;
    let version = snapshot.version;
    let ghost init = snapshot.state@;
    let ghost s = max_scale(amounts_scale(snapshot.state.payments@), envelopes_scale(events@))
        as int;
    let mut check = snapshot.state;
    let mut i: usize = 0;
    assert(events@.take(0) =~= Seq::<EventEnvelope>::empty());
    while i < events.len()
        invariant
            i <= events.len(),
            agg == snapshot.aggregate,
            agg.ty == AggregateType::Check,
            version == snapshot.version,
            init == snapshot.state@,
            s == max_scale(amounts_scale(snapshot.state.payments@), envelopes_scale(events@)),
            s <= 28,
            amounts_scale(check.payments@) <= s,
            check_tail_fits(init, agg, version, events@, s),
            check_tail(init, agg, version, events@.take(i as int)) == Ok::<
                CheckView,
                PosErrorView,
            >(check@),
        decreases events.len() - i,
    {
        proof {
            assert(events@.take(i + 1).drop_last() =~= events@.take(i as int));
            lemma_check_tail_fits_prefix(init, agg, version, events@, s, i + 1);
            lemma_envelopes_scale(events@, i as int);
        }
        let env = &events[i];
        if env.aggregate != agg {
            i += 1;
            continue;
        }
        let seq = match env.seq {
            Some(q) => q,
            None => {
                proof {
                    lemma_check_tail_fail(init, agg, version, events@, i as int);
                }
                return Err(PosError::validation("event seq missing"));
            },
        };
        if seq <= version {
            i += 1;
            continue;
        }
        match &env.event {
            CoreEvent::Check(event) => {
                proof {
                    lemma_step_applies(check, *event, s);
                }
                let _ = check.apply(event);
            },
            _ => {
                proof {
                    lemma_check_tail_fail(init, agg, version, events@, i as int);
                }
                return Err(PosError::validation("non-check event in check stream"));
            },
        }
        i += 1;
    }
    assert(events@.take(events@.len() as int) =~= events@);
    Ok(check)
}

proof fn lemma_check_tail_fits_prefix(
    c: CheckView,
    agg: AggregateRef,
    version: u64,
    envs: Seq<EventEnvelope>,
    s: int,
    k: int,
)
    requires
        check_tail_fits(c, agg, version, envs, s),
        0 <= k <= envs.len(),
    ensures
        check_tail_fits(c, agg, version, envs.take(k), s),
    decreases envs.len(),
{
    if k == envs.len() {
        assert(envs.take(k) =~= envs);
    } else {
        lemma_check_tail_fits_prefix(c, agg, version, envs.drop_last(), s, k);
        assert(envs.drop_last().take(k) =~= envs.take(k));
    }
}

proof fn lemma_check_tail_fail(
    c: CheckView,
    agg: AggregateRef,
    version: u64,
    envs: Seq<EventEnvelope>,
    k: int,
)
    requires
        0 <= k < envs.len(),
        check_tail(c, agg, version, envs.take(k)) is Ok,
        tail_step(
            agg,
            version,
            envs[k],
            |e: CoreEvent| pick_check(e),
            "non-check event in check stream"@,
        ) is Fail,
    ensures
        check_tail(c, agg, version, envs) == Err::<CheckView, PosErrorView>(
            tail_step(
                agg,
                version,
                envs[k],
                |e: CoreEvent| pick_check(e),
                "non-check event in check stream"@,
            )->Fail_0,
        ),
    decreases envs.len(),
{
    if k == envs.len() - 1 {
        assert(envs.drop_last() =~= envs.take(k));
    } else {
        assert(envs.drop_last().take(k) =~= envs.take(k));
        assert(envs.drop_last()[k] == envs[k]);
        lemma_check_tail_fail(c, agg, version, envs.drop_last(), k);
    }
}


/// The display after projecting envelopes in order onto an empty one, stopping
/// at the first one refused.
pub open spec fn kds_replay(evs: Seq<EventEnvelope>, routing: RoutingTable, table: Option<&Table>) -> KdsOutcome
    decreases evs.len(),
{
    if evs.len() == 0 {
        kds_ok(empty_kds())
    } else {
        let prev = kds_replay(evs.drop_last(), routing, table);
        if prev.error is Some {
            prev
        } else {
            kds_after_core_event(prev.state, evs.last(), routing, table)
        }
    }
}

/// Every envelope that the replay reaches without a sequence number comes
/// when the cursor can still move one further.
pub open spec fn kds_replay_fits(evs: Seq<EventEnvelope>, routing: RoutingTable, table: Option<&Table>) -> bool
    decreases evs.len(),
{
    if evs.len() == 0 {
        true
    } else {
        let prev = kds_replay(evs.drop_last(), routing, table);
        &&& kds_replay_fits(evs.drop_last(), routing, table)
        &&& (prev.error is Some || evs.last().seq is Some || prev.state.cursor < u64::MAX)
    }
}

proof fn lemma_kds_replay_fits_prefix(evs: Seq<EventEnvelope>, routing: RoutingTable, table: Option<&Table>, n: int)
    requires
        kds_replay_fits(evs, routing, table),
        0 <= n <= evs.len(),
    ensures
        kds_replay_fits(evs.take(n), routing, table),
    decreases evs.len() - n,
{
    if n < evs.len() {
        assert(evs.take(n + 1).drop_last() =~= evs.take(n));
        lemma_kds_replay_fits_prefix(evs, routing, table, n + 1);
    } else {
        assert(evs.take(n) =~= evs);
    }
}

/// Rebuilds a venue's display by projecting its events, in order, onto an
/// empty one; the first refusal is returned.
pub fn rebuild_kds_from_events(events: &[EventEnvelope], routing: &RoutingTable, table: Option<&Table>) -> (r: Result<KdsState, PosError>)
    requires
        kds_replay_fits(events@, *routing, table),
    ensures
        match r {
            Ok(s) => kds_replay(events@, *routing, table).error is None && s@ == kds_replay(
                events@,
                *routing,
                table,
            ).state && kds_wf(s@),
            Err(e) => kds_replay(events@, *routing, table).error == Some(e@),
        },
{
    let mut state = KdsState::new();
    let mut i: usize = 0;
    assert(events@.take(0) =~= Seq::<EventEnvelope>::empty());
    while i < events.len()
        invariant
            i <= events.len(),
            kds_replay_fits(events@, *routing, table),
            kds_replay(events@.take(i as int), *routing, table) == kds_ok(state@),
            kds_wf(state@),
        decreases events.len() - i,
    {
        proof {
            assert(events@.take(i + 1).drop_last() =~= events@.take(i as int));
            assert(events@.take(i + 1).last() == events@[i as int]);
            lemma_kds_replay_fits_prefix(events@, *routing, table, i + 1);
        }
        match apply_core_event_to_kds(&mut state, &events[i], routing, table) {
            Ok(()) => {},
            Err(e) => {
                proof {
                    lemma_kds_replay_error_stays(events@, *routing, table, i + 1);
                }
                return Err(e);
            },
        }
        i += 1;
    }
    assert(events@.take(i as int) =~= events@);
    Ok(state)
}

/// Once the replay of a prefix is refused, so is the replay of the whole,
/// with the same error.
proof fn lemma_kds_replay_error_stays(evs: Seq<EventEnvelope>, routing: RoutingTable, table: Option<&Table>, n: int)
    requires
        0 <= n <= evs.len(),
        kds_replay(evs.take(n), routing, table).error is Some,
    ensures
        kds_replay(evs, routing, table) == kds_replay(evs.take(n), routing, table),
    decreases evs.len() - n,
{
    if n < evs.len() {
        assert(evs.take(n + 1).drop_last() =~= evs.take(n));
        lemma_kds_replay_error_stays(evs, routing, table, n + 1);
    } else {
        assert(evs.take(n) =~= evs);
    }
}

} // verus!
