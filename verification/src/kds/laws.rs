//! What holds of the kitchen display across events.

use vstd::prelude::*;

use crate::orders::OrderEvent;
use crate::tables::Table;
use super::events::KdsEvent;
use super::model::{
    key_before, kds_wf, KdsLineView, KdsStateView, KdsTicketKeyView, KdsTicketView, ticket_key,
    tickets_sorted,
};
use super::printing::deltas_since;
use super::projector::{
    close_order_tickets, cursor_after, insert_line_sorted, insert_pos, kds_after_kds_event, kds_after_order_event, lemma_insert_pos_exists, sort_lines,
    stable_ticket_id, ticket_pos, tickets_with_key, pos_with_key, upper_pos_from, KdsOutcome,
    kds_item_added, kds_item_removed, lemma_ticket_pos_from, kitchen_view, station_matches, with_sorted_lines,
};
use crate::ids::{MenuItemID, OrderID, OrderItemID, VenueID};
use super::routing::RoutingTable;

verus! {

broadcast use {vstd::seq_lib::group_to_multiset_ensures, vstd::multiset::group_multiset_axioms};

/// What every event does to the bookkeeping: the cursor moves to the larger
/// of itself and the event's sequence number; the change log only grows, by
/// at most one entry stamped with that number; a refused event changes
/// nothing else.
pub open spec fn bookkeeping_kept(s: KdsStateView, out: KdsOutcome, seq: u64) -> bool {
    &&& out.state.cursor == cursor_after(s.cursor, seq)
    &&& out.state.cursor >= s.cursor
    &&& out.state.cursor >= seq
    &&& s.changes.is_prefix_of(out.state.changes)
    &&& out.state.changes.len() <= s.changes.len() + 1
    &&& forall|i: int|
        s.changes.len() <= i < out.state.changes.len() ==> (#[trigger] out.state.changes[i]).seq
            == seq
    &&& out.error is Some ==> out.state == (KdsStateView { cursor: cursor_after(s.cursor, seq), ..s })
}

/// Projecting an order event keeps the bookkeeping: the cursor never goes
/// back, the change log is only appended to, and a refused event only moves
/// the cursor.
pub proof fn law_order_event_bookkeeping(
    s: KdsStateView,
    e: OrderEvent,
    seq: u64,
    routing: RoutingTable,
    table: Option<&Table>,
)
    ensures
        bookkeeping_kept(s, kds_after_order_event(s, e, seq, routing, table), seq),
{
    let out = kds_after_order_event(s, e, seq, routing, table);
    assert(s.changes =~= out.state.changes.subrange(0, s.changes.len() as int));
}

/// Applying a kitchen event keeps the bookkeeping: the cursor never goes
/// back, the change log is only appended to, and a refused event only moves
/// the cursor.
pub proof fn law_kitchen_event_bookkeeping(s: KdsStateView, e: KdsEvent, seq: u64)
    ensures
        bookkeeping_kept(s, kds_after_kds_event(s, e, seq), seq),
{
    let out = kds_after_kds_event(s, e, seq);
    assert(s.changes =~= out.state.changes.subrange(0, s.changes.len() as int));
}

/// Every ticket's id is the one derived from its order and station, so a
/// replay of the same events gives the same ids.
pub open spec fn ticket_ids_stable(ts: Seq<KdsTicketView>) -> bool {
    forall|i: int|
        0 <= i < ts.len() ==> (#[trigger] ts[i]).ticket_id == stable_ticket_id(
            ts[i].order_id,
            ts[i].station@,
        )
}

/// Replacing a ticket by one with the same id, order and station keeps the
/// ids stable.
proof fn lemma_ids_update(ts: Seq<KdsTicketView>, i: int, t: KdsTicketView)
    requires
        ticket_ids_stable(ts),
        0 <= i < ts.len(),
        t.ticket_id == ts[i].ticket_id,
        t.order_id == ts[i].order_id,
        t.station == ts[i].station,
    ensures
        ticket_ids_stable(ts.update(i, t)),
{
    assert forall|j: int| 0 <= j < ts.update(i, t).len() implies (#[trigger] ts.update(i, t)[j]).ticket_id
        == stable_ticket_id(ts.update(i, t)[j].order_id, ts.update(i, t)[j].station@) by {
        if j != i {
            assert(ts.update(i, t)[j] == ts[j]);
        }
    }
}

proof fn lemma_ids_item_added(
    s: KdsStateView,
    venue_id: VenueID,
    order_id: OrderID,
    order_item_id: OrderItemID,
    menu_item_id: MenuItemID,
    name: String,
    qty: u32,
    notes: Option<String>,
    seq: u64,
    routing: RoutingTable,
    table: Option<&Table>,
)
    requires
        kds_wf(s),
        ticket_ids_stable(s.tickets),
    ensures
        ticket_ids_stable(
            kds_item_added(
                s,
                venue_id,
                order_id,
                order_item_id,
                menu_item_id,
                name,
                qty,
                notes,
                seq,
                routing,
                table,
            ).tickets,
        ),
{
    let out = kds_item_added(
        s,
        venue_id,
        order_id,
        order_item_id,
        menu_item_id,
        name,
        qty,
        notes,
        seq,
        routing,
        table,
    );
    let ts = s.tickets;
    let station = super::routing::routed_station(routing, menu_item_id, name@);
    let key = super::model::KdsTicketKey { order_id, station };
    let ts1 = tickets_with_key(ts, key, venue_id, table, seq);
    let p = pos_with_key(ts, key);
    lemma_ticket_pos_from(ts, key@, 0);
    if ticket_pos(ts, key@) < 0 {
        lemma_insert_pos_exists(ts, key@);
        let q = insert_pos(ts, key@);
        assert forall|j: int| 0 <= j < ts1.len() implies (#[trigger] ts1[j]).ticket_id
            == stable_ticket_id(ts1[j].order_id, ts1[j].station@) by {
            if j < q {
                assert(ts1[j] == ts[j]);
            } else if j > q {
                assert(ts1[j] == ts[j - 1]);
            }
        }
    }
    assert(0 <= p < ts1.len());
    lemma_ids_update(ts1, p, out.tickets[p]);
    assert(out.tickets =~= ts1.update(p, out.tickets[p]));
}

proof fn lemma_ids_item_removed(s: KdsStateView, order_id: OrderID, order_item_id: OrderItemID, seq: u64)
    requires
        ticket_ids_stable(s.tickets),
    ensures
        ticket_ids_stable(kds_item_removed(s, order_id, order_item_id, seq).state.tickets),
{
    let out = kds_item_removed(s, order_id, order_item_id, seq);
    if s.item_to_ticket.contains_key(order_item_id.0) {
        let key = s.item_to_ticket[order_item_id.0];
        lemma_ticket_pos_from(s.tickets, key@, 0);
        let p = ticket_pos(s.tickets, key@);
        if p >= 0 && out.state.tickets != s.tickets {
            lemma_ids_update(s.tickets, p, out.state.tickets[p]);
            assert(out.state.tickets =~= s.tickets.update(p, out.state.tickets[p]));
        }
    }
}

/// Projecting an order event keeps every ticket's id derived from its order
/// and station.
pub proof fn law_order_event_keeps_ticket_ids(
    s: KdsStateView,
    e: OrderEvent,
    seq: u64,
    routing: RoutingTable,
    table: Option<&Table>,
)
    requires
        kds_wf(s),
        ticket_ids_stable(s.tickets),
    ensures
        ticket_ids_stable(kds_after_order_event(s, e, seq, routing, table).state.tickets),
{
    let s0 = KdsStateView { cursor: cursor_after(s.cursor, seq), ..s };
    match e {
        OrderEvent::ItemAdded {
            venue_id,
            order_id,
            order_item_id,
            menu_item_id,
            name,
            qty,
            notes,
            ..
        } => {
            lemma_ids_item_added(
                s0,
                venue_id,
                order_id,
                order_item_id,
                menu_item_id,
                name,
                qty,
                notes,
                seq,
                routing,
                table,
            );
        },
        OrderEvent::ItemRemoved { order_id, order_item_id, .. } => {
            lemma_ids_item_removed(s0, order_id, order_item_id, seq);
        },
        OrderEvent::OrderClosed { order_id, .. } => {
            let ts = s.tickets;
            let ts2 = close_order_tickets(ts, order_id, seq);
            assert forall|j: int| 0 <= j < ts2.len() implies (#[trigger] ts2[j]).ticket_id
                == stable_ticket_id(ts2[j].order_id, ts2[j].station@) by {
                assert(ts[j].ticket_id == stable_ticket_id(ts[j].order_id, ts[j].station@));
            }
        },
        _ => {},
    }
}

/// Applying a kitchen event keeps every ticket's id derived from its order
/// and station.
pub proof fn law_kitchen_event_keeps_ticket_ids(s: KdsStateView, e: KdsEvent, seq: u64)
    requires
        ticket_ids_stable(s.tickets),
    ensures
        ticket_ids_stable(kds_after_kds_event(s, e, seq).state.tickets),
{
    let out = kds_after_kds_event(s, e, seq);
    let ts = s.tickets;
    if out.error is None && out.state.tickets != ts {
        let key = match e {
            KdsEvent::LineStarted { line_id, .. } => s.line_to_ticket[line_id]@,
            KdsEvent::LineDone { line_id, .. } => s.line_to_ticket[line_id]@,
            KdsEvent::TicketAcknowledged { station, order_id, .. } => super::model::KdsTicketKeyView { order_id, station: station@ },
            KdsEvent::TicketBumped { station, order_id, .. } => super::model::KdsTicketKeyView { order_id, station: station@ },
            KdsEvent::TicketRecalled { station, order_id, .. } => super::model::KdsTicketKeyView { order_id, station: station@ },
            KdsEvent::TicketNoteAdded { station, order_id, .. } => super::model::KdsTicketKeyView { order_id, station: station@ },
        };
        lemma_ticket_pos_from(ts, key, 0);
        let p = ticket_pos(ts, key);
        lemma_ids_update(ts, p, out.state.tickets[p]);
        assert(out.state.tickets =~= ts.update(p, out.state.tickets[p]));
    }
}

// ---------------------------------------------------------------------------
// Ordering lines

/// Lines in order of their ids.
pub open spec fn lines_in_id_order(s: Seq<KdsLineView>) -> bool {
    forall|i: int, j: int| 0 <= i < j < s.len() ==> (#[trigger] s[i]).line_id <= (#[trigger] s[j]).line_id
}

proof fn lemma_upper_pos(s: Seq<KdsLineView>, id: u128, i: int)
    requires
        0 <= i <= s.len(),
    ensures
        i <= upper_pos_from(s, id, i) <= s.len(),
        forall|j: int| i <= j < upper_pos_from(s, id, i) ==> (#[trigger] s[j]).line_id <= id,
        upper_pos_from(s, id, i) < s.len() ==> s[upper_pos_from(s, id, i)].line_id > id,
    decreases s.len() - i,
{
    if i < s.len() && s[i].line_id <= id {
        lemma_upper_pos(s, id, i + 1);
    }
}

proof fn lemma_insert_multiset(r: Seq<KdsLineView>, p: int, x: KdsLineView)
    requires
        0 <= p <= r.len(),
    ensures
        r.insert(p, x).to_multiset() =~= r.to_multiset().insert(x),
{
    let ins = r.insert(p, x);
    assert(ins.remove(p) =~= r);
    assert(ins[p] == x);
    assert(ins.contains(x));
}

/// Ordering lines puts them in id order and keeps exactly the same lines.
pub proof fn law_sorted_lines_are_ordered_and_complete(s: Seq<KdsLineView>)
    ensures
        lines_in_id_order(sort_lines(s)),
        sort_lines(s).to_multiset() =~= s.to_multiset(),
        sort_lines(s).len() == s.len(),
    decreases s.len(),
{
    if s.len() > 0 {
        let r = sort_lines(s.drop_last());
        law_sorted_lines_are_ordered_and_complete(s.drop_last());
        let x = s.last();
        lemma_upper_pos(r, x.line_id, 0);
        let p = upper_pos_from(r, x.line_id, 0);
        let out = r.insert(p, x);
        assert(out == insert_line_sorted(r, x));
        assert forall|i: int, j: int| 0 <= i < j < out.len() implies (#[trigger] out[i]).line_id
            <= (#[trigger] out[j]).line_id by {
            if j < p {
                assert(out[i] == r[i] && out[j] == r[j]);
            } else if j == p {
                assert(out[i] == r[i]);
            } else if i < p {
                assert(out[i] == r[i] && out[j] == r[j - 1]);
            } else if i == p {
                assert(out[j] == r[j - 1]);
                assert(r[p].line_id <= r[j - 1].line_id || j - 1 == p);
            } else {
                assert(out[i] == r[i - 1] && out[j] == r[j - 1]);
            }
        }
        lemma_insert_multiset(r, p, x);
        assert(s.drop_last().push(x) =~= s);
    }
}

// ---------------------------------------------------------------------------
// Printing

/// Once a printer has printed up to the latest change at its station, there
/// is nothing more to print for it.
pub proof fn law_nothing_to_print_after_latest(
    ts: Seq<KdsTicketView>,
    cs: Seq<super::model::KdsChangeView>,
    station: Seq<char>,
    last_seq: u64,
)
    requires
        forall|i: int| 0 <= i < cs.len() && (#[trigger] cs[i]).station@ == station ==> cs[i].seq <= last_seq,
    ensures
        deltas_since(ts, cs, station, last_seq) == Seq::<super::printing::KdsDeltaTicketView>::empty(),
    decreases cs.len(),
{
    if cs.len() > 0 {
        law_nothing_to_print_after_latest(ts, cs.drop_last(), station, last_seq);
        assert(cs.last() == cs[cs.len() - 1]);
    }
}


// ---------------------------------------------------------------------------
// Views for the kitchen

proof fn lemma_kitchen_view_bounded(ts: Seq<KdsTicketView>, station: Option<Seq<char>>, k: KdsTicketKeyView)
    requires
        forall|j: int| 0 <= j < ts.len() ==> key_before(ticket_key(#[trigger] ts[j]), k),
    ensures
        forall|i: int|
            0 <= i < kitchen_view(ts, station).len() ==> key_before(
                ticket_key(#[trigger] kitchen_view(ts, station)[i]),
                k,
            ),
    decreases ts.len(),
{
    if ts.len() > 0 {
        let d = ts.drop_last();
        assert forall|j: int| 0 <= j < d.len() implies key_before(ticket_key(#[trigger] d[j]), k) by {
            assert(d[j] == ts[j]);
        }
        lemma_kitchen_view_bounded(d, station, k);
        assert(ts.last() == ts[ts.len() - 1]);
        let prev = kitchen_view(d, station);
        if station_matches(ts.last(), station) {
            let out = prev.push(with_sorted_lines(ts.last()));
            assert(out == kitchen_view(ts, station));
            assert forall|i: int| 0 <= i < out.len() implies key_before(ticket_key(#[trigger] out[i]), k) by {
                if i < prev.len() {
                    assert(out[i] == prev[i]);
                } else {
                    assert(ticket_key(out[i]) == ticket_key(ts.last()));
                }
            }
        }
    }
}

/// The kitchen's view of the tickets keeps them in key order, holds only the
/// station's tickets, and shows each ticket's lines in id order.
pub proof fn law_kitchen_view_in_order(ts: Seq<KdsTicketView>, station: Option<Seq<char>>)
    requires
        tickets_sorted(ts),
    ensures
        tickets_sorted(kitchen_view(ts, station)),
        forall|i: int|
            0 <= i < kitchen_view(ts, station).len() ==> station_matches(
                #[trigger] kitchen_view(ts, station)[i],
                station,
            ) && lines_in_id_order(kitchen_view(ts, station)[i].lines),
    decreases ts.len(),
{
    if ts.len() > 0 {
        let d = ts.drop_last();
        assert(tickets_sorted(d)) by {
            assert forall|i: int, j: int| 0 <= i < j < d.len() implies key_before(
                ticket_key(#[trigger] d[i]),
                ticket_key(#[trigger] d[j]),
            ) by {
                assert(d[i] == ts[i] && d[j] == ts[j]);
            }
        }
        law_kitchen_view_in_order(d, station);
        let last = ts.last();
        assert(last == ts[ts.len() - 1]);
        assert forall|j: int| 0 <= j < d.len() implies key_before(ticket_key(#[trigger] d[j]), ticket_key(last)) by {
            assert(d[j] == ts[j]);
        }
        lemma_kitchen_view_bounded(d, station, ticket_key(last));
        law_sorted_lines_are_ordered_and_complete(last.lines);
        let prev = kitchen_view(d, station);
        if station_matches(last, station) {
            let out = prev.push(with_sorted_lines(last));
            assert(out == kitchen_view(ts, station));
            assert forall|i: int, j: int| 0 <= i < j < out.len() implies key_before(
                ticket_key(#[trigger] out[i]),
                ticket_key(#[trigger] out[j]),
            ) by {
                assert(out[i] == prev[i]);
                if j < prev.len() {
                    assert(out[j] == prev[j]);
                }
            }
            assert forall|i: int| 0 <= i < out.len() implies station_matches(#[trigger] out[i], station)
                && lines_in_id_order(out[i].lines) by {
                if i < prev.len() {
                    assert(out[i] == prev[i]);
                }
            }
        }
    }
}

// ---------------------------------------------------------------------------
// What the display knows of items and lines

/// Some ticket with key `k` shows a line with id `id`.
pub open spec fn ticket_shows_line(ts: Seq<KdsTicketView>, k: KdsTicketKeyView, id: u128) -> bool {
    exists|j: int, l: int|
        0 <= j < ts.len() && ticket_key(#[trigger] ts[j]) == k && 0 <= l < ts[j].lines.len() && (
        #[trigger] ts[j].lines[l]).line_id == id
}

/// Every item and line the display maps to a ticket is shown on that ticket.
pub open spec fn links_hold(s: KdsStateView) -> bool {
    &&& forall|id: u128|
        #[trigger] s.item_to_ticket.contains_key(id) ==> ticket_shows_line(
            s.tickets,
            s.item_to_ticket[id]@,
            id,
        )
    &&& forall|id: u128|
        #[trigger] s.line_to_ticket.contains_key(id) ==> ticket_shows_line(
            s.tickets,
            s.line_to_ticket[id]@,
            id,
        )
}

/// A ticket keeps every line it showed when it is replaced by one with the
/// same key whose first lines have the same ids.
pub open spec fn keeps_lines(old_t: KdsTicketView, new_t: KdsTicketView) -> bool {
    &&& ticket_key(new_t) == ticket_key(old_t)
    &&& new_t.lines.len() >= old_t.lines.len()
    &&& forall|l: int| 0 <= l < old_t.lines.len() ==> (#[trigger] new_t.lines[l]).line_id == old_t.lines[l].line_id
}

proof fn lemma_shows_update(ts: Seq<KdsTicketView>, p: int, t: KdsTicketView, k: KdsTicketKeyView, id: u128)
    requires
        ticket_shows_line(ts, k, id),
        0 <= p < ts.len(),
        keeps_lines(ts[p], t),
    ensures
        ticket_shows_line(ts.update(p, t), k, id),
{
    let (j, l) = choose|j: int, l: int|
        0 <= j < ts.len() && ticket_key(#[trigger] ts[j]) == k && 0 <= l < ts[j].lines.len() && (
        #[trigger] ts[j].lines[l]).line_id == id;
    let u = ts.update(p, t);
    if j == p {
        assert(u[j].lines[l].line_id == id);
    } else {
        assert(u[j] == ts[j]);
    }
}

proof fn lemma_shows_insert(ts: Seq<KdsTicketView>, q: int, t: KdsTicketView, k: KdsTicketKeyView, id: u128)
    requires
        ticket_shows_line(ts, k, id),
        0 <= q <= ts.len(),
    ensures
        ticket_shows_line(ts.insert(q, t), k, id),
{
    let (j, l) = choose|j: int, l: int|
        0 <= j < ts.len() && ticket_key(#[trigger] ts[j]) == k && 0 <= l < ts[j].lines.len() && (
        #[trigger] ts[j].lines[l]).line_id == id;
    let u = ts.insert(q, t);
    if j < q {
        assert(u[j] == ts[j]);
        assert(u[j].lines[l].line_id == id);
    } else {
        assert(u[j + 1] == ts[j]);
        assert(u[j + 1].lines[l].line_id == id);
    }
}

proof fn lemma_links_update(s: KdsStateView, p: int, t: KdsTicketView)
    requires
        links_hold(s),
        0 <= p < s.tickets.len(),
        keeps_lines(s.tickets[p], t),
    ensures
        links_hold(KdsStateView { tickets: s.tickets.update(p, t), ..s }),
{
    assert forall|id: u128| #[trigger] s.item_to_ticket.contains_key(id) implies ticket_shows_line(
        s.tickets.update(p, t),
        s.item_to_ticket[id]@,
        id,
    ) by {
        lemma_shows_update(s.tickets, p, t, s.item_to_ticket[id]@, id);
    }
    assert forall|id: u128| #[trigger] s.line_to_ticket.contains_key(id) implies ticket_shows_line(
        s.tickets.update(p, t),
        s.line_to_ticket[id]@,
        id,
    ) by {
        lemma_shows_update(s.tickets, p, t, s.line_to_ticket[id]@, id);
    }
}

proof fn lemma_links_item_added(
    s: KdsStateView,
    venue_id: VenueID,
    order_id: OrderID,
    order_item_id: OrderItemID,
    menu_item_id: MenuItemID,
    name: String,
    qty: u32,
    notes: Option<String>,
    seq: u64,
    routing: RoutingTable,
    table: Option<&Table>,
)
    requires
        kds_wf(s),
        links_hold(s),
    ensures
        links_hold(
            kds_item_added(
                s,
                venue_id,
                order_id,
                order_item_id,
                menu_item_id,
                name,
                qty,
                notes,
                seq,
                routing,
                table,
            ),
        ),
{
    let out = kds_item_added(
        s,
        venue_id,
        order_id,
        order_item_id,
        menu_item_id,
        name,
        qty,
        notes,
        seq,
        routing,
        table,
    );
    let ts = s.tickets;
    let station = super::routing::routed_station(routing, menu_item_id, name@);
    let key = super::model::KdsTicketKey { order_id, station };
    let ts1 = tickets_with_key(ts, key, venue_id, table, seq);
    let p = pos_with_key(ts, key);
    lemma_ticket_pos_from(ts, key@, 0);
    let s1 = KdsStateView { tickets: ts1, ..s };
    if ticket_pos(ts, key@) < 0 {
        lemma_insert_pos_exists(ts, key@);
        let q = insert_pos(ts, key@);
        assert forall|id: u128| #[trigger] s.item_to_ticket.contains_key(id) implies ticket_shows_line(
            ts1,
            s.item_to_ticket[id]@,
            id,
        ) by {
            lemma_shows_insert(ts, q, ts1[q], s.item_to_ticket[id]@, id);
            assert(ts.insert(q, ts1[q]) =~= ts1);
        }
        assert forall|id: u128| #[trigger] s.line_to_ticket.contains_key(id) implies ticket_shows_line(
            ts1,
            s.line_to_ticket[id]@,
            id,
        ) by {
            lemma_shows_insert(ts, q, ts1[q], s.line_to_ticket[id]@, id);
            assert(ts.insert(q, ts1[q]) =~= ts1);
        }
    }
    assert(links_hold(s1));
    assert(0 <= p < ts1.len());
    let t = super::projector::with_table(ts1[p], table);
    let lp = super::projector::line_pos(t.lines, order_item_id.0);
    super::projector::lemma_line_pos_from(t.lines, order_item_id.0, 0);
    let t2 = if lp >= 0 {
        KdsTicketView {
            lines: t.lines.update(lp, super::projector::bumped_line(t.lines[lp], qty)),
            updated_at_seq: seq,
            ..t
        }
    } else {
        KdsTicketView {
            lines: t.lines.push(super::projector::new_line(order_item_id.0, name, qty, notes)),
            updated_at_seq: seq,
            ..t
        }
    };
    assert(out.tickets == ts1.update(p, t2));
    assert(t.lines == ts1[p].lines);
    assert forall|l: int| 0 <= l < ts1[p].lines.len() implies (#[trigger] t2.lines[l]).line_id
        == ts1[p].lines[l].line_id by {
    }
    assert(keeps_lines(ts1[p], t2));
    lemma_links_update(s1, p, t2);
    let u = ts1.update(p, t2);
    let s2 = KdsStateView { tickets: u, ..s1 };
    assert(links_hold(s2));
    assert(out.tickets == u);
    if lp < 0 {
        let l = t.lines.len() as int;
        assert(u[p].lines[l].line_id == order_item_id.0);
        assert(ticket_key(u[p]) == key@);
        assert(ticket_shows_line(u, key@, order_item_id.0));
        assert(out.item_to_ticket == s.item_to_ticket.insert(order_item_id.0, key));
        assert(out.line_to_ticket == s.line_to_ticket.insert(order_item_id.0, key));
        assert forall|id: u128| #[trigger] out.item_to_ticket.contains_key(id) implies ticket_shows_line(
            out.tickets,
            out.item_to_ticket[id]@,
            id,
        ) by {
            if id != order_item_id.0 {
                assert(s2.item_to_ticket.contains_key(id));
                assert(out.item_to_ticket[id] == s2.item_to_ticket[id]);
            } else {
                assert(out.item_to_ticket[id] == key);
            }
        }
        assert forall|id: u128| #[trigger] out.line_to_ticket.contains_key(id) implies ticket_shows_line(
            out.tickets,
            out.line_to_ticket[id]@,
            id,
        ) by {
            if id != order_item_id.0 {
                assert(s2.line_to_ticket.contains_key(id));
                assert(out.line_to_ticket[id] == s2.line_to_ticket[id]);
            } else {
                assert(out.line_to_ticket[id] == key);
            }
        }
    } else {
        assert(out.item_to_ticket == s2.item_to_ticket);
        assert(out.line_to_ticket == s2.line_to_ticket);
    }
}

/// The projection keeps every item and line it maps on the ticket it maps
/// it to.
pub proof fn law_order_event_keeps_links(
    s: KdsStateView,
    e: OrderEvent,
    seq: u64,
    routing: RoutingTable,
    table: Option<&Table>,
)
    requires
        kds_wf(s),
        links_hold(s),
    ensures
        links_hold(kds_after_order_event(s, e, seq, routing, table).state),
{
    let s0 = KdsStateView { cursor: cursor_after(s.cursor, seq), ..s };
    let out = kds_after_order_event(s, e, seq, routing, table);
    match e {
        OrderEvent::ItemAdded {
            venue_id,
            order_id,
            order_item_id,
            menu_item_id,
            name,
            qty,
            notes,
            ..
        } => {
            lemma_links_item_added(
                s0,
                venue_id,
                order_id,
                order_item_id,
                menu_item_id,
                name,
                qty,
                notes,
                seq,
                routing,
                table,
            );
            assert(out.state == kds_item_added(
                s0,
                venue_id,
                order_id,
                order_item_id,
                menu_item_id,
                name,
                qty,
                notes,
                seq,
                routing,
                table,
            ));
        },
        OrderEvent::ItemRemoved { order_id, order_item_id, .. } => {
            if out.error is None && out.state.tickets != s0.tickets {
                let key = s0.item_to_ticket[order_item_id.0];
                lemma_ticket_pos_from(s0.tickets, key@, 0);
                let p = ticket_pos(s0.tickets, key@);
                let old_t = s0.tickets[p];
                let lp = super::projector::line_pos(old_t.lines, order_item_id.0);
                super::projector::lemma_line_pos_from(old_t.lines, order_item_id.0, 0);
                let t = KdsTicketView {
                    lines: old_t.lines.update(
                        lp,
                        KdsLineView { status: super::model::KdsLineStatus::Voided, ..old_t.lines[lp] },
                    ),
                    updated_at_seq: seq,
                    ..old_t
                };
                assert(out.state.tickets == s0.tickets.update(p, t));
                assert forall|l: int| 0 <= l < old_t.lines.len() implies (#[trigger] t.lines[l]).line_id
                    == old_t.lines[l].line_id by {
                }
                assert(keeps_lines(old_t, t));
                lemma_links_update(s0, p, t);
                let s2 = KdsStateView { tickets: s0.tickets.update(p, t), ..s0 };
                assert(links_hold(s2));
                assert(out.state.item_to_ticket == s2.item_to_ticket);
                assert(out.state.line_to_ticket == s2.line_to_ticket);
                assert(out.state.tickets == s2.tickets);
            }
        },
        OrderEvent::OrderClosed { order_id, .. } => {
            let ts = s0.tickets;
            let ts2 = close_order_tickets(ts, order_id, seq);
            assert forall|id: u128| #[trigger] s0.item_to_ticket.contains_key(id) implies ticket_shows_line(
                ts2,
                s0.item_to_ticket[id]@,
                id,
            ) by {
                let k = s0.item_to_ticket[id]@;
                let (j, l) = choose|j: int, l: int|
                    0 <= j < ts.len() && ticket_key(#[trigger] ts[j]) == k && 0 <= l < ts[j].lines.len()
                        && (#[trigger] ts[j].lines[l]).line_id == id;
                assert(ts2[j].lines[l].line_id == id);
            }
            assert forall|id: u128| #[trigger] s0.line_to_ticket.contains_key(id) implies ticket_shows_line(
                ts2,
                s0.line_to_ticket[id]@,
                id,
            ) by {
                let k = s0.line_to_ticket[id]@;
                let (j, l) = choose|j: int, l: int|
                    0 <= j < ts.len() && ticket_key(#[trigger] ts[j]) == k && 0 <= l < ts[j].lines.len()
                        && (#[trigger] ts[j].lines[l]).line_id == id;
                assert(ts2[j].lines[l].line_id == id);
            }
        },
        _ => {},
    }
}

/// Removing an item that the display shows is never refused, when the links
/// hold: its ticket and its line are found.
pub proof fn law_removing_a_known_item_is_accepted(
    s: KdsStateView,
    e: OrderEvent,
    seq: u64,
    routing: RoutingTable,
    table: Option<&Table>,
)
    requires
        kds_wf(s),
        links_hold(s),
        e matches OrderEvent::ItemRemoved { order_item_id, .. } && s.item_to_ticket.contains_key(
            order_item_id.0,
        ),
    ensures
        kds_after_order_event(s, e, seq, routing, table).error is None,
{
    let id = e->ItemRemoved_order_item_id.0;
    let k = s.item_to_ticket[id]@;
    let (j, l) = choose|j: int, l: int|
        0 <= j < s.tickets.len() && ticket_key(#[trigger] s.tickets[j]) == k && 0 <= l
            < s.tickets[j].lines.len() && (#[trigger] s.tickets[j].lines[l]).line_id == id;
    lemma_ticket_pos_from(s.tickets, k, 0);
    let p = ticket_pos(s.tickets, k);
    assert(p >= 0) by {
        if p < 0 {
            assert(ticket_key(s.tickets[j]) != k);
        }
    }
    assert(p == j) by {
        if p != j {
            let (a, b) = if p < j { (p, j) } else { (j, p) };
            assert(key_before(ticket_key(s.tickets[a]), ticket_key(s.tickets[b])));
            super::model::lemma_key_irreflexive(k);
        }
    }
    super::projector::lemma_line_pos_from(s.tickets[p].lines, id, 0);
    assert(super::projector::line_pos(s.tickets[p].lines, id) >= 0) by {
        if super::projector::line_pos(s.tickets[p].lines, id) < 0 {
            assert(s.tickets[p].lines[l].line_id != id);
        }
    }
}


/// Applying a kitchen event keeps every mapped item and line on the ticket it
/// is mapped to.
pub proof fn law_kitchen_event_keeps_links(s: KdsStateView, e: KdsEvent, seq: u64)
    requires
        links_hold(s),
    ensures
        links_hold(kds_after_kds_event(s, e, seq).state),
{
    let s0 = KdsStateView { cursor: cursor_after(s.cursor, seq), ..s };
    let out = kds_after_kds_event(s, e, seq);
    let ts = s0.tickets;
    if out.error is None && out.state.tickets != ts {
        let key = match e {
            KdsEvent::LineStarted { line_id, .. } => s.line_to_ticket[line_id]@,
            KdsEvent::LineDone { line_id, .. } => s.line_to_ticket[line_id]@,
            KdsEvent::TicketAcknowledged { station, order_id, .. } => KdsTicketKeyView { order_id, station: station@ },
            KdsEvent::TicketBumped { station, order_id, .. } => KdsTicketKeyView { order_id, station: station@ },
            KdsEvent::TicketRecalled { station, order_id, .. } => KdsTicketKeyView { order_id, station: station@ },
            KdsEvent::TicketNoteAdded { station, order_id, .. } => KdsTicketKeyView { order_id, station: station@ },
        };
        lemma_ticket_pos_from(ts, key, 0);
        let p = ticket_pos(ts, key);
        let t = out.state.tickets[p];
        assert(out.state.tickets =~= ts.update(p, t));
        match e {
            KdsEvent::LineStarted { line_id, .. } | KdsEvent::LineDone { line_id, .. } => {
                super::projector::lemma_line_pos_from(ts[p].lines, line_id, 0);
            },
            _ => {},
        }
        assert forall|l: int| 0 <= l < ts[p].lines.len() implies (#[trigger] t.lines[l]).line_id
            == ts[p].lines[l].line_id by {
        }
        assert(keeps_lines(ts[p], t));
        lemma_links_update(s0, p, t);
        let s2 = KdsStateView { tickets: ts.update(p, t), ..s0 };
        assert(links_hold(s2));
        assert(out.state.item_to_ticket == s2.item_to_ticket);
        assert(out.state.line_to_ticket == s2.line_to_ticket);
        assert(out.state.tickets == s2.tickets);
    }
}

/// Starting or finishing a line that the display maps to a ticket is never
/// refused, when the links hold.
pub proof fn law_known_line_events_are_accepted(s: KdsStateView, e: KdsEvent, seq: u64)
    requires
        kds_wf(s),
        links_hold(s),
        match e {
            KdsEvent::LineStarted { line_id, .. } => s.line_to_ticket.contains_key(line_id),
            KdsEvent::LineDone { line_id, .. } => s.line_to_ticket.contains_key(line_id),
            _ => false,
        },
    ensures
        kds_after_kds_event(s, e, seq).error is None,
{
    let id = match e {
        KdsEvent::LineStarted { line_id, .. } => line_id,
        KdsEvent::LineDone { line_id, .. } => line_id,
        _ => 0,
    };
    let k = s.line_to_ticket[id]@;
    let (j, l) = choose|j: int, l: int|
        0 <= j < s.tickets.len() && ticket_key(#[trigger] s.tickets[j]) == k && 0 <= l
            < s.tickets[j].lines.len() && (#[trigger] s.tickets[j].lines[l]).line_id == id;
    lemma_ticket_pos_from(s.tickets, k, 0);
    let p = ticket_pos(s.tickets, k);
    assert(p >= 0) by {
        if p < 0 {
            assert(ticket_key(s.tickets[j]) != k);
        }
    }
    assert(p == j) by {
        if p != j {
            let (a, b) = if p < j { (p, j) } else { (j, p) };
            assert(key_before(ticket_key(s.tickets[a]), ticket_key(s.tickets[b])));
            super::model::lemma_key_irreflexive(k);
        }
    }
    super::projector::lemma_line_pos_from(s.tickets[p].lines, id, 0);
    assert(super::projector::line_pos(s.tickets[p].lines, id) >= 0) by {
        if super::projector::line_pos(s.tickets[p].lines, id) < 0 {
            assert(s.tickets[p].lines[l].line_id != id);
        }
    }
}


// ---------------------------------------------------------------------------
// Every display the library builds

proof fn lemma_wf_item_added(
    s: KdsStateView,
    venue_id: VenueID,
    order_id: OrderID,
    order_item_id: OrderItemID,
    menu_item_id: MenuItemID,
    name: String,
    qty: u32,
    notes: Option<String>,
    seq: u64,
    routing: RoutingTable,
    table: Option<&Table>,
)
    requires
        kds_wf(s),
    ensures
        kds_wf(
            kds_item_added(
                s,
                venue_id,
                order_id,
                order_item_id,
                menu_item_id,
                name,
                qty,
                notes,
                seq,
                routing,
                table,
            ),
        ),
{
    let out = kds_item_added(
        s,
        venue_id,
        order_id,
        order_item_id,
        menu_item_id,
        name,
        qty,
        notes,
        seq,
        routing,
        table,
    );
    let ts = s.tickets;
    let station = super::routing::routed_station(routing, menu_item_id, name@);
    let key = super::model::KdsTicketKey { order_id, station };
    let ts1 = tickets_with_key(ts, key, venue_id, table, seq);
    let p = pos_with_key(ts, key);
    lemma_ticket_pos_from(ts, key@, 0);
    if ticket_pos(ts, key@) < 0 {
        lemma_insert_pos_exists(ts, key@);
        super::projector::lemma_sorted_insert(
            ts,
            super::projector::new_ticket(key, venue_id, table, seq),
            insert_pos(ts, key@),
        );
    }
    assert(tickets_sorted(ts1));
    assert(0 <= p < ts1.len());
    super::model::lemma_sorted_update(ts1, p, out.tickets[p]);
    assert(out.tickets =~= ts1.update(p, out.tickets[p]));
}

/// Projecting an order event keeps the tickets in key order.
pub proof fn law_order_event_keeps_key_order(
    s: KdsStateView,
    e: OrderEvent,
    seq: u64,
    routing: RoutingTable,
    table: Option<&Table>,
)
    requires
        kds_wf(s),
    ensures
        kds_wf(kds_after_order_event(s, e, seq, routing, table).state),
{
    let s0 = KdsStateView { cursor: cursor_after(s.cursor, seq), ..s };
    let out = kds_after_order_event(s, e, seq, routing, table);
    match e {
        OrderEvent::ItemAdded {
            venue_id,
            order_id,
            order_item_id,
            menu_item_id,
            name,
            qty,
            notes,
            ..
        } => {
            lemma_wf_item_added(
                s0,
                venue_id,
                order_id,
                order_item_id,
                menu_item_id,
                name,
                qty,
                notes,
                seq,
                routing,
                table,
            );
            assert(out.state == kds_item_added(
                s0,
                venue_id,
                order_id,
                order_item_id,
                menu_item_id,
                name,
                qty,
                notes,
                seq,
                routing,
                table,
            ));
        },
        OrderEvent::ItemRemoved { order_id, order_item_id, .. } => {
            if out.error is None && out.state.tickets != s0.tickets {
                let key = s0.item_to_ticket[order_item_id.0];
                lemma_ticket_pos_from(s0.tickets, key@, 0);
                let p = ticket_pos(s0.tickets, key@);
                super::model::lemma_sorted_update(s0.tickets, p, out.state.tickets[p]);
                assert(out.state.tickets =~= s0.tickets.update(p, out.state.tickets[p]));
            }
        },
        OrderEvent::OrderClosed { order_id, .. } => {
            super::projector::lemma_sorted_same_keys(
                s0.tickets,
                close_order_tickets(s0.tickets, order_id, seq),
            );
        },
        _ => {},
    }
}

/// Applying a kitchen event keeps the tickets in key order.
pub proof fn law_kitchen_event_keeps_key_order(s: KdsStateView, e: KdsEvent, seq: u64)
    requires
        kds_wf(s),
    ensures
        kds_wf(kds_after_kds_event(s, e, seq).state),
{
    let out = kds_after_kds_event(s, e, seq);
    let ts = s.tickets;
    if out.error is None && out.state.tickets != ts {
        let key = match e {
            KdsEvent::LineStarted { line_id, .. } => s.line_to_ticket[line_id]@,
            KdsEvent::LineDone { line_id, .. } => s.line_to_ticket[line_id]@,
            KdsEvent::TicketAcknowledged { station, order_id, .. } => KdsTicketKeyView { order_id, station: station@ },
            KdsEvent::TicketBumped { station, order_id, .. } => KdsTicketKeyView { order_id, station: station@ },
            KdsEvent::TicketRecalled { station, order_id, .. } => KdsTicketKeyView { order_id, station: station@ },
            KdsEvent::TicketNoteAdded { station, order_id, .. } => KdsTicketKeyView { order_id, station: station@ },
        };
        lemma_ticket_pos_from(ts, key, 0);
        let p = ticket_pos(ts, key);
        super::model::lemma_sorted_update(ts, p, out.state.tickets[p]);
        assert(out.state.tickets =~= ts.update(p, out.state.tickets[p]));
    }
}

/// What every display built by the library satisfies: tickets in key order,
/// ids derived from order and station, and every mapped item and line shown
/// on its ticket.
pub open spec fn display_consistent(s: KdsStateView) -> bool {
    &&& kds_wf(s)
    &&& ticket_ids_stable(s.tickets)
    &&& links_hold(s)
}

/// The empty display is consistent.
pub proof fn law_empty_display_is_consistent()
    ensures
        display_consistent(super::model::empty_kds()),
{
}

/// A display rebuilt from events, when no event was refused, is consistent.
pub proof fn law_rebuilt_display_is_consistent(
    evs: Seq<crate::envelope::EventEnvelope>,
    routing: RoutingTable,
    table: Option<&Table>,
)
    ensures
        display_consistent(crate::snapshot::kds_replay(evs, routing, table).state),
    decreases evs.len(),
{
    if evs.len() > 0 {
        law_rebuilt_display_is_consistent(evs.drop_last(), routing, table);
        let prev = crate::snapshot::kds_replay(evs.drop_last(), routing, table);
        if prev.error is None {
            let env = evs.last();
            match env.event {
                crate::envelope::CoreEvent::Order(e) => {
                    let seq = super::projector::kds_event_seq(prev.state, env);
                    law_order_event_keeps_key_order(prev.state, e, seq, routing, table);
                    law_order_event_keeps_ticket_ids(prev.state, e, seq, routing, table);
                    law_order_event_keeps_links(prev.state, e, seq, routing, table);
                },
                _ => {},
            }
        }
    }
}


// ---------------------------------------------------------------------------
// Removing an item again

proof fn lemma_ticket_pos_update(ts: Seq<KdsTicketView>, p: int, t: KdsTicketView, k: KdsTicketKeyView, i: int)
    requires
        0 <= p < ts.len(),
        ticket_key(t) == ticket_key(ts[p]),
        0 <= i,
    ensures
        super::projector::ticket_pos_from(ts.update(p, t), k, i) == super::projector::ticket_pos_from(ts, k, i),
    decreases ts.len() - i,
{
    if i < ts.len() {
        assert(ticket_key(ts.update(p, t)[i]) == ticket_key(ts[i]));
        lemma_ticket_pos_update(ts, p, t, k, i + 1);
    }
}

proof fn lemma_line_pos_update(ls: Seq<KdsLineView>, q: int, l: KdsLineView, id: u128, i: int)
    requires
        0 <= q < ls.len(),
        l.line_id == ls[q].line_id,
        0 <= i,
    ensures
        super::projector::line_pos_from(ls.update(q, l), id, i) == super::projector::line_pos_from(ls, id, i),
    decreases ls.len() - i,
{
    if i < ls.len() {
        assert(ls.update(q, l)[i].line_id == ls[i].line_id);
        lemma_line_pos_update(ls, q, l, id, i + 1);
    }
}

/// Removing an item a second time, with the same sequence number, changes
/// nothing: the display and the answer are those of removing it once.
pub proof fn law_removing_an_item_twice_is_removing_it_once(
    s: KdsStateView,
    e: OrderEvent,
    seq: u64,
    routing: RoutingTable,
    table: Option<&Table>,
)
    requires
        e is ItemRemoved,
    ensures
        kds_after_order_event(kds_after_order_event(s, e, seq, routing, table).state, e, seq, routing, table)
            == kds_after_order_event(s, e, seq, routing, table),
{
    let order_id = e->ItemRemoved_order_id;
    let item = e->ItemRemoved_order_item_id;
    let s0 = KdsStateView { cursor: cursor_after(s.cursor, seq), ..s };
    let once = kds_after_order_event(s, e, seq, routing, table);
    assert(once == kds_item_removed(s0, order_id, item, seq));
    let s1 = once.state;
    assert(s1.cursor == s0.cursor);
    assert((KdsStateView { cursor: cursor_after(s1.cursor, seq), ..s1 }) == s1);
    let twice = kds_after_order_event(s1, e, seq, routing, table);
    assert(twice == kds_item_removed(s1, order_id, item, seq));
    if s0.item_to_ticket.contains_key(item.0) {
        let key = s0.item_to_ticket[item.0];
        let p = ticket_pos(s0.tickets, key@);
        if p >= 0 {
            lemma_ticket_pos_from(s0.tickets, key@, 0);
            let t = s0.tickets[p];
            let lp = super::projector::line_pos(t.lines, item.0);
            if lp >= 0 {
                super::projector::lemma_line_pos_from(t.lines, item.0, 0);
                let l = t.lines[lp];
                if l.status != super::model::KdsLineStatus::Voided {
                    let nl = super::model::KdsLineView { status: super::model::KdsLineStatus::Voided, ..l };
                    let nt = KdsTicketView { lines: t.lines.update(lp, nl), updated_at_seq: seq, ..t };
                    assert(s1.tickets == s0.tickets.update(p, nt));
                    assert(s1.item_to_ticket == s0.item_to_ticket);
                    lemma_ticket_pos_update(s0.tickets, p, nt, key@, 0);
                    assert(ticket_pos(s1.tickets, key@) == p);
                    assert(s1.tickets[p] == nt);
                    lemma_line_pos_update(t.lines, lp, nl, item.0, 0);
                    assert(super::projector::line_pos(nt.lines, item.0) == lp);
                    assert(nt.lines[lp].status == super::model::KdsLineStatus::Voided);
                }
            }
        }
    }
}

// ---------------------------------------------------------------------------
// The ticket-id hash

/// Hashing a concatenation is hashing its second part from the hash of the
/// first: FNV-1a carries its whole state in the running hash.
pub proof fn law_fnv_concatenation(a: Seq<u8>, b: Seq<u8>, seed: u64)
    ensures
        super::projector::fnv1a64_of(a + b, seed) == super::projector::fnv1a64_of(
            b,
            super::projector::fnv1a64_of(a, seed),
        ),
    decreases b.len(),
{
    if b.len() == 0 {
        assert(a + b =~= a);
    } else {
        law_fnv_concatenation(a, b.drop_last(), seed);
        assert((a + b).drop_last() =~= a + b.drop_last());
        assert((a + b).last() == b.last());
    }
}


// ---------------------------------------------------------------------------
// What a delta print holds

/// The change counts towards the delta of `order_id` at `station`: it came
/// after `last_seq`, at that station, for that order, and concerns a line.
pub open spec fn delta_counts(
    c: super::model::KdsChangeView,
    order_id: OrderID,
    station: Seq<char>,
    last_seq: u64,
) -> bool {
    &&& c.seq > last_seq
    &&& c.station@ == station
    &&& c.order_id == order_id
    &&& super::printing::delta_line_of(c.change) is Some
}

/// The delta lines of the changes that count for an order, in log order.
pub open spec fn order_delta_lines(
    cs: Seq<super::model::KdsChangeView>,
    order_id: OrderID,
    station: Seq<char>,
    last_seq: u64,
) -> Seq<super::printing::KdsDeltaLineView>
    decreases cs.len(),
{
    if cs.len() == 0 {
        Seq::empty()
    } else {
        let prev = order_delta_lines(cs.drop_last(), order_id, station, last_seq);
        if delta_counts(cs.last(), order_id, station, last_seq) {
            prev.push(super::printing::delta_line_of(cs.last().change)->Some_0)
        } else {
            prev
        }
    }
}

/// The latest sequence number among the changes that count for an order (0
/// when none does).
pub open spec fn order_delta_seq(
    cs: Seq<super::model::KdsChangeView>,
    order_id: OrderID,
    station: Seq<char>,
    last_seq: u64,
) -> u64
    decreases cs.len(),
{
    if cs.len() == 0 {
        0
    } else {
        let prev = order_delta_seq(cs.drop_last(), order_id, station, last_seq);
        if delta_counts(cs.last(), order_id, station, last_seq) {
            super::printing::max_seq(prev, cs.last().seq)
        } else {
            prev
        }
    }
}

pub open spec fn station_key(order_id: OrderID, station: Seq<char>) -> KdsTicketKeyView {
    KdsTicketKeyView { order_id, station }
}

proof fn lemma_delta_pos_from(
    ds: Seq<super::printing::KdsDeltaTicketView>,
    order_id: OrderID,
    station: Seq<char>,
    i: int,
)
    requires
        0 <= i,
    ensures
        super::printing::delta_pos_from(ds, order_id, station, i) == -1 ==> forall|j: int|
            i <= j < ds.len() ==> !((#[trigger] ds[j]).order_id == order_id && ds[j].station@ == station),
        super::printing::delta_pos_from(ds, order_id, station, i) != -1 ==> {
            let p = super::printing::delta_pos_from(ds, order_id, station, i);
            i <= p < ds.len() && ds[p].order_id == order_id && ds[p].station@ == station
        },
    decreases ds.len() - i,
{
    if i < ds.len() && !(ds[i].order_id == order_id && ds[i].station@ == station) {
        lemma_delta_pos_from(ds, order_id, station, i + 1);
    }
}

/// What `deltas_since` prints, said directly: at most one delta ticket per
/// order, each for the station and for an order that has a ticket there, with
/// the id of that ticket; its lines are those of the order's changes after
/// `last_seq` at the station, in log order, and its sequence number is the
/// latest of theirs. Every order with such a change and a ticket at the
/// station gets its delta ticket.
pub proof fn law_deltas_gather_each_orders_changes(
    ts: Seq<KdsTicketView>,
    cs: Seq<super::model::KdsChangeView>,
    station: Seq<char>,
    last_seq: u64,
)
    ensures
        ({
            let ds = deltas_since(ts, cs, station, last_seq);
            &&& forall|i: int, j: int|
                0 <= i < j < ds.len() ==> (#[trigger] ds[i]).order_id != (#[trigger] ds[j]).order_id
            &&& forall|i: int|
                0 <= i < ds.len() ==> {
                    &&& (#[trigger] ds[i]).station@ == station
                    &&& ds[i].lines == order_delta_lines(cs, ds[i].order_id, station, last_seq)
                    &&& ds[i].seq == order_delta_seq(cs, ds[i].order_id, station, last_seq)
                    &&& ticket_pos(ts, station_key(ds[i].order_id, station)) >= 0
                    &&& ds[i].ticket_id == ts[ticket_pos(ts, station_key(ds[i].order_id, station))].ticket_id
                    &&& ds[i].venue_id == ts[ticket_pos(ts, station_key(ds[i].order_id, station))].venue_id
                    &&& ds[i].table_id == ts[ticket_pos(ts, station_key(ds[i].order_id, station))].table_id
                    &&& ds[i].table_label == ts[ticket_pos(ts, station_key(ds[i].order_id, station))].table_label
                }
            &&& forall|o: OrderID|
                (#[trigger] order_delta_lines(cs, o, station, last_seq)).len() > 0 && ticket_pos(
                    ts,
                    station_key(o, station),
                ) >= 0 ==> exists|i: int| 0 <= i < ds.len() && (#[trigger] ds[i]).order_id == o
            &&& forall|o: OrderID|
                (#[trigger] order_delta_lines(cs, o, station, last_seq)).len() == 0
                    ==> order_delta_seq(cs, o, station, last_seq) == 0
        }),
    decreases cs.len(),
{
    if cs.len() > 0 {
        let d = cs.drop_last();
        law_deltas_gather_each_orders_changes(ts, d, station, last_seq);
        let prev = deltas_since(ts, d, station, last_seq);
        let ds = deltas_since(ts, cs, station, last_seq);
        let c = cs.last();
        assert forall|o: OrderID| o != c.order_id implies #[trigger] order_delta_lines(
            cs,
            o,
            station,
            last_seq,
        ) == order_delta_lines(d, o, station, last_seq) && order_delta_seq(cs, o, station, last_seq)
            == order_delta_seq(d, o, station, last_seq) by {}
        if c.seq > last_seq && c.station@ == station && super::printing::delta_line_of(c.change) is Some {
            let o = c.order_id;
            let dl = super::printing::delta_line_of(c.change)->Some_0;
            assert(order_delta_lines(cs, o, station, last_seq) == order_delta_lines(d, o, station, last_seq).push(dl));
            assert(order_delta_seq(cs, o, station, last_seq) == super::printing::max_seq(
                order_delta_seq(d, o, station, last_seq),
                c.seq,
            ));
            lemma_delta_pos_from(prev, o, c.station@, 0);
            let di = super::printing::delta_pos_from(prev, o, c.station@, 0);
            if di >= 0 {
                let nd = super::printing::KdsDeltaTicketView {
                    lines: prev[di].lines.push(dl),
                    seq: super::printing::max_seq(prev[di].seq, c.seq),
                    ..prev[di]
                };
                assert(ds == prev.update(di, nd));
                assert forall|o2: OrderID|
                    (#[trigger] order_delta_lines(cs, o2, station, last_seq)).len() > 0 && ticket_pos(
                        ts,
                        station_key(o2, station),
                    ) >= 0 implies exists|i: int| 0 <= i < ds.len() && (#[trigger] ds[i]).order_id == o2 by {
                    if o2 == o {
                        assert(ds[di].order_id == o2);
                    } else {
                        let i = choose|i: int| 0 <= i < prev.len() && (#[trigger] prev[i]).order_id == o2;
                        assert(ds[i].order_id == o2);
                    }
                }
            } else {
                let p = ticket_pos(ts, KdsTicketKeyView { order_id: o, station: c.station@ });
                assert(station_key(o, station) == KdsTicketKeyView { order_id: o, station: c.station@ });
                if p < 0 {
                    assert(ds == prev);
                    assert forall|i: int| 0 <= i < ds.len() implies (#[trigger] ds[i]).order_id != o by {}
                } else {
                    assert(order_delta_lines(d, o, station, last_seq).len() == 0) by {
                        if order_delta_lines(d, o, station, last_seq).len() > 0 {
                            let i = choose|i: int| 0 <= i < prev.len() && (#[trigger] prev[i]).order_id == o;
                        }
                    }
                    assert(order_delta_lines(cs, o, station, last_seq) =~= seq![dl]);
                    assert(ds.len() == prev.len() + 1);
                    assert(ds[prev.len() as int].order_id == o);
                    assert forall|i: int| 0 <= i < ds.len() implies {
                        &&& (#[trigger] ds[i]).station@ == station
                        &&& ds[i].lines == order_delta_lines(cs, ds[i].order_id, station, last_seq)
                        &&& ds[i].seq == order_delta_seq(cs, ds[i].order_id, station, last_seq)
                        &&& ticket_pos(ts, station_key(ds[i].order_id, station)) >= 0
                        &&& ds[i].ticket_id == ts[ticket_pos(ts, station_key(ds[i].order_id, station))].ticket_id
                        &&& ds[i].venue_id == ts[ticket_pos(ts, station_key(ds[i].order_id, station))].venue_id
                        &&& ds[i].table_id == ts[ticket_pos(ts, station_key(ds[i].order_id, station))].table_id
                        &&& ds[i].table_label == ts[ticket_pos(ts, station_key(ds[i].order_id, station))].table_label
                    } by {
                        if i < prev.len() {
                            assert(ds[i] == prev[i]);
                        }
                    }
                    assert forall|o2: OrderID|
                        (#[trigger] order_delta_lines(cs, o2, station, last_seq)).len() > 0 && ticket_pos(
                            ts,
                            station_key(o2, station),
                        ) >= 0 implies exists|i: int| 0 <= i < ds.len() && (#[trigger] ds[i]).order_id == o2 by {
                        if o2 == o {
                            assert(ds[prev.len() as int].order_id == o2);
                        } else {
                            let i = choose|i: int| 0 <= i < prev.len() && (#[trigger] prev[i]).order_id == o2;
                            assert(ds[i].order_id == o2);
                        }
                    }
                }
            }
        } else {
            assert(ds == prev);
            assert forall|o: OrderID| #[trigger] order_delta_lines(cs, o, station, last_seq)
                == order_delta_lines(d, o, station, last_seq) && order_delta_seq(cs, o, station, last_seq)
                == order_delta_seq(d, o, station, last_seq) by {}
        }
    }
}


// ---------------------------------------------------------------------------
// Finishing lines, re-ordered items and delta lines

/// Finishing a line never makes a ticket ready while it still has a line that
/// is new or in progress: after `LineDone`, a ticket that is `Ready` either
/// was `Ready` already or has every line done or voided. No ticket is added
/// or removed.
pub proof fn law_line_done_readies_only_finished_tickets(s: KdsStateView, e: KdsEvent, seq: u64)
    requires
        e is LineDone,
    ensures
        ({
            let after = kds_after_kds_event(s, e, seq).state;
            &&& after.tickets.len() == s.tickets.len()
            &&& forall|i: int|
                0 <= i < after.tickets.len() && (#[trigger] after.tickets[i]).status
                    == super::model::KdsTicketStatus::Ready ==> s.tickets[i].status
                    == super::model::KdsTicketStatus::Ready || forall|l: int|
                    0 <= l < after.tickets[i].lines.len() ==> (#[trigger] after.tickets[i].lines[l]).status
                        == super::model::KdsLineStatus::Done || after.tickets[i].lines[l].status
                        == super::model::KdsLineStatus::Voided
        }),
{
    let after = kds_after_kds_event(s, e, seq).state;
    let line_id = e->LineDone_line_id;
    let s0 = KdsStateView { cursor: cursor_after(s.cursor, seq), ..s };
    assert(kds_after_kds_event(s, e, seq) == super::projector::kds_line_event(
        s0,
        line_id,
        super::model::KdsLineStatus::Done,
        seq,
    ));
    if s0.line_to_ticket.contains_key(line_id) {
        let key = s0.line_to_ticket[line_id];
        let p = ticket_pos(s0.tickets, key@);
        if p >= 0 {
            lemma_ticket_pos_from(s0.tickets, key@, 0);
            let t = s0.tickets[p];
            let lp = super::projector::line_pos(t.lines, line_id);
            if lp >= 0 {
                super::projector::lemma_line_pos_from(t.lines, line_id, 0);
                let lines = t.lines.update(
                    lp,
                    KdsLineView { status: super::model::KdsLineStatus::Done, ..t.lines[lp] },
                );
                let st = super::projector::status_after_line(t, lines, super::model::KdsLineStatus::Done);
                assert(after.tickets == s0.tickets.update(
                    p,
                    KdsTicketView { lines, status: st, updated_at_seq: seq, ..t },
                ));
                assert forall|i: int|
                    0 <= i < after.tickets.len() && (#[trigger] after.tickets[i]).status
                        == super::model::KdsTicketStatus::Ready implies s.tickets[i].status
                        == super::model::KdsTicketStatus::Ready || forall|l: int|
                        0 <= l < after.tickets[i].lines.len() ==> (
                        #[trigger] after.tickets[i].lines[l]).status == super::model::KdsLineStatus::Done
                            || after.tickets[i].lines[l].status == super::model::KdsLineStatus::Voided by {
                    if i == p && s.tickets[i].status != super::model::KdsTicketStatus::Ready {
                        assert(super::projector::all_lines_finished(lines));
                        assert(after.tickets[i].lines == lines);
                    }
                }
            }
        }
    }
}

/// The delta line for a change carries the quantity the line has after it:
/// the new quantity for a quantity change (with both quantities in its
/// kind), the quantity added or voided otherwise; a note gives no line.
pub proof fn law_delta_line_carries_the_new_quantity(c: super::model::KdsChangeKindView)
    ensures
        c matches super::model::KdsChangeKindView::LineQtyChanged { line_id, from_qty, to_qty, .. }
            ==> super::printing::delta_line_of(c) matches Some(dl) && dl.line_id == line_id
            && dl.qty == to_qty && dl.kind == (super::printing::KdsDeltaKind::QtyChanged {
            from_qty,
            to_qty,
        }),
        c matches super::model::KdsChangeKindView::LineAdded { line_id, qty, .. }
            ==> super::printing::delta_line_of(c) matches Some(dl) && dl.line_id == line_id
            && dl.qty == qty && dl.kind == super::printing::KdsDeltaKind::Added,
        c matches super::model::KdsChangeKindView::LineVoided { line_id, qty, .. }
            ==> super::printing::delta_line_of(c) matches Some(dl) && dl.line_id == line_id
            && dl.qty == qty && dl.kind == super::printing::KdsDeltaKind::Voided,
        c is TicketNoteAdded ==> super::printing::delta_line_of(c) is None,
{
}

/// Ordering again an item that its ticket already shows adds the quantity to
/// its line (saturating at `u32::MAX`), brings a voided line back as new,
/// leaves the ticket's other lines alone and logs the change from the old to
/// the new quantity; the event is accepted and no ticket or line is added.
pub proof fn law_readding_an_item_adds_to_its_line(
    s: KdsStateView,
    e: OrderEvent,
    seq: u64,
    routing: RoutingTable,
    table: Option<&Table>,
)
    requires
        e matches OrderEvent::ItemAdded { order_id, order_item_id, menu_item_id, name, .. } && {
            let key = KdsTicketKeyView {
                order_id,
                station: super::routing::routed_station(routing, menu_item_id, name@)@,
            };
            let p = ticket_pos(s.tickets, key);
            p >= 0 && super::projector::line_pos(s.tickets[p].lines, order_item_id.0) >= 0
        },
    ensures
        ({
            let order_id = e->ItemAdded_order_id;
            let item = e->ItemAdded_order_item_id;
            let qty = e->ItemAdded_qty;
            let key = KdsTicketKeyView {
                order_id,
                station: super::routing::routed_station(routing, e->ItemAdded_menu_item_id, e->ItemAdded_name@)@,
            };
            let p = ticket_pos(s.tickets, key);
            let lp = super::projector::line_pos(s.tickets[p].lines, item.0);
            let old_qty = s.tickets[p].lines[lp].qty;
            let new_qty: int = if old_qty + qty > u32::MAX { u32::MAX as int } else { old_qty + qty };
            let out = kds_after_order_event(s, e, seq, routing, table);
            &&& out.error is None
            &&& out.state.tickets.len() == s.tickets.len()
            &&& out.state.tickets[p].lines.len() == s.tickets[p].lines.len()
            &&& out.state.tickets[p].lines[lp].line_id == item.0
            &&& out.state.tickets[p].lines[lp].qty == new_qty
            &&& out.state.tickets[p].lines[lp].status == if s.tickets[p].lines[lp].status
                == super::model::KdsLineStatus::Voided {
                super::model::KdsLineStatus::New
            } else {
                s.tickets[p].lines[lp].status
            }
            &&& out.state.tickets[p].lines[lp].name == s.tickets[p].lines[lp].name
            &&& out.state.tickets[p].lines[lp].modifiers == s.tickets[p].lines[lp].modifiers
            &&& out.state.tickets[p].lines[lp].note == s.tickets[p].lines[lp].note
            &&& forall|l: int| 0 <= l < s.tickets[p].lines.len() && l != lp ==> #[trigger] out.state.tickets[p].lines[l]
                == s.tickets[p].lines[l]
            &&& out.state.changes.len() == s.changes.len() + 1
            &&& out.state.changes.last() matches super::model::KdsChangeView {
                change: super::model::KdsChangeKindView::LineQtyChanged { line_id, from_qty, to_qty, .. },
                ..
            } && line_id == item.0 && from_qty == old_qty && to_qty == new_qty
        }),
{
    let item = e->ItemAdded_order_item_id;
    let key = KdsTicketKeyView {
        order_id: e->ItemAdded_order_id,
        station: super::routing::routed_station(routing, e->ItemAdded_menu_item_id, e->ItemAdded_name@)@,
    };
    lemma_ticket_pos_from(s.tickets, key, 0);
    let p = ticket_pos(s.tickets, key);
    super::projector::lemma_line_pos_from(s.tickets[p].lines, item.0, 0);
}


/// What a line event may change: no ticket or line is added or removed, only
/// the line with id `id` changes, and only to the status `target`; a ticket
/// keeps everything but its lines, status and update stamp.
pub open spec fn only_line_set(s: KdsStateView, after: KdsStateView, id: u128, target: super::model::KdsLineStatus) -> bool {
    &&& after.tickets.len() == s.tickets.len()
    &&& forall|i: int|
        0 <= i < s.tickets.len() ==> {
            let a = #[trigger] after.tickets[i];
            let b = s.tickets[i];
            &&& a.lines.len() == b.lines.len()
            &&& a == (KdsTicketView { lines: a.lines, status: a.status, updated_at_seq: a.updated_at_seq, ..b })
            &&& forall|l: int|
                0 <= l < b.lines.len() && #[trigger] a.lines[l] != b.lines[l] ==> b.lines[l].line_id == id
                    && a.lines[l] == (KdsLineView { status: target, ..b.lines[l] })
        }
    &&& after.item_to_ticket == s.item_to_ticket
    &&& after.line_to_ticket == s.line_to_ticket
    &&& after.changes == s.changes
}

/// The ticket at `i` shows the line `id` with status `target`.
pub open spec fn shows_line_with(ts: Seq<KdsTicketView>, i: int, id: u128, target: super::model::KdsLineStatus) -> bool {
    exists|l: int| 0 <= l < ts[i].lines.len() && (#[trigger] ts[i].lines[l]).line_id == id && ts[i].lines[l].status == target
}

proof fn lemma_line_event_effect(s: KdsStateView, line_id: u128, target: super::model::KdsLineStatus, seq: u64) -> (p: int)
    ensures
        ({
            let out = super::projector::kds_line_event(s, line_id, target, seq);
            &&& only_line_set(s, out.state, line_id, target)
            &&& out.state.cursor == s.cursor
            &&& out.error is None ==> 0 <= p < s.tickets.len() && shows_line_with(out.state.tickets, p, line_id, target)
                && out.state.tickets[p].lines == s.tickets[p].lines.update(
                    super::projector::line_pos(s.tickets[p].lines, line_id),
                    KdsLineView { status: target, ..s.tickets[p].lines[super::projector::line_pos(s.tickets[p].lines, line_id)] },
                )
                && out.state.tickets[p].status == super::projector::status_after_line(
                    s.tickets[p],
                    out.state.tickets[p].lines,
                    target,
                )
                && forall|i: int| 0 <= i < s.tickets.len() && i != p ==> #[trigger] out.state.tickets[i] == s.tickets[i]
            &&& out.error is Some ==> out.state == s
        }),
{
    let out = super::projector::kds_line_event(s, line_id, target, seq);
    if s.line_to_ticket.contains_key(line_id) {
        let key = s.line_to_ticket[line_id];
        let p = ticket_pos(s.tickets, key@);
        if p >= 0 {
            lemma_ticket_pos_from(s.tickets, key@, 0);
            let t = s.tickets[p];
            let lp = super::projector::line_pos(t.lines, line_id);
            if lp >= 0 {
                super::projector::lemma_line_pos_from(t.lines, line_id, 0);
                let after = out.state;
                assert(after.tickets[p].lines[lp].line_id == line_id);
                assert forall|i: int|
                    0 <= i < s.tickets.len() implies {
                        let a = #[trigger] after.tickets[i];
                        let b = s.tickets[i];
                        &&& a.lines.len() == b.lines.len()
                        &&& a == (KdsTicketView { lines: a.lines, status: a.status, updated_at_seq: a.updated_at_seq, ..b })
                        &&& forall|l: int|
                            0 <= l < b.lines.len() && #[trigger] a.lines[l] != b.lines[l] ==> b.lines[l].line_id == line_id
                                && a.lines[l] == (KdsLineView { status: target, ..b.lines[l] })
                    } by {
                    if i == p {
                        assert forall|l: int|
                            0 <= l < t.lines.len() && #[trigger] after.tickets[i].lines[l] != t.lines[l] implies t.lines[l].line_id
                                == line_id && after.tickets[i].lines[l] == (KdsLineView { status: target, ..t.lines[l] }) by {
                            assert(l == lp);
                        }
                    }
                }
                return p;
            }
        }
    }
    0
}

/// Starting a line marks only that line in progress, and its ticket in
/// progress only when the ticket was new or acknowledged; a line the display
/// knows is found and started.
pub proof fn law_line_started_marks_only_that_line(s: KdsStateView, e: KdsEvent, seq: u64)
    requires
        e is LineStarted,
    ensures
        ({
            let out = kds_after_kds_event(s, e, seq);
            let id = e->LineStarted_line_id;
            &&& only_line_set(s, out.state, id, super::model::KdsLineStatus::InProgress)
            &&& forall|i: int|
                0 <= i < s.tickets.len() && (#[trigger] out.state.tickets[i]).status != s.tickets[i].status
                    ==> out.state.tickets[i].status == super::model::KdsTicketStatus::InProgress && (
                    s.tickets[i].status == super::model::KdsTicketStatus::New || s.tickets[i].status
                        == super::model::KdsTicketStatus::Acknowledged)
            &&& out.error is None ==> exists|i: int|
                0 <= i < s.tickets.len() && shows_line_with(
                    out.state.tickets,
                    i,
                    id,
                    super::model::KdsLineStatus::InProgress,
                )
        }),
{
    let id = e->LineStarted_line_id;
    let s0 = KdsStateView { cursor: cursor_after(s.cursor, seq), ..s };
    let p = lemma_line_event_effect(s0, id, super::model::KdsLineStatus::InProgress, seq);
    let out = kds_after_kds_event(s, e, seq);
    if out.error is None {
        assert(shows_line_with(out.state.tickets, p, id, super::model::KdsLineStatus::InProgress));
    }
}

/// Finishing a line marks only that line done; its ticket's status changes
/// only to ready, and does so exactly when every line of the ticket is then
/// done or voided and the ticket was neither completed nor cancelled.
pub proof fn law_line_done_marks_only_that_line(s: KdsStateView, e: KdsEvent, seq: u64)
    requires
        e is LineDone,
    ensures
        ({
            let out = kds_after_kds_event(s, e, seq);
            let id = e->LineDone_line_id;
            &&& only_line_set(s, out.state, id, super::model::KdsLineStatus::Done)
            &&& forall|i: int|
                0 <= i < s.tickets.len() && (#[trigger] out.state.tickets[i]).status != s.tickets[i].status
                    ==> out.state.tickets[i].status == super::model::KdsTicketStatus::Ready
            &&& out.error is None ==> exists|i: int|
                0 <= i < s.tickets.len() && shows_line_with(
                    out.state.tickets,
                    i,
                    id,
                    super::model::KdsLineStatus::Done,
                ) && ((forall|l: int|
                    0 <= l < out.state.tickets[i].lines.len() ==> (#[trigger] out.state.tickets[i].lines[l]).status
                        == super::model::KdsLineStatus::Done || out.state.tickets[i].lines[l].status
                        == super::model::KdsLineStatus::Voided) && s.tickets[i].status
                    != super::model::KdsTicketStatus::Completed && s.tickets[i].status
                    != super::model::KdsTicketStatus::Cancelled ==> out.state.tickets[i].status
                    == super::model::KdsTicketStatus::Ready)
        }),
{
    let id = e->LineDone_line_id;
    let s0 = KdsStateView { cursor: cursor_after(s.cursor, seq), ..s };
    let p = lemma_line_event_effect(s0, id, super::model::KdsLineStatus::Done, seq);
    let out = kds_after_kds_event(s, e, seq);
    if out.error is None {
        assert(shows_line_with(out.state.tickets, p, id, super::model::KdsLineStatus::Done));
        let ls = out.state.tickets[p].lines;
        if (forall|l: int|
            0 <= l < ls.len() ==> (#[trigger] ls[l]).status == super::model::KdsLineStatus::Done
                || ls[l].status == super::model::KdsLineStatus::Voided) {
            assert(super::projector::all_lines_finished(ls));
        }
    }
}


/// Ordering an item that its station's ticket does not show yet adds a new
/// line for it, with the ordered quantity and status `New`, at the end of
/// that ticket (made when the order has none at the station), logs the
/// addition and remembers which ticket holds the item.
pub proof fn law_adding_a_new_item_adds_a_line(
    s: KdsStateView,
    e: OrderEvent,
    seq: u64,
    routing: RoutingTable,
    table: Option<&Table>,
)
    requires
        kds_wf(s),
        e matches OrderEvent::ItemAdded { order_id, order_item_id, menu_item_id, name, .. } && {
            let key = KdsTicketKeyView {
                order_id,
                station: super::routing::routed_station(routing, menu_item_id, name@)@,
            };
            let p = ticket_pos(s.tickets, key);
            p < 0 || super::projector::line_pos(s.tickets[p].lines, order_item_id.0) < 0
        },
    ensures
        ({
            let order_id = e->ItemAdded_order_id;
            let item = e->ItemAdded_order_item_id;
            let station = super::routing::routed_station(routing, e->ItemAdded_menu_item_id, e->ItemAdded_name@);
            let key = KdsTicketKeyView { order_id, station: station@ };
            let p = ticket_pos(s.tickets, key);
            let line = KdsLineView {
                line_id: item.0,
                name: e->ItemAdded_name,
                qty: e->ItemAdded_qty,
                modifiers: Seq::empty(),
                note: e->ItemAdded_notes,
                status: super::model::KdsLineStatus::New,
            };
            let before_lines = if p >= 0 { s.tickets[p].lines } else { Seq::<KdsLineView>::empty() };
            let out = kds_after_order_event(s, e, seq, routing, table);
            &&& out.error is None
            &&& out.state.tickets.len() == s.tickets.len() + if p >= 0 { 0int } else { 1int }
            &&& exists|q: int|
                0 <= q < out.state.tickets.len() && ticket_key(#[trigger] out.state.tickets[q]) == key
                    && out.state.tickets[q].lines == before_lines.push(line)
            &&& out.state.changes == s.changes.push(
                super::model::KdsChangeView {
                    seq,
                    station,
                    order_id,
                    change: super::model::KdsChangeKindView::LineAdded {
                        line_id: item.0,
                        name: e->ItemAdded_name,
                        qty: e->ItemAdded_qty,
                        modifiers: Seq::empty(),
                        note: e->ItemAdded_notes,
                    },
                },
            )
            &&& out.state.item_to_ticket == s.item_to_ticket.insert(
                item.0,
                super::model::KdsTicketKey { order_id, station },
            )
        }),
{
    let order_id = e->ItemAdded_order_id;
    let item = e->ItemAdded_order_item_id;
    let station = super::routing::routed_station(routing, e->ItemAdded_menu_item_id, e->ItemAdded_name@);
    let ekey = super::model::KdsTicketKey { order_id, station };
    let key = KdsTicketKeyView { order_id, station: station@ };
    assert(ekey@ == key);
    let s0 = KdsStateView { cursor: cursor_after(s.cursor, seq), ..s };
    lemma_ticket_pos_from(s.tickets, key, 0);
    let p = ticket_pos(s.tickets, key);
    let q = pos_with_key(s0.tickets, ekey);
    let ts = tickets_with_key(s0.tickets, ekey, e->ItemAdded_venue_id, table, seq);
    if p < 0 {
        lemma_insert_pos_exists(s.tickets, key);
        let nt = super::projector::new_ticket(ekey, e->ItemAdded_venue_id, table, seq);
        assert(ts[q] == nt);
        assert(ticket_key(nt) == key);
        super::projector::lemma_line_pos_from(super::projector::with_table(nt, table).lines, item.0, 0);
    } else {
        super::projector::lemma_line_pos_from(s.tickets[p].lines, item.0, 0);
    }
    let out = kds_after_order_event(s, e, seq, routing, table);
    assert(ticket_key(out.state.tickets[q]) == key);
}


/// Closing an order completes each of its tickets (a cancelled one stays
/// cancelled) and leaves every other ticket, every line, the maps and the
/// change log alone; it is never refused.
pub proof fn law_order_close_completes_its_tickets(
    s: KdsStateView,
    e: OrderEvent,
    seq: u64,
    routing: RoutingTable,
    table: Option<&Table>,
)
    requires
        e is OrderClosed,
    ensures
        ({
            let out = kds_after_order_event(s, e, seq, routing, table);
            let order_id = e->OrderClosed_order_id;
            &&& out.error is None
            &&& out.state.tickets.len() == s.tickets.len()
            &&& forall|i: int|
                0 <= i < s.tickets.len() ==> {
                    let a = #[trigger] out.state.tickets[i];
                    let b = s.tickets[i];
                    &&& a.lines == b.lines
                    &&& b.order_id != order_id ==> a == b
                    &&& b.order_id == order_id ==> a.status == if b.status
                        == super::model::KdsTicketStatus::Cancelled {
                        super::model::KdsTicketStatus::Cancelled
                    } else {
                        super::model::KdsTicketStatus::Completed
                    }
                }
            &&& out.state.changes == s.changes
            &&& out.state.item_to_ticket == s.item_to_ticket
            &&& out.state.line_to_ticket == s.line_to_ticket
        }),
{
}


/// Removing an item that the display shows voids its line (keeping its
/// quantity) and logs the void with that quantity; a line already voided is
/// left as it is and nothing is logged. No ticket or other line changes.
pub proof fn law_removing_an_item_voids_its_line(
    s: KdsStateView,
    e: OrderEvent,
    seq: u64,
    routing: RoutingTable,
    table: Option<&Table>,
)
    requires
        e matches OrderEvent::ItemRemoved { order_item_id, .. } && s.item_to_ticket.contains_key(
            order_item_id.0,
        ) && ticket_pos(s.tickets, s.item_to_ticket[order_item_id.0]@) >= 0
            && super::projector::line_pos(
            s.tickets[ticket_pos(s.tickets, s.item_to_ticket[order_item_id.0]@)].lines,
            order_item_id.0,
        ) >= 0,
    ensures
        ({
            let item = e->ItemRemoved_order_item_id;
            let p = ticket_pos(s.tickets, s.item_to_ticket[item.0]@);
            let lp = super::projector::line_pos(s.tickets[p].lines, item.0);
            let l = s.tickets[p].lines[lp];
            let out = kds_after_order_event(s, e, seq, routing, table);
            &&& out.error is None
            &&& out.state.tickets.len() == s.tickets.len()
            &&& forall|i: int| 0 <= i < s.tickets.len() && i != p ==> #[trigger] out.state.tickets[i] == s.tickets[i]
            &&& out.state.tickets[p].lines == s.tickets[p].lines.update(
                lp,
                KdsLineView { status: super::model::KdsLineStatus::Voided, ..l },
            )
            &&& l.status == super::model::KdsLineStatus::Voided ==> out.state.changes == s.changes
            &&& l.status != super::model::KdsLineStatus::Voided ==> (out.state.changes.len() == s.changes.len() + 1
                && (out.state.changes.last() matches super::model::KdsChangeView {
                change: super::model::KdsChangeKindView::LineVoided { line_id, qty, .. },
                ..
            } && line_id == item.0 && qty == l.qty))
        }),
{
    let item = e->ItemRemoved_order_item_id;
    let key = s.item_to_ticket[item.0]@;
    lemma_ticket_pos_from(s.tickets, key, 0);
    let p = ticket_pos(s.tickets, key);
    super::projector::lemma_line_pos_from(s.tickets[p].lines, item.0, 0);
    let lp = super::projector::line_pos(s.tickets[p].lines, item.0);
    let l = s.tickets[p].lines[lp];
    if l.status == super::model::KdsLineStatus::Voided {
        assert(s.tickets[p].lines.update(lp, KdsLineView { status: super::model::KdsLineStatus::Voided, ..l })
            =~= s.tickets[p].lines);
    }
}


/// The status a ticket event sets: acknowledging gives `Acknowledged`,
/// bumping `Completed`, recalling `InProgress`.
pub open spec fn ticket_event_status(e: KdsEvent) -> super::model::KdsTicketStatus {
    match e {
        KdsEvent::TicketAcknowledged { .. } => super::model::KdsTicketStatus::Acknowledged,
        KdsEvent::TicketBumped { .. } => super::model::KdsTicketStatus::Completed,
        _ => super::model::KdsTicketStatus::InProgress,
    }
}

/// Acknowledging, bumping or recalling a ticket sets the status of the
/// ticket of that order at that station, whatever it was, and touches
/// nothing else; with no such ticket the event is refused and only the
/// cursor moves.
pub proof fn law_ticket_events_set_the_ticket_status(s: KdsStateView, e: KdsEvent, seq: u64)
    requires
        e is TicketAcknowledged || e is TicketBumped || e is TicketRecalled,
    ensures
        ({
            let (station, order_id) = match e {
                KdsEvent::TicketAcknowledged { station, order_id, .. } => (station, order_id),
                KdsEvent::TicketBumped { station, order_id, .. } => (station, order_id),
                KdsEvent::TicketRecalled { station, order_id, .. } => (station, order_id),
                _ => (arbitrary(), arbitrary()),
            };
            let key = KdsTicketKeyView { order_id, station: station@ };
            let p = ticket_pos(s.tickets, key);
            let out = kds_after_kds_event(s, e, seq);
            &&& out.state.tickets.len() == s.tickets.len()
            &&& out.state.changes == s.changes
            &&& out.state.item_to_ticket == s.item_to_ticket
            &&& out.state.line_to_ticket == s.line_to_ticket
            &&& (out.error is None <==> p >= 0)
            &&& p < 0 ==> out.state.tickets == s.tickets
            &&& p >= 0 ==> out.state.tickets[p] == (KdsTicketView {
                status: ticket_event_status(e),
                updated_at_seq: seq,
                ..s.tickets[p]
            }) && forall|i: int| 0 <= i < s.tickets.len() && i != p ==> #[trigger] out.state.tickets[i] == s.tickets[i]
        }),
{
    let (station, order_id) = match e {
        KdsEvent::TicketAcknowledged { station, order_id, .. } => (station, order_id),
        KdsEvent::TicketBumped { station, order_id, .. } => (station, order_id),
        KdsEvent::TicketRecalled { station, order_id, .. } => (station, order_id),
        _ => (arbitrary(), arbitrary()),
    };
    lemma_ticket_pos_from(s.tickets, KdsTicketKeyView { order_id, station: station@ }, 0);
}

} // verus!
